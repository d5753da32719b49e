//! Cutting texts apart: trimming, splitting at a character, and taking
//! characters and words out.

use vstd::prelude::*;
use vstd::string::{StrSliceExecFns, StringExecFns};

use crate::pep_508::lexer::{at_word, lit};

verus! {

/// The slices of a vector, each by its characters.
pub open spec fn names_view<'a>(names: Seq<&'a str>) -> Seq<Seq<char>> {
    Seq::new(names.len(), |k: int| names[k]@)
}

/// The texts of a vector, each by its characters.
pub open spec fn texts_view(texts: Seq<String>) -> Seq<Seq<char>> {
    Seq::new(texts.len(), |k: int| texts[k]@)
}

/// The last characters of `name` are those of `ending`.
pub open spec fn ends_with(name: Seq<char>, ending: Seq<char>) -> bool {
    name.len() >= ending.len() && name.subrange(name.len() - ending.len(), name.len() as int)
        == ending
}

/// The characters with the Unicode property `White_Space`.
pub open spec fn is_white_space(c: char) -> bool {
    ('\u{9}' <= c && c <= '\u{d}') || c == ' ' || c == '\u{85}' || c == '\u{a0}' || c
        == '\u{1680}' || ('\u{2000}' <= c && c <= '\u{200a}') || c == '\u{2028}' || c
        == '\u{2029}' || c == '\u{202f}' || c == '\u{205f}' || c == '\u{3000}'
}

/// The position of the first character at or after `i` that is not white
/// space.
pub open spec fn lead_end(s: Seq<char>, i: int) -> int
    decreases s.len() - i,
{
    if 0 <= i < s.len() && is_white_space(s[i]) {
        lead_end(s, i + 1)
    } else {
        i
    }
}

/// The position behind the last character in front of `j` that is not
/// white space.
pub open spec fn trail_start(s: Seq<char>, j: int) -> int
    decreases j,
{
    if 0 < j <= s.len() && is_white_space(s[j - 1]) {
        trail_start(s, j - 1)
    } else {
        j
    }
}

/// `s` without the white space at its start and at its end.
pub open spec fn trimmed(s: Seq<char>) -> Seq<char> {
    let from = lead_end(s, 0);
    if from >= s.len() {
        Seq::empty()
    } else {
        s.subrange(from, trail_start(s, s.len() as int))
    }
}

/// The position of the first `c` at or after `from`, or the length of `s`
/// where there is none.
pub open spec fn first_index(s: Seq<char>, c: char, from: int) -> int
    decreases s.len() - from,
{
    if from < 0 || from >= s.len() {
        s.len() as int
    } else if s[from] == c {
        from
    } else {
        first_index(s, c, from + 1)
    }
}

/// The pieces into which the characters `sep` cut what stands in `s` from
/// `from` on. There is one piece more than there are separators; a piece
/// may be empty.
pub open spec fn pieces(s: Seq<char>, sep: char, from: int) -> Seq<Seq<char>>
    decreases s.len() - from,
{
    let stop = first_index(s, sep, from);
    if from < 0 || from > s.len() {
        Seq::empty()
    } else if stop >= s.len() {
        seq![s.subrange(from, s.len() as int)]
    } else if stop < from {
        Seq::empty()
    } else {
        seq![s.subrange(from, stop)] + pieces(s, sep, stop + 1)
    }
}

/// `s` without the characters `a`.
pub open spec fn without(s: Seq<char>, a: char) -> Seq<char>
    decreases s.len(),
{
    if s.len() == 0 {
        s
    } else if s.last() == a {
        without(s.drop_last(), a)
    } else {
        without(s.drop_last(), a).push(s.last())
    }
}

/// The position of the first place at or after `from` where `word` stands,
/// or the length of `s` where it stands nowhere.
pub open spec fn first_place(s: Seq<char>, word: Seq<char>, from: int) -> int
    decreases s.len() - from,
{
    if from < 0 || from >= s.len() {
        s.len() as int
    } else if lit(s, from, word) {
        from
    } else {
        first_place(s, word, from + 1)
    }
}

/// `s` without the first `word` in it.
pub open spec fn without_first(s: Seq<char>, word: Seq<char>) -> Seq<char> {
    let at = first_place(s, word, 0);
    if at >= s.len() {
        s
    } else {
        s.subrange(0, at) + s.subrange(at + word.len(), s.len() as int)
    }
}

/// The first `c` is found between the start of the search and the end of
/// the text.
pub proof fn lemma_first_index_bounds(s: Seq<char>, c: char, from: int)
    requires
        0 <= from <= s.len(),
    ensures
        from <= first_index(s, c, from) <= s.len(),
    decreases s.len() - from,
{
    if from < s.len() && s[from] != c {
        lemma_first_index_bounds(s, c, from + 1);
    }
}

/// Tells whether `c` is white space.
pub fn white_space(c: char) -> (b: bool)
    ensures
        b == is_white_space(c),
{
    ('\u{9}' <= c && c <= '\u{d}') || c == ' ' || c == '\u{85}' || c == '\u{a0}' || c
        == '\u{1680}' || ('\u{2000}' <= c && c <= '\u{200a}') || c == '\u{2028}' || c
        == '\u{2029}' || c == '\u{202f}' || c == '\u{205f}' || c == '\u{3000}'
}

/// Takes the white space off both ends of `text`.
pub fn trim<'a>(text: &'a str) -> (r: &'a str)
    ensures
        r@ == trimmed(text@),
{
    let chars = to_chars(text);
    let mut from: usize = 0;
    while from < chars.len() && white_space(chars[from])
        invariant
            from <= chars@.len(),
            lead_end(chars@, 0) == lead_end(chars@, from as int),
        decreases chars@.len() - from,
    {
        from = from + 1;
    }
    if from >= chars.len() {
        return text.substring_char(0, 0);
    }
    let mut to: usize = chars.len();
    while to > 0 && white_space(chars[to - 1])
        invariant
            to <= chars@.len(),
            trail_start(chars@, chars@.len() as int) == trail_start(chars@, to as int),
        decreases to,
    {
        to = to - 1;
    }
    assert(from <= to) by {
        lemma_trail_behind(chars@, from as int, chars@.len() as int);
    }
    text.substring_char(from, to)
}

/// The white space at the end does not reach in front of a character that
/// is none.
proof fn lemma_trail_behind(s: Seq<char>, k: int, j: int)
    requires
        0 <= k < j <= s.len(),
        !is_white_space(s[k]),
    ensures
        k < trail_start(s, j),
    decreases j,
{
    if is_white_space(s[j - 1]) {
        lemma_trail_behind(s, k, j - 1);
    }
}

/// Cuts `text` at each character `sep`.
pub fn split<'a>(text: &'a str, sep: char) -> (r: Vec<&'a str>)
    ensures
        names_view(r@) == pieces(text@, sep, 0),
{
    let chars = to_chars(text);
    let mut r: Vec<&'a str> = Vec::new();
    let mut from: usize = 0;
    assert(names_view(r@) + pieces(chars@, sep, 0) =~= pieces(chars@, sep, 0));
    loop
        invariant_except_break
            from <= chars@.len(),
            names_view(r@) + pieces(chars@, sep, from as int) == pieces(
                chars@,
                sep,
                0,
            ),
        invariant
            chars@ == text@,
        ensures
            names_view(r@) == pieces(chars@, sep, 0),
            chars@ == text@,
        decreases chars@.len() - from,
    {
        let mut stop: usize = from;
        while stop < chars.len() && chars[stop] != sep
            invariant
                from <= stop <= chars@.len(),
                first_index(chars@, sep, from as int) == first_index(chars@, sep, stop as int),
            decreases chars@.len() - stop,
        {
            stop = stop + 1;
        }
        let ghost before = names_view(r@);
        let piece = text.substring_char(from, stop);
        r.push(piece);
        assert(names_view(r@) =~= before + seq![piece@]);
        if stop >= chars.len() {
            break;
        }
        assert(before + (seq![piece@] + pieces(chars@, sep, stop + 1)) =~= (before + seq![
            piece@,
        ]) + pieces(chars@, sep, stop + 1));
        from = stop + 1;
    }
    r
}

/// Takes every character `a` out of `text`.
pub fn remove(text: &str, a: char) -> (r: String)
    ensures
        r@ == without(text@, a),
{
    let chars = to_chars(text);
    let mut r = String::new();
    let mut k: usize = 0;
    assert(chars@.take(0) =~= Seq::<char>::empty());
    while k < chars.len()
        invariant
            k <= chars@.len(),
            chars@ == text@,
            r@ == without(chars@.take(k as int), a),
        decreases chars@.len() - k,
    {
        assert(chars@.take(k + 1).drop_last() =~= chars@.take(k as int));
        if chars[k] != a {
            let one = text.substring_char(k, k + 1);
            assert(one@ =~= seq![chars@[k as int]]);
            r.append(one);
            assert(r@ =~= without(chars@.take(k as int), a).push(chars@[k as int]));
        }
        k = k + 1;
    }
    assert(chars@.take(k as int) =~= chars@);
    r
}

/// Takes the first `word` out of `text`.
pub fn remove_first(text: &str, word: &str) -> (r: String)
    ensures
        r@ == without_first(text@, word@),
{
    let chars = to_chars(text);
    let s = chars.as_slice();
    let mut at: usize = 0;
    while at < s.len() && !at_word(s, at, word)
        invariant
            at <= s@.len(),
            first_place(s@, word@, 0) == first_place(s@, word@, at as int),
        decreases s@.len() - at,
    {
        at = at + 1;
    }
    if at >= s.len() {
        assert(text@.subrange(0, text@.len() as int) =~= text@);
        return String::from_str(text.substring_char(0, s.len()));
    }
    let behind: usize = at + word.unicode_len();
    String::from_str(text.substring_char(0, at)).concat(text.substring_char(behind, s.len()))
}

/// A piece of a text in front of a line feed, as the line it is: without
/// the carriage return at its end, if one stands there.
pub open spec fn line_of(piece: Seq<char>) -> Seq<char> {
    if piece.len() > 0 && piece.last() == '\r' {
        piece.drop_last()
    } else {
        piece
    }
}

/// The first `n` pieces of a text cut at its line feeds, as lines. The
/// last piece has no line feed behind it: it is a line as it stands, and no
/// line where it is empty.
pub open spec fn lines_among(parts: Seq<Seq<char>>, n: int) -> Seq<Seq<char>>
    decreases n,
{
    if n <= 0 || n > parts.len() {
        Seq::empty()
    } else if n < parts.len() {
        lines_among(parts, n - 1).push(line_of(parts[n - 1]))
    } else if parts[n - 1].len() == 0 {
        lines_among(parts, n - 1)
    } else {
        lines_among(parts, n - 1).push(parts[n - 1])
    }
}

/// The lines of a text. A line ends with a line feed, or with a carriage
/// return and a line feed; the last line may end with the text.
pub open spec fn lines_of(s: Seq<char>) -> Seq<Seq<char>> {
    lines_among(pieces(s, '\n', 0), pieces(s, '\n', 0).len() as int)
}

/// The position of the first white space at or after `i`, or the length
/// of `s` where there is none.
pub open spec fn word_end(s: Seq<char>, i: int) -> int
    decreases s.len() - i,
{
    if 0 <= i < s.len() && !is_white_space(s[i]) {
        word_end(s, i + 1)
    } else {
        i
    }
}

/// Cuts `text` into its lines.
pub fn lines<'a>(text: &'a str) -> (r: Vec<&'a str>)
    ensures
        names_view(r@) == lines_of(text@),
{
    let parts = split(text, '\n');
    let ghost views = names_view(parts@);
    let mut r: Vec<&'a str> = Vec::new();
    let mut k: usize = 0;
    assert(names_view(r@) =~= lines_among(views, 0));
    while k < parts.len()
        invariant
            k <= parts@.len(),
            views == names_view(parts@),
            names_view(r@) == lines_among(views, k as int),
        decreases parts@.len() - k,
    {
        let piece: &'a str = parts[k];
        let n: usize = piece.unicode_len();
        let ghost so_far = names_view(r@);
        if k + 1 < parts.len() {
            let line: &'a str = if n > 0 && piece.get_char(n - 1) == '\r' {
                piece.substring_char(0, n - 1)
            } else {
                piece
            };
            assert(line@ =~= line_of(piece@));
            r.push(line);
            assert(names_view(r@) =~= so_far.push(line_of(views[k as int])));
        } else if n > 0 {
            r.push(piece);
            assert(names_view(r@) =~= so_far.push(views[k as int]));
        }
        k = k + 1;
    }
    r
}

/// Tells whether `text` starts with `word`.
pub fn starts_with(text: &str, word: &str) -> (b: bool)
    ensures
        b == lit(text@, 0, word@),
{
    let chars = to_chars(text);
    at_word(chars.as_slice(), 0, word)
}

/// Reads the word that starts at or behind `from`: skips white space, and
/// takes what stands in front of the next white space.
pub fn word<'a>(text: &'a str, from: usize) -> (r: (&'a str, usize))
    requires
        from <= text@.len(),
    ensures
        r.0@ == text@.subrange(
            lead_end(text@, from as int),
            word_end(text@, lead_end(text@, from as int)),
        ),
        r.1 == word_end(text@, lead_end(text@, from as int)),
        from <= lead_end(text@, from as int) <= r.1 <= text@.len(),
{
    let chars = to_chars(text);
    let mut start: usize = from;
    while start < chars.len() && white_space(chars[start])
        invariant
            from <= start <= chars@.len(),
            lead_end(chars@, from as int) == lead_end(chars@, start as int),
        decreases chars@.len() - start,
    {
        start = start + 1;
    }
    let mut end: usize = start;
    while end < chars.len() && !white_space(chars[end])
        invariant
            start <= end <= chars@.len(),
            word_end(chars@, start as int) == word_end(chars@, end as int),
        decreases chars@.len() - end,
    {
        end = end + 1;
    }
    (text.substring_char(start, end), end)
}

/// The characters of a string, in order.
pub fn to_chars(text: &str) -> (v: Vec<char>)
    ensures
        v@ == text@,
{
    let mut v: Vec<char> = Vec::new();
    for c in it: text.chars()
        invariant
            it.seq() == text@,
            v@ =~= text@.take(it.index() as int),
    {
        v.push(c);
    }
    assert(v@ =~= text@);
    v
}

/// Tells whether two texts hold the same characters.
pub fn same_text(a: &str, b: &str) -> (same: bool)
    ensures
        same == (a@ == b@),
{
    let x = to_chars(a);
    let y = to_chars(b);
    if x.len() != y.len() {
        return false;
    }
    let mut k: usize = 0;
    while k < x.len()
        invariant
            k <= x@.len(),
            x@.len() == y@.len(),
            x@ == a@,
            y@ == b@,
            forall|j: int| 0 <= j < k ==> x@[j] == y@[j],
        decreases x@.len() - k,
    {
        if x[k] != y[k] {
            return false;
        }
        k = k + 1;
    }
    assert(x@ =~= y@);
    true
}

/// Tells whether `name` ends with `ending`.
pub fn has_ending(name: &str, ending: &str) -> (b: bool)
    ensures
        b == ends_with(name@, ending@),
{
    let x = to_chars(name);
    let y = to_chars(ending);
    if x.len() < y.len() {
        return false;
    }
    let from: usize = x.len() - y.len();
    let mut k: usize = 0;
    while k < y.len()
        invariant
            k <= y@.len(),
            from + y@.len() == x@.len() <= usize::MAX,
            x@ == name@,
            y@ == ending@,
            forall|j: int| 0 <= j < k ==> x@[from + j] == y@[j],
        decreases y@.len() - k,
    {
        if x[from + k] != y[k] {
            assert(x@.subrange(from as int, x@.len() as int)[k as int] != y@[k as int]);
            return false;
        }
        k = k + 1;
    }
    assert(x@.subrange(from as int, x@.len() as int) =~= y@);
    true
}

} // verus!
