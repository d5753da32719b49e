//! Lexical primitives: whitespace, identifiers, literal words and comparator
//! tokens.

use vstd::prelude::*;
use vstd::string::StrSliceExecFns;

use crate::pep_508::Comparator;

verus! {

/// Space or tab: the only characters skipped between tokens.
pub open spec fn is_ws(c: char) -> bool {
    c == ' ' || c == '\t'
}

/// An ASCII digit.
pub open spec fn is_digit(c: char) -> bool {
    '0' <= c && c <= '9'
}

/// An ASCII letter.
pub open spec fn is_alpha(c: char) -> bool {
    ('a' <= c && c <= 'z') || ('A' <= c && c <= 'Z')
}

/// An ASCII letter or digit.
pub open spec fn is_alnum(c: char) -> bool {
    is_digit(c) || is_alpha(c)
}

/// A separator inside an identifier.
pub open spec fn is_ident_sep(c: char) -> bool {
    c == '-' || c == '_' || c == '.'
}

/// The character `c` stands at position `i`.
pub open spec fn has(s: Seq<char>, i: int, c: char) -> bool {
    0 <= i < s.len() && s[i] == c
}

/// The word `word` stands at position `i`.
pub open spec fn lit(s: Seq<char>, i: int, word: Seq<char>) -> bool {
    0 <= i && i + word.len() <= s.len() && s.subrange(i, i + word.len()) == word
}

/// A position that an executable parser hands back, as a mathematical integer.
pub open spec fn as_pos(r: Option<usize>) -> Option<int> {
    match r {
        Some(j) => Some(j as int),
        None => None,
    }
}

/// The position of the first character at or after `i` that is not whitespace.
pub open spec fn ws_end(s: Seq<char>, i: int) -> int
    decreases s.len() - i,
{
    if 0 <= i < s.len() && is_ws(s[i]) {
        ws_end(s, i + 1)
    } else {
        i
    }
}

/// Where the groups of an optional separator and an alphanumeric stop that
/// may follow the first character of an identifier. A separator that no
/// alphanumeric follows is not taken.
pub open spec fn ident_tail_end(s: Seq<char>, i: int) -> int
    decreases s.len() - i,
{
    if 0 <= i < s.len() && is_alnum(s[i]) {
        ident_tail_end(s, i + 1)
    } else if 0 <= i && i + 1 < s.len() && is_ident_sep(s[i]) && is_alnum(s[i + 1]) {
        ident_tail_end(s, i + 2)
    } else {
        i
    }
}

/// The end of the identifier that starts at `i`, if one does: an alphanumeric
/// and then as many groups as can be taken.
pub open spec fn ident_end(s: Seq<char>, i: int) -> Option<int> {
    if 0 <= i < s.len() && is_alnum(s[i]) {
        Some(ident_tail_end(s, i + 1))
    } else {
        None
    }
}

/// The comparator token at `i` and where it ends. The tokens are tried in
/// the order `===`, `<=`, `!=`, `==`, `>=`, `~=`, `<`, `>`, so the longest
/// token at a position wins.
pub open spec fn comparator_at(s: Seq<char>, i: int) -> Option<(Comparator, int)> {
    if has(s, i, '=') && has(s, i + 1, '=') && has(s, i + 2, '=') {
        Some((Comparator::Ae, i + 3))
    } else if has(s, i, '<') && has(s, i + 1, '=') {
        Some((Comparator::Le, i + 2))
    } else if has(s, i, '!') && has(s, i + 1, '=') {
        Some((Comparator::Ne, i + 2))
    } else if has(s, i, '=') && has(s, i + 1, '=') {
        Some((Comparator::Eq, i + 2))
    } else if has(s, i, '>') && has(s, i + 1, '=') {
        Some((Comparator::Ge, i + 2))
    } else if has(s, i, '~') && has(s, i + 1, '=') {
        Some((Comparator::Cp, i + 2))
    } else if has(s, i, '<') {
        Some((Comparator::Lt, i + 1))
    } else if has(s, i, '>') {
        Some((Comparator::Gt, i + 1))
    } else {
        None
    }
}

/// Whitespace is skipped forwards, and never past the end of the input.
pub proof fn lemma_ws_end_bounds(s: Seq<char>, i: int)
    requires
        0 <= i <= s.len(),
    ensures
        i <= ws_end(s, i) <= s.len(),
    decreases s.len() - i,
{
    if i < s.len() && is_ws(s[i]) {
        lemma_ws_end_bounds(s, i + 1);
    }
}

/// An identifier tail ends between its start and the end of the input.
pub proof fn lemma_ident_tail_bounds(s: Seq<char>, i: int)
    requires
        0 <= i <= s.len(),
    ensures
        i <= ident_tail_end(s, i) <= s.len(),
    decreases s.len() - i,
{
    if i < s.len() && is_alnum(s[i]) {
        lemma_ident_tail_bounds(s, i + 1);
    } else if i + 1 < s.len() && is_ident_sep(s[i]) && is_alnum(s[i + 1]) {
        lemma_ident_tail_bounds(s, i + 2);
    }
}

/// Tells whether `c` is an ASCII digit.
pub fn digit(c: char) -> (b: bool)
    ensures
        b == is_digit(c),
{
    '0' <= c && c <= '9'
}

/// Tells whether `c` is an ASCII letter.
pub fn alpha(c: char) -> (b: bool)
    ensures
        b == is_alpha(c),
{
    ('a' <= c && c <= 'z') || ('A' <= c && c <= 'Z')
}

/// Tells whether `c` is an ASCII letter or digit.
pub fn alnum(c: char) -> (b: bool)
    ensures
        b == is_alnum(c),
{
    digit(c) || alpha(c)
}

/// Tells whether `c` stands at position `i`; `i` may lie past the end.
pub fn at(s: &[char], i: usize, c: char) -> (b: bool)
    ensures
        b == has(s@, i as int, c),
        b ==> i < usize::MAX,
{
    i < s.len() && s[i] == c
}

/// Tells whether `word` stands at position `i`.
pub fn at_word(s: &[char], i: usize, word: &str) -> (b: bool)
    requires
        i <= s@.len(),
    ensures
        b == lit(s@, i as int, word@),
{
    let n: usize = word.unicode_len();
    if n > s.len() - i {
        return false;
    }
    let mut k: usize = 0;
    while k < n
        invariant
            k <= n,
            n == word@.len(),
            i + n <= s@.len() <= usize::MAX,
            forall|j: int| 0 <= j < k ==> s@[i + j] == word@[j],
        decreases n - k,
    {
        if s[i + k] != word.get_char(k) {
            assert(s@.subrange(i as int, i + n)[k as int] != word@[k as int]);
            return false;
        }
        k = k + 1;
    }
    assert(s@.subrange(i as int, i + n) =~= word@);
    true
}

/// Skips the whitespace at `i`.
pub fn skip_ws(s: &[char], i: usize) -> (j: usize)
    requires
        i <= s@.len(),
    ensures
        j == ws_end(s@, i as int),
        i <= j <= s@.len(),
{
    let mut j: usize = i;
    while j < s.len() && (s[j] == ' ' || s[j] == '\t')
        invariant
            i <= j <= s@.len(),
            ws_end(s@, i as int) == ws_end(s@, j as int),
        decreases s@.len() - j,
    {
        j = j + 1;
    }
    j
}

/// Reads the identifier at `i` and returns where it ends.
pub fn ident(s: &[char], i: usize) -> (r: Option<usize>)
    requires
        i <= s@.len(),
    ensures
        as_pos(r) == ident_end(s@, i as int),
        r matches Some(j) ==> i < j <= s@.len(),
{
    if i < s.len() && alnum(s[i]) {
        let mut j: usize = i + 1;
        loop
            invariant
                i < j <= s@.len(),
                ident_tail_end(s@, i + 1) == ident_tail_end(s@, j as int),
            ensures
                i < j <= s@.len(),
                j == ident_tail_end(s@, i + 1),
            decreases s@.len() - j,
        {
            if j < s.len() && alnum(s[j]) {
                j = j + 1;
            } else if j < s.len() && s.len() - j > 1 && (s[j] == '-' || s[j] == '_' || s[j]
                == '.') && alnum(s[j + 1]) {
                j = j + 2;
            } else {
                break;
            }
        }
        Some(j)
    } else {
        None
    }
}

/// Reads the comparator token at `i`.
pub fn comparator(s: &[char], i: usize) -> (r: Option<(Comparator, usize)>)
    requires
        i <= s@.len(),
    ensures
        match r {
            Some((c, j)) => comparator_at(s@, i as int) == Some((c, j as int)) && i < j
                <= s@.len(),
            None => comparator_at(s@, i as int) is None,
        },
{
    if i >= s.len() {
        return None;
    }
    let second: bool = at(s, i + 1, '=');
    let c: char = s[i];
    if c == '=' && second && s.len() - i > 2 && s[i + 2] == '=' {
        Some((Comparator::Ae, i + 3))
    } else if c == '<' && second {
        Some((Comparator::Le, i + 2))
    } else if c == '!' && second {
        Some((Comparator::Ne, i + 2))
    } else if c == '=' && second {
        Some((Comparator::Eq, i + 2))
    } else if c == '>' && second {
        Some((Comparator::Ge, i + 2))
    } else if c == '~' && second {
        Some((Comparator::Cp, i + 2))
    } else if c == '<' {
        Some((Comparator::Lt, i + 1))
    } else if c == '>' {
        Some((Comparator::Gt, i + 1))
    } else {
        None
    }
}

} // verus!
