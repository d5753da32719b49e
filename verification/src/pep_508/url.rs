//! The URI grammar of direct references (`name @ https://...`).
//!
//! A URI is recognised as one slice and not taken apart. It is an absolute
//! URI (`scheme ':' hier-part`) or a relative reference, each with an
//! optional query and fragment. The rules and their names follow RFC 3986.
//!
//! Every rule is a spec function of a sequence `t` and a position `i` that
//! gives the position where the rule stops, or `None` where it does not
//! match. Alternatives are ordered and repetitions are greedy, so each rule
//! has one result.

use vstd::prelude::*;
use vstd::slice::slice_subrange;
use vstd::string::StrSliceExecFns;

use crate::pep_508::{parsed_url, reports, Expected, ParseError};
use crate::pep_508::lexer::{alnum, alpha, as_pos, at, digit, has, is_alnum, is_alpha, is_digit};
use crate::text::to_chars;

verus! {

/// The character classes whose runs the grammar takes.
#[derive(Clone, Copy, Debug, PartialEq, Eq)]
pub enum CharSet {
    /// What may follow the first letter of a scheme: letters, digits, `+`,
    /// `-` and `.`.
    Scheme,
    /// Decimal digits, as in a port.
    Digits,
    /// Hexadecimal digits.
    Hex,
    /// The tail of an IPvFuture literal: unreserved, sub-delims and `:`.
    Future,
    /// A registered name: unreserved, sub-delims and percent-encoded.
    RegName,
    /// User information: as a registered name, and `:`.
    UserInfo,
    /// A path character: as a registered name, and `:` and `@`.
    Pchar,
    /// The first segment of a relative path: as a registered name, and `@`.
    NoColon,
    /// Query and fragment: a path character, `/` or `?`.
    Query,
}

/// A hexadecimal digit.
pub open spec fn is_hex(c: char) -> bool {
    is_digit(c) || ('a' <= c && c <= 'f') || ('A' <= c && c <= 'F')
}

/// The unreserved characters and the sub-delims of RFC 3986.
pub open spec fn is_unreserved_or_sub_delim(c: char) -> bool {
    is_alnum(c) || c == '-' || c == '.' || c == '_' || c == '~' || c == '!' || c == '$' || c
        == '&' || c == '\'' || c == '(' || c == ')' || c == '*' || c == '+' || c == ',' || c
        == ';' || c == '='
}

/// Any character that some rule of the URI grammar can take.
pub open spec fn is_uri_char(c: char) -> bool {
    is_unreserved_or_sub_delim(c) || c == ':' || c == '@' || c == '/' || c == '?' || c == '#'
        || c == '[' || c == ']' || c == '%'
}

/// The characters of a class, percent-encoding left aside.
pub open spec fn in_set(set: CharSet, c: char) -> bool {
    match set {
        CharSet::Scheme => is_alnum(c) || c == '+' || c == '-' || c == '.',
        CharSet::Digits => is_digit(c),
        CharSet::Hex => is_hex(c),
        CharSet::Future => is_unreserved_or_sub_delim(c) || c == ':',
        CharSet::RegName => is_unreserved_or_sub_delim(c),
        CharSet::UserInfo => is_unreserved_or_sub_delim(c) || c == ':',
        CharSet::Pchar => is_unreserved_or_sub_delim(c) || c == ':' || c == '@',
        CharSet::NoColon => is_unreserved_or_sub_delim(c) || c == '@',
        CharSet::Query => is_unreserved_or_sub_delim(c) || c == ':' || c == '@' || c == '/'
            || c == '?',
    }
}

/// The classes in which a percent-encoded octet may stand.
pub open spec fn allows_percent(set: CharSet) -> bool {
    match set {
        CharSet::Scheme | CharSet::Digits | CharSet::Hex | CharSet::Future => false,
        _ => true,
    }
}

/// A character of the class `lo..=hi` stands at `i`.
pub open spec fn between(t: Seq<char>, i: int, lo: char, hi: char) -> bool {
    0 <= i < t.len() && lo <= t[i] && t[i] <= hi
}

/// A hexadecimal digit stands at `i`.
pub open spec fn hex_at(t: Seq<char>, i: int) -> bool {
    0 <= i < t.len() && is_hex(t[i])
}

/// A `%` stands at `i` and two hexadecimal digits follow it. The rule looks
/// at the digits and takes the `%` alone; the digits are then taken as
/// ordinary characters.
pub open spec fn percent_at(t: Seq<char>, i: int) -> bool {
    has(t, i, '%') && hex_at(t, i + 1) && hex_at(t, i + 2)
}

/// One character of the class can be taken at `i`.
pub open spec fn takes(t: Seq<char>, i: int, set: CharSet) -> bool {
    (allows_percent(set) && percent_at(t, i)) || (0 <= i < t.len() && in_set(set, t[i]))
}

/// Where the run of characters of the class that starts at `i` ends.
pub open spec fn run_end(t: Seq<char>, i: int, set: CharSet) -> int
    decreases t.len() - i,
{
    if takes(t, i, set) {
        run_end(t, i + 1, set)
    } else {
        i
    }
}

/// `dec-octet`: a number from 0 to 255 without a leading zero. The forms
/// are tried in the order `1dd`, `2dd` up to 255, `dd`, `d`.
pub open spec fn octet_end(t: Seq<char>, i: int) -> Option<int> {
    if has(t, i, '1') && between(t, i + 1, '0', '9') && between(t, i + 2, '0', '9') {
        Some(i + 3)
    } else if has(t, i, '2') && ((between(t, i + 1, '0', '4') && between(t, i + 2, '0', '9'))
        || (has(t, i + 1, '5') && between(t, i + 2, '0', '5'))) {
        Some(i + 3)
    } else if between(t, i, '1', '9') && between(t, i + 1, '0', '9') {
        Some(i + 2)
    } else if between(t, i, '0', '9') {
        Some(i + 1)
    } else {
        None
    }
}

/// The position behind `c`, where `c` stands at the position `r`.
pub open spec fn then_char(t: Seq<char>, r: Option<int>, c: char) -> Option<int> {
    match r {
        Some(j) => if has(t, j, c) {
            Some(j + 1)
        } else {
            None
        },
        None => None,
    }
}

/// `dec-octet`, where `r` is a position.
pub open spec fn then_octet(t: Seq<char>, r: Option<int>) -> Option<int> {
    match r {
        Some(j) => octet_end(t, j),
        None => None,
    }
}

/// `IPv4address`: four octets with dots between them.
pub open spec fn ipv4_end(t: Seq<char>, i: int) -> Option<int> {
    let first = octet_end(t, i);
    let second = then_octet(t, then_char(t, first, '.'));
    let third = then_octet(t, then_char(t, second, '.'));
    then_octet(t, then_char(t, third, '.'))
}

/// `h16`: one to four hexadecimal digits, as many as stand there.
pub open spec fn h16_end(t: Seq<char>, i: int) -> Option<int> {
    if !hex_at(t, i) {
        None
    } else if !hex_at(t, i + 1) {
        Some(i + 1)
    } else if !hex_at(t, i + 2) {
        Some(i + 2)
    } else if !hex_at(t, i + 3) {
        Some(i + 3)
    } else {
        Some(i + 4)
    }
}

/// `ls32`: two groups with a colon between them, or else an IPv4 address.
pub open spec fn ls32_end(t: Seq<char>, i: int) -> Option<int> {
    let pair = match then_char(t, h16_end(t, i), ':') {
        Some(j) => h16_end(t, j),
        None => None,
    };
    match pair {
        Some(end) => Some(end),
        None => ipv4_end(t, i),
    }
}

/// `n( h16 ":" )`: exactly `n` groups, a colon behind each.
pub open spec fn groups_end(t: Seq<char>, i: int, n: nat) -> Option<int>
    decreases n,
{
    if n == 0 {
        Some(i)
    } else {
        match then_char(t, h16_end(t, i), ':') {
            Some(j) => groups_end(t, j, (n - 1) as nat),
            None => None,
        }
    }
}

/// Up to `more` further groups behind a first one, a colon before each. A
/// colon that no group follows is not taken.
pub open spec fn more_groups_end(t: Seq<char>, i: int, more: nat) -> int
    decreases more,
{
    if more > 0 && has(t, i, ':') {
        match h16_end(t, i + 1) {
            Some(j) => more_groups_end(t, j, (more - 1) as nat),
            None => i,
        }
    } else {
        i
    }
}

/// `[ *( most - 1 )( h16 ":" ) h16 ]`: the groups in front of `::`, at most
/// `most` of them, as many as stand there.
pub open spec fn leading_groups_end(t: Seq<char>, i: int, most: nat) -> int {
    if most == 0 {
        i
    } else {
        match h16_end(t, i) {
            Some(j) => more_groups_end(t, j, (most - 1) as nat),
            None => i,
        }
    }
}

/// What stands behind `::` in the compressed form number `form` (1 to 8):
/// in the forms 1 to 5 there are `6 - form` groups with a colon behind each
/// and then `ls32`, in form 6 `ls32` alone, in form 7 one group, in form 8
/// nothing.
pub open spec fn compressed_tail_end(t: Seq<char>, i: int, form: nat) -> Option<int> {
    if form <= 5 {
        match groups_end(t, i, (6 - form) as nat) {
            Some(j) => ls32_end(t, j),
            None => None,
        }
    } else if form == 6 {
        ls32_end(t, i)
    } else if form == 7 {
        h16_end(t, i)
    } else {
        Some(i)
    }
}

/// The compressed form number `form` of an IPv6 address: at most
/// `form - 1` groups, `::`, and the tail of that form. Together the groups
/// on both sides stand for at most seven of the eight groups of an address.
pub open spec fn compressed_end(t: Seq<char>, i: int, form: nat) -> Option<int> {
    let j = leading_groups_end(t, i, (form - 1) as nat);
    if has(t, j, ':') && has(t, j + 1, ':') {
        compressed_tail_end(t, j + 2, form)
    } else {
        None
    }
}

/// The first of the compressed forms `form` to 8 that matches at `i`.
pub open spec fn first_compressed_end(t: Seq<char>, i: int, form: nat) -> Option<int>
    decreases 9 - form,
{
    if form < 1 || form > 8 {
        None
    } else {
        match compressed_end(t, i, form) {
            Some(end) => Some(end),
            None => first_compressed_end(t, i, form + 1),
        }
    }
}

/// `IPv6address`: six groups and `ls32`, or else the first compressed form
/// that matches.
pub open spec fn ipv6_end(t: Seq<char>, i: int) -> Option<int> {
    let full = match groups_end(t, i, 6) {
        Some(j) => ls32_end(t, j),
        None => None,
    };
    match full {
        Some(end) => Some(end),
        None => first_compressed_end(t, i, 1),
    }
}

/// `IPvFuture`: `v`, hexadecimal digits, `.`, and characters of the class
/// `Future`, at least one of each.
pub open spec fn future_end(t: Seq<char>, i: int) -> Option<int> {
    if has(t, i, 'v') {
        let dot = run_end(t, i + 1, CharSet::Hex);
        if i + 1 < dot && has(t, dot, '.') {
            let end = run_end(t, dot + 1, CharSet::Future);
            if dot + 1 < end {
                Some(end)
            } else {
                None
            }
        } else {
            None
        }
    } else {
        None
    }
}

/// `IP-literal`: an IPvFuture or else an IPv6 address, in square brackets.
pub open spec fn ip_literal_end(t: Seq<char>, i: int) -> Option<int> {
    if has(t, i, '[') {
        let inner = match future_end(t, i + 1) {
            Some(end) => Some(end),
            None => ipv6_end(t, i + 1),
        };
        then_char(t, inner, ']')
    } else {
        None
    }
}

/// `host`: an IP literal, or else an IPv4 address, or else a registered
/// name, which may be empty.
pub open spec fn host_end(t: Seq<char>, i: int) -> int {
    match ip_literal_end(t, i) {
        Some(end) => end,
        None => match ipv4_end(t, i) {
            Some(end) => end,
            None => run_end(t, i, CharSet::RegName),
        },
    }
}

/// `[ userinfo "@" ]`: where no `@` stands behind the run, nothing is
/// taken.
pub open spec fn userinfo_end(t: Seq<char>, i: int) -> int {
    let sign = run_end(t, i, CharSet::UserInfo);
    if has(t, sign, '@') {
        sign + 1
    } else {
        i
    }
}

/// `[ ":" port ]`.
pub open spec fn port_end(t: Seq<char>, i: int) -> int {
    if has(t, i, ':') {
        run_end(t, i + 1, CharSet::Digits)
    } else {
        i
    }
}

/// `*( "/" segment )`.
pub open spec fn segments_end(t: Seq<char>, i: int) -> int
    decreases t.len() - i,
{
    if has(t, i, '/') {
        proof {
            lemma_run_bounds(t, i + 1, CharSet::Pchar);
        }
        segments_end(t, run_end(t, i + 1, CharSet::Pchar))
    } else {
        i
    }
}

/// `authority path-abempty`, which follows `//`.
pub open spec fn authority_end(t: Seq<char>, i: int) -> int {
    segments_end(t, port_end(t, host_end(t, userinfo_end(t, i))))
}

/// A path that starts with a segment of at least one character of the
/// class `first`, and the segments behind it.
pub open spec fn rootless_end(t: Seq<char>, i: int, first: CharSet) -> Option<int> {
    let end = run_end(t, i, first);
    if i < end {
        Some(segments_end(t, end))
    } else {
        None
    }
}

/// A path that starts with `/`: `//` and an authority, or else a rootless
/// path behind the `/`, or else the `/` alone.
pub open spec fn path_end(t: Seq<char>, i: int) -> Option<int> {
    if has(t, i, '/') {
        if has(t, i + 1, '/') {
            Some(authority_end(t, i + 2))
        } else {
            match rootless_end(t, i + 1, CharSet::Pchar) {
                Some(end) => Some(end),
                None => Some(i + 1),
            }
        }
    } else {
        None
    }
}

/// `scheme ":"` and a path that starts with `/`, or else a rootless path.
pub open spec fn absolute_end(t: Seq<char>, i: int) -> Option<int> {
    if 0 <= i < t.len() && is_alpha(t[i]) {
        let colon = run_end(t, i + 1, CharSet::Scheme);
        if has(t, colon, ':') {
            match path_end(t, colon + 1) {
                Some(end) => Some(end),
                None => rootless_end(t, colon + 1, CharSet::Pchar),
            }
        } else {
            None
        }
    } else {
        None
    }
}

/// `[ "?" query ]` or `[ "#" fragment ]`, by the sign `sign`.
pub open spec fn part_end(t: Seq<char>, i: int, sign: char) -> int {
    if has(t, i, sign) {
        run_end(t, i + 1, CharSet::Query)
    } else {
        i
    }
}

/// A URI at `i`: an absolute URI, or else a path that starts with `/`, or
/// else a relative path whose first segment holds no colon; then the
/// optional query and the optional fragment.
pub open spec fn uri_at(t: Seq<char>, i: int) -> Option<int> {
    let hier = match absolute_end(t, i) {
        Some(end) => Some(end),
        None => match path_end(t, i) {
            Some(end) => Some(end),
            None => rootless_end(t, i, CharSet::NoColon),
        },
    };
    match hier {
        Some(end) => Some(part_end(t, part_end(t, end, '?'), '#')),
        None => None,
    }
}

/// Where the run of URI characters that starts at `i` ends.
pub open spec fn uri_chars_end(s: Seq<char>, i: int) -> int
    decreases s.len() - i,
{
    if 0 <= i < s.len() && is_uri_char(s[i]) {
        uri_chars_end(s, i + 1)
    } else {
        i
    }
}

/// The end of the URI that starts at position `i` of `s`.
///
/// No rule takes or looks at a character that is not a URI character, so
/// the first such character ends the URI as the end of the input would: the
/// grammar is matched against the run of URI characters that starts at `i`.
pub open spec fn uri_end(s: Seq<char>, i: int) -> Option<int> {
    match uri_at(s.subrange(i, uri_chars_end(s, i)), 0) {
        Some(n) => Some(i + n),
        None => None,
    }
}

/// A run ends between its start and the end of the input.
pub proof fn lemma_run_bounds(t: Seq<char>, i: int, set: CharSet)
    requires
        0 <= i <= t.len(),
    ensures
        i <= run_end(t, i, set) <= t.len(),
    decreases t.len() - i,
{
    if takes(t, i, set) {
        lemma_run_bounds(t, i + 1, set);
    }
}

/// A run of URI characters ends between its start and the end of the input.
pub proof fn lemma_uri_chars_bounds(s: Seq<char>, i: int)
    requires
        0 <= i <= s.len(),
    ensures
        i <= uri_chars_end(s, i) <= s.len(),
    decreases s.len() - i,
{
    if i < s.len() && is_uri_char(s[i]) {
        lemma_uri_chars_bounds(s, i + 1);
    }
}

/// Tells whether `c` is a hexadecimal digit.
pub fn hex(c: char) -> (b: bool)
    ensures
        b == is_hex(c),
{
    digit(c) || ('a' <= c && c <= 'f') || ('A' <= c && c <= 'F')
}

/// Tells whether `c` is unreserved or a sub-delim.
pub fn unreserved_or_sub_delim(c: char) -> (b: bool)
    ensures
        b == is_unreserved_or_sub_delim(c),
{
    alnum(c) || c == '-' || c == '.' || c == '_' || c == '~' || c == '!' || c == '$' || c == '&'
        || c == '\'' || c == '(' || c == ')' || c == '*' || c == '+' || c == ',' || c == ';'
        || c == '='
}

/// Tells whether some rule of the URI grammar can take `c`.
pub fn uri_char(c: char) -> (b: bool)
    ensures
        b == is_uri_char(c),
{
    unreserved_or_sub_delim(c) || c == ':' || c == '@' || c == '/' || c == '?' || c == '#' || c
        == '[' || c == ']' || c == '%'
}

/// Tells whether `c` is of the class, percent-encoding left aside.
pub fn member(set: CharSet, c: char) -> (b: bool)
    ensures
        b == in_set(set, c),
{
    match set {
        CharSet::Scheme => alnum(c) || c == '+' || c == '-' || c == '.',
        CharSet::Digits => digit(c),
        CharSet::Hex => hex(c),
        CharSet::Future => unreserved_or_sub_delim(c) || c == ':',
        CharSet::RegName => unreserved_or_sub_delim(c),
        CharSet::UserInfo => unreserved_or_sub_delim(c) || c == ':',
        CharSet::Pchar => unreserved_or_sub_delim(c) || c == ':' || c == '@',
        CharSet::NoColon => unreserved_or_sub_delim(c) || c == '@',
        CharSet::Query => unreserved_or_sub_delim(c) || c == ':' || c == '@' || c == '/' || c
            == '?',
    }
}

/// Tells whether a percent-encoded octet may stand in the class.
pub fn percent_allowed(set: CharSet) -> (b: bool)
    ensures
        b == allows_percent(set),
{
    match set {
        CharSet::Scheme | CharSet::Digits | CharSet::Hex | CharSet::Future => false,
        _ => true,
    }
}

/// Tells whether a hexadecimal digit stands at `i`.
pub fn hex_here(t: &[char], i: usize) -> (b: bool)
    ensures
        b == hex_at(t@, i as int),
        b ==> i < usize::MAX,
{
    i < t.len() && hex(t[i])
}

/// Tells whether one character of the class can be taken at `i`.
pub fn can_take(t: &[char], i: usize, set: CharSet) -> (b: bool)
    ensures
        b == takes(t@, i as int, set),
        b ==> i < t@.len() && i < usize::MAX,
{
    if i >= t.len() {
        return false;
    }
    if member(set, t[i]) {
        return true;
    }
    percent_allowed(set) && t[i] == '%' && hex_here(t, i + 1) && hex_here(t, i + 2)
}

/// Takes the run of characters of the class at `i`.
pub fn run(t: &[char], i: usize, set: CharSet) -> (j: usize)
    requires
        i <= t@.len(),
    ensures
        j == run_end(t@, i as int, set),
        i <= j <= t@.len(),
{
    let mut j: usize = i;
    while can_take(t, j, set)
        invariant
            i <= j <= t@.len(),
            run_end(t@, i as int, set) == run_end(t@, j as int, set),
        decreases t@.len() - j,
    {
        j = j + 1;
    }
    j
}

/// Reads `dec-octet` at `i`.
pub fn octet(t: &[char], i: usize) -> (r: Option<usize>)
    requires
        i <= t@.len(),
    ensures
        as_pos(r) == octet_end(t@, i as int),
        r matches Some(j) ==> i < j <= t@.len(),
{
    let left: usize = t.len() - i;
    if left >= 3 && t[i] == '1' && digit(t[i + 1]) && digit(t[i + 2]) {
        Some(i + 3)
    } else if left >= 3 && t[i] == '2' && (('0' <= t[i + 1] && t[i + 1] <= '4' && digit(
        t[i + 2],
    )) || (t[i + 1] == '5' && '0' <= t[i + 2] && t[i + 2] <= '5')) {
        Some(i + 3)
    } else if left >= 2 && '1' <= t[i] && t[i] <= '9' && digit(t[i + 1]) {
        Some(i + 2)
    } else if left >= 1 && digit(t[i]) {
        Some(i + 1)
    } else {
        None
    }
}

/// Steps over `c` at the position `r`.
pub fn step(t: &[char], r: Option<usize>, c: char) -> (next: Option<usize>)
    requires
        r matches Some(j) ==> j <= t@.len(),
    ensures
        as_pos(next) == then_char(t@, as_pos(r), c),
        next matches Some(k) ==> r is Some && r->0 < k <= t@.len(),
{
    match r {
        Some(j) => if at(t, j, c) {
            Some(j + 1)
        } else {
            None
        },
        None => None,
    }
}

/// Reads an octet at the position `r`.
pub fn step_octet(t: &[char], r: Option<usize>) -> (next: Option<usize>)
    requires
        r matches Some(j) ==> j <= t@.len(),
    ensures
        as_pos(next) == then_octet(t@, as_pos(r)),
        next matches Some(k) ==> r is Some && r->0 < k <= t@.len(),
{
    match r {
        Some(j) => octet(t, j),
        None => None,
    }
}

/// Reads `IPv4address` at `i`.
pub fn ipv4(t: &[char], i: usize) -> (r: Option<usize>)
    requires
        i <= t@.len(),
    ensures
        as_pos(r) == ipv4_end(t@, i as int),
        r matches Some(j) ==> i < j <= t@.len(),
{
    let first = octet(t, i);
    let second = step_octet(t, step(t, first, '.'));
    let third = step_octet(t, step(t, second, '.'));
    step_octet(t, step(t, third, '.'))
}

/// Reads `h16` at `i`.
pub fn h16(t: &[char], i: usize) -> (r: Option<usize>)
    requires
        i <= t@.len(),
    ensures
        as_pos(r) == h16_end(t@, i as int),
        r matches Some(j) ==> i < j <= t@.len(),
{
    if !hex_here(t, i) {
        None
    } else if !hex_here(t, i + 1) {
        Some(i + 1)
    } else if !hex_here(t, i + 2) {
        Some(i + 2)
    } else if !hex_here(t, i + 3) {
        Some(i + 3)
    } else {
        Some(i + 4)
    }
}

/// Reads `ls32` at `i`.
pub fn ls32(t: &[char], i: usize) -> (r: Option<usize>)
    requires
        i <= t@.len(),
    ensures
        as_pos(r) == ls32_end(t@, i as int),
        r matches Some(j) ==> i < j <= t@.len(),
{
    if let Some(j) = step(t, h16(t, i), ':') {
        if let Some(end) = h16(t, j) {
            return Some(end);
        }
    }
    ipv4(t, i)
}

/// Reads exactly `n` groups with a colon behind each.
pub fn groups(t: &[char], i: usize, n: u8) -> (r: Option<usize>)
    requires
        i <= t@.len(),
    ensures
        as_pos(r) == groups_end(t@, i as int, n as nat),
        r matches Some(j) ==> i <= j <= t@.len(),
{
    let mut j: usize = i;
    let mut left: u8 = n;
    while left > 0
        invariant
            i <= j <= t@.len(),
            groups_end(t@, i as int, n as nat) == groups_end(t@, j as int, left as nat),
        decreases left,
    {
        match step(t, h16(t, j), ':') {
            Some(next) => {
                j = next;
                left = left - 1;
            },
            None => {
                return None;
            },
        }
    }
    Some(j)
}

/// Reads the groups in front of `::`, at most `most` of them.
pub fn leading_groups(t: &[char], i: usize, most: u8) -> (j: usize)
    requires
        i <= t@.len(),
    ensures
        j == leading_groups_end(t@, i as int, most as nat),
        i <= j <= t@.len(),
{
    if most == 0 {
        return i;
    }
    let mut j: usize = match h16(t, i) {
        Some(first) => first,
        None => {
            return i;
        },
    };
    let mut more: u8 = most - 1;
    loop
        invariant
            i <= j <= t@.len(),
            leading_groups_end(t@, i as int, most as nat) == more_groups_end(
                t@,
                j as int,
                more as nat,
            ),
        ensures
            i <= j <= t@.len(),
            j == leading_groups_end(t@, i as int, most as nat),
        decreases more,
    {
        if more == 0 || !at(t, j, ':') {
            break;
        }
        match h16(t, j + 1) {
            Some(next) => {
                j = next;
                more = more - 1;
            },
            None => {
                break;
            },
        }
    }
    j
}

/// Reads what stands behind `::` in the compressed form `form`.
pub fn compressed_tail(t: &[char], i: usize, form: u8) -> (r: Option<usize>)
    requires
        i <= t@.len(),
        1 <= form <= 8,
    ensures
        as_pos(r) == compressed_tail_end(t@, i as int, form as nat),
        r matches Some(j) ==> i <= j <= t@.len(),
{
    if form <= 5 {
        match groups(t, i, 6 - form) {
            Some(j) => ls32(t, j),
            None => None,
        }
    } else if form == 6 {
        ls32(t, i)
    } else if form == 7 {
        h16(t, i)
    } else {
        Some(i)
    }
}

/// Reads the compressed form `form` of an IPv6 address.
pub fn compressed(t: &[char], i: usize, form: u8) -> (r: Option<usize>)
    requires
        i <= t@.len(),
        1 <= form <= 8,
    ensures
        as_pos(r) == compressed_end(t@, i as int, form as nat),
        r matches Some(j) ==> i <= j <= t@.len(),
{
    let j: usize = leading_groups(t, i, form - 1);
    if at(t, j, ':') && at(t, j + 1, ':') {
        compressed_tail(t, j + 2, form)
    } else {
        None
    }
}

/// Reads `IPv6address` at `i`.
pub fn ipv6(t: &[char], i: usize) -> (r: Option<usize>)
    requires
        i <= t@.len(),
    ensures
        as_pos(r) == ipv6_end(t@, i as int),
        r matches Some(j) ==> i <= j <= t@.len(),
{
    if let Some(j) = groups(t, i, 6) {
        if let Some(end) = ls32(t, j) {
            return Some(end);
        }
    }
    let mut form: u8 = 1;
    while form <= 8
        invariant
            i <= t@.len(),
            1 <= form <= 9,
            ipv6_end(t@, i as int) == first_compressed_end(t@, i as int, 1),
            first_compressed_end(t@, i as int, 1) == first_compressed_end(
                t@,
                i as int,
                form as nat,
            ),
        decreases 9 - form,
    {
        if let Some(end) = compressed(t, i, form) {
            return Some(end);
        }
        form = form + 1;
    }
    None
}

/// Reads `IPvFuture` at `i`.
pub fn future(t: &[char], i: usize) -> (r: Option<usize>)
    requires
        i <= t@.len(),
    ensures
        as_pos(r) == future_end(t@, i as int),
        r matches Some(j) ==> i <= j <= t@.len(),
{
    if !at(t, i, 'v') {
        return None;
    }
    let dot: usize = run(t, i + 1, CharSet::Hex);
    if i + 1 < dot && at(t, dot, '.') {
        let end: usize = run(t, dot + 1, CharSet::Future);
        if dot + 1 < end {
            return Some(end);
        }
    }
    None
}

/// Reads `IP-literal` at `i`.
pub fn ip_literal(t: &[char], i: usize) -> (r: Option<usize>)
    requires
        i <= t@.len(),
    ensures
        as_pos(r) == ip_literal_end(t@, i as int),
        r matches Some(j) ==> i <= j <= t@.len(),
{
    if !at(t, i, '[') {
        return None;
    }
    let inner = match future(t, i + 1) {
        Some(end) => Some(end),
        None => ipv6(t, i + 1),
    };
    step(t, inner, ']')
}

/// Reads `host` at `i`.
pub fn host(t: &[char], i: usize) -> (j: usize)
    requires
        i <= t@.len(),
    ensures
        j == host_end(t@, i as int),
        i <= j <= t@.len(),
{
    if let Some(end) = ip_literal(t, i) {
        end
    } else if let Some(end) = ipv4(t, i) {
        end
    } else {
        run(t, i, CharSet::RegName)
    }
}

/// Reads `[ userinfo "@" ]` at `i`.
pub fn userinfo(t: &[char], i: usize) -> (j: usize)
    requires
        i <= t@.len(),
    ensures
        j == userinfo_end(t@, i as int),
        i <= j <= t@.len(),
{
    let sign: usize = run(t, i, CharSet::UserInfo);
    if at(t, sign, '@') {
        sign + 1
    } else {
        i
    }
}

/// Reads `[ ":" port ]` at `i`.
pub fn port(t: &[char], i: usize) -> (j: usize)
    requires
        i <= t@.len(),
    ensures
        j == port_end(t@, i as int),
        i <= j <= t@.len(),
{
    if at(t, i, ':') {
        run(t, i + 1, CharSet::Digits)
    } else {
        i
    }
}

/// Reads `*( "/" segment )` at `i`.
pub fn segments(t: &[char], i: usize) -> (j: usize)
    requires
        i <= t@.len(),
    ensures
        j == segments_end(t@, i as int),
        i <= j <= t@.len(),
{
    let mut j: usize = i;
    while at(t, j, '/')
        invariant
            i <= j <= t@.len(),
            segments_end(t@, i as int) == segments_end(t@, j as int),
        decreases t@.len() - j,
    {
        j = run(t, j + 1, CharSet::Pchar);
    }
    j
}

/// Reads `authority path-abempty` at `i`.
pub fn authority(t: &[char], i: usize) -> (j: usize)
    requires
        i <= t@.len(),
    ensures
        j == authority_end(t@, i as int),
        i <= j <= t@.len(),
{
    segments(t, port(t, host(t, userinfo(t, i))))
}

/// Reads a rootless path at `i` whose first segment is of the class `first`.
pub fn rootless(t: &[char], i: usize, first: CharSet) -> (r: Option<usize>)
    requires
        i <= t@.len(),
    ensures
        as_pos(r) == rootless_end(t@, i as int, first),
        r matches Some(j) ==> i < j <= t@.len(),
{
    let end: usize = run(t, i, first);
    if i < end {
        Some(segments(t, end))
    } else {
        None
    }
}

/// Reads a path that starts with `/` at `i`.
pub fn path(t: &[char], i: usize) -> (r: Option<usize>)
    requires
        i <= t@.len(),
    ensures
        as_pos(r) == path_end(t@, i as int),
        r matches Some(j) ==> i < j <= t@.len(),
{
    if !at(t, i, '/') {
        return None;
    }
    if at(t, i + 1, '/') {
        Some(authority(t, i + 2))
    } else {
        match rootless(t, i + 1, CharSet::Pchar) {
            Some(end) => Some(end),
            None => Some(i + 1),
        }
    }
}

/// Reads an absolute URI at `i`.
pub fn absolute(t: &[char], i: usize) -> (r: Option<usize>)
    requires
        i <= t@.len(),
    ensures
        as_pos(r) == absolute_end(t@, i as int),
        r matches Some(j) ==> i < j <= t@.len(),
{
    if i < t.len() && alpha(t[i]) {
        let colon: usize = run(t, i + 1, CharSet::Scheme);
        if at(t, colon, ':') {
            return match path(t, colon + 1) {
                Some(end) => Some(end),
                None => rootless(t, colon + 1, CharSet::Pchar),
            };
        }
    }
    None
}

/// Reads the query or the fragment behind `sign` at `i`.
pub fn part(t: &[char], i: usize, sign: char) -> (j: usize)
    requires
        i <= t@.len(),
    ensures
        j == part_end(t@, i as int, sign),
        i <= j <= t@.len(),
{
    if at(t, i, sign) {
        run(t, i + 1, CharSet::Query)
    } else {
        i
    }
}

/// Matches the URI grammar against `t` from position `i`.
pub fn uri_in(t: &[char], i: usize) -> (r: Option<usize>)
    requires
        i <= t@.len(),
    ensures
        as_pos(r) == uri_at(t@, i as int),
        r matches Some(j) ==> i < j <= t@.len(),
{
    let hier = match absolute(t, i) {
        Some(end) => Some(end),
        None => match path(t, i) {
            Some(end) => Some(end),
            None => rootless(t, i, CharSet::NoColon),
        },
    };
    match hier {
        Some(end) => Some(part(t, part(t, end, '?'), '#')),
        None => None,
    }
}

/// Reads the URI that starts at position `i` of `s` and returns where it
/// ends.
pub fn uri(s: &[char], i: usize) -> (r: Option<usize>)
    requires
        i <= s@.len(),
    ensures
        as_pos(r) == uri_end(s@, i as int),
        r matches Some(j) ==> i < j <= s@.len(),
{
    let mut stop: usize = i;
    while stop < s.len() && uri_char(s[stop])
        invariant
            i <= stop <= s@.len(),
            uri_chars_end(s@, i as int) == uri_chars_end(s@, stop as int),
        decreases s@.len() - stop,
    {
        stop = stop + 1;
    }
    match uri_in(slice_subrange(s, i, stop), 0) {
        Some(n) => Some(i + n),
        None => None,
    }
}

/// Parses a URI.
///
/// The whole input has to be one URI, which is handed back as it stands.
pub fn parse<'a>(url: &'a str) -> (r: Result<&'a str, Vec<ParseError>>)
    ensures
        match r {
            Ok(matched) => parsed_url(url@) is Ok && matched@ == url@,
            Err(errors) => parsed_url(url@) is Err && reports(
                errors@,
                url@,
                parsed_url(url@)->Err_0,
            ),
        },
{
    let chars = to_chars(url);
    let s = chars.as_slice();
    let (position, expected) = match uri(s, 0) {
        Some(end) => {
            if end == s.len() {
                return Ok(url);
            }
            (end, Expected::EndOfInput)
        },
        None => (0, Expected::Url),
    };
    let before = url.substring_char(0, position);
    assert(before@ =~= url@.take(position as int));
    let mut errors: Vec<ParseError> = Vec::new();
    errors.push(ParseError { position: before.as_bytes().len(), expected });
    Err(errors)
}

} // verus!
