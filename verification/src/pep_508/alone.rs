//! What the URI grammar reads at the start of an input, it reads in that
//! part of the input taken alone.
//!
//! The grammar never tests for the end of the input: every rule asks for
//! characters. Cutting the input where the URI ends therefore takes nothing
//! away that made a rule match, and gives no rule more than it had. This
//! file proves that, rule by rule, for an input `t` and the part `u` of it
//! in front of a cut.

use vstd::prelude::*;

use crate::pep_508::lexer::has;
use crate::pep_508::url::{
    absolute_end, authority_end, between, compressed_end, compressed_tail_end,
    first_compressed_end, future_end, groups_end, h16_end, host_end, in_set, ip_literal_end,
    ipv4_end, ipv6_end, leading_groups_end, lemma_run_bounds, ls32_end, more_groups_end, octet_end,
    part_end, path_end, port_end, rootless_end, run_end, segments_end, takes, then_char,
    then_octet, uri_at, userinfo_end, CharSet,
};

verus! {

/// `u` is the part of `t` in front of a cut.
pub open spec fn cut_of(u: Seq<char>, t: Seq<char>) -> bool {
    u.len() <= t.len() && u == t.take(u.len() as int)
}

/// The whole input is the part of itself in front of its end.
proof fn lemma_cut_whole(t: Seq<char>)
    ensures
        cut_of(t, t),
{
    assert(t =~= t.take(t.len() as int));
}

/// Up to the cut, `u` and `t` hold the same characters.
proof fn lemma_cut_chars(u: Seq<char>, t: Seq<char>)
    requires
        cut_of(u, t),
    ensures
        forall|k: int| 0 <= k < u.len() ==> #[trigger] u[k] == t[k],
{
}

/// A rule that stops at `p` in `u` may stop there only for the cut: `p` is
/// the cut, or a `%` stands at `p` whose digits the cut took away.
pub open spec fn at_cut(u: Seq<char>, p: int) -> bool {
    p == u.len() || has(u, p, '%')
}

/// What can be taken in front of the cut can be taken in the whole input;
/// what can be taken in the whole input and not in front of the cut is a
/// `%`.
proof fn lemma_takes_cut(u: Seq<char>, t: Seq<char>, i: int, set: CharSet)
    requires
        cut_of(u, t),
        0 <= i,
    ensures
        takes(u, i, set) ==> takes(t, i, set),
        takes(t, i, set) && !takes(u, i, set) ==> at_cut(u, i) || i > u.len(),
        takes(t, i, set) && i + 2 < u.len() ==> takes(u, i, set),
        !in_set(set, '%'),
{
    lemma_cut_chars(u, t);
    if i < u.len() {
        assert(u[i] == t[i]);
    }
    if i + 1 < u.len() {
        assert(u[i + 1] == t[i + 1]);
    }
    if i + 2 < u.len() {
        assert(u[i + 2] == t[i + 2]);
    }
}

/// A run in front of the cut ends where the run in the whole input ends,
/// or before it at the cut.
proof fn lemma_run_cut(u: Seq<char>, t: Seq<char>, i: int, set: CharSet)
    requires
        cut_of(u, t),
        0 <= i <= u.len(),
    ensures
        i <= run_end(u, i, set) <= run_end(t, i, set) <= t.len(),
        run_end(u, i, set) <= u.len(),
        run_end(t, i, set) <= u.len() ==> run_end(u, i, set) == run_end(t, i, set),
        run_end(u, i, set) != run_end(t, i, set) ==> at_cut(u, run_end(u, i, set)),
    decreases u.len() - i,
{
    lemma_run_bounds(t, i, set);
    lemma_run_bounds(u, i, set);
    lemma_takes_cut(u, t, i, set);
    if takes(u, i, set) {
        lemma_run_cut(u, t, i + 1, set);
    } else if takes(t, i, set) {
        // a `%` whose digits the cut took away: in the whole input the run
        // goes on over the sign and both digits
        lemma_run_bounds(t, i + 1, set);
        if i < u.len() {
            assert(takes(t, i + 1, set) && takes(t, i + 2, set));
            lemma_run_bounds(t, i + 2, set);
            lemma_run_bounds(t, i + 3, set);
        }
    }
}

/// What is read in the whole input and ends in front of the cut is read in
/// front of the cut; what is not read in the whole input is not read in
/// front of the cut.
pub open spec fn kept(whole: Option<int>, part: Option<int>, cut: int) -> bool {
    &&& whole matches Some(end) ==> end <= cut ==> part == Some(end)
    &&& whole is None ==> part is None
}

/// `[ "?" query ]` and `[ "#" fragment ]` in front of the cut.
proof fn lemma_part_cut(u: Seq<char>, t: Seq<char>, i: int, sign: char)
    requires
        cut_of(u, t),
        0 <= i <= u.len(),
    ensures
        i <= part_end(t, i, sign),
        part_end(t, i, sign) <= u.len() ==> part_end(u, i, sign) == part_end(t, i, sign),
{
    lemma_cut_chars(u, t);
    if has(t, i, sign) {
        lemma_run_bounds(t, i + 1, CharSet::Query);
        if i < u.len() {
            lemma_run_cut(u, t, i + 1, CharSet::Query);
        }
    }
}

/// `[ ":" port ]` in front of the cut.
proof fn lemma_port_cut(u: Seq<char>, t: Seq<char>, i: int)
    requires
        cut_of(u, t),
        0 <= i <= u.len(),
    ensures
        i <= port_end(t, i),
        port_end(t, i) <= u.len() ==> port_end(u, i) == port_end(t, i),
{
    lemma_cut_chars(u, t);
    if has(t, i, ':') {
        lemma_run_bounds(t, i + 1, CharSet::Digits);
        if i < u.len() {
            lemma_run_cut(u, t, i + 1, CharSet::Digits);
        }
    }
}

/// The segments of a path in front of the cut.
proof fn lemma_segments_cut(u: Seq<char>, t: Seq<char>, i: int)
    requires
        cut_of(u, t),
        0 <= i <= u.len(),
    ensures
        i <= segments_end(t, i),
        segments_end(t, i) <= u.len() ==> segments_end(u, i) == segments_end(t, i),
    decreases u.len() - i,
{
    lemma_cut_chars(u, t);
    if has(t, i, '/') {
        lemma_run_bounds(t, i + 1, CharSet::Pchar);
        let next = run_end(t, i + 1, CharSet::Pchar);
        lemma_segments_bounds(t, next);
        if i < u.len() {
            lemma_run_cut(u, t, i + 1, CharSet::Pchar);
            if next <= u.len() {
                lemma_segments_cut(u, t, next);
            }
        }
    }
}

/// The segments of a path end behind their start.
proof fn lemma_segments_bounds(t: Seq<char>, i: int)
    requires
        0 <= i <= t.len(),
    ensures
        i <= segments_end(t, i) <= t.len(),
    decreases t.len() - i,
{
    if has(t, i, '/') {
        lemma_run_bounds(t, i + 1, CharSet::Pchar);
        lemma_segments_bounds(t, run_end(t, i + 1, CharSet::Pchar));
    }
}

/// `[ userinfo "@" ]` in front of the cut.
proof fn lemma_userinfo_cut(u: Seq<char>, t: Seq<char>, i: int)
    requires
        cut_of(u, t),
        0 <= i <= u.len(),
    ensures
        i <= userinfo_end(t, i) <= t.len(),
        userinfo_end(t, i) <= u.len() ==> userinfo_end(u, i) == userinfo_end(t, i),
{
    lemma_cut_chars(u, t);
    lemma_run_cut(u, t, i, CharSet::UserInfo);
}

/// A rootless path in front of the cut.
proof fn lemma_rootless_cut(u: Seq<char>, t: Seq<char>, i: int, first: CharSet)
    requires
        cut_of(u, t),
        0 <= i <= u.len(),
    ensures
        kept(rootless_end(t, i, first), rootless_end(u, i, first), u.len() as int),
        rootless_end(t, i, first) matches Some(end) ==> i < end <= t.len(),
{
    lemma_run_cut(u, t, i, first);
    let next = run_end(t, i, first);
    lemma_segments_bounds(t, next);
    if i < next && next <= u.len() {
        lemma_segments_cut(u, t, next);
    }
}

/// `dec-octet` in front of the cut: what is read there is read in the
/// whole input, to the same end unless it ends at the cut.
proof fn lemma_octet_cut(u: Seq<char>, t: Seq<char>, i: int)
    requires
        cut_of(u, t),
        0 <= i <= u.len(),
    ensures
        kept(octet_end(t, i), octet_end(u, i), u.len() as int),
        octet_end(t, i) matches Some(end) ==> i < end <= t.len(),
        octet_end(u, i) matches Some(end) ==> end == u.len() || octet_end(t, i) == Some(end),
{
    lemma_cut_chars(u, t);
    if i < u.len() {
        assert(u[i] == t[i]);
    }
    if i + 1 < u.len() {
        assert(u[i + 1] == t[i + 1]);
    }
    if i + 2 < u.len() {
        assert(u[i + 2] == t[i + 2]);
    }
}

/// `IPv4address` in front of the cut.
proof fn lemma_ipv4_cut(u: Seq<char>, t: Seq<char>, i: int)
    requires
        cut_of(u, t),
        0 <= i <= u.len(),
    ensures
        kept(ipv4_end(t, i), ipv4_end(u, i), u.len() as int),
        ipv4_end(t, i) matches Some(end) ==> i < end <= t.len(),
{
    let n = u.len() as int;
    lemma_cut_chars(u, t);
    lemma_octet_cut(u, t, i);
    let a = octet_end(t, i);
    let a_cut = octet_end(u, i);
    let b = then_char(t, a, '.');
    let b_cut = then_char(u, a_cut, '.');
    if b_cut is Some {
        assert(a_cut == a);
    }
    if b is Some && b->0 <= n {
        assert(b_cut == b);
        lemma_octet_cut(u, t, b->0);
    }
    let c = then_octet(t, b);
    let c_cut = then_octet(u, b_cut);
    let d = then_char(t, c, '.');
    let d_cut = then_char(u, c_cut, '.');
    if d_cut is Some {
        assert(c_cut == c);
    }
    if d is Some && d->0 <= n {
        assert(d_cut == d);
        lemma_octet_cut(u, t, d->0);
    }
    let e = then_octet(t, d);
    let e_cut = then_octet(u, d_cut);
    let f = then_char(t, e, '.');
    let f_cut = then_char(u, e_cut, '.');
    if f_cut is Some {
        assert(e_cut == e);
    }
    if f is Some && f->0 <= n {
        assert(f_cut == f);
        lemma_octet_cut(u, t, f->0);
    }
}

/// A closing bracket stands at `m` in front of the cut. No rule of an IP
/// literal takes it, so what such a rule reads in front of it does not
/// depend on what stands behind it.
pub open spec fn bracket_at(u: Seq<char>, t: Seq<char>, m: int) -> bool {
    cut_of(u, t) && 0 <= m < u.len() && u[m] == ']'
}

/// What a rule reads is the same in `u` and in `t`, and ends in front of
/// the position `m`.
pub open spec fn same_before(whole: Option<int>, part: Option<int>, k: int, m: int) -> bool {
    whole == part && (whole matches Some(end) ==> k <= end <= m)
}

proof fn lemma_h16_bracket(u: Seq<char>, t: Seq<char>, k: int, m: int)
    requires
        bracket_at(u, t, m),
        0 <= k <= m,
    ensures
        same_before(h16_end(t, k), h16_end(u, k), k, m),
        h16_end(t, k) matches Some(end) ==> k < end,
{
    lemma_cut_chars(u, t);
    assert(u[m] == t[m]);
    if k + 1 <= m {
        assert(u[k] == t[k]);
        assert(u[k + 1] == t[k + 1]);
    }
    if k + 2 <= m {
        assert(u[k + 2] == t[k + 2]);
    }
    if k + 3 <= m {
        assert(u[k + 3] == t[k + 3]);
    }
}

proof fn lemma_octet_bracket(u: Seq<char>, t: Seq<char>, k: int, m: int)
    requires
        bracket_at(u, t, m),
        0 <= k <= m,
    ensures
        same_before(octet_end(t, k), octet_end(u, k), k, m),
        octet_end(t, k) matches Some(end) ==> k < end,
{
    lemma_cut_chars(u, t);
    assert(u[m] == t[m]);
    if k + 1 <= m {
        assert(u[k] == t[k]);
        assert(u[k + 1] == t[k + 1]);
    }
    if k + 2 <= m {
        assert(u[k + 2] == t[k + 2]);
    }
}

/// A character in front of the bracket is the same in `u` and in `t`.
proof fn lemma_then_char_bracket(
    u: Seq<char>,
    t: Seq<char>,
    r: Option<int>,
    c: char,
    k: int,
    m: int,
)
    requires
        bracket_at(u, t, m),
        c != ']',
        r matches Some(end) ==> 0 <= k <= end <= m,
    ensures
        same_before(then_char(t, r, c), then_char(u, r, c), k, m),
        then_char(t, r, c) matches Some(next) ==> r is Some && next == r->0 + 1,
{
    lemma_cut_chars(u, t);
    if let Some(end) = r {
        assert(u[end] == t[end]);
    }
}

proof fn lemma_ipv4_bracket(u: Seq<char>, t: Seq<char>, k: int, m: int)
    requires
        bracket_at(u, t, m),
        0 <= k <= m,
    ensures
        same_before(ipv4_end(t, k), ipv4_end(u, k), k, m),
{
    lemma_octet_bracket(u, t, k, m);
    let a = octet_end(t, k);
    lemma_then_char_bracket(u, t, a, '.', k, m);
    let b = then_char(t, a, '.');
    if let Some(j) = b {
        lemma_octet_bracket(u, t, j, m);
    }
    let c = then_octet(t, b);
    lemma_then_char_bracket(u, t, c, '.', k, m);
    let d = then_char(t, c, '.');
    if let Some(j) = d {
        lemma_octet_bracket(u, t, j, m);
    }
    let e = then_octet(t, d);
    lemma_then_char_bracket(u, t, e, '.', k, m);
    let f = then_char(t, e, '.');
    if let Some(j) = f {
        lemma_octet_bracket(u, t, j, m);
    }
}

proof fn lemma_ls32_bracket(u: Seq<char>, t: Seq<char>, k: int, m: int)
    requires
        bracket_at(u, t, m),
        0 <= k <= m,
    ensures
        same_before(ls32_end(t, k), ls32_end(u, k), k, m),
{
    lemma_h16_bracket(u, t, k, m);
    lemma_then_char_bracket(u, t, h16_end(t, k), ':', k, m);
    if let Some(j) = then_char(t, h16_end(t, k), ':') {
        lemma_h16_bracket(u, t, j, m);
    }
    lemma_ipv4_bracket(u, t, k, m);
}

proof fn lemma_groups_bracket(u: Seq<char>, t: Seq<char>, k: int, m: int, n: nat)
    requires
        bracket_at(u, t, m),
        0 <= k <= m,
    ensures
        same_before(groups_end(t, k, n), groups_end(u, k, n), k, m),
    decreases n,
{
    if n > 0 {
        lemma_h16_bracket(u, t, k, m);
        lemma_then_char_bracket(u, t, h16_end(t, k), ':', k, m);
        if let Some(j) = then_char(t, h16_end(t, k), ':') {
            lemma_groups_bracket(u, t, j, m, (n - 1) as nat);
        }
    }
}

proof fn lemma_more_groups_bracket(u: Seq<char>, t: Seq<char>, k: int, m: int, more: nat)
    requires
        bracket_at(u, t, m),
        0 <= k <= m,
    ensures
        more_groups_end(t, k, more) == more_groups_end(u, k, more),
        k <= more_groups_end(t, k, more) <= m,
    decreases more,
{
    lemma_cut_chars(u, t);
    assert(u[k] == t[k]);
    if more > 0 && has(t, k, ':') {
        lemma_h16_bracket(u, t, k + 1, m);
        if let Some(j) = h16_end(t, k + 1) {
            lemma_more_groups_bracket(u, t, j, m, (more - 1) as nat);
        }
    }
}

proof fn lemma_leading_groups_bracket(u: Seq<char>, t: Seq<char>, k: int, m: int, most: nat)
    requires
        bracket_at(u, t, m),
        0 <= k <= m,
    ensures
        leading_groups_end(t, k, most) == leading_groups_end(u, k, most),
        k <= leading_groups_end(t, k, most) <= m,
{
    if most > 0 {
        lemma_h16_bracket(u, t, k, m);
        if let Some(j) = h16_end(t, k) {
            lemma_more_groups_bracket(u, t, j, m, (most - 1) as nat);
        }
    }
}

proof fn lemma_compressed_tail_bracket(u: Seq<char>, t: Seq<char>, k: int, m: int, form: nat)
    requires
        bracket_at(u, t, m),
        0 <= k <= m,
    ensures
        same_before(compressed_tail_end(t, k, form), compressed_tail_end(u, k, form), k, m),
{
    if form <= 5 {
        lemma_groups_bracket(u, t, k, m, (6 - form) as nat);
        if let Some(j) = groups_end(t, k, (6 - form) as nat) {
            lemma_ls32_bracket(u, t, j, m);
        }
    } else if form == 6 {
        lemma_ls32_bracket(u, t, k, m);
    } else if form == 7 {
        lemma_h16_bracket(u, t, k, m);
    }
}

proof fn lemma_compressed_bracket(u: Seq<char>, t: Seq<char>, k: int, m: int, form: nat)
    requires
        bracket_at(u, t, m),
        0 <= k <= m,
    ensures
        same_before(compressed_end(t, k, form), compressed_end(u, k, form), k, m),
{
    lemma_cut_chars(u, t);
    lemma_leading_groups_bracket(u, t, k, m, (form - 1) as nat);
    let j = leading_groups_end(t, k, (form - 1) as nat);
    assert(u[j] == t[j]);
    if j + 1 <= m {
        assert(u[j + 1] == t[j + 1]);
    }
    if has(t, j, ':') && has(t, j + 1, ':') {
        lemma_compressed_tail_bracket(u, t, j + 2, m, form);
    }
}

proof fn lemma_first_compressed_bracket(u: Seq<char>, t: Seq<char>, k: int, m: int, form: nat)
    requires
        bracket_at(u, t, m),
        0 <= k <= m,
    ensures
        same_before(first_compressed_end(t, k, form), first_compressed_end(u, k, form), k, m),
    decreases 9 - form,
{
    if 1 <= form <= 8 {
        lemma_compressed_bracket(u, t, k, m, form);
        lemma_first_compressed_bracket(u, t, k, m, form + 1);
    }
}

proof fn lemma_ipv6_bracket(u: Seq<char>, t: Seq<char>, k: int, m: int)
    requires
        bracket_at(u, t, m),
        0 <= k <= m,
    ensures
        same_before(ipv6_end(t, k), ipv6_end(u, k), k, m),
{
    lemma_groups_bracket(u, t, k, m, 6);
    if let Some(j) = groups_end(t, k, 6) {
        lemma_ls32_bracket(u, t, j, m);
    }
    lemma_first_compressed_bracket(u, t, k, m, 1);
}

/// A run of a class without percent-encoding and without the bracket.
proof fn lemma_run_bracket(u: Seq<char>, t: Seq<char>, k: int, m: int, set: CharSet)
    requires
        bracket_at(u, t, m),
        0 <= k <= m,
        set == CharSet::Hex || set == CharSet::Future,
    ensures
        run_end(t, k, set) == run_end(u, k, set),
        k <= run_end(t, k, set) <= m,
    decreases m - k,
{
    lemma_cut_chars(u, t);
    assert(u[k] == t[k]);
    if takes(t, k, set) {
        lemma_run_bracket(u, t, k + 1, m, set);
    }
}

proof fn lemma_future_bracket(u: Seq<char>, t: Seq<char>, k: int, m: int)
    requires
        bracket_at(u, t, m),
        0 <= k <= m,
    ensures
        same_before(future_end(t, k), future_end(u, k), k, m),
{
    lemma_cut_chars(u, t);
    assert(u[k] == t[k]);
    if has(t, k, 'v') {
        lemma_run_bracket(u, t, k + 1, m, CharSet::Hex);
        let dot = run_end(t, k + 1, CharSet::Hex);
        assert(u[dot] == t[dot]);
        if has(t, dot, '.') {
            lemma_run_bracket(u, t, dot + 1, m, CharSet::Future);
        }
    }
}

proof fn lemma_groups_bounds(t: Seq<char>, k: int, n: nat)
    requires
        0 <= k,
    ensures
        groups_end(t, k, n) matches Some(end) ==> k <= end,
    decreases n,
{
    if n > 0 {
        if let Some(j) = then_char(t, h16_end(t, k), ':') {
            lemma_groups_bounds(t, j, (n - 1) as nat);
        }
    }
}

proof fn lemma_more_groups_bounds(t: Seq<char>, k: int, more: nat)
    requires
        0 <= k,
    ensures
        k <= more_groups_end(t, k, more),
    decreases more,
{
    if more > 0 && has(t, k, ':') {
        if let Some(j) = h16_end(t, k + 1) {
            lemma_more_groups_bounds(t, j, (more - 1) as nat);
        }
    }
}

proof fn lemma_compressed_bounds(t: Seq<char>, k: int, form: nat)
    requires
        0 <= k,
        1 <= form <= 8,
    ensures
        compressed_end(t, k, form) matches Some(end) ==> k <= end,
{
    let most = (form - 1) as nat;
    if most > 0 {
        if let Some(j) = h16_end(t, k) {
            lemma_more_groups_bounds(t, j, (most - 1) as nat);
        }
    }
    let j = leading_groups_end(t, k, most);
    assert(k <= j);
    if form <= 5 {
        lemma_groups_bounds(t, j + 2, (6 - form) as nat);
    }
}

proof fn lemma_first_compressed_bounds(t: Seq<char>, k: int, form: nat)
    requires
        0 <= k,
    ensures
        first_compressed_end(t, k, form) matches Some(end) ==> k <= end,
    decreases 9 - form,
{
    if 1 <= form <= 8 {
        lemma_compressed_bounds(t, k, form);
        lemma_first_compressed_bounds(t, k, form + 1);
    }
}

/// What stands between the brackets of an IP literal ends behind its
/// start.
proof fn lemma_literal_bounds(t: Seq<char>, k: int)
    requires
        0 <= k <= t.len(),
    ensures
        ipv6_end(t, k) matches Some(end) ==> k <= end,
        future_end(t, k) matches Some(end) ==> k <= end,
{
    lemma_groups_bounds(t, k, 6);
    lemma_first_compressed_bounds(t, k, 1);
    if has(t, k, 'v') {
        lemma_run_bounds(t, k + 1, CharSet::Hex);
        let dot = run_end(t, k + 1, CharSet::Hex);
        if dot < t.len() {
            lemma_run_bounds(t, dot + 1, CharSet::Future);
        }
    }
}

/// `IP-literal` in front of the cut.
proof fn lemma_ip_literal_cut(u: Seq<char>, t: Seq<char>, i: int)
    requires
        cut_of(u, t),
        0 <= i <= u.len(),
    ensures
        kept(ip_literal_end(t, i), ip_literal_end(u, i), u.len() as int),
        ip_literal_end(t, i) matches Some(end) ==> i < end <= t.len(),
{
    lemma_cut_chars(u, t);
    if i < t.len() {
        lemma_literal_bounds(t, i + 1);
    }
    if i < u.len() {
        lemma_literal_bounds(u, i + 1);
    }
    // the bracket that closes the literal in the whole input
    if let Some(end) = ip_literal_end(t, i) {
        let m = end - 1;
        assert(has(t, m, ']'));
        if end <= u.len() {
            assert(u[m] == t[m]);
            lemma_future_bracket(u, t, i + 1, m);
            lemma_ipv6_bracket(u, t, i + 1, m);
        }
    }
    // the bracket that closes the literal in front of the cut
    if let Some(end) = ip_literal_end(u, i) {
        let m = end - 1;
        assert(has(u, m, ']'));
        lemma_future_bracket(u, t, i + 1, m);
        lemma_ipv6_bracket(u, t, i + 1, m);
    }
}

/// `host` in front of the cut.
proof fn lemma_host_cut(u: Seq<char>, t: Seq<char>, i: int)
    requires
        cut_of(u, t),
        0 <= i <= u.len(),
    ensures
        i <= host_end(t, i) <= t.len(),
        host_end(t, i) <= u.len() ==> host_end(u, i) == host_end(t, i),
{
    lemma_ip_literal_cut(u, t, i);
    lemma_ipv4_cut(u, t, i);
    lemma_run_cut(u, t, i, CharSet::RegName);
}

/// `authority path-abempty` in front of the cut.
proof fn lemma_authority_cut(u: Seq<char>, t: Seq<char>, i: int)
    requires
        cut_of(u, t),
        0 <= i <= u.len(),
    ensures
        i <= authority_end(t, i) <= t.len(),
        authority_end(t, i) <= u.len() ==> authority_end(u, i) == authority_end(t, i),
{
    lemma_userinfo_cut(u, t, i);
    let a = userinfo_end(t, i);
    lemma_host_bounds(t, a);
    let b = host_end(t, a);
    lemma_port_bounds(t, b);
    let c = port_end(t, b);
    lemma_segments_bounds(t, c);
    if authority_end(t, i) <= u.len() {
        lemma_host_cut(u, t, a);
        lemma_port_cut(u, t, b);
        lemma_segments_cut(u, t, c);
    }
}

/// A host ends behind its start.
proof fn lemma_host_bounds(t: Seq<char>, i: int)
    requires
        0 <= i <= t.len(),
    ensures
        i <= host_end(t, i) <= t.len(),
{
    lemma_cut_whole(t);
    lemma_ip_literal_cut(t, t, i);
    lemma_ipv4_cut(t, t, i);
    lemma_run_bounds(t, i, CharSet::RegName);
}

/// A port ends behind its start.
proof fn lemma_port_bounds(t: Seq<char>, i: int)
    requires
        0 <= i <= t.len(),
    ensures
        i <= port_end(t, i) <= t.len(),
{
    if has(t, i, ':') {
        lemma_run_bounds(t, i + 1, CharSet::Digits);
    }
}

/// A path that starts with `/`, in front of the cut.
proof fn lemma_path_cut(u: Seq<char>, t: Seq<char>, i: int)
    requires
        cut_of(u, t),
        0 <= i <= u.len(),
    ensures
        kept(path_end(t, i), path_end(u, i), u.len() as int),
        path_end(t, i) matches Some(end) ==> i < end <= t.len(),
{
    lemma_cut_chars(u, t);
    lemma_cut_whole(t);
    if has(t, i, '/') {
        if has(t, i + 1, '/') {
            if i + 2 <= u.len() {
                lemma_authority_cut(u, t, i + 2);
            } else {
                lemma_authority_cut(t, t, i + 2);
            }
        } else if i + 1 <= u.len() {
            lemma_rootless_cut(u, t, i + 1, CharSet::Pchar);
        } else {
            lemma_rootless_cut(t, t, i + 1, CharSet::Pchar);
        }
    }
}

/// An absolute URI in front of the cut.
proof fn lemma_absolute_cut(u: Seq<char>, t: Seq<char>, i: int)
    requires
        cut_of(u, t),
        0 <= i <= u.len(),
    ensures
        kept(absolute_end(t, i), absolute_end(u, i), u.len() as int),
        absolute_end(t, i) matches Some(end) ==> i < end <= t.len(),
{
    lemma_cut_chars(u, t);
    lemma_cut_whole(t);
    if i < t.len() {
        lemma_run_bounds(t, i + 1, CharSet::Scheme);
        let colon = run_end(t, i + 1, CharSet::Scheme);
        if colon < t.len() {
            lemma_path_cut(t, t, colon + 1);
            lemma_rootless_cut(t, t, colon + 1, CharSet::Pchar);
        }
        if i < u.len() {
            lemma_run_cut(u, t, i + 1, CharSet::Scheme);
            if colon < u.len() {
                lemma_path_cut(u, t, colon + 1);
                lemma_rootless_cut(u, t, colon + 1, CharSet::Pchar);
            }
        }
    }
}

/// A URI that is read at the start of an input and ends at the cut is read
/// in front of the cut.
pub proof fn lemma_uri_cut(u: Seq<char>, t: Seq<char>)
    requires
        cut_of(u, t),
        uri_at(t, 0) == Some(u.len() as int),
    ensures
        uri_at(u, 0) == Some(u.len() as int),
{
    lemma_absolute_cut(u, t, 0);
    lemma_path_cut(u, t, 0);
    lemma_rootless_cut(u, t, 0, CharSet::NoColon);
    let hier = match absolute_end(t, 0) {
        Some(end) => Some(end),
        None => match path_end(t, 0) {
            Some(end) => Some(end),
            None => rootless_end(t, 0, CharSet::NoColon),
        },
    };
    let end = hier->0;
    lemma_part_bounds(t, end, '?');
    let query = part_end(t, end, '?');
    lemma_part_bounds(t, query, '#');
    lemma_part_cut(u, t, end, '?');
    lemma_part_cut(u, t, query, '#');
}

/// A query or a fragment ends behind its start.
proof fn lemma_part_bounds(t: Seq<char>, i: int, sign: char)
    requires
        0 <= i <= t.len(),
    ensures
        i <= part_end(t, i, sign) <= t.len(),
{
    if has(t, i, sign) {
        lemma_run_bounds(t, i + 1, CharSet::Query);
    }
}

/// A URI is not empty and ends inside the input.
pub proof fn lemma_uri_bounds(t: Seq<char>)
    ensures
        uri_at(t, 0) matches Some(end) ==> 0 < end <= t.len(),
{
    lemma_cut_whole(t);
    lemma_absolute_cut(t, t, 0);
    lemma_path_cut(t, t, 0);
    lemma_rootless_cut(t, t, 0, CharSet::NoColon);
    let hier = match absolute_end(t, 0) {
        Some(end) => Some(end),
        None => match path_end(t, 0) {
            Some(end) => Some(end),
            None => rootless_end(t, 0, CharSet::NoColon),
        },
    };
    if let Some(end) = hier {
        lemma_part_bounds(t, end, '?');
        lemma_part_bounds(t, part_end(t, end, '?'), '#');
    }
}

} // verus!
