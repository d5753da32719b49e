//! Version clauses: `comparator version`, separated by commas, optionally
//! wrapped in one pair of parentheses.

use vstd::prelude::*;
use vstd::string::StrSliceExecFns;

use crate::pep_508::{clauses_view, VersionSpec, VersionSpecView};
use crate::pep_508::lexer::{
    alnum, at, comparator, comparator_at, has, is_alnum, lemma_ws_end_bounds, skip_ws, ws_end,
};

verus! {

/// A character of a version: a letter, a digit or one of `-_.*+!`.
pub open spec fn is_version_char(c: char) -> bool {
    is_alnum(c) || c == '-' || c == '_' || c == '.' || c == '*' || c == '+' || c == '!'
}

/// Where the run of version characters that starts at `i` ends.
pub open spec fn version_chars_end(s: Seq<char>, i: int) -> int
    decreases s.len() - i,
{
    if 0 <= i < s.len() && is_version_char(s[i]) {
        version_chars_end(s, i + 1)
    } else {
        i
    }
}

/// One clause at `i`: a comparator, whitespace, at least one version
/// character, and the whitespace behind it.
pub open spec fn version_clause_at(s: Seq<char>, i: int) -> Option<(VersionSpecView, int)> {
    match comparator_at(s, i) {
        Some((comparator, j)) => {
            let from = ws_end(s, j);
            let to = version_chars_end(s, from);
            if from < to {
                Some(
                    (
                        VersionSpecView { comparator, version: s.subrange(from, to) },
                        ws_end(s, to),
                    ),
                )
            } else {
                None
            }
        },
        None => None,
    }
}

/// The clauses that follow the first one, each behind a comma and
/// whitespace, and where they end. A comma that no clause follows is not
/// taken.
pub open spec fn version_list_tail(s: Seq<char>, i: int) -> (Seq<VersionSpecView>, int)
    decreases s.len() - i,
{
    if has(s, i, ',') {
        match version_clause_at(s, ws_end(s, i + 1)) {
            Some((clause, j)) => {
                proof {
                    lemma_ws_end_bounds(s, i + 1);
                    lemma_version_clause_bounds(s, ws_end(s, i + 1));
                }
                let (rest, end) = version_list_tail(s, j);
                (seq![clause] + rest, end)
            },
            None => (Seq::empty(), i),
        }
    } else {
        (Seq::empty(), i)
    }
}

/// One or more clauses at `i`, in the order written.
pub open spec fn version_list_at(s: Seq<char>, i: int) -> Option<(Seq<VersionSpecView>, int)> {
    match version_clause_at(s, i) {
        Some((clause, j)) => {
            let (rest, end) = version_list_tail(s, j);
            Some((seq![clause] + rest, end))
        },
        None => None,
    }
}

/// The clause list inside `(`, whitespace and `)`, if that is what stands
/// at `i`.
pub open spec fn version_list_in_parens(s: Seq<char>, i: int) -> Option<
    (Seq<VersionSpecView>, int),
> {
    if has(s, i, '(') {
        match version_list_at(s, ws_end(s, i + 1)) {
            Some((clauses, j)) => if has(s, j, ')') {
                Some((clauses, j + 1))
            } else {
                None
            },
            None => None,
        }
    } else {
        None
    }
}

/// A version specification at `i`: the parenthesised form is tried first,
/// then the bare list.
pub open spec fn version_spec_at(s: Seq<char>, i: int) -> Option<(Seq<VersionSpecView>, int)> {
    match version_list_in_parens(s, i) {
        Some(found) => Some(found),
        None => version_list_at(s, i),
    }
}

/// A run of version characters ends between its start and the end of the
/// input.
pub proof fn lemma_version_chars_bounds(s: Seq<char>, i: int)
    requires
        0 <= i <= s.len(),
    ensures
        i <= version_chars_end(s, i) <= s.len(),
    decreases s.len() - i,
{
    if i < s.len() && is_version_char(s[i]) {
        lemma_version_chars_bounds(s, i + 1);
    }
}

/// A clause is never empty and ends inside the input.
pub proof fn lemma_version_clause_bounds(s: Seq<char>, i: int)
    requires
        0 <= i <= s.len(),
    ensures
        version_clause_at(s, i) matches Some((_, j)) ==> i < j <= s.len(),
{
    if let Some((_, j)) = comparator_at(s, i) {
        lemma_ws_end_bounds(s, j);
        let from = ws_end(s, j);
        lemma_version_chars_bounds(s, from);
        lemma_ws_end_bounds(s, version_chars_end(s, from));
    }
}

/// Tells whether `c` is a version character.
pub fn version_char(c: char) -> (b: bool)
    ensures
        b == is_version_char(c),
{
    alnum(c) || c == '-' || c == '_' || c == '.' || c == '*' || c == '+' || c == '!'
}

/// Reads one clause at `i`.
pub fn version_clause<'a>(text: &'a str, s: &[char], i: usize) -> (r: Option<
    (VersionSpec<'a>, usize),
>)
    requires
        text@ == s@,
        i <= s@.len(),
    ensures
        match r {
            Some((clause, j)) => version_clause_at(s@, i as int) == Some((clause@, j as int))
                && i < j <= s@.len(),
            None => version_clause_at(s@, i as int) is None,
        },
{
    match comparator(s, i) {
        Some((comparator, j)) => {
            let from: usize = skip_ws(s, j);
            let mut to: usize = from;
            while to < s.len() && version_char(s[to])
                invariant
                    from <= to <= s@.len(),
                    version_chars_end(s@, from as int) == version_chars_end(s@, to as int),
                decreases s@.len() - to,
            {
                to = to + 1;
            }
            if from < to {
                let version: &'a str = text.substring_char(from, to);
                let end: usize = skip_ws(s, to);
                Some((VersionSpec { comparator, version }, end))
            } else {
                None
            }
        },
        None => None,
    }
}

/// Reads one or more clauses at `i`.
pub fn version_list<'a>(text: &'a str, s: &[char], i: usize) -> (r: Option<
    (Vec<VersionSpec<'a>>, usize),
>)
    requires
        text@ == s@,
        i <= s@.len(),
    ensures
        match r {
            Some((clauses, j)) => version_list_at(s@, i as int) == Some(
                (clauses_view(clauses@), j as int),
            ) && i < j <= s@.len(),
            None => version_list_at(s@, i as int) is None,
        },
{
    let (first, after) = match version_clause(text, s, i) {
        Some(found) => found,
        None => {
            return None;
        },
    };
    let ghost first_view = first@;
    let mut clauses: Vec<VersionSpec<'a>> = Vec::new();
    clauses.push(first);
    let mut j: usize = after;
    assert(clauses_view(clauses@) =~= seq![first_view]);
    loop
        invariant
            text@ == s@,
            i < after <= j <= s@.len(),
            clauses_view(clauses@).len() >= 1,
            seq![first_view] + version_list_tail(s@, after as int).0 == clauses_view(clauses@)
                + version_list_tail(s@, j as int).0,
            version_list_tail(s@, after as int).1 == version_list_tail(s@, j as int).1,
        ensures
            i < j <= s@.len(),
            seq![first_view] + version_list_tail(s@, after as int).0 == clauses_view(clauses@),
            version_list_tail(s@, after as int).1 == j,
        decreases s@.len() - j,
    {
        if !at(s, j, ',') {
            assert(version_list_tail(s@, j as int).0 =~= Seq::empty());
            assert(clauses_view(clauses@) + Seq::<VersionSpecView>::empty() =~= clauses_view(
                clauses@,
            ));
            break;
        }
        let start: usize = skip_ws(s, j + 1);
        match version_clause(text, s, start) {
            Some((clause, next)) => {
                let ghost before = clauses_view(clauses@);
                let ghost rest = version_list_tail(s@, next as int).0;
                clauses.push(clause);
                assert(clauses_view(clauses@) =~= before + seq![clause@]);
                assert(before + (seq![clause@] + rest) =~= (before + seq![clause@]) + rest);
                j = next;
            },
            None => {
                assert(version_list_tail(s@, j as int).0 =~= Seq::empty());
                assert(clauses_view(clauses@) + Seq::<VersionSpecView>::empty()
                    =~= clauses_view(clauses@));
                break;
            },
        }
    }
    Some((clauses, j))
}

/// Reads a version specification at `i`, in parentheses or bare.
pub fn version_spec<'a>(text: &'a str, s: &[char], i: usize) -> (r: Option<
    (Vec<VersionSpec<'a>>, usize),
>)
    requires
        text@ == s@,
        i <= s@.len(),
    ensures
        match r {
            Some((clauses, j)) => version_spec_at(s@, i as int) == Some(
                (clauses_view(clauses@), j as int),
            ) && i < j <= s@.len(),
            None => version_spec_at(s@, i as int) is None,
        },
{
    if at(s, i, '(') {
        let start: usize = skip_ws(s, i + 1);
        match version_list(text, s, start) {
            Some((clauses, j)) => {
                if at(s, j, ')') {
                    return Some((clauses, j + 1));
                }
            },
            None => {},
        }
    }
    version_list(text, s, i)
}

} // verus!
