//! The cyclomatic complexity of Python code after McCabe, `M = E - N + 2`.
//!
//! A line that branches counts as one edge and two nodes, any other line
//! as one node; entry and exit add two edges and two nodes.

use vstd::prelude::*;

use crate::pattern::{is_match, regex_is_match, regex_valid, InvalidPattern};
use crate::text::{lines, lines_of, names_view};

verus! {

/// An `if` statement.
pub const IF_PATTERN: &'static str = r"if\s+.*:";

/// An `elif` branch.
pub const ELIF_PATTERN: &'static str = r"elif\s+.*:";

/// An `else` branch.
pub const ELSE_PATTERN: &'static str = r"else\s*:";

/// A `for` loop.
pub const FOR_PATTERN: &'static str = r"for\s+.*:";

/// A `while` loop.
pub const WHILE_PATTERN: &'static str = r"while\s+.*:";

/// A `try` block.
pub const TRY_PATTERN: &'static str = r"try\s*:";

/// An `except` branch.
pub const EXCEPT_PATTERN: &'static str = r"except\s+.*:";

/// A `finally` branch.
pub const FINALLY_PATTERN: &'static str = r"finally\s*:";

/// The regular expressions of the statements that branch can be used.
pub open spec fn patterns_valid() -> bool {
    regex_valid(IF_PATTERN@) && regex_valid(ELIF_PATTERN@) && regex_valid(ELSE_PATTERN@)
        && regex_valid(FOR_PATTERN@) && regex_valid(WHILE_PATTERN@) && regex_valid(TRY_PATTERN@)
        && regex_valid(EXCEPT_PATTERN@) && regex_valid(FINALLY_PATTERN@)
}

/// The line holds a statement that branches.
pub open spec fn branches(line: Seq<char>) -> bool {
    regex_is_match(IF_PATTERN@, line) || regex_is_match(ELIF_PATTERN@, line) || regex_is_match(
        ELSE_PATTERN@,
        line,
    ) || regex_is_match(FOR_PATTERN@, line) || regex_is_match(WHILE_PATTERN@, line)
        || regex_is_match(TRY_PATTERN@, line) || regex_is_match(EXCEPT_PATTERN@, line)
        || regex_is_match(FINALLY_PATTERN@, line)
}

/// The number of lines that branch among the first `n`.
pub open spec fn branching(lines: Seq<Seq<char>>, n: int) -> int
    decreases n,
{
    if n <= 0 {
        0
    } else if branches(lines[n - 1]) {
        branching(lines, n - 1) + 1
    } else {
        branching(lines, n - 1)
    }
}

/// The edges of the control flow graph of some lines.
pub open spec fn edges(lines: Seq<Seq<char>>) -> int {
    branching(lines, lines.len() as int) + 2
}

/// The nodes of the control flow graph of some lines.
pub open spec fn nodes(lines: Seq<Seq<char>>) -> int {
    lines.len() + branching(lines, lines.len() as int) + 2
}

/// The lines that branch are among the lines.
pub proof fn lemma_branching_bounds(lines: Seq<Seq<char>>, n: int)
    requires
        0 <= n,
    ensures
        0 <= branching(lines, n) <= n,
    decreases n,
{
    if n > 0 {
        lemma_branching_bounds(lines, n - 1);
    }
}

/// The complexity that the count yields depends on the number of lines
/// alone: each line takes one from it, whether it branches or not.
pub proof fn lemma_complexity(lines: Seq<Seq<char>>)
    ensures
        edges(lines) - nodes(lines) + 2 == 2 - lines.len(),
{
}

/// Tells whether a regular expression can be used.
fn usable(pattern: &str) -> (b: bool)
    ensures
        b == regex_valid(pattern@),
{
    is_match(pattern, "").is_ok()
}

/// Tells whether `line` matches `pattern`.
fn matches(pattern: &str, line: &str) -> (b: bool)
    requires
        regex_valid(pattern@),
    ensures
        b == regex_is_match(pattern@, line@),
{
    match is_match(pattern, line) {
        Ok(found) => found,
        Err(_) => false,
    }
}

/// Counts the edges and nodes of the control flow graph of `code` and
/// returns its complexity, `edges - nodes + 2`.
pub fn check_complexity(code: &str) -> (r: Result<i32, InvalidPattern>)
    requires
        lines_of(code@).len() <= 0x3fff_fff0,
    ensures
        match r {
            Ok(complexity) => patterns_valid() && complexity == edges(lines_of(code@)) - nodes(
                lines_of(code@),
            ) + 2 && complexity == 2 - lines_of(code@).len(),
            Err(_) => !patterns_valid(),
        },
{
    if !(usable(IF_PATTERN) && usable(ELIF_PATTERN) && usable(ELSE_PATTERN) && usable(
        FOR_PATTERN,
    ) && usable(WHILE_PATTERN) && usable(TRY_PATTERN) && usable(EXCEPT_PATTERN) && usable(
        FINALLY_PATTERN,
    )) {
        return Err(InvalidPattern);
    }
    let all = lines(code);
    let ghost views = lines_of(code@);
    let mut edges: i32 = 0;
    let mut nodes: i32 = 0;
    let mut k: usize = 0;
    while k < all.len()
        invariant
            k <= all@.len() <= 0x3fff_fff0,
            patterns_valid(),
            views == names_view(all@),
            edges == branching(views, k as int),
            nodes == k + branching(views, k as int),
        decreases all@.len() - k,
    {
        let line: &str = all[k];
        proof {
            assert(views[k as int] == line@);
            lemma_branching_bounds(views, k as int);
        }
        if matches(IF_PATTERN, line) || matches(ELIF_PATTERN, line) || matches(
            ELSE_PATTERN,
            line,
        ) || matches(FOR_PATTERN, line) || matches(WHILE_PATTERN, line) || matches(
            TRY_PATTERN,
            line,
        ) || matches(EXCEPT_PATTERN, line) || matches(FINALLY_PATTERN, line) {
            edges += 1;
            nodes += 2;
        } else {
            nodes += 1;
        }
        k = k + 1;
    }
    proof {
        lemma_branching_bounds(views, views.len() as int);
        lemma_complexity(views);
    }
    edges += 2;
    nodes += 2;
    Ok(edges - nodes + 2)
}

} // verus!
