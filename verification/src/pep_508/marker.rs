//! Environment markers: comparisons of environment attributes and quoted
//! strings, joined by `and` and `or` and grouped by parentheses.
//!
//! `and` binds tighter than `or`, and each level joins at most two operands:
//! `a and b and c` is not a marker, `(a and b) and c` is. Nesting is limited
//! only by the stack of the machine, which the parser uses one frame of for
//! each open parenthesis.

use vstd::prelude::*;
use vstd::string::StrSliceExecFns;

use crate::pep_508::{Marker, MarkerView, Operator, Variable, VariableView};
use crate::pep_508::lexer::{
    alnum, as_pos, at, at_word, comparator, comparator_at, has, is_alnum, lemma_ws_end_bounds, lit,
    skip_ws, ws_end,
};

verus! {

/// A character that may stand in a quoted string whichever quote is used.
pub open spec fn is_marker_char(c: char) -> bool {
    is_alnum(c) || c == ' ' || c == '\t' || c == '(' || c == ')' || c == '.' || c == '{' || c
        == '}' || c == '-' || c == '_' || c == '*' || c == '#' || c == ':' || c == ';' || c == ','
        || c == '/' || c == '?' || c == '[' || c == ']' || c == '!' || c == '~' || c == '`' || c
        == '@' || c == '$' || c == '%' || c == '^' || c == '&' || c == '=' || c == '+' || c == '|'
        || c == '<' || c == '>'
}

/// A character that may stand between two quotes `quote`: a marker
/// character, or the other quote.
pub open spec fn is_quoted_char(c: char, quote: char) -> bool {
    is_marker_char(c) || ((c == '\'' || c == '"') && c != quote)
}

/// Where the run of characters ends that may stand inside the quotes.
pub open spec fn quoted_body_end(s: Seq<char>, i: int, quote: char) -> int
    decreases s.len() - i,
{
    if 0 <= i < s.len() && is_quoted_char(s[i], quote) {
        quoted_body_end(s, i + 1, quote)
    } else {
        i
    }
}

/// The string between two quotes `quote` at `i`, and the position behind
/// the closing quote.
pub open spec fn quoted_at(s: Seq<char>, i: int, quote: char) -> Option<(Seq<char>, int)> {
    if has(s, i, quote) {
        let close = quoted_body_end(s, i + 1, quote);
        if has(s, close, quote) {
            Some((s.subrange(i + 1, close), close + 1))
        } else {
            None
        }
    } else {
        None
    }
}

/// The environment attribute named at `i`, the names tried in this order.
pub open spec fn attribute_at(s: Seq<char>, i: int) -> Option<(VariableView, int)> {
    if lit(s, i, "python_version"@) {
        Some((VariableView::PythonVersion, i + "python_version"@.len()))
    } else if lit(s, i, "python_full_version"@) {
        Some((VariableView::PythonFullVersion, i + "python_full_version"@.len()))
    } else if lit(s, i, "os_name"@) {
        Some((VariableView::OsName, i + "os_name"@.len()))
    } else if lit(s, i, "sys_platform"@) {
        Some((VariableView::SysPlatform, i + "sys_platform"@.len()))
    } else if lit(s, i, "platform_release"@) {
        Some((VariableView::PlatformRelease, i + "platform_release"@.len()))
    } else if lit(s, i, "platform_system"@) {
        Some((VariableView::PlatformSystem, i + "platform_system"@.len()))
    } else if lit(s, i, "platform_version"@) {
        Some((VariableView::PlatformVersion, i + "platform_version"@.len()))
    } else if lit(s, i, "platform_machine"@) {
        Some((VariableView::PlatformMachine, i + "platform_machine"@.len()))
    } else if lit(s, i, "platform_python_implementation"@) {
        Some(
            (
                VariableView::PlatformPythonImplementation,
                i + "platform_python_implementation"@.len(),
            ),
        )
    } else if lit(s, i, "implementation_name"@) {
        Some((VariableView::ImplementationName, i + "implementation_name"@.len()))
    } else if lit(s, i, "implementation_version"@) {
        Some((VariableView::ImplementationVersion, i + "implementation_version"@.len()))
    } else if lit(s, i, "extra"@) {
        Some((VariableView::Extra, i + "extra"@.len()))
    } else {
        None
    }
}

/// An operand at `i`: a string in single quotes, a string in double quotes,
/// or an environment attribute.
pub open spec fn variable_at(s: Seq<char>, i: int) -> Option<(VariableView, int)> {
    match quoted_at(s, i, '\'') {
        Some((text, j)) => Some((VariableView::String(text), j)),
        None => match quoted_at(s, i, '"') {
            Some((text, j)) => Some((VariableView::String(text), j)),
            None => attribute_at(s, i),
        },
    }
}

/// The relation at `i`: a comparator, `in`, or `not`, at least one
/// whitespace character and `in`.
pub open spec fn operator_at(s: Seq<char>, i: int) -> Option<(Operator, int)> {
    match comparator_at(s, i) {
        Some((comparator, j)) => Some((Operator::Comparator(comparator), j)),
        None => {
            if lit(s, i, "in"@) {
                Some((Operator::In, i + "in"@.len()))
            } else if lit(s, i, "not"@) {
                let gap = i + "not"@.len();
                let word = ws_end(s, gap);
                if gap < word && lit(s, word, "in"@) {
                    Some((Operator::NotIn, word + "in"@.len()))
                } else {
                    None
                }
            } else {
                None
            }
        },
    }
}

/// A comparison at `i`: operand, relation, operand, with whitespace skipped
/// in between.
pub open spec fn comparison_at(s: Seq<char>, i: int) -> Option<(MarkerView, int)> {
    match variable_at(s, i) {
        Some((lhs, j)) => match operator_at(s, ws_end(s, j)) {
            Some((op, k)) => match variable_at(s, ws_end(s, k)) {
                Some((rhs, end)) => Some((MarkerView::Operator(lhs, op, rhs), end)),
                None => None,
            },
            None => None,
        },
        None => None,
    }
}

/// Where the right operand of a joining word starts, if whitespace, the
/// word `word` and whitespace stand at `i`.
pub open spec fn joined_at(s: Seq<char>, i: int, word: Seq<char>) -> Option<int> {
    let start = ws_end(s, i);
    if lit(s, start, word) {
        Some(ws_end(s, start + word.len()))
    } else {
        None
    }
}

/// A marker without a joining word outside parentheses: a comparison, or a
/// whole marker between `(` and `)`.
pub open spec fn marker_expr_at(s: Seq<char>, i: int) -> Option<(MarkerView, int)>
    decreases s.len() - i, 0int,
{
    match comparison_at(s, i) {
        Some(found) => Some(found),
        None => {
            if has(s, i, '(') {
                proof {
                    lemma_ws_end_bounds(s, i + 1);
                }
                match marker_or_at(s, ws_end(s, i + 1)) {
                    Some((inner, j)) => {
                        let close = ws_end(s, j);
                        if has(s, close, ')') {
                            Some((inner, close + 1))
                        } else {
                            None
                        }
                    },
                    None => None,
                }
            } else {
                None
            }
        },
    }
}

/// One operand, or two joined by a single `and`. Where `and` stands but no
/// operand follows it, the word is not taken.
///
/// The bounds asked of `next` only show that the definition is well
/// founded: they always hold, which `lemma_join_advances` proves.
pub open spec fn marker_and_at(s: Seq<char>, i: int) -> Option<(MarkerView, int)>
    decreases s.len() - i, 1int,
{
    match marker_expr_at(s, i) {
        Some((lhs, j)) => match joined_at(s, j, "and"@) {
            Some(next) => {
                if i < next <= s.len() {
                    match marker_expr_at(s, next) {
                        Some((rhs, end)) => Some(
                            (MarkerView::And(Box::new(lhs), Box::new(rhs)), end),
                        ),
                        None => Some((lhs, j)),
                    }
                } else {
                    Some((lhs, j))
                }
            },
            None => Some((lhs, j)),
        },
        None => None,
    }
}

/// A marker: one `and`-level operand, or two joined by a single `or`.
///
/// The bounds asked of `next` only show that the definition is well
/// founded: they always hold, which `lemma_join_advances` proves.
pub open spec fn marker_or_at(s: Seq<char>, i: int) -> Option<(MarkerView, int)>
    decreases s.len() - i, 2int,
{
    match marker_and_at(s, i) {
        Some((lhs, j)) => match joined_at(s, j, "or"@) {
            Some(next) => {
                if i < next <= s.len() {
                    match marker_and_at(s, next) {
                        Some((rhs, end)) => Some(
                            (MarkerView::Or(Box::new(lhs), Box::new(rhs)), end),
                        ),
                        None => Some((lhs, j)),
                    }
                } else {
                    Some((lhs, j))
                }
            },
            None => Some((lhs, j)),
        },
        None => None,
    }
}

/// What an executable marker parser hands back, by value.
pub open spec fn marker_found<'a>(r: Option<(Marker<'a>, usize)>) -> Option<(MarkerView, int)> {
    match r {
        Some((marker, j)) => Some((marker@, j as int)),
        None => None,
    }
}

/// What an executable operand parser hands back, by value.
pub open spec fn variable_found<'a>(r: Option<(Variable<'a>, usize)>) -> Option<
    (VariableView, int),
> {
    match r {
        Some((variable, j)) => Some((variable@, j as int)),
        None => None,
    }
}

/// Tells whether `c` may stand in a quoted string whichever quote is used.
pub fn marker_char(c: char) -> (b: bool)
    ensures
        b == is_marker_char(c),
{
    alnum(c) || c == ' ' || c == '\t' || c == '(' || c == ')' || c == '.' || c == '{' || c == '}'
        || c == '-' || c == '_' || c == '*' || c == '#' || c == ':' || c == ';' || c == ',' || c
        == '/' || c == '?' || c == '[' || c == ']' || c == '!' || c == '~' || c == '`' || c == '@'
        || c == '$' || c == '%' || c == '^' || c == '&' || c == '=' || c == '+' || c == '|' || c
        == '<' || c == '>'
}

/// Reads a string between two quotes `quote` at `i`.
pub fn quoted<'a>(text: &'a str, s: &[char], i: usize, quote: char) -> (r: Option<
    (&'a str, usize),
>)
    requires
        text@ == s@,
        i <= s@.len(),
    ensures
        match r {
            Some((body, j)) => quoted_at(s@, i as int, quote) == Some((body@, j as int)) && i < j
                <= s@.len(),
            None => quoted_at(s@, i as int, quote) is None,
        },
{
    if !at(s, i, quote) {
        return None;
    }
    let mut close: usize = i + 1;
    while close < s.len() && (marker_char(s[close]) || ((s[close] == '\'' || s[close] == '"')
        && s[close] != quote))
        invariant
            i < close <= s@.len(),
            quoted_body_end(s@, i + 1, quote) == quoted_body_end(s@, close as int, quote),
        decreases s@.len() - close,
    {
        close = close + 1;
    }
    if at(s, close, quote) {
        Some((text.substring_char(i + 1, close), close + 1))
    } else {
        None
    }
}

/// Tells where `word` ends if it stands at `i`.
pub fn word(s: &[char], i: usize, expected: &str) -> (r: Option<usize>)
    requires
        i <= s@.len(),
    ensures
        match r {
            Some(j) => lit(s@, i as int, expected@) && j == i + expected@.len() && j
                <= s@.len(),
            None => !lit(s@, i as int, expected@),
        },
{
    if at_word(s, i, expected) {
        assert(i + expected@.len() <= s.len());
        Some(i + expected.unicode_len())
    } else {
        None
    }
}

/// Reads the environment attribute named at `i`.
pub fn attribute<'a>(s: &[char], i: usize) -> (r: Option<(Variable<'a>, usize)>)
    requires
        i <= s@.len(),
    ensures
        variable_found(r) == attribute_at(s@, i as int),
        r matches Some((_, j)) ==> i <= j <= s@.len(),
{
    if let Some(j) = word(s, i, "python_version") {
        Some((Variable::PythonVersion, j))
    } else if let Some(j) = word(s, i, "python_full_version") {
        Some((Variable::PythonFullVersion, j))
    } else if let Some(j) = word(s, i, "os_name") {
        Some((Variable::OsName, j))
    } else if let Some(j) = word(s, i, "sys_platform") {
        Some((Variable::SysPlatform, j))
    } else if let Some(j) = word(s, i, "platform_release") {
        Some((Variable::PlatformRelease, j))
    } else if let Some(j) = word(s, i, "platform_system") {
        Some((Variable::PlatformSystem, j))
    } else if let Some(j) = word(s, i, "platform_version") {
        Some((Variable::PlatformVersion, j))
    } else if let Some(j) = word(s, i, "platform_machine") {
        Some((Variable::PlatformMachine, j))
    } else if let Some(j) = word(s, i, "platform_python_implementation") {
        Some((Variable::PlatformPythonImplementation, j))
    } else if let Some(j) = word(s, i, "implementation_name") {
        Some((Variable::ImplementationName, j))
    } else if let Some(j) = word(s, i, "implementation_version") {
        Some((Variable::ImplementationVersion, j))
    } else if let Some(j) = word(s, i, "extra") {
        Some((Variable::Extra, j))
    } else {
        None
    }
}

/// Reads an operand at `i`.
pub fn variable<'a>(text: &'a str, s: &[char], i: usize) -> (r: Option<(Variable<'a>, usize)>)
    requires
        text@ == s@,
        i <= s@.len(),
    ensures
        variable_found(r) == variable_at(s@, i as int),
        r matches Some((_, j)) ==> i <= j <= s@.len(),
{
    if let Some((body, j)) = quoted(text, s, i, '\'') {
        Some((Variable::String(body), j))
    } else if let Some((body, j)) = quoted(text, s, i, '"') {
        Some((Variable::String(body), j))
    } else {
        attribute(s, i)
    }
}

/// Reads the relation at `i`.
pub fn operator(s: &[char], i: usize) -> (r: Option<(Operator, usize)>)
    requires
        i <= s@.len(),
    ensures
        match r {
            Some((op, j)) => operator_at(s@, i as int) == Some((op, j as int)) && i <= j
                <= s@.len(),
            None => operator_at(s@, i as int) is None,
        },
{
    if let Some((found, j)) = comparator(s, i) {
        Some((Operator::Comparator(found), j))
    } else if let Some(j) = word(s, i, "in") {
        Some((Operator::In, j))
    } else if let Some(gap) = word(s, i, "not") {
        let start: usize = skip_ws(s, gap);
        if gap < start {
            if let Some(j) = word(s, start, "in") {
                return Some((Operator::NotIn, j));
            }
        }
        None
    } else {
        None
    }
}

/// Reads a comparison at `i`.
pub fn comparison<'a>(text: &'a str, s: &[char], i: usize) -> (r: Option<(Marker<'a>, usize)>)
    requires
        text@ == s@,
        i <= s@.len(),
    ensures
        marker_found(r) == comparison_at(s@, i as int),
        r matches Some((_, j)) ==> i <= j <= s@.len(),
{
    let (lhs, j) = match variable(text, s, i) {
        Some(found) => found,
        None => {
            return None;
        },
    };
    let (op, k) = match operator(s, skip_ws(s, j)) {
        Some(found) => found,
        None => {
            return None;
        },
    };
    match variable(text, s, skip_ws(s, k)) {
        Some((rhs, end)) => Some((Marker::Operator(lhs, op, rhs), end)),
        None => None,
    }
}

/// Tells where the right operand starts if whitespace, `word` and
/// whitespace stand at `i`.
pub fn joined(s: &[char], i: usize, joining: &str) -> (r: Option<usize>)
    requires
        i <= s@.len(),
    ensures
        as_pos(r) == joined_at(s@, i as int, joining@),
        r matches Some(j) ==> i + joining@.len() <= j <= s@.len(),
{
    let start: usize = skip_ws(s, i);
    match word(s, start, joining) {
        Some(after) => Some(skip_ws(s, after)),
        None => None,
    }
}

/// Reads a comparison or a marker in parentheses at `i`.
pub fn marker_expr<'a>(text: &'a str, s: &[char], i: usize) -> (r: Option<(Marker<'a>, usize)>)
    requires
        text@ == s@,
        i <= s@.len(),
    ensures
        marker_found(r) == marker_expr_at(s@, i as int),
        r matches Some((_, j)) ==> i <= j <= s@.len(),
    decreases s@.len() - i, 0int,
{
    if let Some(found) = comparison(text, s, i) {
        return Some(found);
    }
    if !at(s, i, '(') {
        return None;
    }
    match marker_or(text, s, skip_ws(s, i + 1)) {
        Some((inner, j)) => {
            let close: usize = skip_ws(s, j);
            if at(s, close, ')') {
                Some((inner, close + 1))
            } else {
                None
            }
        },
        None => None,
    }
}

/// Reads one operand, or two joined by `and`, at `i`.
pub fn marker_and<'a>(text: &'a str, s: &[char], i: usize) -> (r: Option<(Marker<'a>, usize)>)
    requires
        text@ == s@,
        i <= s@.len(),
    ensures
        marker_found(r) == marker_and_at(s@, i as int),
        r matches Some((_, j)) ==> i <= j <= s@.len(),
    decreases s@.len() - i, 1int,
{
    let (lhs, j) = match marker_expr(text, s, i) {
        Some(found) => found,
        None => {
            return None;
        },
    };
    proof {
        reveal_strlit("and");
    }
    match joined(s, j, "and") {
        Some(next) => match marker_expr(text, s, next) {
            Some((rhs, end)) => Some((Marker::And(Box::new(lhs), Box::new(rhs)), end)),
            None => Some((lhs, j)),
        },
        None => Some((lhs, j)),
    }
}

/// Reads a marker at `i`.
pub fn marker_or<'a>(text: &'a str, s: &[char], i: usize) -> (r: Option<(Marker<'a>, usize)>)
    requires
        text@ == s@,
        i <= s@.len(),
    ensures
        marker_found(r) == marker_or_at(s@, i as int),
        r matches Some((_, j)) ==> i <= j <= s@.len(),
    decreases s@.len() - i, 2int,
{
    let (lhs, j) = match marker_and(text, s, i) {
        Some(found) => found,
        None => {
            return None;
        },
    };
    proof {
        reveal_strlit("or");
    }
    match joined(s, j, "or") {
        Some(next) => match marker_and(text, s, next) {
            Some((rhs, end)) => Some((Marker::Or(Box::new(lhs), Box::new(rhs)), end)),
            None => Some((lhs, j)),
        },
        None => Some((lhs, j)),
    }
}

} // verus!
