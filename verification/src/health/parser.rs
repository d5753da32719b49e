//! The functions of a Python file, each with its code.

use vstd::hash_map::StringHashMap;
use vstd::prelude::*;
use vstd::string::StringExecFns;

use crate::pattern::{find_groups, regex_groups, regex_valid};
use crate::text::{
    lead_end, lines, lines_of, names_view, same_text, texts_view, to_chars, white_space,
};
use crate::utils::texts_of;

verus! {

/// The regular expression that finds the line that starts a function: its
/// first group is the name, its second what stands between the
/// parentheses.
pub const DEF_PATTERN: &'static str = r"^def\s+(\w+)\s*\((.*)\)\s*:\s*$";

/// What the group `group` of the first match in `line` matched.
pub open spec fn first_group(line: Seq<char>, group: nat) -> Option<Seq<char>> {
    let found = regex_groups(DEF_PATTERN@, group, line);
    if regex_valid(DEF_PATTERN@) && found.len() > 0 {
        found[0]
    } else {
        None
    }
}

/// The name and the parameters of the function that `line` starts, if it
/// starts one.
pub open spec fn definition_in(line: Seq<char>) -> Option<(Seq<char>, Seq<char>)> {
    match (first_group(line, 1), first_group(line, 2)) {
        (Some(name), Some(params)) => Some((name, params)),
        _ => None,
    }
}

/// The position of the first line from `from` on that is `line`.
pub open spec fn first_equal(lines: Seq<Seq<char>>, line: Seq<char>, from: int) -> int
    decreases lines.len() - from,
{
    if from < 0 || from >= lines.len() {
        lines.len() as int
    } else if lines[from] == line {
        from
    } else {
        first_equal(lines, line, from + 1)
    }
}

/// The lines from `from` on as the body of a function, a line feed behind
/// each. The first line sets the indentation, unless it has none; the body
/// ends before the first line that is indented less.
pub open spec fn body_from(lines: Seq<Seq<char>>, from: int, indent: int) -> Seq<char>
    decreases lines.len() - from,
{
    if from < 0 || from >= lines.len() {
        Seq::empty()
    } else {
        let white = lead_end(lines[from], 0);
        let indent = if indent == 0 {
            white
        } else {
            indent
        };
        if white < indent {
            Seq::empty()
        } else {
            lines[from] + "\n"@ + body_from(lines, from + 1, indent)
        }
    }
}

/// The code of the function that a line starts: its heading and the body
/// behind the first line that is equal to that line.
pub open spec fn code_of(
    lines: Seq<Seq<char>>,
    line: Seq<char>,
    name: Seq<char>,
    params: Seq<char>,
) -> Seq<char> {
    "def "@ + name + "("@ + params + "):\n"@ + body_from(
        lines,
        first_equal(lines, line, 0) + 1,
        0,
    )
}

/// The functions that the first `n` lines start, by their names. A later
/// function overrides an earlier one of the same name.
pub open spec fn functions_among(lines: Seq<Seq<char>>, n: int) -> Map<Seq<char>, Seq<char>>
    decreases n,
{
    if n <= 0 || n > lines.len() {
        Map::empty()
    } else {
        match definition_in(lines[n - 1]) {
            Some((name, params)) => functions_among(lines, n - 1).insert(
                name,
                code_of(lines, lines[n - 1], name, params),
            ),
            None => functions_among(lines, n - 1),
        }
    }
}

/// Reads what the group `group` of the first match in `line` matched.
fn group_of(line: &str, group: usize) -> (r: Option<String>)
    ensures
        match r {
            Some(text) => first_group(line@, group as nat) == Some(text@),
            None => first_group(line@, group as nat) is None,
        },
{
    match find_groups(DEF_PATTERN, group, line) {
        Ok(found) => {
            if found.len() > 0 {
                match &found[0] {
                    Some(text) => Some(text.clone()),
                    None => None,
                }
            } else {
                None
            }
        },
        Err(_) => None,
    }
}

/// Counts the white space at the start of `line`.
fn indentation(line: &str) -> (n: usize)
    ensures
        n == lead_end(line@, 0),
{
    let chars = to_chars(line);
    let mut n: usize = 0;
    while n < chars.len() && white_space(chars[n])
        invariant
            n <= chars@.len(),
            lead_end(chars@, 0) == lead_end(chars@, n as int),
        decreases chars@.len() - n,
    {
        n = n + 1;
    }
    n
}

/// Writes the body of the function that `line` starts.
fn body_of(all: &Vec<&str>, line: &str) -> (body: String)
    ensures
        body@ == body_from(names_view(all@), first_equal(names_view(all@), line@, 0) + 1, 0),
{
    let ghost views = names_view(all@);
    let mut at: usize = 0;
    while at < all.len() && !same_text(all[at], line)
        invariant
            at <= all@.len(),
            views == names_view(all@),
            first_equal(views, line@, 0) == first_equal(views, line@, at as int),
        decreases all@.len() - at,
    {
        assert(views[at as int] == all@[at as int]@);
        at = at + 1;
    }
    proof {
        if at < all@.len() {
            assert(views[at as int] == all@[at as int]@);
        }
    }
    let mut body = String::new();
    if at >= all.len() {
        assert(body@ =~= body_from(views, at + 1, 0));
        return body;
    }
    let mut k: usize = at + 1;
    let mut indent: usize = 0;
    assert(body@ + body_from(views, k as int, indent as int) =~= body_from(views, at + 1, 0));
    loop
        invariant_except_break
            at < k <= all@.len(),
            body@ + body_from(views, k as int, indent as int) == body_from(views, at + 1, 0),
        invariant
            views == names_view(all@),
        ensures
            body@ == body_from(views, at + 1, 0),
        decreases all@.len() - k,
    {
        if k >= all.len() {
            assert(body@ + Seq::<char>::empty() =~= body@);
            break;
        }
        let next: &str = all[k];
        assert(views[k as int] == next@);
        let white: usize = indentation(next);
        if indent == 0 {
            indent = white;
        }
        if white < indent {
            assert(body@ + Seq::<char>::empty() =~= body@);
            break;
        }
        let ghost before = body@;
        body.append(next);
        body.append("\n");
        assert(before + (next@ + "\n"@ + body_from(views, k + 1, indent as int)) =~= body@
            + body_from(views, k + 1, indent as int));
        k = k + 1;
    }
    body
}

/// Reads the functions of a Python file.
pub fn parse_python_code(code: &str) -> (functions: StringHashMap<String>)
    ensures
        texts_of(functions@) == functions_among(lines_of(code@), lines_of(code@).len() as int),
{
    let all = lines(code);
    let ghost views = lines_of(code@);
    let mut functions: StringHashMap<String> = StringHashMap::new();
    let mut k: usize = 0;
    assert(texts_of(functions@) =~= functions_among(views, 0));
    while k < all.len()
        invariant
            k <= all@.len(),
            views == names_view(all@),
            texts_of(functions@) == functions_among(views, k as int),
        decreases all@.len() - k,
    {
        let line: &str = all[k];
        assert(views[k as int] == line@);
        if let Some(name) = group_of(line, 1) {
            if let Some(params) = group_of(line, 2) {
                let body = body_of(&all, line);
                let text = String::from_str("def ").concat(name.as_str()).concat("(").concat(
                    params.as_str(),
                ).concat("):\n").concat(body.as_str());
                let ghost before = functions@;
                let ghost key = name@;
                functions.insert(name, text);
                assert(texts_of(functions@) =~= texts_of(before).insert(key, text@));
            }
        }
        k = k + 1;
    }
    functions
}

/// The names of the functions that the first `n` lines start, in their
/// order; a name stands as often as it is defined.
pub open spec fn names_among(lines: Seq<Seq<char>>, n: int) -> Seq<Seq<char>>
    decreases n,
{
    if n <= 0 || n > lines.len() {
        Seq::empty()
    } else {
        match definition_in(lines[n - 1]) {
            Some((name, _)) => names_among(lines, n - 1).push(name),
            None => names_among(lines, n - 1),
        }
    }
}

/// Reads the names of the functions of a Python file, in the order in
/// which they are defined.
pub fn defined_names(code: &str) -> (names: Vec<String>)
    ensures
        texts_view(names@) == names_among(
            lines_of(code@),
            lines_of(code@).len() as int,
        ),
{
    let all = lines(code);
    let ghost views = lines_of(code@);
    let mut names: Vec<String> = Vec::new();
    let mut k: usize = 0;
    assert(texts_view(names@) =~= names_among(views, 0));
    while k < all.len()
        invariant
            k <= all@.len(),
            views == names_view(all@),
            texts_view(names@) == names_among(views, k as int),
        decreases all@.len() - k,
    {
        let line: &str = all[k];
        assert(views[k as int] == line@);
        if let Some(name) = group_of(line, 1) {
            if group_of(line, 2).is_some() {
                let ghost so_far = texts_view(names@);
                let ghost key = name@;
                names.push(name);
                assert(texts_view(names@) =~= so_far.push(key));
            }
        }
        k = k + 1;
    }
    names
}

} // verus!
