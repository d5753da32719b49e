//! What a package requires, read out of what `pip show` printed.

use vstd::prelude::*;
use vstd::string::StringExecFns;

use crate::pattern::{find_groups, regex_groups, regex_valid};
use crate::text::{names_view, pieces, split, texts_view, trim, trimmed};

verus! {

/// The regular expression that finds the line of the requirements.
pub const REQUIRES_PATTERN: &'static str = r"Requires: (.*)";

/// The first `n` pieces of a list, each without the white space around it.
pub open spec fn trimmed_all(parts: Seq<Seq<char>>, n: int) -> Seq<Seq<char>>
    decreases n,
{
    if n <= 0 {
        Seq::empty()
    } else {
        trimmed_all(parts, n - 1).push(trimmed(parts[n - 1]))
    }
}

/// The names behind the first `Requires: `, cut at the commas; none where
/// no such line is found.
pub open spec fn required(output: Seq<char>) -> Seq<Seq<char>> {
    let found = regex_groups(REQUIRES_PATTERN@, 1, output);
    if regex_valid(REQUIRES_PATTERN@) && found.len() > 0 && found[0] is Some {
        let parts = pieces(found[0]->0, ',', 0);
        trimmed_all(parts, parts.len() as int)
    } else {
        Seq::empty()
    }
}

/// Reads the names of the packages that a package requires out of what
/// `pip show` printed of it.
pub fn extract_dependencies(pip_show_output: &str) -> (deps: Vec<String>)
    ensures
        texts_view(deps@) == required(pip_show_output@),
{
    let mut deps: Vec<String> = Vec::new();
    let found = match find_groups(REQUIRES_PATTERN, 1, pip_show_output) {
        Ok(found) => found,
        Err(_) => {
            assert(texts_view(deps@) =~= Seq::<Seq<char>>::empty());
            return deps;
        },
    };
    if found.len() == 0 {
        assert(texts_view(deps@) =~= Seq::<Seq<char>>::empty());
        return deps;
    }
    let list: &String = match &found[0] {
        Some(list) => list,
        None => {
            assert(texts_view(deps@) =~= Seq::<Seq<char>>::empty());
            return deps;
        },
    };
    let parts = split(list.as_str(), ',');
    let ghost views = pieces(list@, ',', 0);
    let mut k: usize = 0;
    assert(texts_view(deps@) =~= trimmed_all(views, 0));
    while k < parts.len()
        invariant
            k <= parts@.len(),
            views == names_view(parts@),
            texts_view(deps@) == trimmed_all(views, k as int),
        decreases parts@.len() - k,
    {
        let ghost so_far = texts_view(deps@);
        deps.push(String::from_str(trim(parts[k])));
        assert(texts_view(deps@) =~= so_far.push(trimmed(views[k as int])));
        k = k + 1;
    }
    deps
}

} // verus!
