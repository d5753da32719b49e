//! From the text of a declaration to the dependencies it names.
//!
//! Each declaration is one dependency specifier. Of its version clauses
//! only the first is handed on; a direct reference hands nothing on.

use vstd::prelude::*;
use vstd::string::StringExecFns;

use crate::parser::structs::{Dependency, DependencyView, VersionStatus};
use crate::pattern::{
    find_groups, find_matches, groups_view, regex_groups, regex_matches, regex_valid,
};
use crate::pep_508;
use crate::pep_508::{parse, parsed, ParseError, Spec, SpecView};
use crate::text::{
    names_view, pieces, remove, remove_first, split, texts_view, trim, trimmed, without,
    without_first,
};

verus! {

/// What a parsed specifier hands on to the scan: its name, and the first
/// version clause where it has version clauses. A specifier with a direct
/// reference hands nothing on.
pub open spec fn requirement_of(d: pep_508::DependencyView) -> Option<DependencyView> {
    match d.spec {
        Some(SpecView::Version(clauses)) => {
            if clauses.len() > 0 {
                Some(
                    DependencyView {
                        name: d.name,
                        version: Some(clauses[0].version),
                        comparator: Some(clauses[0].comparator),
                        version_status: VersionStatus { pypi: false, pip: false, source: true },
                    },
                )
            } else {
                None
            }
        },
        Some(SpecView::Url(_)) => None,
        None => Some(
            DependencyView {
                name: d.name,
                version: None,
                comparator: None,
                version_status: VersionStatus { pypi: false, pip: false, source: false },
            },
        ),
    }
}

/// What the text of one declaration adds to the dependencies found so far.
pub open spec fn found_in(text: Seq<char>) -> Seq<DependencyView> {
    match parsed(text) {
        Ok(d) => match requirement_of(d) {
            Some(found) => seq![found],
            None => Seq::empty(),
        },
        Err(_) => Seq::empty(),
    }
}

/// The dependencies of a vector, each by its value.
pub open spec fn dependencies_view(imp: Seq<Dependency>) -> Seq<DependencyView> {
    Seq::new(imp.len(), |k: int| imp[k]@)
}

/// Computes [`requirement_of`].
pub fn requirement(d: &pep_508::Dependency) -> (found: Option<Dependency>)
    ensures
        match found {
            Some(dependency) => requirement_of(d@) == Some(dependency@),
            None => requirement_of(d@) is None,
        },
{
    match &d.spec {
        Some(Spec::Version(clauses)) => {
            if clauses.len() > 0 {
                Some(
                    Dependency {
                        name: String::from_str(d.name),
                        version: Some(String::from_str(clauses[0].version)),
                        comparator: Some(clauses[0].comparator),
                        version_status: VersionStatus { pypi: false, pip: false, source: true },
                    },
                )
            } else {
                None
            }
        },
        Some(Spec::Url(_)) => None,
        None => Some(
            Dependency {
                name: String::from_str(d.name),
                version: None,
                comparator: None,
                version_status: VersionStatus { pypi: false, pip: false, source: false },
            },
        ),
    }
}

/// Reads one line of a requirements file and adds what it declares to
/// `imp`. A line that is no dependency specifier adds nothing, and what is
/// wrong with it is handed back.
pub fn extract_imports_reqs(text: &str, imp: &mut Vec<Dependency>) -> (r: Result<
    (),
    Vec<ParseError>,
>)
    ensures
        dependencies_view(final(imp)@) == dependencies_view(old(imp)@) + found_in(text@),
        match r {
            Ok(_) => parsed(text@) is Ok,
            Err(errors) => parsed(text@) is Err && pep_508::reports(
                errors@,
                text@,
                parsed(text@)->Err_0,
            ),
        },
{
    let ghost before = dependencies_view(imp@);
    match parse(text) {
        Ok(dep) => {
            match requirement(&dep) {
                Some(found) => {
                    imp.push(found);
                    assert(dependencies_view(imp@) =~= before + seq![found@]);
                },
                None => {
                    assert(dependencies_view(imp@) =~= before + Seq::<DependencyView>::empty());
                },
            }
            Ok(())
        },
        Err(errors) => {
            assert(dependencies_view(imp@) =~= before + Seq::<DependencyView>::empty());
            Err(errors)
        },
    }
}

/// Reads the declarations `lines` one by one and adds what they declare to
/// `imp`; a declaration that is no dependency specifier adds nothing.
pub fn extract_all(lines: &Vec<String>, imp: &mut Vec<Dependency>)
    ensures
        dependencies_view(final(imp)@) == dependencies_view(old(imp)@) + found_in_all(
            texts_view(lines@),
            lines@.len() as int,
        ),
{
    let ghost before = dependencies_view(imp@);
    let ghost texts = texts_view(lines@);
    let mut k: usize = 0;
    assert(before + found_in_all(texts, 0) =~= before);
    while k < lines.len()
        invariant
            k <= lines@.len(),
            texts == texts_view(lines@),
            dependencies_view(imp@) == before + found_in_all(texts, k as int),
        decreases lines@.len() - k,
    {
        let ghost so_far = found_in_all(texts, k as int);
        let _ = extract_imports_reqs(lines[k].as_str(), imp);
        assert(before + so_far + found_in(texts[k as int]) =~= before + (so_far + found_in(
            texts[k as int],
        )));
        k = k + 1;
    }
}

/// What the first `n` of some declarations add to the dependencies found.
pub open spec fn found_in_all(lines: Seq<Seq<char>>, n: int) -> Seq<DependencyView>
    decreases n,
{
    if n <= 0 {
        Seq::empty()
    } else {
        found_in_all(lines, n - 1) + found_in(lines[n - 1])
    }
}

/// The regular expression that finds an import statement at the start of
/// a line of Python.
pub const IMPORT_PATTERN: &'static str = r"^\s*(?:from|import)\s+(\w+(?:\s*,\s*\w+)*)";

/// The regular expression that finds the list behind `install_requires`.
pub const INSTALL_REQUIRES_PATTERN: &'static str = r"install_requires\s*=\s*\[([^\]]+)\]";

/// The dependency that an import statement names: the statement without
/// its first `import` and without the white space around what is left. No
/// version is known of it.
pub open spec fn imported(statement: Seq<char>) -> DependencyView {
    DependencyView {
        name: trimmed(without_first(statement, "import"@)),
        version: None,
        comparator: None,
        version_status: VersionStatus { pypi: false, pip: false, source: false },
    }
}

/// The dependencies that the first `n` of some import statements name.
pub open spec fn imported_all(statements: Seq<Seq<char>>, n: int) -> Seq<DependencyView>
    decreases n,
{
    if n <= 0 {
        Seq::empty()
    } else {
        imported_all(statements, n - 1).push(imported(statements[n - 1]))
    }
}

/// What a line of Python adds to the dependencies found so far: what the
/// import statement at its start names, if there is one.
pub open spec fn imports_in(line: Seq<char>) -> Seq<DependencyView> {
    if regex_valid(IMPORT_PATTERN@) {
        let statements = regex_matches(IMPORT_PATTERN@, line);
        imported_all(statements, statements.len() as int)
    } else {
        Seq::empty()
    }
}

/// Reads one line of Python and adds the module that it imports to `imp`.
pub fn extract_imports_python(text: &str, imp: &mut Vec<Dependency>)
    ensures
        dependencies_view(final(imp)@) == dependencies_view(old(imp)@) + imports_in(text@),
{
    let ghost before = dependencies_view(imp@);
    let statements = match find_matches(IMPORT_PATTERN, text) {
        Ok(statements) => statements,
        Err(_) => {
            assert(dependencies_view(imp@) =~= before + Seq::<DependencyView>::empty());
            return ;
        },
    };
    let ghost texts = texts_view(statements@);
    let mut k: usize = 0;
    assert(dependencies_view(imp@) =~= before + imported_all(texts, 0));
    while k < statements.len()
        invariant
            k <= statements@.len(),
            texts == texts_view(statements@),
            dependencies_view(imp@) == before + imported_all(texts, k as int),
        decreases statements@.len() - k,
    {
        let without_word = remove_first(statements[k].as_str(), "import");
        let name = String::from_str(trim(without_word.as_str()));
        let found = Dependency {
            name,
            version: None,
            comparator: None,
            version_status: VersionStatus { pypi: false, pip: false, source: false },
        };
        let ghost so_far = dependencies_view(imp@);
        imp.push(found);
        assert(dependencies_view(imp@) =~= so_far.push(imported(texts[k as int])));
        assert(before + imported_all(texts, k as int).push(imported(texts[k as int]))
            =~= (before + imported_all(texts, k as int)).push(imported(texts[k as int])));
        k = k + 1;
    }
}

/// A piece of the list behind `install_requires` as the declaration it
/// is: without the white space around it, and without double quotes and
/// backslashes.
pub open spec fn cleaned(piece: Seq<char>) -> Seq<char> {
    without(without(trimmed(piece), '"'), '\\')
}

/// The first `n` of the pieces of a list, each as a declaration.
pub open spec fn cleaned_all(parts: Seq<Seq<char>>, n: int) -> Seq<Seq<char>>
    decreases n,
{
    if n <= 0 {
        Seq::empty()
    } else {
        cleaned_all(parts, n - 1).push(cleaned(parts[n - 1]))
    }
}

/// The declarations in the first `n` of the lists found behind
/// `install_requires`: each list is cut at its commas.
pub open spec fn declarations(lists: Seq<Option<Seq<char>>>, n: int) -> Seq<Seq<char>>
    decreases n,
{
    if n <= 0 {
        Seq::empty()
    } else {
        declarations(lists, n - 1) + match lists[n - 1] {
            Some(list) => cleaned_all(pieces(list, ',', 0), pieces(list, ',', 0).len() as int),
            None => Seq::empty(),
        }
    }
}

/// What the text of a `setup.py` adds to the dependencies found so far.
pub open spec fn setup_py_imports(content: Seq<char>) -> Seq<DependencyView> {
    if regex_valid(INSTALL_REQUIRES_PATTERN@) {
        let lists = regex_groups(INSTALL_REQUIRES_PATTERN@, 1, content);
        let found = declarations(lists, lists.len() as int);
        found_in_all(found, found.len() as int)
    } else {
        Seq::empty()
    }
}

/// Adds the declarations of one list, cut at its commas, to `deps`.
fn add_declarations(list: &str, deps: &mut Vec<String>)
    ensures
        texts_view(final(deps)@) == texts_view(old(deps)@) + cleaned_all(
            pieces(list@, ',', 0),
            pieces(list@, ',', 0).len() as int,
        ),
{
    let ghost before = texts_view(deps@);
    let parts = split(list, ',');
    let ghost texts = pieces(list@, ',', 0);
    let mut k: usize = 0;
    assert(texts_view(deps@) =~= before + cleaned_all(texts, 0));
    while k < parts.len()
        invariant
            k <= parts@.len(),
            texts == names_view(parts@),
            texts_view(deps@) == before + cleaned_all(texts, k as int),
        decreases parts@.len() - k,
    {
        let unquoted = remove(trim(parts[k]), '"');
        let declaration = remove(unquoted.as_str(), '\\');
        let ghost so_far = texts_view(deps@);
        deps.push(declaration);
        assert(texts_view(deps@) =~= so_far.push(cleaned(texts[k as int])));
        assert(before + cleaned_all(texts, k as int).push(cleaned(texts[k as int])) =~= (before
            + cleaned_all(texts, k as int)).push(cleaned(texts[k as int])));
        k = k + 1;
    }
}

/// Reads the text of a `setup.py` and adds to `imp` what the lists behind
/// `install_requires` declare.
pub fn extract_imports_setup_py(setup_py_content: &str, imp: &mut Vec<Dependency>)
    ensures
        dependencies_view(final(imp)@) == dependencies_view(old(imp)@) + setup_py_imports(
            setup_py_content@,
        ),
{
    let ghost before = dependencies_view(imp@);
    let lists = match find_groups(INSTALL_REQUIRES_PATTERN, 1, setup_py_content) {
        Ok(lists) => lists,
        Err(_) => {
            assert(dependencies_view(imp@) =~= before + Seq::<DependencyView>::empty());
            return ;
        },
    };
    let ghost groups = groups_view(lists@);
    let mut deps: Vec<String> = Vec::new();
    let mut k: usize = 0;
    assert(texts_view(deps@) =~= declarations(groups, 0));
    while k < lists.len()
        invariant
            k <= lists@.len(),
            groups == groups_view(lists@),
            texts_view(deps@) == declarations(groups, k as int),
        decreases lists@.len() - k,
    {
        match &lists[k] {
            Some(list) => {
                add_declarations(list.as_str(), &mut deps);
            },
            None => {
                assert(texts_view(deps@) + Seq::<Seq<char>>::empty() =~= texts_view(deps@));
            },
        }
        k = k + 1;
    }
    extract_all(&deps, imp);
}

} // verus!
