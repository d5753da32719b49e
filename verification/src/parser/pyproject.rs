//! The dependencies that a `pyproject.toml` declares.
//!
//! The file is read as a tree of tables, arrays and strings. Declarations
//! stand under `[project]` and `[optional-dependencies]`, and for Poetry
//! under `[tool.poetry.dependencies]` and `[tool.poetry.dev-dependencies]`.

use vstd::prelude::*;
use vstd::string::{StrSliceExecFns, StringExecFns};

use crate::parser::extractor::{dependencies_view, extract_all, found_in_all};
use crate::parser::structs::Dependency;
use crate::text::{same_text, texts_view, to_chars};

verus! {

broadcast use {
    vstd::seq::group_seq_axioms,
    vstd::std_specs::vec::group_vec_axioms,
};

/// A value of a TOML document, as far as the extraction reads it.
#[derive(Debug)]
pub enum Value {
    String(String),
    Table(Vec<Entry>),
    Array(Vec<Value>),
    /// A number, a boolean or a date.
    Other,
}

/// A key of a table with its value.
#[derive(Debug)]
pub struct Entry {
    pub key: String,
    pub value: Value,
}

/// The keys of a table under which declarations stand whatever the table
/// is.
pub open spec fn is_project_key(key: Seq<char>) -> bool {
    key == "dependencies"@ || key == "optional-dependencies.docs"@
}

/// The strings among the first `n` items of an array.
pub open spec fn array_strings(items: Seq<Value>, n: int) -> Seq<Seq<char>>
    decreases n,
{
    if n <= 0 || n > items.len() {
        Seq::empty()
    } else {
        array_strings(items, n - 1) + match items[n - 1] {
            Value::String(text) => seq![text@],
            _ => Seq::empty(),
        }
    }
}

/// The declaration that Poetry's `name = "version"` stands for: a caret
/// before the version asks for that version at least, a star for any
/// version; anything else declares nothing.
pub open spec fn poetry_declaration(name: Seq<char>, version: Seq<char>) -> Seq<Seq<char>> {
    if version.contains('^') {
        seq![name + " >= "@ + version.subrange(1, version.len() as int)]
    } else if version == "*"@ {
        seq![name]
    } else {
        Seq::empty()
    }
}

/// The declarations under one key of a table. Under the keys of
/// [`is_project_key`] a string is a declaration, an array holds
/// declarations, and a table is searched in turn. In a table of Poetry
/// every other key is the name of a package.
pub open spec fn entry_declarations(entry: Entry, poetry: bool) -> Seq<Seq<char>>
    decreases entry, 0int,
{
    if is_project_key(entry.key@) {
        match entry.value {
            Value::String(text) => seq![text@],
            Value::Table(entries) => table_declarations(entries@, false, entries@.len() as int),
            Value::Array(items) => array_strings(items@, items@.len() as int),
            Value::Other => Seq::empty(),
        }
    } else if poetry {
        match entry.value {
            Value::String(text) => poetry_declaration(entry.key@, text@),
            Value::Table(entries) => table_declarations(entries@, false, entries@.len() as int),
            Value::Array(items) => array_strings(items@, items@.len() as int),
            Value::Other => Seq::empty(),
        }
    } else {
        Seq::empty()
    }
}

/// The declarations under the first `n` keys of a table.
pub open spec fn table_declarations(entries: Seq<Entry>, poetry: bool, n: int) -> Seq<Seq<char>>
    decreases entries, n,
{
    if n <= 0 || n > entries.len() {
        Seq::empty()
    } else {
        table_declarations(entries, poetry, n - 1) + entry_declarations(entries[n - 1], poetry)
    }
}

/// The position among the first `n` entries of the first one with the key
/// `key`, or `n` where there is none.
pub open spec fn position_of(entries: Seq<Entry>, key: Seq<char>, from: int) -> int
    decreases entries.len() - from,
{
    if from < 0 || from >= entries.len() {
        entries.len() as int
    } else if entries[from].key@ == key {
        from
    } else {
        position_of(entries, key, from + 1)
    }
}

/// Tells whether the table `value` has the key `key`.
pub open spec fn has_key(value: Value, key: Seq<char>) -> bool {
    value matches Value::Table(entries) && position_of(entries@, key, 0) < entries@.len()
}

/// The value under the key `key` of the table `value`.
pub open spec fn value_at(value: Value, key: Seq<char>) -> Value
    recommends
        has_key(value, key),
{
    value->Table_0@[position_of(value->Table_0@, key, 0)].value
}

/// The declarations in the table under the key `key` of `root`.
pub open spec fn section(root: Value, key: Seq<char>, poetry: bool) -> Seq<Seq<char>> {
    if has_key(root, key) {
        match value_at(root, key) {
            Value::Table(entries) => table_declarations(entries@, poetry, entries@.len() as int),
            _ => Seq::empty(),
        }
    } else {
        Seq::empty()
    }
}

/// The declarations of Poetry in `root`.
pub open spec fn poetry_sections(root: Value) -> Seq<Seq<char>> {
    if has_key(root, "tool"@) && has_key(value_at(root, "tool"@), "poetry"@) {
        let poetry = value_at(value_at(root, "tool"@), "poetry"@);
        section(poetry, "dependencies"@, true) + section(poetry, "dev-dependencies"@, true)
    } else {
        Seq::empty()
    }
}

/// All declarations of a document, in the order in which they are read.
pub open spec fn all_declarations(root: Value) -> Seq<Seq<char>> {
    section(root, "project"@, false) + section(root, "optional-dependencies"@, false)
        + poetry_sections(root)
}

/// The first `n` of some texts without those that repeat the one before
/// them.
pub open spec fn deduped(texts: Seq<Seq<char>>, n: int) -> Seq<Seq<char>>
    decreases n,
{
    if n <= 0 || n > texts.len() {
        Seq::empty()
    } else if n >= 2 && texts[n - 1] == texts[n - 2] {
        deduped(texts, n - 1)
    } else {
        deduped(texts, n - 1).push(texts[n - 1])
    }
}

/// The version of Poetry in an entry can be read.
pub open spec fn caret_leads(entry: Entry) -> bool {
    match entry.value {
        Value::String(text) => !is_project_key(entry.key@) && text@.contains('^') ==> text@[0]
            == '^',
        _ => true,
    }
}

/// The versions of Poetry in the first `n` entries of a table can be read:
/// a version with a caret in it starts with the caret.
pub open spec fn carets_lead(entries: Seq<Entry>, n: int) -> bool {
    forall|k: int|
        0 <= k < n && k < entries.len() ==> caret_leads(#[trigger] entries[k])
}

/// One section of Poetry can be read: it is a table, and its versions can
/// be read.
pub open spec fn poetry_section_readable(poetry: Value, key: Seq<char>) -> bool {
    has_key(poetry, key) ==> (value_at(poetry, key) matches Value::Table(entries) && carets_lead(
        entries@,
        entries@.len() as int,
    ))
}

/// The document can be read: the sections of Poetry are tables where they
/// are there, and their versions can be read.
pub open spec fn readable(root: Value) -> bool {
    has_key(root, "tool"@) && has_key(value_at(root, "tool"@), "poetry"@) ==> {
        let poetry = value_at(value_at(root, "tool"@), "poetry"@);
        poetry_section_readable(poetry, "dependencies"@) && poetry_section_readable(
            poetry,
            "dev-dependencies"@,
        )
    }
}

/// Looks for the key `key` in the table `value`.
pub fn get<'a>(value: &'a Value, key: &str) -> (found: Option<&'a Value>)
    ensures
        match found {
            Some(under) => has_key(*value, key@) && *under == value_at(*value, key@),
            None => !has_key(*value, key@),
        },
{
    match value {
        Value::Table(entries) => {
            let mut k: usize = 0;
            while k < entries.len()
                invariant
                    k <= entries@.len(),
                    *value is Table,
                    value->Table_0 == *entries,
                    position_of(entries@, key@, 0) == position_of(entries@, key@, k as int),
                decreases entries@.len() - k,
            {
                if same_text(entries[k].key.as_str(), key) {
                    return Some(&entries[k].value);
                }
                k = k + 1;
            }
            None
        },
        _ => None,
    }
}

/// Adds the strings of an array to `deps`.
fn add_strings(items: &Vec<Value>, deps: &mut Vec<String>)
    ensures
        texts_view(final(deps)@) == texts_view(old(deps)@) + array_strings(
            items@,
            items@.len() as int,
        ),
{
    let ghost before = texts_view(deps@);
    let mut k: usize = 0;
    assert(texts_view(deps@) =~= before + array_strings(items@, 0));
    while k < items.len()
        invariant
            k <= items@.len(),
            texts_view(deps@) == before + array_strings(items@, k as int),
        decreases items@.len() - k,
    {
        let ghost so_far = texts_view(deps@);
        match &items[k] {
            Value::String(text) => {
                deps.push(text.clone());
                assert(texts_view(deps@) =~= so_far + seq![text@]);
                assert(before + (array_strings(items@, k as int) + seq![text@]) =~= before
                    + array_strings(items@, k as int) + seq![text@]);
            },
            _ => {
                assert(before + (array_strings(items@, k as int) + Seq::<Seq<char>>::empty())
                    =~= before + array_strings(items@, k as int));
            },
        }
        k = k + 1;
    }
}

/// Tells whether a caret stands in `text`.
fn has_caret(text: &str) -> (b: bool)
    ensures
        b == text@.contains('^'),
{
    let chars = to_chars(text);
    let mut k: usize = 0;
    while k < chars.len()
        invariant
            k <= chars@.len(),
            chars@ == text@,
            forall|j: int| 0 <= j < k ==> chars@[j] != '^',
        decreases chars@.len() - k,
    {
        if chars[k] == '^' {
            assert(text@[k as int] == '^');
            return true;
        }
        k = k + 1;
    }
    false
}

/// Adds the declaration that Poetry's `name = "version"` stands for to
/// `deps`.
fn add_poetry(name: &str, version: &str, deps: &mut Vec<String>)
    requires
        version@.contains('^') ==> version@[0] == '^',
    ensures
        texts_view(final(deps)@) == texts_view(old(deps)@) + poetry_declaration(
            name@,
            version@,
        ),
{
    let ghost before = texts_view(deps@);
    if has_caret(version) {
        let rest = version.substring_char(1, version.unicode_len());
        let declaration = String::from_str(name).concat(" >= ").concat(rest);
        deps.push(declaration);
        assert(texts_view(deps@) =~= before + seq![declaration@]);
    } else if same_text(version, "*") {
        let declaration = String::from_str(name);
        deps.push(declaration);
        assert(texts_view(deps@) =~= before + seq![name@]);
    } else {
        assert(texts_view(deps@) =~= before + Seq::<Seq<char>>::empty());
    }
}

/// Tells whether declarations stand under the key whatever the table is.
fn project_key(key: &str) -> (b: bool)
    ensures
        b == is_project_key(key@),
{
    same_text(key, "dependencies") || same_text(key, "optional-dependencies.docs")
}

/// Adds the declarations of a table to `deps`.
fn add_table(entries: &Vec<Entry>, poetry: bool, deps: &mut Vec<String>)
    requires
        poetry ==> carets_lead(entries@, entries@.len() as int),
    ensures
        texts_view(final(deps)@) == texts_view(old(deps)@) + table_declarations(
            entries@,
            poetry,
            entries@.len() as int,
        ),
    decreases entries,
{
    let ghost before = texts_view(deps@);
    let mut k: usize = 0;
    assert(texts_view(deps@) =~= before + table_declarations(entries@, poetry, 0));
    while k < entries.len()
        invariant
            k <= entries@.len(),
            poetry ==> carets_lead(entries@, entries@.len() as int),
            texts_view(deps@) == before + table_declarations(entries@, poetry, k as int),
        decreases entries@.len() - k,
    {
        let entry = &entries[k];
        let ghost so_far = texts_view(deps@);
        let ghost added = entry_declarations(*entry, poetry);
        let under_key = project_key(entry.key.as_str());
        if under_key || poetry {
            match &entry.value {
                Value::String(text) => {
                    if under_key {
                        deps.push(text.clone());
                        assert(texts_view(deps@) =~= so_far + seq![text@]);
                    } else {
                        assert(entries@[k as int].value matches Value::String(_));
                        add_poetry(entry.key.as_str(), text.as_str(), deps);
                    }
                },
                Value::Table(nested) => {
                    add_table(nested, false, deps);
                },
                Value::Array(items) => {
                    add_strings(items, deps);
                },
                Value::Other => {
                    assert(texts_view(deps@) =~= so_far + Seq::<Seq<char>>::empty());
                },
            }
        } else {
            assert(texts_view(deps@) =~= so_far + Seq::<Seq<char>>::empty());
        }
        assert(texts_view(deps@) == so_far + added);
        assert(before + (table_declarations(entries@, poetry, k as int) + added) =~= before
            + table_declarations(entries@, poetry, k as int) + added);
        k = k + 1;
    }
}

/// Adds the declarations in the table under the key `key` of `root` to
/// `deps`.
fn add_section(root: &Value, key: &str, poetry: bool, deps: &mut Vec<String>)
    requires
        poetry ==> poetry_section_readable(*root, key@),
    ensures
        texts_view(final(deps)@) == texts_view(old(deps)@) + section(*root, key@, poetry),
{
    let ghost before = texts_view(deps@);
    match get(root, key) {
        Some(Value::Table(entries)) => {
            add_table(entries, poetry, deps);
        },
        _ => {
            assert(texts_view(deps@) =~= before + Seq::<Seq<char>>::empty());
        },
    }
}

/// Takes out of `texts` those that repeat the one before them.
fn dedup(texts: Vec<String>) -> (kept: Vec<String>)
    ensures
        texts_view(kept@) == deduped(texts_view(texts@), texts@.len() as int),
{
    let ghost views = texts_view(texts@);
    let mut kept: Vec<String> = Vec::new();
    let mut k: usize = 0;
    assert(texts_view(kept@) =~= deduped(views, 0));
    while k < texts.len()
        invariant
            k <= texts@.len(),
            views == texts_view(texts@),
            texts_view(kept@) == deduped(views, k as int),
        decreases texts@.len() - k,
    {
        if !(k >= 1 && texts[k] == texts[k - 1]) {
            let ghost so_far = texts_view(kept@);
            kept.push(texts[k].clone());
            assert(texts_view(kept@) =~= so_far.push(views[k as int]));
        }
        k = k + 1;
    }
    kept
}

/// Tells whether every version of Poetry in a table can be read.
fn carets_lead_in(entries: &Vec<Entry>) -> (b: bool)
    ensures
        b == carets_lead(entries@, entries@.len() as int),
{
    let mut k: usize = 0;
    while k < entries.len()
        invariant
            k <= entries@.len(),
            carets_lead(entries@, k as int),
        decreases entries@.len() - k,
    {
        if let Value::String(text) = &entries[k].value {
            if !project_key(entries[k].key.as_str()) && has_caret(text.as_str()) {
                if text.as_str().get_char(0) != '^' {
                    return false;
                }
            }
        }
        k = k + 1;
    }
    true
}

/// Tells whether one section of Poetry can be read.
fn section_readable(poetry: &Value, key: &str) -> (b: bool)
    ensures
        b == poetry_section_readable(*poetry, key@),
{
    match get(poetry, key) {
        Some(Value::Table(entries)) => carets_lead_in(entries),
        Some(_) => false,
        None => true,
    }
}

/// Tells whether the document can be read.
pub fn is_readable(root: &Value) -> (b: bool)
    ensures
        b == readable(*root),
{
    if let Some(tool) = get(root, "tool") {
        if let Some(poetry) = get(tool, "poetry") {
            return section_readable(poetry, "dependencies") && section_readable(
                poetry,
                "dev-dependencies",
            );
        }
    }
    true
}

/// What a document adds to the dependencies found so far: what its
/// declarations declare, a declaration that repeats the one before it left
/// out.
pub open spec fn pyproject_imports(root: Value) -> Seq<crate::parser::structs::DependencyView> {
    let found = all_declarations(root);
    let kept = deduped(found, found.len() as int);
    found_in_all(kept, kept.len() as int)
}

/// Reads a `pyproject.toml` and adds what it declares to `imp`.
pub fn extract_imports_pyproject(root: &Value, imp: &mut Vec<Dependency>)
    requires
        readable(*root),
    ensures
        dependencies_view(final(imp)@) == dependencies_view(old(imp)@) + pyproject_imports(
            *root,
        ),
{
    let mut found: Vec<String> = Vec::new();
    assert(texts_view(found@) =~= Seq::<Seq<char>>::empty());
    add_section(root, "project", false, &mut found);
    add_section(root, "optional-dependencies", false, &mut found);
    let ghost front = texts_view(found@);
    assert(front =~= section(*root, "project"@, false) + section(
        *root,
        "optional-dependencies"@,
        false,
    ));
    if let Some(tool) = get(root, "tool") {
        if let Some(poetry) = get(tool, "poetry") {
            add_section(poetry, "dependencies", true, &mut found);
            add_section(poetry, "dev-dependencies", true, &mut found);
            assert(texts_view(found@) =~= front + (section(*poetry, "dependencies"@, true)
                + section(*poetry, "dev-dependencies"@, true)));
        }
    }
    assert(texts_view(found@) =~= front + poetry_sections(*root));
    let kept = dedup(found);
    extract_all(&kept, imp);
}

} // verus!
