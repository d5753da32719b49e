use pyscan::parser::extractor::{
    extract_all, extract_imports_python, extract_imports_reqs, extract_imports_setup_py, requirement,
};
use pyscan::parser::pyproject::{extract_imports_pyproject, get, is_readable, Entry, Value};
use pyscan::parser::structs::{Dependency, VersionStatus};
use pyscan::pep_508::{parse, Comparator, Expected, ParseError};

fn seen(dep: &Dependency) -> (String, Option<String>, Option<Comparator>, VersionStatus) {
    (dep.name.clone(), dep.version.clone(), dep.comparator, dep.version_status)
}

fn pinned(name: &str, comparator: Comparator, version: &str) -> (String, Option<String>, Option<Comparator>, VersionStatus) {
    (
        name.to_string(),
        Some(version.to_string()),
        Some(comparator),
        VersionStatus { pypi: false, pip: false, source: true },
    )
}

fn bare(name: &str) -> (String, Option<String>, Option<Comparator>, VersionStatus) {
    (name.to_string(), None, None, VersionStatus { pypi: false, pip: false, source: false })
}

fn all_seen(imp: &[Dependency]) -> Vec<(String, Option<String>, Option<Comparator>, VersionStatus)> {
    imp.iter().map(seen).collect()
}

fn table(entries: Vec<(&str, Value)>) -> Value {
    Value::Table(
        entries.into_iter().map(|(key, value)| Entry { key: key.to_string(), value }).collect(),
    )
}

fn string(text: &str) -> Value {
    Value::String(text.to_string())
}

#[test]
fn first_clause_is_handed_on() {
    let dep = parse("requests[security] >= 2.0, < 3 ; extra == 'x'").unwrap();
    assert_eq!(seen(&requirement(&dep).unwrap()), pinned("requests", Comparator::Ge, "2.0"));
    let dep = parse("numpy").unwrap();
    assert_eq!(seen(&requirement(&dep).unwrap()), bare("numpy"));
    let dep = parse("pip @ https://example.com/pip.zip").unwrap();
    assert!(requirement(&dep).is_none());
}

#[test]
fn requirement_lines() {
    let mut imp = Vec::new();
    assert_eq!(extract_imports_reqs("flask==2.0.1", &mut imp), Ok(()));
    assert_eq!(extract_imports_reqs("numpy", &mut imp), Ok(()));
    assert_eq!(extract_imports_reqs("pip @ file:///tmp/pip", &mut imp), Ok(()));
    assert_eq!(
        extract_imports_reqs("flask==2.0.1 --hash=sha256:abc", &mut imp),
        Err(vec![ParseError { position: 13, expected: Expected::EndOfInput }])
    );
    assert_eq!(
        extract_imports_reqs("# a comment", &mut imp),
        Err(vec![ParseError { position: 0, expected: Expected::Identifier }])
    );
    assert_eq!(extract_imports_reqs("django ~= 4.2 , != 4.2.1", &mut imp), Ok(()));
    assert_eq!(
        all_seen(&imp),
        vec![pinned("flask", Comparator::Eq, "2.0.1"), bare("numpy"), pinned("django", Comparator::Cp, "4.2")]
    );
}

#[test]
fn a_bad_line_does_not_stop_the_others() {
    let lines = vec!["a>=1".to_string(), "???".to_string(), "".to_string(), "b".to_string()];
    let mut imp = vec![];
    extract_all(&lines, &mut imp);
    assert_eq!(all_seen(&imp), vec![pinned("a", Comparator::Ge, "1"), bare("b")]);
}

#[test]
fn python_imports() {
    let mut imp = Vec::new();
    extract_imports_python("import os", &mut imp);
    extract_imports_python("  import numpy, scipy", &mut imp);
    extract_imports_python("from flask import Flask", &mut imp);
    extract_imports_python("x = 1  # import nothing", &mut imp);
    extract_imports_python("importlib", &mut imp);
    extract_imports_python("", &mut imp);
    assert_eq!(all_seen(&imp), vec![bare("os"), bare("numpy, scipy"), bare("from flask")]);
}

#[test]
fn setup_py_lists() {
    let content = "from setuptools import setup\nsetup(\n    name='x',\n    install_requires=[\n        \"requests>=2.0\",\n        \"numpy\",\n        \"a\\\\b == 1\",\n        \"pip @ file:///x\",\n    ],\n)\n";
    let mut imp = Vec::new();
    extract_imports_setup_py(content, &mut imp);
    // the piece behind the last comma is empty and declares nothing
    assert_eq!(
        all_seen(&imp),
        vec![pinned("requests", Comparator::Ge, "2.0"), bare("numpy"), pinned("ab", Comparator::Eq, "1")]
    );

    let mut imp = Vec::new();
    extract_imports_setup_py("install_requires = ['a']", &mut imp);
    // single quotes are not taken off, so the piece is no specifier
    assert!(imp.is_empty());
    extract_imports_setup_py("install_requires=[]", &mut imp);
    extract_imports_setup_py("nothing here", &mut imp);
    assert!(imp.is_empty());
    extract_imports_setup_py("install_requires=[\"a\"] install_requires = [ \"b<2\" , \"c\" ]", &mut imp);
    assert_eq!(all_seen(&imp), vec![bare("a"), pinned("b", Comparator::Lt, "2"), bare("c")]);
}

#[test]
fn pyproject_project_table() {
    let build = table(vec![("requires", Value::Array(vec![string("setuptools")]))]);
    let docs = table(vec![("docs", Value::Array(vec![string("sphinx")]))]);
    let declared = Value::Array(vec![string("requests>=2"), Value::Other, string("numpy")]);
    let project = table(vec![
        ("name", string("demo")),
        ("dependencies", declared),
        ("optional-dependencies", docs),
        ("optional-dependencies.docs", string("mkdocs<2")),
    ]);
    let inner = table(vec![("dependencies", string("attrs"))]);
    let optional = table(vec![("dependencies", inner)]);
    let root = table(vec![("build-system", build), ("project", project), ("optional-dependencies", optional)]);
    assert!(is_readable(&root));
    let mut imp = Vec::new();
    extract_imports_pyproject(&root, &mut imp);
    assert_eq!(
        all_seen(&imp),
        vec![pinned("requests", Comparator::Ge, "2"), bare("numpy"), pinned("mkdocs", Comparator::Lt, "2"), bare("attrs")]
    );
}

#[test]
fn pyproject_poetry_tables() {
    let nested = table(vec![("dependencies", string("six"))]);
    let dependencies = table(vec![
        ("python", string("^3.8")),
        ("requests", string("^2.28")),
        ("click", string("*")),
        ("rich", string("13.0")),
        ("extras", Value::Array(vec![string("idna")])),
        ("nested", nested),
        ("count", Value::Other),
    ]);
    let dev = table(vec![("pytest", string("^7")), ("pytest2", string("^7"))]);
    let poetry = table(vec![("dependencies", dependencies), ("dev-dependencies", dev)]);
    let root = table(vec![("tool", table(vec![("poetry", poetry)]))]);
    assert!(is_readable(&root));
    let mut imp = Vec::new();
    extract_imports_pyproject(&root, &mut imp);
    assert_eq!(
        all_seen(&imp),
        vec![
            pinned("python", Comparator::Ge, "3.8"),
            pinned("requests", Comparator::Ge, "2.28"),
            bare("click"),
            bare("idna"),
            bare("six"),
            pinned("pytest", Comparator::Ge, "7"),
            pinned("pytest2", Comparator::Ge, "7"),
        ]
    );
}

#[test]
fn pyproject_repeated_declarations() {
    let repeated =
        Value::Array(vec![string("a"), string("a"), string("b"), string("a"), string("a"), string("a")]);
    let root = table(vec![("project", table(vec![("dependencies", repeated)]))]);
    let mut imp = Vec::new();
    extract_imports_pyproject(&root, &mut imp);
    assert_eq!(all_seen(&imp), vec![bare("a"), bare("b"), bare("a")]);
}

#[test]
fn pyproject_that_cannot_be_read() {
    let under_tool = |name: &str, section: Value| table(vec![("tool", table(vec![(name, section)]))]);
    let versions = table(vec![("x", string(">=1,^2"))]);
    let caret_inside = under_tool("poetry", table(vec![("dependencies", versions)]));
    assert!(!is_readable(&caret_inside));
    let no_table = under_tool("poetry", table(vec![("dev-dependencies", string("x"))]));
    assert!(!is_readable(&no_table));
    let no_poetry = under_tool("black", table(vec![("dependencies", string("^"))]));
    assert!(is_readable(&no_poetry));
    assert!(is_readable(&Value::Other));
    let mut imp = Vec::new();
    extract_imports_pyproject(&Value::Other, &mut imp);
    assert!(imp.is_empty());
}

#[test]
fn lookup_in_tables() {
    let root = table(vec![("a", string("1")), ("b", string("2")), ("a", string("3"))]);
    assert!(matches!(get(&root, "a"), Some(Value::String(text)) if text == "1"));
    assert!(matches!(get(&root, "b"), Some(Value::String(text)) if text == "2"));
    assert!(get(&root, "c").is_none());
    assert!(get(&string("a"), "a").is_none());
}
