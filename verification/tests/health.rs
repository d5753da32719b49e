use pyscan::health::mccabe::check_complexity;
use pyscan::health::parser::parse_python_code;
use pyscan::map::parser::extract_dependencies;
use pyscan::map::structs::{DependencyGraph, DependencyNode};

fn node(name: &str, version: &str, below: Vec<DependencyNode>) -> DependencyNode {
    DependencyNode { inner: name.to_string(), version: version.to_string(), node: below }
}

#[test]
fn complexity_counts_lines() {
    assert_eq!(check_complexity(""), Ok(2));
    assert_eq!(check_complexity("x = 1"), Ok(1));
    assert_eq!(check_complexity("if x:\n    y = 1\nelse:\n    y = 2\n"), Ok(-2));
    assert_eq!(check_complexity("for i in r:\n  while i:\n    try:\n      pass\n    finally:\n      pass"), Ok(-4));
    assert_eq!(check_complexity("a\r\nb\r\n\r\n"), Ok(-1));
}

#[test]
fn functions_of_a_file() {
    let code = "import os\n\ndef first(a, b):\n    x = a\n    if x:\n        return b\n    return x\n\nprint(1)\ndef second():\n  pass\nclass A:\n    def method(self):\n        pass\ndef third(x) :   \n\tpass\n";
    let functions = parse_python_code(code);
    assert_eq!(functions.len(), 3);
    assert_eq!(
        functions.get("first").unwrap(),
        "def first(a, b):\n    x = a\n    if x:\n        return b\n    return x\n"
    );
    assert_eq!(functions.get("second").unwrap(), "def second():\n  pass\n");
    assert_eq!(functions.get("third").unwrap(), "def third(x):\n\tpass\n");
    assert!(!functions.contains_key("method"));
    assert!(!functions.contains_key("A"));
}

#[test]
fn functions_with_the_same_heading() {
    // the body is read behind the first line that is equal to the heading
    let code = "def f():\n    a\ndef f():\n    b\n";
    let functions = parse_python_code(code);
    assert_eq!(functions.len(), 1);
    assert_eq!(functions.get("f").unwrap(), "def f():\n    a\n");
    assert_eq!(parse_python_code("").len(), 0);
    assert_eq!(parse_python_code("def g(): pass").len(), 0);
    let functions = parse_python_code("def h(x):");
    assert_eq!(functions.get("h").unwrap(), "def h(x):\n");
    // a first line without indentation sets none: the body goes on until a line sets one
    let functions = parse_python_code("def k():\nx = 1\n  y = 2\n\nz = 3");
    assert_eq!(functions.get("k").unwrap(), "def k():\nx = 1\n  y = 2\n");
}

#[test]
fn required_packages() {
    let output = "Name: requests\nVersion: 2.31.0\nRequires: certifi, charset-normalizer ,idna,  urllib3\nRequired-by: \n";
    assert_eq!(extract_dependencies(output), vec!["certifi", "charset-normalizer", "idna", "urllib3"]);
    assert_eq!(extract_dependencies("Requires: \n"), vec![""]);
    assert_eq!(extract_dependencies("Requires: a\nRequires: b\n"), vec!["a"]);
    assert_eq!(extract_dependencies("Name: x\n"), Vec::<String>::new());
    assert_eq!(extract_dependencies(""), Vec::<String>::new());
}

#[test]
fn tree_of_one_root() {
    let graph = DependencyGraph {
        inner: vec![node(
            "requests",
            "2.31.0",
            vec![node("idna", "3.6", vec![]), node("urllib3", "2.2", vec![node("brotli", "1.1", vec![])]), node("certifi", "2024", vec![])],
        )],
    };
    assert_eq!(
        graph.display_ascii_tree(),
        vec![
            " . |->requests 2.31.0",
            " . . |->idna 3.6",
            " . . ^-- urllib3 2.2",
            " . . . |->brotli 1.1",
            " . . >  certifi 2024",
        ]
    );
}

#[test]
fn tree_of_several_roots() {
    let graph = DependencyGraph {
        inner: vec![node("a", "1", vec![node("b", "2", vec![])]), node("c", "3", vec![]), node("d", "4", vec![])],
    };
    assert_eq!(graph.display_ascii_tree(), vec![" |->a 1", " . |->b 2", " ^-- c 3", " >  d 4"]);
    assert_eq!(DependencyGraph { inner: vec![] }.display_ascii_tree(), Vec::<String>::new());
}
