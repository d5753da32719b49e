use pyscan::pep_508::{parse, Comparator, Dependency, Marker, Operator, Spec, Variable, VersionSpec};

/// Parses `text`, checks its canonical text, and checks that the canonical
/// text parses to the same dependency.
fn round_trip(text: &str, canonical: &str) {
    let parsed = parse(text).expect(text);
    let written = parsed.canonical();
    assert_eq!(written, canonical, "{}", text);
    assert_eq!(parse(&written), Ok(parsed.clone()), "{}", text);
    // the canonical text is its own canonical text
    assert_eq!(parse(&written).unwrap().canonical(), canonical);
}

#[test]
fn canonical_text_of_the_parts() {
    round_trip("numpy", "numpy");
    round_trip("  numpy\t", "numpy");
    round_trip("a [ x , y ]", "a[x,y]");
    round_trip("a>=1", "a >=1");
    round_trip("a ( >= 1.0 , < 2.0 )", "a >=1.0,<2.0");
    round_trip("a[x]===1!2+z;extra=='x'", "a[x] ===1!2+z ; extra == 'x'");
    round_trip("a @ http://x.y/z?q#f", "a @ http://x.y/z?q#f");
    round_trip("a[x]@file:///tmp/a  ;  os_name  ==  'posix'", "a[x] @ file:///tmp/a ; os_name == 'posix'");
    round_trip("a@http://[::1];extra=='x'", "a @ http://[::1] ; extra == 'x'");
    round_trip("a@http://1.2.3.4:80;extra=='x'", "a @ http://1.2.3.4:80 ; extra == 'x'");
    round_trip("a ; extra == 'x'", "a ; extra == 'x'");
}

#[test]
fn canonical_text_end_to_end() {
    round_trip(
        "requests[security, socks] <= 2.28.1, == 2.28.*; python_version > '3.7' and extra == 'http'",
        "requests[security,socks] <=2.28.1,==2.28.* ; python_version > '3.7' and extra == 'http'",
    );
}

#[test]
fn canonical_text_of_strings() {
    round_trip("a; extra == \"x\"", "a ; extra == 'x'");
    round_trip("a; extra == \"it's\"", "a ; extra == \"it's\"");
    round_trip("a; extra == 'say \"x\"'", "a ; extra == 'say \"x\"'");
    round_trip("a; '' in \"\"", "a ; '' in ''");
    round_trip("a; 'x' not   in extra", "a ; 'x' not in extra");
}

#[test]
fn canonical_text_of_markers() {
    let a = "python_version > '1'";
    let b = "os_name != 'nt'";
    let c = "'x' in extra";
    let d = "sys_platform ~= 'linux'";
    round_trip(&format!("x;({a})"), &format!("x ; {a}"));
    round_trip(&format!("x;(({a}) and ({b}))"), &format!("x ; {a} and {b}"));
    round_trip(&format!("x;{a} and {b} or {c} and {d}"), &format!("x ; {a} and {b} or {c} and {d}"));
    round_trip(&format!("x;({a} and {b}) or ({c})"), &format!("x ; {a} and {b} or {c}"));
    round_trip(&format!("x;({a} or {b}) and {c}"), &format!("x ; ({a} or {b}) and {c}"));
    round_trip(&format!("x;{a} and ({b} and {c})"), &format!("x ; {a} and ({b} and {c})"));
    round_trip(&format!("x;({a} or {b}) or {c}"), &format!("x ; ({a} or {b}) or {c}"));
    round_trip(&format!("x;{a} or ({b} or ({c} or {d}))"), &format!("x ; {a} or ({b} or ({c} or {d}))"));
    round_trip(
        &format!("x;(({a} and {b}) and {c}) and {d}"),
        &format!("x ; (({a} and {b}) and {c}) and {d}"),
    );
}

#[test]
fn canonical_text_of_a_built_value() {
    let dep = Dependency {
        name: "pkg",
        extras: vec!["a", "b"],
        spec: Some(Spec::Version(vec![
            VersionSpec { comparator: Comparator::Cp, version: "1.4" },
            VersionSpec { comparator: Comparator::Ne, version: "1.4.3" },
        ])),
        marker: Some(Marker::Or(
            Box::new(Marker::Operator(
                Variable::PlatformPythonImplementation,
                Operator::NotIn,
                Variable::String("PyPy"),
            )),
            Box::new(Marker::Operator(
                Variable::String("3"),
                Operator::Comparator(Comparator::Le),
                Variable::PythonFullVersion,
            )),
        )),
    };
    let text = dep.canonical();
    assert_eq!(
        text,
        "pkg[a,b] ~=1.4,!=1.4.3 ; platform_python_implementation not in 'PyPy' or '3' <= python_full_version"
    );
    assert_eq!(parse(&text), Ok(dep));
}
