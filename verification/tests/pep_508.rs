use pyscan::pep_508::{
    parse, Comparator, Dependency, Expected, Marker, Operator, ParseError, Spec, Variable,
    VersionSpec,
};

fn rejected(text: &str, position: usize, expected: Expected) {
    assert_eq!(parse(text), Err(vec![ParseError { position, expected }]), "{}", text);
}

fn plain<'a>(name: &'a str) -> Dependency<'a> {
    Dependency { name, extras: vec![], spec: None, marker: None }
}

fn leaf<'a>(lhs: Variable<'a>, op: Operator, rhs: Variable<'a>) -> Marker<'a> {
    Marker::Operator(lhs, op, rhs)
}

fn marker_is(text: &str, expected: Marker) {
    assert_eq!(parse(text).map(|dep| dep.marker), Ok(Some(expected)), "{}", text);
}

fn version_is<'a>(comparator: Comparator, version: &'a str) -> Marker<'a> {
    leaf(Variable::PythonVersion, Operator::Comparator(comparator), Variable::String(version))
}

#[test]
fn end_to_end() {
    let dep = "requests[security, socks] <= 2.28.1, == 2.28.*; python_version > '3.7' and extra == 'http'";
    let parsed = parse(dep).unwrap();
    let expected = Dependency {
        name: "requests",
        extras: vec!["security", "socks"],
        spec: Some(Spec::Version(vec![
            VersionSpec { comparator: Comparator::Le, version: "2.28.1" },
            VersionSpec { comparator: Comparator::Eq, version: "2.28.*" },
        ])),
        marker: Some(Marker::And(
            Box::new(Marker::Operator(
                Variable::PythonVersion,
                Operator::Comparator(Comparator::Gt),
                Variable::String("3.7"),
            )),
            Box::new(Marker::Operator(
                Variable::Extra,
                Operator::Comparator(Comparator::Eq),
                Variable::String("http"),
            )),
        )),
    };
    assert_eq!(parsed, expected);
}

#[test]
fn minimal_forms() {
    assert_eq!(parse("requests >= 2").unwrap().name, "requests");
    assert_eq!(parse("numpy").unwrap().name, "numpy");
    assert_eq!(parse("numpy"), Ok(plain("numpy")));
    assert_eq!(parse("  numpy \t"), Ok(plain("numpy")));
}

#[test]
fn trailing_input_fails() {
    assert!(parse("numpy").is_ok());
    rejected("numpy!", 5, Expected::EndOfInput);
    rejected("numpy !", 6, Expected::EndOfInput);
    rejected("requests[security] >= 2.0 ; extra == 'x' !", 41, Expected::EndOfInput);
    rejected("numpy \u{e9}", 6, Expected::EndOfInput);
    rejected("numpy\n", 5, Expected::EndOfInput);
}

#[test]
fn errors_in_words() {
    assert_eq!(Expected::Identifier.description(), "an identifier");
    assert_eq!(Expected::Url.description(), "a URL");
    assert_eq!(Expected::EndOfInput.description(), "the end of the input");
}

#[test]
fn name_is_required() {
    rejected("", 0, Expected::Identifier);
    rejected("   ", 3, Expected::Identifier);
    rejected(">= 2", 0, Expected::Identifier);
    rejected(" \t[x]", 2, Expected::Identifier);
    rejected("\u{e9}", 0, Expected::Identifier);
    rejected("-a", 0, Expected::Identifier);
}

#[test]
fn identifiers() {
    assert_eq!(parse("a-b_c.d9"), Ok(plain("a-b_c.d9")));
    assert_eq!(parse("9"), Ok(plain("9")));
    // a separator stands alone and before an alphanumeric
    rejected("a--b", 1, Expected::EndOfInput);
    rejected("a.", 1, Expected::EndOfInput);
    rejected("a_", 1, Expected::EndOfInput);
    rejected("a-.b", 1, Expected::EndOfInput);
}

#[test]
fn extras() {
    let with = |extras: Vec<&'static str>| Dependency { name: "a", extras, spec: None, marker: None };
    assert_eq!(parse("a[x]"), Ok(with(vec!["x"])));
    assert_eq!(parse("a [ x , y,z ] "), Ok(with(vec!["x", "y", "z"])));
    assert_eq!(parse("a[x,x]"), Ok(with(vec!["x", "x"])));
    rejected("a[]", 1, Expected::EndOfInput);
    rejected("a[x", 1, Expected::EndOfInput);
    rejected("a[x,]", 1, Expected::EndOfInput);
    rejected("a[x y]", 1, Expected::EndOfInput);
    rejected("a [,x]", 2, Expected::EndOfInput);
}

#[test]
fn comparators() {
    let cases = [
        ("a<1", Comparator::Lt),
        ("a<=1", Comparator::Le),
        ("a!=1", Comparator::Ne),
        ("a==1", Comparator::Eq),
        ("a>=1", Comparator::Ge),
        ("a>1", Comparator::Gt),
        ("a~=1", Comparator::Cp),
        ("a===1", Comparator::Ae),
    ];
    for (text, comparator) in cases {
        let expected = Dependency {
            name: "a",
            extras: vec![],
            spec: Some(Spec::Version(vec![VersionSpec { comparator, version: "1" }])),
            marker: None,
        };
        assert_eq!(parse(text), Ok(expected), "{}", text);
    }
    rejected("a=1", 1, Expected::EndOfInput);
    rejected("a~1", 1, Expected::EndOfInput);
    rejected("a====1", 1, Expected::EndOfInput);
}

#[test]
fn version_clauses() {
    let two = Dependency {
        name: "a",
        extras: vec![],
        spec: Some(Spec::Version(vec![
            VersionSpec { comparator: Comparator::Ge, version: "1.0" },
            VersionSpec { comparator: Comparator::Lt, version: "2.0" },
        ])),
        marker: None,
    };
    assert_eq!(parse("a>=1.0,<2.0"), Ok(two.clone()));
    assert_eq!(parse("a (>=1.0,<2.0)"), Ok(two.clone()));
    assert_eq!(parse("a ( >= 1.0 , < 2.0 ) "), Ok(two.clone()));
    assert_eq!(parse("a >= 1.0 , < 2.0"), Ok(two));
    let odd = Dependency {
        name: "a",
        extras: vec![],
        spec: Some(Spec::Version(vec![VersionSpec {
            comparator: Comparator::Eq,
            version: "1!2.0+local-x_y.*",
        }])),
        marker: None,
    };
    assert_eq!(parse("a == 1!2.0+local-x_y.*"), Ok(odd));
    // a comparator without a version, a comma without a clause, a lone bracket
    rejected("a >=", 2, Expected::EndOfInput);
    rejected("a >= 1,", 6, Expected::EndOfInput);
    rejected("a >= 1, ; extra == 'x'", 6, Expected::EndOfInput);
    rejected("a (>= 1", 2, Expected::EndOfInput);
    rejected("a ()", 2, Expected::EndOfInput);
    rejected("a >= 1)", 6, Expected::EndOfInput);
    rejected("a 1.0", 2, Expected::EndOfInput);
}

#[test]
fn direct_references() {
    let pip = "pip @ https://github.com/pypa/pip/archive/1.3.1.zip#sha1=da9234ee9982d4bbb3c72346a6de940a148ea686";
    assert_eq!(
        parse(pip),
        Ok(Dependency {
            name: "pip",
            extras: vec![],
            spec: Some(Spec::Url(&pip[6..])),
            marker: None,
        })
    );
    assert_eq!(
        parse("a[x]@file:///tmp/a ; os_name == 'posix'"),
        Ok(Dependency {
            name: "a",
            extras: vec!["x"],
            spec: Some(Spec::Url("file:///tmp/a")),
            marker: Some(leaf(
                Variable::OsName,
                Operator::Comparator(Comparator::Eq),
                Variable::String("posix"),
            )),
        })
    );
    // a semicolon is a URI character: without a space it belongs to the URI
    rejected("a @ http://x.y; os_name == 'posix'", 16, Expected::EndOfInput);
    // behind a host in brackets it cannot
    assert_eq!(
        parse("a @ http://[::1];os_name=='posix'"),
        Ok(Dependency {
            name: "a",
            extras: vec![],
            spec: Some(Spec::Url("http://[::1]")),
            marker: Some(leaf(
                Variable::OsName,
                Operator::Comparator(Comparator::Eq),
                Variable::String("posix"),
            )),
        })
    );
    rejected("a @", 2, Expected::EndOfInput);
    rejected("a @ >=1", 2, Expected::EndOfInput);
    // a URL and version clauses exclude each other
    rejected("a @ http://x.y >= 1", 15, Expected::EndOfInput);
}

#[test]
fn marker_variables() {
    let names = [
        ("python_version", Variable::PythonVersion),
        ("python_full_version", Variable::PythonFullVersion),
        ("os_name", Variable::OsName),
        ("sys_platform", Variable::SysPlatform),
        ("platform_release", Variable::PlatformRelease),
        ("platform_system", Variable::PlatformSystem),
        ("platform_version", Variable::PlatformVersion),
        ("platform_machine", Variable::PlatformMachine),
        ("platform_python_implementation", Variable::PlatformPythonImplementation),
        ("implementation_name", Variable::ImplementationName),
        ("implementation_version", Variable::ImplementationVersion),
        ("extra", Variable::Extra),
    ];
    for (name, variable) in names {
        let text = format!("a; {} == \"x'y\"", name);
        let expected = Dependency {
            name: "a",
            extras: vec![],
            spec: None,
            marker: Some(leaf(
                variable.clone(),
                Operator::Comparator(Comparator::Eq),
                Variable::String("x'y"),
            )),
        };
        assert_eq!(parse(&text), Ok(expected), "{}", text);
    }
    assert_eq!(
        parse("a;'a\"b' in extra").unwrap().marker,
        Some(leaf(Variable::String("a\"b"), Operator::In, Variable::Extra))
    );
    assert_eq!(
        parse("a;'' == ''").unwrap().marker,
        Some(leaf(Variable::String(""), Operator::Comparator(Comparator::Eq), Variable::String("")))
    );
    rejected("a; python == '3'", 1, Expected::EndOfInput);
    rejected("a; 'x == 'y'", 1, Expected::EndOfInput);
    rejected("a; 'x\\' == 'y'", 1, Expected::EndOfInput);
    rejected("a; extra == 'x", 1, Expected::EndOfInput);
}

#[test]
fn marker_operators() {
    let op_of = |text: &str| match parse(text).unwrap().marker {
        Some(Marker::Operator(_, op, _)) => op,
        other => panic!("{:?}", other),
    };
    assert_eq!(op_of("a; 'x' in extra"), Operator::In);
    assert_eq!(op_of("a; 'x'in extra"), Operator::In);
    assert_eq!(op_of("a; 'x' not in extra"), Operator::NotIn);
    assert_eq!(op_of("a; 'x' not \t in extra"), Operator::NotIn);
    assert_eq!(op_of("a; extra ~= 'x'"), Operator::Comparator(Comparator::Cp));
    assert_eq!(op_of("a; extra==='x'"), Operator::Comparator(Comparator::Ae));
    rejected("a; 'x' notin extra", 1, Expected::EndOfInput);
    rejected("a; 'x' not extra", 1, Expected::EndOfInput);
    rejected("a; 'x' extra", 1, Expected::EndOfInput);
}

#[test]
fn marker_precedence() {
    let a = || version_is(Comparator::Gt, "1");
    let b = || version_is(Comparator::Lt, "2");
    let c = || version_is(Comparator::Ne, "3");
    let d = || version_is(Comparator::Eq, "4");
    let (ta, tb, tc, td) =
        ("python_version > '1'", "python_version < '2'", "python_version != '3'", "python_version == '4'");
    marker_is(&format!("x; {ta}"), (a()));
    marker_is(&format!("x; ( {ta} )"), (a()));
    marker_is(&format!("x; (({ta}))"), (a()));
    marker_is(&format!("x; {ta} and {tb}"), (Marker::And(Box::new(a()), Box::new(b()))));
    marker_is(&format!("x; {ta} or {tb}"), (Marker::Or(Box::new(a()), Box::new(b()))));
    marker_is(
        &format!("x; {ta} and {tb} or {tc} and {td}"),
        (Marker::Or(
            Box::new(Marker::And(Box::new(a()), Box::new(b()))),
            Box::new(Marker::And(Box::new(c()), Box::new(d()))),
        ))
    );
    marker_is(
        &format!("x; {ta} or {tb} and {tc}"),
        (Marker::Or(Box::new(a()), Box::new(Marker::And(Box::new(b()), Box::new(c())))))
    );
    marker_is(
        &format!("x; ({ta} or {tb}) and {tc}"),
        (Marker::And(Box::new(Marker::Or(Box::new(a()), Box::new(b()))), Box::new(c())))
    );
    marker_is(
        &format!("x; ({ta} and {tb}) and {tc}"),
        (Marker::And(Box::new(Marker::And(Box::new(a()), Box::new(b()))), Box::new(c())))
    );
    // the joining words need no space around them
    marker_is("x;python_version>'1'andpython_version<'2'", Marker::And(Box::new(a()), Box::new(b())));
}

#[test]
fn marker_joins_two_operands_only() {
    let (ta, tb, tc) = ("python_version > '1'", "python_version < '2'", "python_version != '3'");
    rejected(&format!("x; {ta} and {tb} and {tc}"), 49, Expected::EndOfInput);
    rejected(&format!("x; {ta} or {tb} or {tc}"), 48, Expected::EndOfInput);
    // a joining word without a right operand is left over
    rejected(&format!("x; {ta} and"), 24, Expected::EndOfInput);
    rejected(&format!("x; {ta} or "), 24, Expected::EndOfInput);
    rejected(&format!("x; ({ta}"), 1, Expected::EndOfInput);
    rejected("x; ()", 1, Expected::EndOfInput);
    rejected("x;", 1, Expected::EndOfInput);
}

#[test]
fn order_of_the_parts() {
    // a marker before the extras, extras behind the version
    rejected("a; extra == 'x' [y]", 16, Expected::EndOfInput);
    rejected("a >= 1 [y]", 7, Expected::EndOfInput);
    rejected("a >= 1 @ http://x.y", 7, Expected::EndOfInput);
}

#[test]
fn deep_nesting() {
    let depth = 200;
    let text = format!("a; {}extra == 'x'{}", "(".repeat(depth), ")".repeat(depth));
    assert_eq!(
        parse(&text).unwrap().marker,
        Some(leaf(Variable::Extra, Operator::Comparator(Comparator::Eq), Variable::String("x")))
    );
}
