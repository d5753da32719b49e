use pyscan::display::{display_queried, Progress, ProgressUpdate};
use pyscan::docker::DockerError;
use pyscan::parser::structs::{
    Dependency, FileTypes, FoundFile, FoundFileResult, VersionSource, VersionStatus,
};
use pyscan::scanner::models::{Affected, Package, Query, QueryBatched, Vuln, Vulnerability};
use pyscan::store;
use pyscan::utils::{
    format_time, get_version, pip_list_entries, pip_show_version, vecdep_to_hashmap,
    PipCache, PipError, PypiError,
};

fn dep(name: &str, version: &str) -> Dependency {
    Dependency {
        name: name.to_string(),
        version: Some(version.to_string()),
        comparator: None,
        version_status: VersionStatus { pypi: false, pip: false, source: true },
    }
}

fn affected(name: &str, versions: Option<Vec<&str>>) -> Affected {
    Affected {
        package: Package {
            name: name.to_string(),
            ecosystem: "PyPI".to_string(),
            purl: format!("pkg:pypi/{}", name),
        },
        versions: versions.map(|all| all.into_iter().map(|v| v.to_string()).collect()),
    }
}

fn vuln(id: &str, affected: Vec<Affected>) -> Vuln {
    Vuln { id: id.to_string(), details: "details".to_string(), affected }
}

#[test]
fn queries() {
    let query = Query::new("2.0.1", "flask");
    assert_eq!(query.version, "2.0.1");
    assert_eq!(query.package.name, "flask");
    assert_eq!(query.package.ecosystem, "PyPI");

    let query = dep("numpy", "1.26").to_query();
    assert_eq!((query.version.as_str(), query.package.name.as_str()), ("1.26", "numpy"));

    let batch = QueryBatched::of(&vec![dep("a", "1"), dep("b", "2")]);
    let asked: Vec<_> =
        batch.queries.iter().map(|q| (q.package.name.as_str(), q.version.as_str())).collect();
    assert_eq!(asked, vec![("a", "1"), ("b", "2")]);
    assert_eq!(QueryBatched::new(vec![]).queries.len(), 0);
    assert_eq!(QueryBatched::new(vec![Query::new("1", "x")]).queries[0].package.name, "x");
}

#[test]
fn scanned_dependency() {
    let imports = vecdep_to_hashmap(&vec![dep("flask", "1.0"), dep("numpy", "1.26"), dep("flask", "2.0")]);
    let report = Vulnerability {
        vulns: vec![
            vuln("GHSA-1", vec![affected("flask", None), affected("numpy", None)]),
            vuln("GHSA-2", vec![affected("numpy", None)]),
        ],
    };
    let scanned = report.to_scanned_dependency(&imports);
    assert_eq!(scanned.name, "flask");
    // the later declaration of a name overrides the earlier one
    assert_eq!(scanned.version, "2.0");
    assert_eq!(scanned.vuln.vulns.len(), 2);
    assert_eq!(scanned.vuln.vulns[1].id, "GHSA-2");

    let none = Vulnerability { vulns: vec![] };
    assert_eq!(none.name_in_context(), "Name In Context");
    let nothing_affected = Vulnerability { vulns: vec![vuln("GHSA-3", vec![])] };
    assert_eq!(nothing_affected.name_in_context(), "Name in Context");
    let imports = vecdep_to_hashmap(&vec![dep("Name In Context", "0")]);
    assert_eq!(none.to_scanned_dependency(&imports).version, "0");
}

#[test]
fn affected_versions() {
    let v = vuln(
        "GHSA-1",
        vec![affected("a", Some(vec!["1.0", "1.1", "1.2"])), affected("a", Some(vec!["2.0", "2.1"]))],
    );
    assert_eq!(v.affected_span(), ("1.0".to_string(), "2.1".to_string()));
    let v = vuln("GHSA-2", vec![affected("a", None)]);
    assert_eq!(v.affected_span(), ("This version".to_string(), "Unknown".to_string()));
    let v = vuln("GHSA-3", vec![affected("a", Some(vec!["3"])), affected("a", None)]);
    assert_eq!(v.affected_span(), ("3".to_string(), "Unknown".to_string()));
    let v = vuln("GHSA-4", vec![affected("a", None), affected("a", Some(vec![])), affected("a", Some(vec!["4", "5"]))]);
    assert_eq!(v.affected_span(), ("This version".to_string(), "5".to_string()));
}

#[test]
fn safe_dependencies_remain() {
    let mut imports = vecdep_to_hashmap(&vec![dep("a", "1"), dep("b", "2"), dep("c", "3")]);
    let report = |name: &str| {
        Vulnerability { vulns: vec![vuln("GHSA-1", vec![affected(name, None)])] }
            .to_scanned_dependency(&imports)
    };
    let collected = vec![report("a"), report("c")];
    display_queried(&collected, &mut imports);
    assert_eq!(imports.len(), 1);
    assert_eq!(imports.get("b").map(|v| v.as_str()), Some("2"));
    assert!(!imports.contains_key("a"));
    display_queried(&vec![], &mut imports);
    assert_eq!(imports.len(), 1);
}

#[test]
fn progress() {
    let mut progress = Progress::new();
    assert_eq!(progress.found(), 0);
    assert_eq!(progress.display(), ProgressUpdate { clear: false, announce: None });
    progress.count_one();
    assert_eq!(progress.display(), ProgressUpdate { clear: false, announce: Some(1) });
    assert_eq!(progress.display(), ProgressUpdate { clear: false, announce: None });
    progress.count_one();
    progress.count_one();
    assert_eq!(progress.found(), 3);
    assert_eq!(progress.display(), ProgressUpdate { clear: true, announce: Some(3) });
    assert_eq!(progress.display(), ProgressUpdate { clear: true, announce: None });
}

#[test]
fn file_kinds() {
    assert_eq!(FileTypes::classify("setup.py"), Some(FileTypes::SetupPy));
    assert_eq!(FileTypes::classify("main.py"), Some(FileTypes::Python));
    assert_eq!(FileTypes::classify(".py"), Some(FileTypes::Python));
    assert_eq!(FileTypes::classify("xsetup.py"), Some(FileTypes::Python));
    assert_eq!(FileTypes::classify("requirements.txt"), Some(FileTypes::Requirements));
    assert_eq!(FileTypes::classify("constraints.txt"), Some(FileTypes::Constraints));
    assert_eq!(FileTypes::classify("pyproject.toml"), Some(FileTypes::Pyproject));
    assert_eq!(FileTypes::classify("dev-requirements.txt"), None);
    assert_eq!(FileTypes::classify("main.pyc"), None);
    assert_eq!(FileTypes::classify("py"), None);
    assert_eq!(FileTypes::classify(""), None);
    assert_eq!(FileTypes::classify("\u{e9}.py"), Some(FileTypes::Python));

    let file = |filetype| FoundFile { name: "x".to_string(), filetype, path: "./x".to_string() };
    assert!(file(FileTypes::Python).is_python());
    assert!(!file(FileTypes::SetupPy).is_python());
    assert!(file(FileTypes::Requirements).is_reqs());
    assert!(!file(FileTypes::Constraints).is_reqs());
    assert!(file(FileTypes::Pyproject).is_pyproject());
    assert!(file(FileTypes::SetupPy).is_setuppy());
}

#[test]
fn source_of_the_dependencies() {
    let mut found = FoundFileResult::new();
    assert_eq!(found.source(), None);
    found.python();
    found.add(FoundFile { name: "a.py".to_string(), filetype: FileTypes::Python, path: "a.py".to_string() });
    assert_eq!((found.py_found, found.files.len()), (1, 1));
    assert_eq!(found.source(), Some(FileTypes::Python));
    found.setuppy();
    assert_eq!(found.source(), Some(FileTypes::SetupPy));
    found.pyproject();
    found.pyproject();
    assert_eq!(found.source(), Some(FileTypes::Pyproject));
    found.constraints();
    assert_eq!(found.source(), Some(FileTypes::Constraints));
    found.reqs();
    assert_eq!(found.source(), Some(FileTypes::Requirements));
    assert_eq!(
        (found.py_found, found.reqs_found, found.pyproject_found, found.constraints_found, found.setuppy_found),
        (1, 1, 2, 1, 1)
    );
}

#[test]
fn source_of_the_version() {
    let declared = Some("1.0".to_string());
    assert_eq!(VersionStatus::plan(true, true, &declared), VersionSource::Pip);
    assert_eq!(VersionStatus::plan(false, true, &declared), VersionSource::Pypi);
    assert_eq!(VersionStatus::plan(false, false, &declared), VersionSource::Declared);
    assert_eq!(VersionStatus::plan(false, false, &None), VersionSource::Fallback);
    assert_eq!(VersionStatus::plan(true, false, &None), VersionSource::Pip);
}

#[test]
fn messages() {
    assert_eq!(get_version(), "0.1.5");
    assert_eq!(PipError("x".to_string()).message(), "Pip error: x");
    assert_eq!(PypiError("".to_string()).message(), "pypi.org error: ");
    assert_eq!(DockerError("no image".to_string()).message(), "Docker error: no image");
    let row = store::Vulnerability { cve: "CVE-1".to_string(), name: "flask".to_string() };
    assert_eq!(row.describe(), "CVE: CVE-1,\nName: flask\n");
    let row = store::VulnerabilityDependency { cve: "CVE-1".to_string(), package: "flask".to_string() };
    assert_eq!(row.describe(), "Vulnerability CVE-1 was found in flask");
}

#[test]
fn clock() {
    assert_eq!(format_time(false, 12, 0, 0), "12:00:00 AM");
    assert_eq!(format_time(true, 1, 5, 59), "01:05:59 PM");
    assert_eq!(format_time(true, 11, 40, 7), "11:40:07 PM");
    assert_eq!(format_time(false, 99, 98, 10), "99:98:10 AM");
    assert_eq!(format_time(false, 9, 9, 9), "09:09:09 AM");
}

#[test]
fn pip_show() {
    let output = "Name: requests\nVersion: 2.31.0\nSummary: Python HTTP for Humans.\nVersion: 9\n";
    assert_eq!(pip_show_version(output).unwrap(), "2.31.0");
    assert_eq!(pip_show_version("Version: 1.0\r\n").unwrap(), "1.0");
    assert_eq!(pip_show_version("Version: ").unwrap(), "");
    let missing = pip_show_version("Name: requests\n version: 1\nVersion:1\n").unwrap_err();
    assert_eq!(missing.0, "could not retrive package version from Pip");
    assert!(pip_show_version("").is_err());
}

#[test]
fn pip_list() {
    let output = "Package    Version\n---------- -------\nrequests   2.31.0\nnumpy 1.26.4 extra\n\nodd\n  pip\t24.0\nnumpy 2.0\n";
    let listed = pip_list_entries(output);
    assert_eq!(listed.len(), 3);
    assert_eq!(listed.get("requests").map(|v| v.as_str()), Some("2.31.0"));
    assert_eq!(listed.get("numpy").map(|v| v.as_str()), Some("2.0"));
    assert_eq!(listed.get("pip").map(|v| v.as_str()), Some("24.0"));
    assert!(!listed.contains_key("Package"));
    assert!(!listed.contains_key("odd"));
    assert_eq!(pip_list_entries("a 1\nb 2").len(), 0);
    assert_eq!(pip_list_entries("").len(), 0);

    let mut cache = PipCache::init(listed);
    assert!(cache.cached());
    assert_eq!(cache.lookup("pip").unwrap(), "24.0");
    assert_eq!(cache.lookup("flask").unwrap_err().0, "Package not found in pip");
    cache._clear_cache();
    assert!(cache.lookup("pip").is_err());
}
