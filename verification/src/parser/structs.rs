//! The records that the scan of a project hands on.

use vstd::prelude::*;

use crate::pep_508::Comparator;
use crate::scanner::models::{Query, Vulnerability};
use crate::text::{ends_with, has_ending, same_text};

verus! {

/// The kinds of file that declare dependencies.
#[derive(Debug, PartialEq, Eq, Clone, Copy)]
pub enum FileTypes {
    Python,
    Requirements,
    Pyproject,
    Constraints,
    SetupPy,
}

/// A file that declares dependencies.
#[derive(Debug, Clone)]
pub struct FoundFile {
    pub name: String,
    pub filetype: FileTypes,
    pub path: String,
}

/// The files found in a directory, and how many of each kind.
#[derive(Debug, Clone)]
pub struct FoundFileResult {
    pub files: Vec<FoundFile>,
    pub py_found: u64,
    pub reqs_found: u64,
    pub pyproject_found: u64,
    pub constraints_found: u64,
    pub setuppy_found: u64,
}

/// The version sources that have been asked for a dependency.
#[derive(Debug, Clone, Copy, PartialEq, Eq)]
pub struct VersionStatus {
    pub pypi: bool,
    pub pip: bool,
    pub source: bool,
}

/// Where the version of a dependency is to be taken from.
#[derive(Debug, Clone, Copy, PartialEq, Eq)]
pub enum VersionSource {
    /// From pip, because the user asked for it.
    Pip,
    /// From pypi.org, because the user asked for it.
    Pypi,
    /// From the file that declares the dependency.
    Declared,
    /// From pip, and from pypi.org where pip does not know the package.
    Fallback,
}

/// A dependency as the scan found it.
#[derive(Debug, Clone)]
pub struct Dependency {
    pub name: String,
    pub version: Option<String>,
    pub comparator: Option<Comparator>,
    pub version_status: VersionStatus,
}

/// The value of a [`Dependency`].
pub struct DependencyView {
    pub name: Seq<char>,
    pub version: Option<Seq<char>>,
    pub comparator: Option<Comparator>,
    pub version_status: VersionStatus,
}

/// A dependency for which vulnerabilities were reported.
#[derive(Debug, Clone)]
pub struct ScannedDependency {
    pub name: String,
    pub version: String,
    pub vuln: Vulnerability,
}

impl View for Dependency {
    type V = DependencyView;

    open spec fn view(&self) -> DependencyView {
        DependencyView {
            name: self.name@,
            version: match self.version {
                Some(version) => Some(version@),
                None => None,
            },
            comparator: self.comparator,
            version_status: self.version_status,
        }
    }
}

/// The kind of a file by its name. `setup.py` is asked for before the
/// ending `.py`.
pub open spec fn file_type_of(name: Seq<char>) -> Option<FileTypes> {
    if name == "setup.py"@ {
        Some(FileTypes::SetupPy)
    } else if ends_with(name, ".py"@) {
        Some(FileTypes::Python)
    } else if name == "requirements.txt"@ {
        Some(FileTypes::Requirements)
    } else if name == "constraints.txt"@ {
        Some(FileTypes::Constraints)
    } else if name == "pyproject.toml"@ {
        Some(FileTypes::Pyproject)
    } else {
        None
    }
}

impl FileTypes {
    /// The kind of the file called `name`, if it declares dependencies.
    pub fn classify(name: &str) -> (kind: Option<FileTypes>)
        ensures
            kind == file_type_of(name@),
    {
        if same_text(name, "setup.py") {
            Some(FileTypes::SetupPy)
        } else if has_ending(name, ".py") {
            Some(FileTypes::Python)
        } else if same_text(name, "requirements.txt") {
            Some(FileTypes::Requirements)
        } else if same_text(name, "constraints.txt") {
            Some(FileTypes::Constraints)
        } else if same_text(name, "pyproject.toml") {
            Some(FileTypes::Pyproject)
        } else {
            None
        }
    }
}

impl FoundFile {
    /// Tells whether the file is a Python source.
    pub fn is_python(&self) -> (b: bool)
        ensures
            b == (self.filetype == FileTypes::Python),
    {
        matches!(self.filetype, FileTypes::Python)
    }

    /// Tells whether the file is a requirements file.
    pub fn is_reqs(&self) -> (b: bool)
        ensures
            b == (self.filetype == FileTypes::Requirements),
    {
        matches!(self.filetype, FileTypes::Requirements)
    }

    /// Tells whether the file is a `pyproject.toml`.
    pub fn is_pyproject(&self) -> (b: bool)
        ensures
            b == (self.filetype == FileTypes::Pyproject),
    {
        matches!(self.filetype, FileTypes::Pyproject)
    }

    /// Tells whether the file is a `setup.py`.
    pub fn is_setuppy(&self) -> (b: bool)
        ensures
            b == (self.filetype == FileTypes::SetupPy),
    {
        matches!(self.filetype, FileTypes::SetupPy)
    }
}

impl FoundFileResult {
    /// No files, and none counted.
    pub fn new() -> (result: FoundFileResult)
        ensures
            result.files@.len() == 0,
            result.py_found == 0,
            result.reqs_found == 0,
            result.pyproject_found == 0,
            result.constraints_found == 0,
            result.setuppy_found == 0,
    {
        FoundFileResult {
            files: Vec::new(),
            py_found: 0,
            reqs_found: 0,
            pyproject_found: 0,
            constraints_found: 0,
            setuppy_found: 0,
        }
    }

    /// Keeps a file. The count of its kind is kept by the caller.
    pub fn add(&mut self, f: FoundFile)
        ensures
            final(self).files@ == old(self).files@.push(f),
            final(self).py_found == old(self).py_found,
            final(self).reqs_found == old(self).reqs_found,
            final(self).pyproject_found == old(self).pyproject_found,
            final(self).constraints_found == old(self).constraints_found,
            final(self).setuppy_found == old(self).setuppy_found,
    {
        self.files.push(f)
    }

    /// Counts one Python file.
    pub fn python(&mut self)
        requires
            old(self).py_found < u64::MAX,
        ensures
            *final(self) == (FoundFileResult {
                py_found: (old(self).py_found + 1) as u64,
                ..*old(self)
            }),
    {
        self.py_found += 1
    }

    /// Counts one requirements file.
    pub fn reqs(&mut self)
        requires
            old(self).reqs_found < u64::MAX,
        ensures
            *final(self) == (FoundFileResult {
                reqs_found: (old(self).reqs_found + 1) as u64,
                ..*old(self)
            }),
    {
        self.reqs_found += 1
    }

    /// Counts one `pyproject.toml`.
    pub fn pyproject(&mut self)
        requires
            old(self).pyproject_found < u64::MAX,
        ensures
            *final(self) == (FoundFileResult {
                pyproject_found: (old(self).pyproject_found + 1) as u64,
                ..*old(self)
            }),
    {
        self.pyproject_found += 1
    }

    /// Counts one constraints file.
    pub fn constraints(&mut self)
        requires
            old(self).constraints_found < u64::MAX,
        ensures
            *final(self) == (FoundFileResult {
                constraints_found: (old(self).constraints_found + 1) as u64,
                ..*old(self)
            }),
    {
        self.constraints_found += 1
    }

    /// Counts one `setup.py`.
    pub fn setuppy(&mut self)
        requires
            old(self).setuppy_found < u64::MAX,
        ensures
            *final(self) == (FoundFileResult {
                setuppy_found: (old(self).setuppy_found + 1) as u64,
                ..*old(self)
            }),
    {
        self.setuppy_found += 1
    }

    /// The kind of file that the dependencies are read from: requirements
    /// before constraints, then `pyproject.toml`, `setup.py` and Python
    /// sources. `None` where no file of any kind was found.
    pub fn source(&self) -> (kind: Option<FileTypes>)
        ensures
            kind == (if self.reqs_found != 0 {
                Some(FileTypes::Requirements)
            } else if self.constraints_found != 0 {
                Some(FileTypes::Constraints)
            } else if self.pyproject_found != 0 {
                Some(FileTypes::Pyproject)
            } else if self.setuppy_found != 0 {
                Some(FileTypes::SetupPy)
            } else if self.py_found != 0 {
                Some(FileTypes::Python)
            } else {
                None
            }),
    {
        if self.reqs_found > self.pyproject_found {
            Some(FileTypes::Requirements)
        } else if self.reqs_found != 0 {
            Some(FileTypes::Requirements)
        } else if self.constraints_found != 0 {
            Some(FileTypes::Constraints)
        } else if self.pyproject_found != 0 {
            Some(FileTypes::Pyproject)
        } else if self.setuppy_found != 0 {
            Some(FileTypes::SetupPy)
        } else if self.py_found != 0 {
            Some(FileTypes::Python)
        } else {
            None
        }
    }
}

impl VersionStatus {
    /// Where the version of a dependency is taken from: what the user asked
    /// for comes first, pip before pypi.org; without a wish the declared
    /// version is taken where there is one.
    pub fn plan(pip: bool, pypi: bool, declared: &Option<String>) -> (source: VersionSource)
        ensures
            source == (if pip {
                VersionSource::Pip
            } else if pypi {
                VersionSource::Pypi
            } else if declared is Some {
                VersionSource::Declared
            } else {
                VersionSource::Fallback
            }),
    {
        if pip {
            VersionSource::Pip
        } else if pypi {
            VersionSource::Pypi
        } else if declared.is_some() {
            VersionSource::Declared
        } else {
            VersionSource::Fallback
        }
    }
}

impl Dependency {
    /// The query that asks about this dependency in its version.
    pub fn to_query(&self) -> (query: Query)
        requires
            self.version is Some,
        ensures
            query.version@ == self.version->0@,
            query.package.name@ == self.name@,
            query.package.ecosystem@ == "PyPI"@,
    {
        Query::new(self.version.as_ref().unwrap().as_str(), self.name.as_str())
    }
}

} // verus!
