//! The rows of the project database.

use vstd::prelude::*;
use vstd::string::StringExecFns;

verus! {

/// A vulnerability as a row.
pub struct Vulnerability {
    pub cve: String,
    pub name: String,
}

/// The relation between a vulnerability and a package.
pub struct VulnerabilityDependency {
    pub cve: String,
    pub package: String,
}

/// A logged change of a dependency.
pub struct DependencyChanges {
    pub hash: u64,
    pub name: String,
    pub change: char,
    pub timestamp: i64,
}

/// The home database of the scanner.
pub struct PyscanData;

impl Vulnerability {
    /// The row as text for the user.
    pub fn describe(&self) -> (text: String)
        ensures
            text@ == "CVE: "@ + self.cve@ + ",\nName: "@ + self.name@ + "\n"@,
    {
        String::from_str("CVE: ").concat(self.cve.as_str()).concat(",\nName: ").concat(
            self.name.as_str(),
        ).concat("\n")
    }
}

impl VulnerabilityDependency {
    /// The row as text for the user.
    pub fn describe(&self) -> (text: String)
        ensures
            text@ == "Vulnerability "@ + self.cve@ + " was found in "@ + self.package@,
    {
        String::from_str("Vulnerability ").concat(self.cve.as_str()).concat(
            " was found in ",
        ).concat(self.package.as_str())
    }
}

} // verus!
