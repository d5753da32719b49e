//! The records of the OSV and PyPI interfaces, and the queries built from
//! dependencies.

use std::collections::HashMap;

use vstd::hash_map::StringHashMap;
use vstd::prelude::*;
use vstd::string::StringExecFns;

use crate::parser::structs::{Dependency, ScannedDependency};
use crate::text::texts_view;

verus! {

/// The vulnerabilities reported for one package.
#[derive(Debug)]
pub struct Vulnerability {
    pub vulns: Vec<Vuln>,
}

/// One vulnerability, and what it affects.
#[derive(Debug)]
pub struct Vuln {
    pub id: String,
    pub details: String,
    pub affected: Vec<Affected>,
}

/// A package that a vulnerability affects, and in which versions.
#[derive(Debug)]
pub struct Affected {
    pub package: Package,
    pub versions: Option<Vec<String>>,
}

/// The value of a [`Package`].
pub struct PackageView {
    pub name: Seq<char>,
    pub ecosystem: Seq<char>,
    pub purl: Seq<char>,
}

/// The value of an [`Affected`].
pub struct AffectedView {
    pub package: PackageView,
    pub versions: Option<Seq<Seq<char>>>,
}

/// The value of a [`Vuln`].
pub struct VulnView {
    pub id: Seq<char>,
    pub details: Seq<char>,
    pub affected: Seq<AffectedView>,
}

/// The value of a [`Vulnerability`].
pub struct VulnerabilityView {
    pub vulns: Seq<VulnView>,
}

/// Where an entry comes from.
#[derive(Debug, Clone)]
pub struct AffectedDatabaseSpecific {
    pub source: String,
}

/// The functions that a vulnerability affects.
#[derive(Debug, Clone)]
pub struct EcosystemSpecific {
    pub affected_functions: Vec<String>,
}

/// A package in an ecosystem.
#[derive(Debug)]
pub struct Package {
    pub name: String,
    pub ecosystem: String,
    pub purl: String,
}

/// A range of versions, by the events that open and close it.
#[derive(Debug, Clone)]
pub struct Range {
    pub range_type: String,
    pub events: Vec<Event>,
    pub repo: Option<String>,
}

/// The version in which a vulnerability came in, or the one that fixed it.
#[derive(Debug, Clone)]
pub struct Event {
    pub introduced: Option<String>,
    pub fixed: Option<String>,
}

/// What the database adds of its own to a vulnerability.
#[derive(Debug, Clone)]
pub struct VulnDatabaseSpecific {
    pub cwe_ids: Vec<String>,
    pub github_reviewed: bool,
    pub severity: String,
    pub github_reviewed_at: String,
    pub nvd_published_at: Option<String>,
}

/// A page that tells of a vulnerability.
#[derive(Debug, Clone)]
pub struct Reference {
    pub reference_type: String,
    pub url: String,
}

/// How severe a vulnerability is, on some scale.
#[derive(Debug, Clone)]
pub struct Severity {
    pub severity_type: String,
    pub score: String,
}

/// What PyPI knows of a package: its releases by version.
#[derive(Debug, Clone)]
pub struct PypiResponse {
    pub releases: HashMap<String, Option<Vec<Url>>>,
}

/// How often a package was fetched.
#[derive(Debug, Clone)]
pub struct Downloads {
    pub last_day: i64,
    pub last_month: i64,
    pub last_week: i64,
}

/// The pages of a project.
#[derive(Debug, Clone)]
pub struct ProjectUrls {
    pub homepage: String,
    pub source_code: String,
}

/// One file of a release.
#[derive(Debug, Clone)]
pub struct Url {
    pub digests: Option<Digests>,
    pub downloads: Option<i64>,
    pub filename: Option<String>,
    pub has_sig: Option<bool>,
    pub md5_digest: Option<String>,
    pub packagetype: Option<String>,
    pub python_version: Option<String>,
    pub requires_python: Option<String>,
    pub size: Option<i64>,
    pub upload_time: Option<String>,
    pub upload_time_iso_8601: Option<String>,
    pub url: Option<String>,
    pub yanked: Option<bool>,
}

/// The hashes of a file.
#[derive(Debug, Clone)]
pub struct Digests {
    pub blake2_b_256: String,
    pub md5: String,
    pub sha256: String,
}

/// Several queries sent at once.
#[derive(Debug, Clone)]
pub struct QueryBatched {
    pub queries: Vec<Query>,
}

/// The question whether one version of one package is vulnerable.
#[derive(Debug, Clone)]
pub struct Query {
    pub version: String,
    pub package: QueryPackage,
}

/// The package that a query asks about.
#[derive(Debug, Clone)]
pub struct QueryPackage {
    pub name: String,
    pub ecosystem: String,
}

/// The answers to a batch of queries, in the order of the queries.
#[derive(Debug, Clone)]
pub struct QueryResponse {
    pub results: Vec<QueryResult>,
}

/// The vulnerabilities known for one query, if any.
#[derive(Debug, Clone)]
pub struct QueryResult {
    pub vulns: Option<Vec<QueryVuln>>,
}

/// A vulnerability by its identifier.
#[derive(Debug, Clone)]
pub struct QueryVuln {
    pub id: String,
    pub modified: String,
}

impl View for Package {
    type V = PackageView;

    open spec fn view(&self) -> PackageView {
        PackageView { name: self.name@, ecosystem: self.ecosystem@, purl: self.purl@ }
    }
}

impl View for Affected {
    type V = AffectedView;

    open spec fn view(&self) -> AffectedView {
        AffectedView {
            package: self.package@,
            versions: match self.versions {
                Some(versions) => Some(texts_view(versions@)),
                None => None,
            },
        }
    }
}

impl View for Vuln {
    type V = VulnView;

    open spec fn view(&self) -> VulnView {
        VulnView {
            id: self.id@,
            details: self.details@,
            affected: Seq::new(self.affected@.len(), |k: int| self.affected@[k]@),
        }
    }
}

impl View for Vulnerability {
    type V = VulnerabilityView;

    open spec fn view(&self) -> VulnerabilityView {
        VulnerabilityView { vulns: Seq::new(self.vulns@.len(), |k: int| self.vulns@[k]@) }
    }
}

/// Copies some texts.
fn copy_texts(texts: &Vec<String>) -> (copy: Vec<String>)
    ensures
        texts_view(copy@) == texts_view(texts@),
{
    let mut copy: Vec<String> = Vec::new();
    let mut k: usize = 0;
    while k < texts.len()
        invariant
            k <= texts@.len(),
            copy@.len() == k,
            forall|j: int| 0 <= j < k ==> copy@[j]@ == texts@[j]@,
        decreases texts@.len() - k,
    {
        copy.push(texts[k].clone());
        k = k + 1;
    }
    assert(texts_view(copy@) =~= texts_view(texts@));
    copy
}

impl Clone for Package {
    fn clone(&self) -> (copy: Self)
        ensures
            copy@ == self@,
    {
        Package {
            name: self.name.clone(),
            ecosystem: self.ecosystem.clone(),
            purl: self.purl.clone(),
        }
    }
}

impl Clone for Affected {
    fn clone(&self) -> (copy: Self)
        ensures
            copy@ == self@,
    {
        Affected {
            package: self.package.clone(),
            versions: match &self.versions {
                Some(versions) => Some(copy_texts(versions)),
                None => None,
            },
        }
    }
}

impl Clone for Vuln {
    fn clone(&self) -> (copy: Self)
        ensures
            copy@ == self@,
    {
        let mut affected: Vec<Affected> = Vec::new();
        let mut k: usize = 0;
        while k < self.affected.len()
            invariant
                k <= self.affected@.len(),
                affected@.len() == k,
                forall|j: int| 0 <= j < k ==> affected@[j]@ == self.affected@[j]@,
            decreases self.affected@.len() - k,
        {
            affected.push(self.affected[k].clone());
            k = k + 1;
        }
        let copy = Vuln { id: self.id.clone(), details: self.details.clone(), affected };
        assert(copy@.affected =~= self@.affected);
        copy
    }
}

impl Clone for Vulnerability {
    fn clone(&self) -> (copy: Self)
        ensures
            copy@ == self@,
    {
        let mut vulns: Vec<Vuln> = Vec::new();
        let mut k: usize = 0;
        while k < self.vulns.len()
            invariant
                k <= self.vulns@.len(),
                vulns@.len() == k,
                forall|j: int| 0 <= j < k ==> vulns@[j]@ == self.vulns@[j]@,
            decreases self.vulns@.len() - k,
        {
            vulns.push(self.vulns[k].clone());
            k = k + 1;
        }
        let copy = Vulnerability { vulns };
        assert(copy@.vulns =~= self@.vulns);
        copy
    }
}

impl Query {
    /// The query for `version` of the PyPI package `name`.
    pub fn new(version: &str, name: &str) -> (query: Query)
        ensures
            query.version@ == version@,
            query.package.name@ == name@,
            query.package.ecosystem@ == "PyPI"@,
    {
        Query {
            version: String::from_str(version),
            package: QueryPackage {
                name: String::from_str(name),
                ecosystem: String::from_str("PyPI"),
            },
        }
    }
}

impl QueryBatched {
    /// The batch of the queries `q`.
    pub fn new(q: Vec<Query>) -> (batch: QueryBatched)
        ensures
            batch.queries == q,
    {
        QueryBatched { queries: q }
    }
}

impl Vulnerability {
    /// The name of the package that the report is about: the package of
    /// the first entry that the first vulnerability affects. A report
    /// without vulnerabilities, or whose first one affects nothing, has a
    /// placeholder for a name.
    pub open spec fn package_name(&self) -> Seq<char> {
        if self.vulns@.len() == 0 {
            "Name In Context"@
        } else if self.vulns@[0].affected@.len() == 0 {
            "Name in Context"@
        } else {
            self.vulns@[0].affected@[0].package.name@
        }
    }

    /// Computes [`Self::package_name`].
    pub fn name_in_context(&self) -> (name: String)
        ensures
            name@ == self.package_name(),
    {
        if self.vulns.len() == 0 {
            String::from_str("Name In Context")
        } else if self.vulns[0].affected.len() == 0 {
            String::from_str("Name in Context")
        } else {
            self.vulns[0].affected[0].package.name.clone()
        }
    }

    /// The report together with the package it is about and the version of
    /// that package that the project uses, looked up in `imports_info`.
    pub fn to_scanned_dependency(&self, imports_info: &StringHashMap<String>) -> (scanned:
        ScannedDependency)
        requires
            imports_info@.contains_key(self.package_name()),
        ensures
            scanned.name@ == self.package_name(),
            scanned.version@ == imports_info@[self.package_name()]@,
            scanned.vuln@ == self@,
    {
        let name = self.name_in_context();
        let version = imports_info.get(name.as_str()).unwrap().clone();
        ScannedDependency { name, version, vuln: self.clone() }
    }
}

/// The versions that an entry of a vulnerability names first and last;
/// where it names none, placeholders stand for them.
pub open spec fn span_of(affected: Affected) -> (Seq<char>, Seq<char>) {
    match affected.versions {
        Some(versions) => (versions@[0]@, versions@[versions@.len() - 1]@),
        None => ("This version"@, "Unknown"@),
    }
}

impl Vuln {
    /// The versions between which the vulnerability is found: the first
    /// version of the first entry that it affects and the last version of
    /// the last one.
    pub fn affected_span(&self) -> (span: (String, String))
        requires
            self.affected@.len() > 0,
            self.affected@[0].versions matches Some(versions) ==> versions@.len() > 0,
            self.affected@[self.affected@.len() - 1].versions matches Some(versions)
                ==> versions@.len() > 0,
        ensures
            span.0@ == span_of(self.affected@[0]).0,
            span.1@ == span_of(self.affected@[self.affected@.len() - 1]).1,
    {
        let first = match &self.affected[0].versions {
            Some(versions) => versions[0].clone(),
            None => String::from_str("This version"),
        };
        let last = match &self.affected[self.affected.len() - 1].versions {
            Some(versions) => versions[versions.len() - 1].clone(),
            None => String::from_str("Unknown"),
        };
        (first, last)
    }
}

/// The query asks about the dependency in its version.
pub open spec fn asks_about(query: Query, dep: Dependency) -> bool {
    &&& query.version@ == dep.version->0@
    &&& query.package.name@ == dep.name@
    &&& query.package.ecosystem@ == "PyPI"@
}

/// The queries are those for the first `n` of some dependencies, in their
/// order.
pub open spec fn queries_for(deps: Seq<Dependency>, queries: Seq<Query>, n: int) -> bool {
    &&& queries.len() == n
    &&& forall|k: int| 0 <= k < n ==> asks_about(#[trigger] queries[k], deps[k])
}

impl QueryBatched {
    /// The batch that asks about each of `deps` in its version, in their
    /// order.
    pub fn of(deps: &Vec<Dependency>) -> (batch: QueryBatched)
        requires
            forall|k: int| 0 <= k < deps@.len() ==> (#[trigger] deps@[k]).version is Some,
        ensures
            queries_for(deps@, batch.queries@, deps@.len() as int),
    {
        let mut queries: Vec<Query> = Vec::new();
        let mut k: usize = 0;
        while k < deps.len()
            invariant
                k <= deps@.len(),
                forall|j: int| 0 <= j < deps@.len() ==> (#[trigger] deps@[j]).version is Some,
                queries_for(deps@, queries@, k as int),
            decreases deps@.len() - k,
        {
            queries.push(deps[k].to_query());
            k = k + 1;
        }
        QueryBatched::new(queries)
    }
}

} // verus!
