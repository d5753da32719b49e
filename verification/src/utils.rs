//! Small things that several parts of the scanner use.

use vstd::hash_map::StringHashMap;
use vstd::prelude::*;
use vstd::string::{StrSliceExecFns, StringExecFns};

use crate::parser::structs::Dependency;
use crate::pep_508::lexer::lit;
use crate::text::{lead_end, lines, lines_of, names_view, starts_with, word, word_end};

verus! {

/// What went wrong when pip was asked.
#[derive(Debug)]
pub struct PipError(pub String);

/// What went wrong when pypi.org was asked.
#[derive(Debug)]
pub struct PypiError(pub String);

impl PipError {
    /// The error as a line for the user.
    pub fn message(&self) -> (line: String)
        ensures
            line@ == "Pip error: "@ + self.0@,
    {
        String::from_str("Pip error: ").concat(self.0.as_str())
    }
}

impl PypiError {
    /// The error as a line for the user.
    pub fn message(&self) -> (line: String)
        ensures
            line@ == "pypi.org error: "@ + self.0@,
    {
        String::from_str("pypi.org error: ").concat(self.0.as_str())
    }
}

/// The version of the scanner.
pub fn get_version() -> (version: String)
    ensures
        version@ == "0.1.5"@,
{
    String::from_str("0.1.5")
}

/// The map from name to version that the first `n` dependencies give, a
/// later dependency overriding an earlier one of the same name.
pub open spec fn versions_by_name(v: Seq<Dependency>, n: int) -> Map<Seq<char>, String>
    decreases n,
{
    if n <= 0 {
        Map::empty()
    } else {
        versions_by_name(v, n - 1).insert(v[n - 1].name@, v[n - 1].version->0)
    }
}

/// The versions of the dependencies by their names.
pub fn vecdep_to_hashmap(v: &Vec<Dependency>) -> (importmap: StringHashMap<String>)
    requires
        forall|k: int| 0 <= k < v@.len() ==> (#[trigger] v@[k]).version is Some,
    ensures
        importmap@ == versions_by_name(v@, v@.len() as int),
{
    let mut importmap: StringHashMap<String> = StringHashMap::new();
    let mut k: usize = 0;
    while k < v.len()
        invariant
            k <= v@.len(),
            forall|j: int| 0 <= j < v@.len() ==> (#[trigger] v@[j]).version is Some,
            importmap@ == versions_by_name(v@, k as int),
        decreases v@.len() - k,
    {
        let version = v[k].version.as_ref().unwrap().clone();
        importmap.insert(v[k].name.clone(), version);
        k = k + 1;
    }
    importmap
}

/// The versions that pip knows, by the names of the packages.
pub struct PipCache {
    cache: StringHashMap<String>,
    cached: bool,
}

impl PipCache {
    /// The versions kept, by the names of the packages.
    pub closed spec fn view(&self) -> Map<Seq<char>, String> {
        self.cache@
    }

    /// The cache was filled.
    pub closed spec fn is_cached(&self) -> bool {
        self.cached
    }

    /// The cache that holds what `pip list` printed.
    pub fn init(pip_list: StringHashMap<String>) -> (cache: PipCache)
        ensures
            cache@ == pip_list@,
            cache.is_cached(),
    {
        PipCache { cache: pip_list, cached: true }
    }

    /// Tells whether the cache was filled.
    pub fn cached(&self) -> (b: bool)
        ensures
            b == self.is_cached(),
    {
        self.cached
    }

    /// Forgets every version.
    pub fn _clear_cache(&mut self)
        ensures
            final(self).is_cached() == old(self).is_cached(),
            final(self)@ == (if old(self).is_cached() {
                Map::<Seq<char>, String>::empty()
            } else {
                old(self)@
            }),
    {
        if self.cached {
            self.cache.clear()
        }
    }

    /// The version of the package `package_name`, if pip knows it.
    pub fn lookup(&self, package_name: &str) -> (r: Result<String, PipError>)
        ensures
            match r {
                Ok(version) => self@.contains_key(package_name@) && version@
                    == self@[package_name@]@,
                Err(e) => !self@.contains_key(package_name@) && e.0@
                    == "Package not found in pip"@,
            },
    {
        match self.cache.get(package_name) {
            Some(version) => Ok(version.clone()),
            None => Err(PipError(String::from_str("Package not found in pip"))),
        }
    }
}

/// A number below ten as its digit.
pub open spec fn digit_of(n: nat) -> Seq<char> {
    if n == 0 {
        "0"@
    } else if n == 1 {
        "1"@
    } else if n == 2 {
        "2"@
    } else if n == 3 {
        "3"@
    } else if n == 4 {
        "4"@
    } else if n == 5 {
        "5"@
    } else if n == 6 {
        "6"@
    } else if n == 7 {
        "7"@
    } else if n == 8 {
        "8"@
    } else {
        "9"@
    }
}

/// A number below a hundred in two digits.
pub open spec fn two_digits(n: nat) -> Seq<char> {
    digit_of(n / 10) + digit_of(n % 10)
}

/// A time of day on the twelve-hour clock, as `hh:mm:ss` and `AM` or `PM`.
pub open spec fn clock_text(is_pm: bool, hour: nat, minute: nat, second: nat) -> Seq<char> {
    two_digits(hour) + ":"@ + two_digits(minute) + ":"@ + two_digits(second) + " "@ + (if is_pm {
        "PM"@
    } else {
        "AM"@
    })
}

fn digit(n: u32) -> (text: &'static str)
    requires
        n < 10,
    ensures
        text@ == digit_of(n as nat),
{
    if n == 0 {
        "0"
    } else if n == 1 {
        "1"
    } else if n == 2 {
        "2"
    } else if n == 3 {
        "3"
    } else if n == 4 {
        "4"
    } else if n == 5 {
        "5"
    } else if n == 6 {
        "6"
    } else if n == 7 {
        "7"
    } else if n == 8 {
        "8"
    } else {
        "9"
    }
}

/// Writes a time of day on the twelve-hour clock.
pub fn format_time(is_pm: bool, hour: u32, minute: u32, second: u32) -> (text: String)
    requires
        hour < 100,
        minute < 100,
        second < 100,
    ensures
        text@ == clock_text(is_pm, hour as nat, minute as nat, second as nat),
{
    let text = String::from_str(digit(hour / 10)).concat(digit(hour % 10)).concat(":").concat(
        digit(minute / 10),
    ).concat(digit(minute % 10)).concat(":").concat(digit(second / 10)).concat(
        digit(second % 10),
    ).concat(" ").concat(
        if is_pm {
            "PM"
        } else {
            "AM"
        },
    );
    assert(text@ =~= clock_text(is_pm, hour as nat, minute as nat, second as nat));
    text
}

/// What stands behind `Version: ` in the first of the first `n` lines that
/// starts with it.
pub open spec fn version_among(lines: Seq<Seq<char>>, from: int) -> Option<Seq<char>>
    decreases lines.len() - from,
{
    if from < 0 || from >= lines.len() {
        None
    } else if lit(lines[from], 0, "Version: "@) {
        Some(lines[from].subrange("Version: "@.len() as int, lines[from].len() as int))
    } else {
        version_among(lines, from + 1)
    }
}

/// Reads the version of a package out of what `pip show` printed.
pub fn pip_show_version(output: &str) -> (r: Result<String, PipError>)
    ensures
        match r {
            Ok(version) => version_among(lines_of(output@), 0) == Some(version@),
            Err(e) => version_among(lines_of(output@), 0) is None && e.0@
                == "could not retrive package version from Pip"@,
        },
{
    let all = lines(output);
    let mut k: usize = 0;
    while k < all.len()
        invariant
            k <= all@.len(),
            names_view(all@) == lines_of(output@),
            version_among(lines_of(output@), 0) == version_among(lines_of(output@), k as int),
        decreases all@.len() - k,
    {
        let line: &str = all[k];
        assert(names_view(all@)[k as int] == line@);
        if starts_with(line, "Version: ") {
            let from: usize = "Version: ".unicode_len();
            return Ok(String::from_str(line.substring_char(from, line.unicode_len())));
        }
        k = k + 1;
    }
    Err(PipError(String::from_str("could not retrive package version from Pip")))
}

/// The first two words of a line, where it has two.
pub open spec fn name_and_version(line: Seq<char>) -> Option<(Seq<char>, Seq<char>)> {
    let a = lead_end(line, 0);
    let b = word_end(line, a);
    let c = lead_end(line, b);
    let d = word_end(line, c);
    if a < b && c < d {
        Some((line.subrange(a, b), line.subrange(c, d)))
    } else {
        None
    }
}

/// The versions by the names of the packages in the lines from the third
/// up to the `n`th of what `pip list` printed; a later line overrides an
/// earlier one with the same name.
pub open spec fn listed(lines: Seq<Seq<char>>, n: int) -> Map<Seq<char>, Seq<char>>
    decreases n,
{
    if n <= 2 || n > lines.len() {
        Map::empty()
    } else {
        match name_and_version(lines[n - 1]) {
            Some((name, version)) => listed(lines, n - 1).insert(name, version),
            None => listed(lines, n - 1),
        }
    }
}

/// The texts of a map, each by its characters.
pub open spec fn texts_of(m: Map<Seq<char>, String>) -> Map<Seq<char>, Seq<char>> {
    m.map_values(|text: String| text@)
}

/// Reads the packages and their versions out of what `pip list` printed:
/// two lines of heading, and then a name and a version in each line.
pub fn pip_list_entries(output: &str) -> (r: StringHashMap<String>)
    ensures
        texts_of(r@) == listed(lines_of(output@), lines_of(output@).len() as int),
{
    let all = lines(output);
    let ghost views = lines_of(output@);
    let mut r: StringHashMap<String> = StringHashMap::new();
    if all.len() <= 2 {
        assert(texts_of(r@) =~= Map::<Seq<char>, Seq<char>>::empty());
        return r;
    }
    let mut k: usize = 2;
    assert(texts_of(r@) =~= listed(views, 2));
    while k < all.len()
        invariant
            2 <= k <= all@.len(),
            views == names_view(all@),
            texts_of(r@) == listed(views, k as int),
        decreases all@.len() - k,
    {
        let line: &str = all[k];
        assert(views[k as int] == line@);
        let (name, b) = word(line, 0);
        let (version, d) = word(line, b);
        assert(name@.len() == b - lead_end(line@, 0));
        assert(version@.len() == d - lead_end(line@, b as int));
        if name.unicode_len() > 0 && version.unicode_len() > 0 {
            let ghost before = r@;
            let kept = String::from_str(version);
            r.insert(String::from_str(name), kept);
            assert(texts_of(r@) =~= texts_of(before).insert(name@, version@));
        }
        k = k + 1;
    }
    r
}

} // verus!
