//! What the scan tells the user while it runs.

use vstd::hash_map::StringHashMap;
use vstd::prelude::*;

use crate::parser::structs::ScannedDependency;

verus! {

/// How many vulnerable dependencies were found, and how many of them the
/// user has been told of.
pub struct Progress {
    count: usize,
    current_displayed: usize,
}

/// What is to be done to the progress line.
#[derive(Debug, Clone, Copy, PartialEq, Eq)]
pub struct ProgressUpdate {
    /// The line written last is to be cleared first.
    pub clear: bool,
    /// The count to announce, if it is to be announced.
    pub announce: Option<usize>,
}

impl Progress {
    /// The number of vulnerable dependencies found so far.
    pub closed spec fn count(&self) -> nat {
        self.count as nat
    }

    /// The count that the user was told of last.
    pub closed spec fn displayed(&self) -> nat {
        self.current_displayed as nat
    }

    /// Nothing found, nothing displayed.
    pub fn new() -> (progress: Progress)
        ensures
            progress.count() == 0,
            progress.displayed() == 0,
    {
        Progress { count: 0, current_displayed: 0 }
    }

    /// Says how the progress line is to change, and takes the count as
    /// displayed where it is announced. The last line is cleared once more
    /// than one was found; the count is announced where it has grown since
    /// it was last displayed.
    pub fn display(&mut self) -> (update: ProgressUpdate)
        ensures
            update.clear == (old(self).count() > 1),
            update.announce == (if old(self).count() > old(self).displayed() {
                Some(old(self).count() as usize)
            } else {
                None
            }),
            final(self).count() == old(self).count(),
            final(self).displayed() == (if old(self).count() > old(self).displayed() {
                old(self).count()
            } else {
                old(self).displayed()
            }),
    {
        let clear = self.count > 1;
        if self.count > self.current_displayed {
            self.current_displayed = self.count;
            ProgressUpdate { clear, announce: Some(self.count) }
        } else {
            ProgressUpdate { clear, announce: None }
        }
    }

    /// Counts one more vulnerable dependency.
    pub fn count_one(&mut self)
        requires
            old(self).count() < usize::MAX,
        ensures
            final(self).count() == old(self).count() + 1,
            final(self).displayed() == old(self).displayed(),
    {
        self.count += 1;
    }

    /// The number of vulnerable dependencies found so far.
    pub fn found(&self) -> (n: usize)
        ensures
            n == self.count(),
    {
        self.count
    }
}

/// `info` without the names of the first `n` scanned dependencies.
pub open spec fn without_scanned(
    info: Map<Seq<char>, String>,
    collected: Seq<ScannedDependency>,
    n: int,
) -> Map<Seq<char>, String>
    decreases n,
{
    if n <= 0 {
        info
    } else {
        without_scanned(info, collected, n - 1).remove(collected[n - 1].name@)
    }
}

/// Takes the dependencies for which vulnerabilities were found out of
/// `imports_info`, so that those remain for which none were found.
pub fn display_queried(collected: &Vec<ScannedDependency>, imports_info: &mut StringHashMap<String>)
    ensures
        final(imports_info)@ == without_scanned(
            old(imports_info)@,
            collected@,
            collected@.len() as int,
        ),
{
    let ghost before = imports_info@;
    let mut k: usize = 0;
    while k < collected.len()
        invariant
            k <= collected@.len(),
            imports_info@ == without_scanned(before, collected@, k as int),
        decreases collected@.len() - k,
    {
        imports_info.remove(collected[k].name.as_str());
        k = k + 1;
    }
}

} // verus!
