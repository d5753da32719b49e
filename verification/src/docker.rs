//! Scanning inside a Docker image.

use vstd::prelude::*;
use vstd::string::StringExecFns;

verus! {

/// What went wrong when Docker was asked.
#[derive(Debug)]
pub struct DockerError(pub String);

impl DockerError {
    /// The error as a line for the user.
    pub fn message(&self) -> (line: String)
        ensures
            line@ == "Docker error: "@ + self.0@,
    {
        String::from_str("Docker error: ").concat(self.0.as_str())
    }
}

} // verus!
