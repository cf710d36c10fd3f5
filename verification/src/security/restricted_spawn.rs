//! The exit status of a child started with reduced privileges.
use vstd::prelude::*;

verus! {

/// How a child process ended: its exit code, if it has one.
#[derive(Debug, Clone, PartialEq, Eq, Structural)]
pub struct RestrictedExitStatus {
    pub code: Option<i32>,
}

impl RestrictedExitStatus {
    /// Whether the child exited with code 0.
    pub fn success(&self) -> (b: bool)
        ensures
            b == (self.code == Some(0i32)),
    {
        match self.code {
            Some(c) => c == 0,
            None => false,
        }
    }
}

} // verus!
