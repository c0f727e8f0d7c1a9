//! Errors of placing a downloaded model file into the cache.
use vstd::prelude::*;

use crate::text::concat2;

verus! {

/// Why a model file could not be installed.
#[derive(Debug, PartialEq, Eq)]
pub enum InstallError {
    SourceMissing(String),
    Io(String),
}

impl InstallError {
    pub open spec fn message_spec(&self) -> Seq<char> {
        match self {
            InstallError::SourceMissing(p) => "source file not found: "@ + p@,
            InstallError::Io(m) => "io error: "@ + m@,
        }
    }

    /// The error text shown to the user.
    pub fn message(&self) -> (r: String)
        ensures
            r@ == self.message_spec(),
    {
        match self {
            InstallError::SourceMissing(p) => concat2("source file not found: ", p.as_str()),
            InstallError::Io(m) => concat2("io error: ", m.as_str()),
        }
    }
}

} // verus!
