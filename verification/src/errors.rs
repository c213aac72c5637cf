//! The ways a machine-identifier lookup can fail.

use vstd::prelude::*;

verus! {

/// Why the machine identifier could not be retrieved.
///
/// Every failure of a lookup surfaces as exactly one of these variants; no
/// retry is made beyond the documented primary/fallback source pairs.
#[derive(Clone, Copy, Debug, PartialEq, Eq, Structural)]
pub enum Error {
    /// No identifier file could be opened, read and decoded.
    FileUnreadable,
    /// The helper process could not be spawned or did not run.
    ProcessSpawnFailed,
    /// The helper process produced output that could not be decoded.
    ProcessOutputUndecodable,
    /// No line of the helper output carried the expected marker.
    PatternNotFound,
    /// The registry key could not be opened for reading.
    RegistryKeyUnopenable,
    /// The registry value was absent or could not be read as a string.
    RegistryValueUnreadable,
}

impl Error {
    /// A short human-readable description of the failure.
    pub fn message(&self) -> (r: String)
        ensures
            r@ == match *self {
                Error::FileUnreadable => "machine id file is unreadable"@,
                Error::ProcessSpawnFailed => "helper process could not be run"@,
                Error::ProcessOutputUndecodable => "helper process output could not be decoded"@,
                Error::PatternNotFound => "no line of the helper output holds the marker"@,
                Error::RegistryKeyUnopenable => "registry key could not be opened"@,
                Error::RegistryValueUnreadable => "registry value could not be read"@,
            },
    {
        match *self {
            Error::FileUnreadable => String::from_str("machine id file is unreadable"),
            Error::ProcessSpawnFailed => String::from_str("helper process could not be run"),
            Error::ProcessOutputUndecodable => String::from_str(
                "helper process output could not be decoded",
            ),
            Error::PatternNotFound => String::from_str(
                "no line of the helper output holds the marker",
            ),
            Error::RegistryKeyUnopenable => String::from_str("registry key could not be opened"),
            Error::RegistryValueUnreadable => String::from_str("registry value could not be read"),
        }
    }
}

} // verus!
