//! The failures that the tracker reports, and the coarse classes they fall into.

use vstd::prelude::*;

verus! {

/// Why an operation of the tracker was refused.
#[derive(Clone, Copy, Debug, PartialEq, Eq, Structural)]
pub enum Error {
    /// A relative path was given where an absolute one is required.
    NotAbsolute,
    /// The path is already in the registry.
    AlreadyTracked,
    /// The registry document does not exist.
    RegistryMissing,
    /// The path is not in the registry.
    NotTracked,
    /// The stored document does not describe a valid registry.
    Parse,
    /// A path could not be read, fingerprinted or copied.
    Io,
}

/// The classes into which failures are grouped for reporting.
#[derive(Clone, Copy, Debug, PartialEq, Eq, Structural)]
pub enum ErrorKind {
    InvalidInput,
    NotFound,
    Conflict,
    Io,
    Parse,
}

impl Error {
    /// The class of this failure.
    pub open spec fn spec_kind(self) -> ErrorKind {
        match self {
            Error::NotAbsolute => ErrorKind::InvalidInput,
            Error::AlreadyTracked => ErrorKind::Conflict,
            Error::RegistryMissing => ErrorKind::NotFound,
            Error::NotTracked => ErrorKind::NotFound,
            Error::Parse => ErrorKind::Parse,
            Error::Io => ErrorKind::Io,
        }
    }

    /// The class of this failure.
    #[verifier::when_used_as_spec(spec_kind)]
    pub fn kind(self) -> (kind: ErrorKind)
        ensures
            kind == self.spec_kind(),
    {
        match self {
            Error::NotAbsolute => ErrorKind::InvalidInput,
            Error::AlreadyTracked => ErrorKind::Conflict,
            Error::RegistryMissing => ErrorKind::NotFound,
            Error::NotTracked => ErrorKind::NotFound,
            Error::Parse => ErrorKind::Parse,
            Error::Io => ErrorKind::Io,
        }
    }

    /// The text shown to the user for this failure.
    pub open spec fn spec_message(self) -> Seq<char> {
        match self {
            Error::NotAbsolute => "Path must be absolute"@,
            Error::AlreadyTracked => "Path is already inside backup file"@,
            Error::RegistryMissing => "Backup file does not exist"@,
            Error::NotTracked => "Path is not inside backup file"@,
            Error::Parse => "Backup file is not a valid registry"@,
            Error::Io => "Path could not be read or copied"@,
        }
    }

    /// The text shown to the user for this failure.
    pub fn message(self) -> (text: &'static str)
        ensures
            text@ == self.spec_message(),
    {
        match self {
            Error::NotAbsolute => "Path must be absolute",
            Error::AlreadyTracked => "Path is already inside backup file",
            Error::RegistryMissing => "Backup file does not exist",
            Error::NotTracked => "Path is not inside backup file",
            Error::Parse => "Backup file is not a valid registry",
            Error::Io => "Path could not be read or copied",
        }
    }
}

} // verus!
