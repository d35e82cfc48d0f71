//! The failure modes of the two resolution stages.
//!
//! Every error is terminal for a run: nothing is retried, and the messages
//! are kept distinct so that an operator can tell the stages apart.

use vstd::prelude::*;

verus! {

/// Failure of the install-root resolution stage.
#[derive(Clone, Copy, Debug, PartialEq, Eq, Structural)]
pub enum ResolutionError {
    /// The configuration store holds no install-path value: the package
    /// manager is absent or unreadable, which ends the run.
    KeyNotFound,
}

/// Failure of the library-path extraction stage.
#[derive(Clone, Copy, Debug, PartialEq, Eq, Structural)]
pub enum ExtractionError {
    /// The library index file could not be read at its expected location.
    FileNotFound,
    /// The library index file was read but holds nothing, so it cannot
    /// reference the target application.
    EmptyIndex,
    /// No volume entry in the index lists the target application id.
    AppNotFound,
    /// The index names a volume for the application, but the derived
    /// directory is not present on disk.
    DirectoryMissing,
}

impl ResolutionError {
    /// A short description of the failure, for the operator.
    pub fn message(&self) -> (r: &'static str)
        ensures
            r@ == "install path not found in the configuration store"@,
    {
        match self {
            ResolutionError::KeyNotFound => "install path not found in the configuration store",
        }
    }
}

impl ExtractionError {
    /// A short description of the failure, for the operator, naming the
    /// stage that failed: the messages differ for every variant, so a
    /// missing install cannot be confused with an unlisted application or
    /// with files absent on disk.
    pub fn message(&self) -> (r: &'static str)
        ensures
            *self == ExtractionError::FileNotFound ==> r@ == "library index file could not be opened"@,
            *self == ExtractionError::EmptyIndex ==> r@ == "library index file is empty"@,
            *self == ExtractionError::AppNotFound ==> r@
                == "application id is not listed under any library volume"@,
            *self == ExtractionError::DirectoryMissing ==> r@
                == "application directory is missing on disk"@,
    {
        match self {
            ExtractionError::FileNotFound => "library index file could not be opened",
            ExtractionError::EmptyIndex => "library index file is empty",
            ExtractionError::AppNotFound => "application id is not listed under any library volume",
            ExtractionError::DirectoryMissing => "application directory is missing on disk",
        }
    }
}

} // verus!
