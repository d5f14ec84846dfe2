//! Typed, recoverable errors returned by every fallible operation, together
//! with the coarse taxonomy that clients use to decide whether to retry.

use vstd::prelude::*;

verus! {

/// Why an operation was refused. Each variant names the precondition that
/// failed, so a caller can tell an existence failure from an ownership or
/// state failure.
#[derive(Clone, Copy, Debug, PartialEq, Eq, Structural)]
pub enum Error {
    /// A referenced entity (profile, shift, application, document) is absent.
    NotFound,
    /// The caller already has an identity record.
    AlreadyExists,
    /// The acting caller does not own the target entity.
    Unauthorized,
    /// The caller's identity record does not carry the Business role.
    NotABusiness,
    /// The caller's identity record does not carry the Worker role.
    NotAWorker,
    /// The caller's identity record role does not match the profile type
    /// being created.
    RoleMismatch,
    /// The submitted profile's declared owner id differs from the caller's id.
    IdMismatch,
    /// The shift is not open for applications.
    ShiftNotOpen,
    /// The worker is already an applicant on the shift.
    AlreadyApplied,
    /// A ledger record with the same id already exists; records are
    /// append-only and are never overwritten.
    DuplicateRecord,
    /// The application is not in the status the action needs.
    WrongApplicationStatus,
    /// The shift already has an assigned worker, so no further application
    /// can be approved for it.
    AlreadyAssigned,
}

/// The four coarse error classes of the design: absence, ownership,
/// duplication, and wrong-state failures.
#[derive(Clone, Copy, Debug, PartialEq, Eq, Structural)]
pub enum ErrorKind {
    NotFound,
    Unauthorized,
    Conflict,
    InvalidState,
}

impl Error {
    /// The taxonomy class of this error.
    pub open spec fn kind_spec(self) -> ErrorKind {
        match self {
            Error::NotFound => ErrorKind::NotFound,
            Error::AlreadyExists => ErrorKind::Conflict,
            Error::Unauthorized => ErrorKind::Unauthorized,
            Error::NotABusiness => ErrorKind::Unauthorized,
            Error::NotAWorker => ErrorKind::Unauthorized,
            Error::RoleMismatch => ErrorKind::Unauthorized,
            Error::IdMismatch => ErrorKind::Unauthorized,
            Error::ShiftNotOpen => ErrorKind::InvalidState,
            Error::AlreadyApplied => ErrorKind::Conflict,
            Error::DuplicateRecord => ErrorKind::Conflict,
            Error::WrongApplicationStatus => ErrorKind::InvalidState,
            Error::AlreadyAssigned => ErrorKind::InvalidState,
        }
    }

    /// Classifies this error into the design's four-way taxonomy.
    pub fn kind(&self) -> (k: ErrorKind)
        ensures
            k == self.kind_spec(),
    {
        match self {
            Error::NotFound => ErrorKind::NotFound,
            Error::AlreadyExists => ErrorKind::Conflict,
            Error::Unauthorized => ErrorKind::Unauthorized,
            Error::NotABusiness => ErrorKind::Unauthorized,
            Error::NotAWorker => ErrorKind::Unauthorized,
            Error::RoleMismatch => ErrorKind::Unauthorized,
            Error::IdMismatch => ErrorKind::Unauthorized,
            Error::ShiftNotOpen => ErrorKind::InvalidState,
            Error::AlreadyApplied => ErrorKind::Conflict,
            Error::DuplicateRecord => ErrorKind::Conflict,
            Error::WrongApplicationStatus => ErrorKind::InvalidState,
            Error::AlreadyAssigned => ErrorKind::InvalidState,
        }
    }
}

} // verus!
