use vstd::prelude::*;

verus! {

/// The error vocabulary of the library.
///
/// Store and state-machine operations return `NotFound`, `DuplicateId` or
/// `AlreadyExists`; `InvalidIdentity` comes from identity parsing; the
/// remaining variants are reserved for the unverified shell around the
/// library (`DeliveryFailed` for a failed outbound federation call,
/// `Malformed` for a payload that does not decode).
#[derive(Clone, Copy, Debug, PartialEq, Eq, Structural)]
pub enum AppError {
    /// An unknown username, or an unknown request/invite id.
    NotFound,
    /// An id collision on insert of a friend request or invite.
    DuplicateId,
    /// Registration of a username that already has a record.
    AlreadyExists,
    /// An identity string with no separator between username and node.
    InvalidIdentity,
    /// An outbound federation call that could not be completed.
    DeliveryFailed,
    /// A payload that does not decode to the expected entity.
    Malformed,
}

impl AppError {
    /// A human-readable description of the error.
    pub open spec fn message_spec(self) -> Seq<char> {
        match self {
            AppError::NotFound => "not found"@,
            AppError::DuplicateId => "duplicate id"@,
            AppError::AlreadyExists => "already exists"@,
            AppError::InvalidIdentity => "invalid identity"@,
            AppError::DeliveryFailed => "delivery failed"@,
            AppError::Malformed => "malformed payload"@,
        }
    }

    pub fn message(&self) -> (r: &'static str)
        ensures
            r@ == self.message_spec(),
    {
        match self {
            AppError::NotFound => "not found",
            AppError::DuplicateId => "duplicate id",
            AppError::AlreadyExists => "already exists",
            AppError::InvalidIdentity => "invalid identity",
            AppError::DeliveryFailed => "delivery failed",
            AppError::Malformed => "malformed payload",
        }
    }
}

} // verus!
