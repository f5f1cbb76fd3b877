use vstd::prelude::*;

verus! {

/// The error taxonomy of the platform.
///
/// `Conflict`: a signup collides with an identity already on file.
/// `InvalidCredential`: a login or verification attempt fails, whether the
/// account is missing, the password is wrong, the account is unverified, or
/// the submitted one-time code does not match; callers are told no more.
/// `NotFound`: the target of an update or a verification is absent.
/// `StorageFailure`: a storage-side operation failed.
/// `TransportFailure`: an outbound dependency was unreachable or unparsable.
#[derive(Clone, Copy, Debug, PartialEq, Eq, Structural)]
pub enum ApiError {
    Conflict,
    InvalidCredential,
    NotFound,
    StorageFailure,
    TransportFailure,
}

} // verus!
