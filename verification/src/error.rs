//! Why a request is refused.

use vstd::prelude::*;

verus! {

/// The four ways in which a request fails. Each ends the request.
#[derive(Clone, Copy, Debug, PartialEq, Eq, Structural)]
pub enum MinerError {
    /// An address, the content hash or the nonce could not be read.
    MalformedInput,
    /// The creator is not on the allowlist.
    NotAuthorized,
    /// The content's fingerprint was admitted before.
    DuplicateContent,
    /// The permit could not be signed.
    SigningFailure,
}

/// The HTTP status that stands for an error: a client error for input that
/// cannot be read, forbidden, conflict, and a server error.
pub open spec fn status_of(error: MinerError) -> u16 {
    match error {
        MinerError::MalformedInput => 400,
        MinerError::NotAuthorized => 403,
        MinerError::DuplicateContent => 409,
        MinerError::SigningFailure => 500,
    }
}

/// The sentence that is shown for an error.
pub open spec fn message_of(error: MinerError) -> Seq<char> {
    match error {
        MinerError::MalformedInput => "malformed input"@,
        MinerError::NotAuthorized => "creator not allowlisted"@,
        MinerError::DuplicateContent => "duplicate art hash"@,
        MinerError::SigningFailure => "signing failed"@,
    }
}

impl MinerError {
    /// The HTTP status that stands for the error.
    pub fn status_code(&self) -> (r: u16)
        ensures
            r == status_of(*self),
    {
        match self {
            MinerError::MalformedInput => 400,
            MinerError::NotAuthorized => 403,
            MinerError::DuplicateContent => 409,
            MinerError::SigningFailure => 500,
        }
    }

    /// The sentence that is shown for the error.
    pub fn message(&self) -> (r: String)
        ensures
            r@ == message_of(*self),
    {
        match self {
            MinerError::MalformedInput => "malformed input".to_owned(),
            MinerError::NotAuthorized => "creator not allowlisted".to_owned(),
            MinerError::DuplicateContent => "duplicate art hash".to_owned(),
            MinerError::SigningFailure => "signing failed".to_owned(),
        }
    }
}

} // verus!
