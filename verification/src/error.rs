//! The failures that a request can end in, and how each is reported.

use vstd::prelude::*;
use vstd::string::StringExecFns;

verus! {

/// Why a request was refused.
#[derive(Debug)]
pub enum Error {
    /// The client's point is malformed, off the curve or the identity.
    InvalidPoint,
    /// The client's proof was rejected or could not be checked.
    InvalidProof,
    /// Anything else, with a description.
    Internal(String),
}

impl Error {
    /// The HTTP status of the failure: 400 for a bad point, 401 for a bad
    /// proof, 500 otherwise.
    pub open spec fn spec_status_code(&self) -> u16 {
        match self {
            Error::InvalidPoint => 400,
            Error::InvalidProof => 401,
            Error::Internal(_) => 500,
        }
    }

    /// The name under which the failure is reported to the client.
    pub open spec fn spec_code(&self) -> Seq<char> {
        match self {
            Error::InvalidPoint => "InvalidPoint"@,
            Error::InvalidProof => "InvalidProof"@,
            Error::Internal(_) => "Internal"@,
        }
    }

    /// The human text of the failure.
    pub open spec fn spec_message(&self) -> Seq<char> {
        match self {
            Error::InvalidPoint => "Invalid point"@,
            Error::InvalidProof => "Invalid proof"@,
            Error::Internal(detail) => "Internal error: "@ + detail@,
        }
    }

    pub fn status_code(&self) -> (status: u16)
        ensures
            status == self.spec_status_code(),
    {
        match self {
            Error::InvalidPoint => 400,
            Error::InvalidProof => 401,
            Error::Internal(_) => 500,
        }
    }

    pub fn code(&self) -> (name: String)
        ensures
            name@ == self.spec_code(),
    {
        match self {
            Error::InvalidPoint => String::from_str("InvalidPoint"),
            Error::InvalidProof => String::from_str("InvalidProof"),
            Error::Internal(_) => String::from_str("Internal"),
        }
    }

    pub fn message(&self) -> (text: String)
        ensures
            text@ == self.spec_message(),
    {
        match self {
            Error::InvalidPoint => String::from_str("Invalid point"),
            Error::InvalidProof => String::from_str("Invalid proof"),
            Error::Internal(detail) => String::from_str("Internal error: ").concat(detail.as_str()),
        }
    }
}

} // verus!
