//! The error of the core operations.

use vstd::prelude::*;

verus! {

/// What can go wrong in the core operations.
#[derive(Debug)]
pub enum FaunaError {
    /// A text is not unpadded URL-safe base64.
    Base64(base64::DecodeError),
    /// A message could not be sealed or opened.
    Crypto,
    /// Decoded key material has the wrong size or is no key.
    InvalidKey,
    /// A payload is not the JSON it should be.
    Json(serde_json::Error),
    /// A signature does not verify.
    Signature,
}

impl From<base64::DecodeError> for FaunaError {
    fn from(error: base64::DecodeError) -> (res: FaunaError) {
        FaunaError::Base64(error)
    }
}

impl vstd::std_specs::convert::FromSpecImpl<base64::DecodeError> for FaunaError {
    open spec fn obeys_from_spec() -> bool {
        true
    }

    open spec fn from_spec(error: base64::DecodeError) -> FaunaError {
        FaunaError::Base64(error)
    }
}

impl From<serde_json::Error> for FaunaError {
    fn from(error: serde_json::Error) -> (res: FaunaError) {
        FaunaError::Json(error)
    }
}

impl vstd::std_specs::convert::FromSpecImpl<serde_json::Error> for FaunaError {
    open spec fn obeys_from_spec() -> bool {
        true
    }

    open spec fn from_spec(error: serde_json::Error) -> FaunaError {
        FaunaError::Json(error)
    }
}

/// The text that describes an error.
pub open spec fn fauna_error_text(error: FaunaError) -> Seq<char> {
    match error {
        FaunaError::Base64(_) => "base64 decode failed"@,
        FaunaError::Crypto => "crypto operation failed"@,
        FaunaError::InvalidKey => "invalid key material"@,
        FaunaError::Json(_) => "json serialization failed"@,
        FaunaError::Signature => "signature verification failed"@,
    }
}

impl FaunaError {
    /// The text that describes this error.
    pub fn message(&self) -> (res: &'static str)
        ensures
            res@ == fauna_error_text(*self),
    {
        match self {
            FaunaError::Base64(_) => "base64 decode failed",
            FaunaError::Crypto => "crypto operation failed",
            FaunaError::InvalidKey => "invalid key material",
            FaunaError::Json(_) => "json serialization failed",
            FaunaError::Signature => "signature verification failed",
        }
    }
}

} // verus!
