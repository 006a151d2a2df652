//! Error kinds of the library and the decision each one surfaces as.

use vstd::prelude::*;
use crate::bytes::push_text;

verus! {

/// The internal error kinds.
#[derive(Debug, Clone, PartialEq, Eq)]
pub enum BentengError {
    /// Tenant, policy, path or algorithms disagree with the policy.
    PolicyMismatch,
    /// The signature was not accepted.
    InvalidSignature,
    /// Authenticated decryption failed, for whatever reason.
    AeadFailure,
    /// The random source failed.
    EntropyUnavailable,
    /// The key gate refused: a key is absent or the quorum is short.
    KmsError(String),
    /// Encoding or arithmetic failed.
    InternalError,
    /// The freshness window is exceeded.
    Stale,
    /// The signature was seen before, within the replay window.
    Replay,
    /// The rate bucket is empty.
    RateLimited,
}

/// What a caller outside sees of an outcome.
#[derive(Debug, Clone, Copy, PartialEq, Eq, Structural)]
pub enum Decision {
    Accepted,
    Rejected,
    Internal,
}

impl BentengError {
    /// The HTTP status that the error surfaces as.
    pub open spec fn spec_status(self) -> u16 {
        match self {
            BentengError::PolicyMismatch => 400,
            BentengError::InvalidSignature => 400,
            BentengError::AeadFailure => 400,
            BentengError::EntropyUnavailable => 500,
            BentengError::KmsError(_) => 400,
            BentengError::InternalError => 500,
            BentengError::Stale => 400,
            BentengError::Replay => 409,
            BentengError::RateLimited => 429,
        }
    }

    /// The decision that the error surfaces as: an internal fault for a
    /// failed random source or encoding, a rejection for everything else.
    pub open spec fn spec_decision(self) -> Decision {
        match self {
            BentengError::EntropyUnavailable => Decision::Internal,
            BentengError::InternalError => Decision::Internal,
            _ => Decision::Rejected,
        }
    }

    /// The HTTP status that the error surfaces as.
    pub fn status(&self) -> (code: u16)
        ensures
            code == self.spec_status(),
    {
        match self {
            BentengError::PolicyMismatch => 400,
            BentengError::InvalidSignature => 400,
            BentengError::AeadFailure => 400,
            BentengError::EntropyUnavailable => 500,
            BentengError::KmsError(_) => 400,
            BentengError::InternalError => 500,
            BentengError::Stale => 400,
            BentengError::Replay => 409,
            BentengError::RateLimited => 429,
        }
    }

    /// The decision that the error surfaces as.
    pub fn decision(&self) -> (decision: Decision)
        ensures
            decision == self.spec_decision(),
    {
        match self {
            BentengError::EntropyUnavailable => Decision::Internal,
            BentengError::InternalError => Decision::Internal,
            _ => Decision::Rejected,
        }
    }

    /// The text of the error for internal logs.
    pub open spec fn spec_message(self) -> Seq<char> {
        match self {
            BentengError::PolicyMismatch => "Policy mismatch"@,
            BentengError::InvalidSignature => "Invalid signature"@,
            BentengError::AeadFailure => "AEAD failure"@,
            BentengError::EntropyUnavailable => "Entropy unavailable"@,
            BentengError::KmsError(msg) => "KMS error: "@ + msg@,
            BentengError::InternalError => "Internal error"@,
            BentengError::Stale => "Envelope too old"@,
            BentengError::Replay => "Replay detected"@,
            BentengError::RateLimited => "Rate limit exceeded"@,
        }
    }

    /// The text of the error for internal logs.
    pub fn message(&self) -> (text: String)
        ensures
            text@ == self.spec_message(),
    {
        match self {
            BentengError::PolicyMismatch => "Policy mismatch".to_owned(),
            BentengError::InvalidSignature => "Invalid signature".to_owned(),
            BentengError::AeadFailure => "AEAD failure".to_owned(),
            BentengError::EntropyUnavailable => "Entropy unavailable".to_owned(),
            BentengError::KmsError(msg) => {
                let mut text = "KMS error: ".to_owned();
                push_text(&mut text, msg.as_str());
                text
            },
            BentengError::InternalError => "Internal error".to_owned(),
            BentengError::Stale => "Envelope too old".to_owned(),
            BentengError::Replay => "Replay detected".to_owned(),
            BentengError::RateLimited => "Rate limit exceeded".to_owned(),
        }
    }
}

} // verus!
