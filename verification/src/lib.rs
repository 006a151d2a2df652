//! Edge trust gateway for post-quantum authenticated-and-encrypted request
//! envelopes: envelope format and operations, dual-control key derivation,
//! transparency log, admission controls, policy bundles and audit packs.

pub mod admission;
pub mod audit_export;
pub mod bytemap;
pub mod bytes;
pub mod cbor;
pub mod clock;
pub mod crypto;
pub mod envelope;
pub mod error;
pub mod gateway;
pub mod hex;
pub mod json;
pub mod policy;
pub mod policy_bundle;
pub mod salt_rotation;
pub mod transparency;

pub use envelope::{AadExtensions, AlgorithmSet, Envelope};
pub use error::BentengError;
pub use policy::Policy;

use vstd::prelude::*;

verus! {

/// Library version.
pub const VERSION: &'static str = "0.1.0";

} // verus!
