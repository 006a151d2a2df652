//! Policies: the constraints on the envelopes of a tenant, a policy and a
//! path.

use vstd::prelude::*;
use crate::bytes::{bytes_eq, str_bytes, str_eq, utf8};
use crate::error::BentengError;
use crate::hex::{hex_chars, hex_encode};

verus! {

/// The longest age of an envelope under the default policy, in
/// milliseconds.
pub const DEFAULT_MAX_AGE_MS: u64 = 30_000;

/// The longest body under the default policy, in bytes.
pub const DEFAULT_MAX_BODY_BYTES: usize = 65_536;

/// The replay window under the default policy, in milliseconds.
pub const DEFAULT_REPLAY_TTL_MS: u64 = 30_000;

/// The constraints on the envelopes of a tenant, a policy and a path.
#[derive(Debug, Clone)]
pub struct Policy {
    pub tenant_id: String,
    pub policy_id: String,
    pub path: String,
    pub required_algs: String,
    pub max_age_ms: u64,
    pub max_body_bytes: usize,
    pub require_device_attest: bool,
    pub hybrid_allowed: bool,
    pub replay_ttl_ms: u64,
    pub version: u32,
}

/// The model of a `Policy`.
pub struct PolicyView {
    pub tenant_id: Seq<char>,
    pub policy_id: Seq<char>,
    pub path: Seq<char>,
    pub required_algs: Seq<char>,
    pub max_age_ms: u64,
    pub max_body_bytes: usize,
    pub require_device_attest: bool,
    pub hybrid_allowed: bool,
    pub replay_ttl_ms: u64,
    pub version: u32,
}

impl View for Policy {
    type V = PolicyView;

    open spec fn view(&self) -> PolicyView {
        PolicyView {
            tenant_id: self.tenant_id@,
            policy_id: self.policy_id@,
            path: self.path@,
            required_algs: self.required_algs@,
            max_age_ms: self.max_age_ms,
            max_body_bytes: self.max_body_bytes,
            require_device_attest: self.require_device_attest,
            hybrid_allowed: self.hybrid_allowed,
            replay_ttl_ms: self.replay_ttl_ms,
            version: self.version,
        }
    }
}

/// Whether an envelope stamped `ts_epoch_ms` is within `max_age_ms` at
/// `now_ms`. A stamp from the future is not stale.
pub open spec fn fresh(now_ms: u64, ts_epoch_ms: u64, max_age_ms: u64) -> bool {
    now_ms <= ts_epoch_ms || now_ms - ts_epoch_ms <= max_age_ms
}

/// Whether an envelope stamped `ts_epoch_ms` is within `max_age_ms` at
/// `now_ms`.
pub fn is_fresh(now_ms: u64, ts_epoch_ms: u64, max_age_ms: u64) -> (ok: bool)
    ensures
        ok == fresh(now_ms, ts_epoch_ms, max_age_ms),
{
    now_ms <= ts_epoch_ms || now_ms - ts_epoch_ms <= max_age_ms
}

/// An envelope that is one millisecond older than the window allows is
/// stale, and so is every older one.
pub proof fn lemma_stale_beyond_window(now_ms: u64, ts_epoch_ms: u64, max_age_ms: u64)
    requires
        now_ms > ts_epoch_ms + max_age_ms,
    ensures
        !fresh(now_ms, ts_epoch_ms, max_age_ms),
{
}

impl PolicyView {
    /// Whether the policy is the one for a tenant, a policy identifier, a
    /// path and a set of required algorithms.
    pub open spec fn matches(
        self,
        tenant_id: Seq<u8>,
        policy_id: Seq<u8>,
        path: Seq<char>,
        required_algs: Seq<char>,
    ) -> bool {
        &&& tenant_id == utf8(self.tenant_id)
        &&& policy_id == utf8(self.policy_id)
        &&& path == self.path
        &&& required_algs == self.required_algs
    }

    /// The conservative policy for a tenant, a policy identifier and a
    /// path that no stored policy covers: 30 s of age, 65536 bytes of body,
    /// hybrid mode allowed, 30 s of replay window, no device attestation.
    pub open spec fn conservative(
        tenant_id: Seq<char>,
        policy_id: Seq<char>,
        path: Seq<char>,
        required_algs: Seq<char>,
    ) -> PolicyView {
        PolicyView {
            tenant_id,
            policy_id,
            path,
            required_algs,
            max_age_ms: DEFAULT_MAX_AGE_MS,
            max_body_bytes: DEFAULT_MAX_BODY_BYTES,
            require_device_attest: false,
            hybrid_allowed: true,
            replay_ttl_ms: DEFAULT_REPLAY_TTL_MS,
            version: 1,
        }
    }

    /// The conservative default for an envelope that no stored policy
    /// covers: it bears the envelope's identifiers as hexadecimal text.
    pub open spec fn default_for(
        tenant_id: Seq<u8>,
        policy_id: Seq<u8>,
        path: Seq<char>,
        required_algs: Seq<char>,
    ) -> PolicyView {
        Self::conservative(hex_chars(tenant_id), hex_chars(policy_id), path, required_algs)
    }

    /// Whether the policy is stored for a tenant, a policy identifier and a
    /// path.
    pub open spec fn stored_for(self, tenant_id: Seq<char>, policy_id: Seq<char>, path: Seq<char>) -> bool {
        self.tenant_id == tenant_id && self.policy_id == policy_id && self.path == path
    }
}

impl PolicyView {
    /// The verdict on the header of an envelope at the time `now_ms`: a
    /// header that is not the policy's is a `PolicyMismatch`, one that is
    /// but is not fresh is `Stale`, every other passes.
    pub open spec fn verdict(
        self,
        tenant_id: Seq<u8>,
        policy_id: Seq<u8>,
        path: Seq<char>,
        ts_epoch_ms: u64,
        required_algs: Seq<char>,
        now_ms: u64,
    ) -> Result<(), BentengError> {
        if !self.matches(tenant_id, policy_id, path, required_algs) {
            Err(BentengError::PolicyMismatch)
        } else if !fresh(now_ms, ts_epoch_ms, self.max_age_ms) {
            Err(BentengError::Stale)
        } else {
            Ok(())
        }
    }
}

impl Policy {
    /// The conservative policy for a tenant, a policy identifier and a path
    /// that no stored policy covers: 30 s of age, 65536 bytes of body,
    /// hybrid mode allowed, 30 s of replay window, no device attestation.
    pub fn conservative(tenant_id: String, policy_id: String, path: &str, required_algs: &str) -> (policy: Policy)
        ensures
            policy@ == PolicyView::conservative(tenant_id@, policy_id@, path@, required_algs@),
    {
        Policy {
            tenant_id,
            policy_id,
            path: path.to_owned(),
            required_algs: required_algs.to_owned(),
            max_age_ms: DEFAULT_MAX_AGE_MS,
            max_body_bytes: DEFAULT_MAX_BODY_BYTES,
            require_device_attest: false,
            hybrid_allowed: true,
            replay_ttl_ms: DEFAULT_REPLAY_TTL_MS,
            version: 1,
        }
    }

    /// The conservative default for an envelope that no stored policy
    /// covers: it bears the envelope's identifiers as hexadecimal text.
    pub fn default_for(tenant_id: &[u8], policy_id: &[u8], path: &str, required_algs: &str) -> (policy: Policy)
        ensures
            policy@ == PolicyView::default_for(tenant_id@, policy_id@, path@, required_algs@),
    {
        Self::conservative(hex_encode(tenant_id), hex_encode(policy_id), path, required_algs)
    }

    /// A copy of the policy.
    pub fn duplicate(&self) -> (out: Policy)
        ensures
            out@ == self@,
    {
        Policy {
            tenant_id: self.tenant_id.clone(),
            policy_id: self.policy_id.clone(),
            path: self.path.clone(),
            required_algs: self.required_algs.clone(),
            max_age_ms: self.max_age_ms,
            max_body_bytes: self.max_body_bytes,
            require_device_attest: self.require_device_attest,
            hybrid_allowed: self.hybrid_allowed,
            replay_ttl_ms: self.replay_ttl_ms,
            version: self.version,
        }
    }

    /// Validates the header of an envelope against the policy at the time
    /// `now_ms`: tenant, policy, path and algorithms must be the policy's,
    /// else `PolicyMismatch`; and the envelope must be fresh, else `Stale`.
    pub fn validate_envelope_at(
        &self,
        tenant_id: &[u8],
        policy_id: &[u8],
        path: &str,
        ts_epoch_ms: u64,
        required_algs: &str,
        now_ms: u64,
    ) -> (res: Result<(), BentengError>)
        ensures
            res is Ok <==> self@.matches(tenant_id@, policy_id@, path@, required_algs@) && fresh(
                now_ms,
                ts_epoch_ms,
                self.max_age_ms,
            ),
            res matches Err(e) ==> e == if self@.matches(
                tenant_id@,
                policy_id@,
                path@,
                required_algs@,
            ) {
                BentengError::Stale
            } else {
                BentengError::PolicyMismatch
            },
            res == self@.verdict(
                tenant_id@,
                policy_id@,
                path@,
                ts_epoch_ms,
                required_algs@,
                now_ms,
            ),
    {
        if !bytes_eq(tenant_id, str_bytes(self.tenant_id.as_str())) {
            return Err(BentengError::PolicyMismatch);
        }
        if !bytes_eq(policy_id, str_bytes(self.policy_id.as_str())) {
            return Err(BentengError::PolicyMismatch);
        }
        if !str_eq(path, self.path.as_str()) {
            return Err(BentengError::PolicyMismatch);
        }
        if !str_eq(required_algs, self.required_algs.as_str()) {
            return Err(BentengError::PolicyMismatch);
        }
        if !is_fresh(now_ms, ts_epoch_ms, self.max_age_ms) {
            return Err(BentengError::Stale);
        }
        Ok(())
    }

    /// Validates the header of an envelope against the policy at the
    /// current time: the verdict for the time that the clock tells.
    pub fn validate_envelope(
        &self,
        tenant_id: &[u8],
        policy_id: &[u8],
        path: &str,
        ts_epoch_ms: u64,
        required_algs: &str,
    ) -> (res: Result<(), BentengError>)
        ensures
            exists|now_ms: u64|
                crate::clock::clock_ms(now_ms) && res == #[trigger] self@.verdict(
                    tenant_id@,
                    policy_id@,
                    path@,
                    ts_epoch_ms,
                    required_algs@,
                    now_ms,
                ),
    {
        let now_ms = crate::clock::now_epoch_ms();
        let res = self.validate_envelope_at(
            tenant_id,
            policy_id,
            path,
            ts_epoch_ms,
            required_algs,
            now_ms,
        );
        assert(crate::clock::clock_ms(now_ms) && res == self@.verdict(
            tenant_id@,
            policy_id@,
            path@,
            ts_epoch_ms,
            required_algs@,
            now_ms,
        ));
        res
    }
}

} // verus!
