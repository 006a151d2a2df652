//! Opening an envelope through the dual-control key gate.

use vstd::prelude::*;
use crate::bytes::utf8;
use crate::crypto::kms::{DualControlKms, GateOutcome, KmsGate};
use crate::envelope::operations::EnvelopeOps;
use crate::envelope::{Envelope, EnvelopeView};
use crate::error::BentengError;

verus! {

impl EnvelopeView {
    /// What the KMS does with the envelope's request at the time `now`.
    pub open spec fn gate_outcome(self, kms: &DualControlKms, now: u64) -> GateOutcome {
        kms.outcome(self.kem_ct, self.policy_id, self.tenant_id, utf8(self.path), now)
    }

    /// What opening through the KMS gives at the time `now`: the payload
    /// where the KMS hands out a key and the key opens the envelope.
    pub open spec fn opened_through(self, kms: &DualControlKms, now: u64) -> Option<Seq<u8>> {
        match self.gate_outcome(kms, now) {
            GateOutcome::Cached(dek) => self.opened_under(dek),
            GateOutcome::Derived(dek) => self.opened_under(dek),
            _ => None,
        }
    }
}

/// Whether `res` is what opening an envelope with the answer of a KMS
/// gives: a refusal of the KMS as it is, the payload where the key opens
/// the envelope, and `AeadFailure` where it does not.
pub open spec fn opened_by_answer(
    env: EnvelopeView,
    answer: Result<[u8; 32], BentengError>,
    res: Result<Vec<u8>, BentengError>,
) -> bool {
    match answer {
        Ok(dek) => match env.opened_under(dek@) {
            Some(payload) => res matches Ok(p) && p@ == payload,
            None => res matches Err(e) && e == BentengError::AeadFailure,
        },
        Err(refusal) => res matches Err(e) && e == refusal,
    }
}

/// Opens an envelope with the key that a KMS hands out for it: the KMS is
/// asked for the key of the envelope's ciphertext, policy, tenant and
/// path, and its answer decides as `opened_by_answer` says.
pub fn decrypt_with_kms<K: KmsGate>(envelope: &Envelope, kms: &mut K) -> (res: Result<Vec<u8>, BentengError>)
    requires
        old(kms).gate_wf(),
    ensures
        final(kms).gate_wf(),
        exists|answer: Result<[u8; 32], BentengError>| #[trigger]
            old(kms).may_answer(
                envelope@.kem_ct,
                envelope@.policy_id,
                envelope@.tenant_id,
                envelope@.path,
                answer,
            ) && opened_by_answer(envelope@, answer, res),
{
    let answer = kms.dual_decrypt(
        envelope.kem_ct.as_slice(),
        envelope.policy_id.as_slice(),
        envelope.tenant_id.as_slice(),
        envelope.path.as_str(),
    );
    let ghost given = answer;
    let res = match answer {
        Ok(key) => {
            let mut dek = key;
            let opened = EnvelopeOps::open_with_dek(envelope, dek.as_slice());
            crate::crypto::secret::scrub_key(&mut dek);
            match opened {
                Ok(payload) => Ok(payload.to_vec()),
                Err(e) => Err(e),
            }
        },
        Err(refusal) => Err(refusal),
    };
    proof {
        assert(old(kms).may_answer(
            envelope@.kem_ct,
            envelope@.policy_id,
            envelope@.tenant_id,
            envelope@.path,
            given,
        ) && opened_by_answer(envelope@, given, res));
    }
    res
}

/// Opens an envelope through the dual-control gate at the time `now`, in
/// seconds: the KMS derives the key for the envelope's ciphertext, policy,
/// tenant and path, and the key opens the envelope. A refusal of the KMS
/// comes back as it is; a key that does not open the envelope is
/// `AeadFailure`.
pub fn decrypt_with_gate_at(envelope: &Envelope, kms: &mut DualControlKms, now: u64) -> (res: Result<Vec<u8>, BentengError>)
    requires
        old(kms).wf(),
    ensures
        final(kms).wf(),
        final(kms).same_config(old(kms)),
        final(kms).public_keys() == old(kms).public_keys(),
        final(kms).secret_keys() == old(kms).secret_keys(),
        final(kms).approvals() == old(kms).approvals(),
        match envelope@.opened_through(old(kms), now) {
            Some(payload) => res matches Ok(p) && p@ == payload,
            None => res is Err,
        },
        final(kms).hsm_a_calls() == if envelope@.gate_outcome(old(kms), now) is Cached {
            old(kms).hsm_a_calls()
        } else {
            crate::crypto::kms::bumped(old(kms).hsm_a_calls())
        },
        (envelope@.gate_outcome(old(kms), now) is Cached || envelope@.gate_outcome(old(kms), now)
            is Derived) && res is Err ==> res == Err::<Vec<u8>, BentengError>(
            BentengError::AeadFailure,
        ),
        exists|answer: Result<[u8; 32], BentengError>| #[trigger]
            old(kms).steps_to(
                final(kms),
                envelope@.kem_ct,
                envelope@.policy_id,
                envelope@.tenant_id,
                utf8(envelope@.path),
                now,
                answer,
            ),
{
    let answer = kms.dual_decrypt_at(
        envelope.kem_ct.as_slice(),
        envelope.policy_id.as_slice(),
        envelope.tenant_id.as_slice(),
        envelope.path.as_str(),
        now,
    );
    let mut dek = match answer {
        Ok(dek) => dek,
        Err(refusal) => {
            return Err(refusal);
        },
    };
    let opened = EnvelopeOps::open_with_dek(envelope, dek.as_slice());
    crate::crypto::secret::scrub_key(&mut dek);
    match opened {
        Ok(payload) => Ok(payload.to_vec()),
        Err(e) => Err(e),
    }
}

} // verus!
