//! The two operations of the gateway, verify and decrypt, composed of the
//! envelope codec, the admission controls, the policy lookup, the key gate
//! and the transparency log.

use vstd::prelude::*;
use crate::admission::{
    RateLimitBucket, RateLimiter, ReplayCache, RATE_CAPACITY, RATE_REFILL_PER_SEC,
    REPLAY_WINDOW_MS,
};
use crate::bytemap::ByteMap;
use crate::bytes::{append, decimal_text, number_text, push_text, str_bytes, to_vec, utf8};
use crate::crypto::hash::{sha256, sha256_digest};
use crate::crypto::kms::DualControlKms;
use crate::envelope::codec::decoded;
use crate::envelope::kms_decrypt::decrypt_with_gate_at;
use crate::envelope::operations::EnvelopeOps;
use crate::envelope::{Envelope, EnvelopeView};
use crate::error::BentengError;
use crate::hex::{hex_chars, hex_encode, hex_prefix, hex_prefix4};
use crate::policy::{fresh, is_fresh, Policy, PolicyView};
use crate::transparency::{LogEntry, LogEntryView, TransparencyLog};

verus! {

/// The evidence of logging that a client gets back.
#[derive(Debug, Clone)]
pub struct ReceiptInfo {
    pub tlog_hash: String,
    pub checkpoint: String,
    pub tlog_index: usize,
}

/// What verify claims of an envelope.
#[derive(Debug, Clone)]
pub struct Claims {
    pub alg: String,
    pub age_ms: String,
    pub path: String,
}

/// The body of a successful verify.
#[derive(Debug, Clone)]
pub struct VerifyResponse {
    pub decision: String,
    pub claims: Claims,
    pub kid: String,
    pub receipt: ReceiptInfo,
}

/// The body of a successful decrypt. The payload is not part of it.
#[derive(Debug, Clone)]
pub struct DecryptResponse {
    pub decision: String,
    pub kid: String,
    pub receipt: ReceiptInfo,
}

/// The body of a refusal.
#[derive(Debug, Clone)]
pub struct ErrorResponse {
    pub decision: String,
    pub reason: String,
}

/// The body of the health check.
#[derive(Debug, Clone)]
pub struct HealthResponse {
    pub status: String,
    pub version: String,
    pub timestamp: u64,
}

/// A reply of the gateway: the body of a success, or a status with the
/// body of a refusal.
#[derive(Debug, Clone)]
pub enum GatewayReply<T> {
    Accepted(T),
    Refused(u16, ErrorResponse),
}

impl<T> GatewayReply<T> {
    /// The HTTP status of the reply.
    pub open spec fn spec_status(self) -> u16 {
        match self {
            GatewayReply::Accepted(_) => 200,
            GatewayReply::Refused(status, _) => status,
        }
    }

    /// The reason of a refusal; none for a success.
    pub open spec fn spec_reason(self) -> Option<Seq<char>> {
        match self {
            GatewayReply::Accepted(_) => None,
            GatewayReply::Refused(_, error) => Some(error.reason@),
        }
    }

    /// The HTTP status of the reply.
    pub fn status(&self) -> (code: u16)
        ensures
            code == self.spec_status(),
    {
        match self {
            GatewayReply::Accepted(_) => 200,
            GatewayReply::Refused(status, _) => *status,
        }
    }
}

/// Where a request ends in the gateway.
#[derive(Debug, Clone, Copy, PartialEq, Eq, Structural)]
pub enum Admission {
    /// The body is not the canonical encoding of a valid envelope.
    Malformed,
    /// The signature is not one of the tenant's client key.
    InvalidSignature,
    /// The rate bucket is empty.
    RateLimited,
    /// The signature was seen within the replay window.
    Replayed,
    /// The cached policy is not the one of the envelope's tenant, policy,
    /// path and algorithms.
    PolicyMismatch,
    /// The envelope is older than the policy allows.
    Stale,
    /// The key gate refused, or the key did not open the envelope.
    DecryptFailed,
    /// The request passed.
    Admitted,
}

impl Admission {
    /// The HTTP status that the outcome surfaces as, before logging.
    pub open spec fn status(self) -> u16 {
        match self {
            Admission::Malformed => 400,
            Admission::InvalidSignature => 400,
            Admission::RateLimited => 429,
            Admission::Replayed => 409,
            Admission::PolicyMismatch => 400,
            Admission::Stale => 400,
            Admission::DecryptFailed => 400,
            Admission::Admitted => 200,
        }
    }

    /// The reason that a refusal carries. A signature that does not verify
    /// is answered as a malformed body is: the reply does not tell which of
    /// the two it was.
    pub open spec fn reason(self) -> Seq<char> {
        match self {
            Admission::Malformed => "Invalid envelope format"@,
            Admission::InvalidSignature => "Invalid envelope format"@,
            Admission::RateLimited => "Rate limit exceeded"@,
            Admission::Replayed => "Replay detected"@,
            Admission::PolicyMismatch => "Policy mismatch"@,
            Admission::Stale => "Envelope too old"@,
            Admission::DecryptFailed => "Decrypt failed"@,
            Admission::Admitted => "Internal error"@,
        }
    }
}

/// The key of a rate bucket: the operation and the hexadecimal prefixes of
/// tenant and policy.
pub open spec fn rate_key_text(op: Seq<char>, tenant_id: Seq<u8>, policy_id: Seq<u8>) -> Seq<char> {
    op + "-"@ + hex_prefix4(tenant_id) + "-"@ + hex_prefix4(policy_id)
}

/// The key of a cached policy: the hexadecimal prefixes of tenant and
/// policy, and the path.
pub open spec fn policy_key_text(tenant_id: Seq<u8>, policy_id: Seq<u8>, path: Seq<char>) -> Seq<char> {
    hex_prefix4(tenant_id) + "-"@ + hex_prefix4(policy_id) + "-"@ + path
}

/// The identifier of a server key of a tenant: `purpose` is `sig` or
/// `kem`, `alg` the name of the algorithm.
pub open spec fn kid_text(tenant_id: Seq<u8>, purpose: Seq<char>, alg: Seq<char>) -> Seq<char> {
    "btk/ten-"@ + hex_prefix4(tenant_id) + "/server-"@ + purpose + "/"@ + alg + "/v1"@
}

/// The header hash of a receipt: SHA-256 of the operation, the tenant,
/// the policy and what tells the request apart.
pub open spec fn header_hash(op: Seq<char>, tenant_id: Seq<u8>, policy_id: Seq<u8>, mark: Seq<u8>) -> Seq<u8> {
    sha256(utf8(op) + tenant_id + policy_id + mark)
}

/// The receipt of a verify at the time `now_ms`: told apart by the hash
/// of the signature.
pub open spec fn verify_entry(env: EnvelopeView, now_ms: u64) -> LogEntryView {
    LogEntryView {
        v: 1,
        ten: env.tenant_id,
        typ: "verify"@,
        ts: now_ms,
        hdr_h: header_hash("verify"@, env.tenant_id, env.policy_id, sha256(env.sig)),
        sig_h: sha256(env.sig),
        kid: kid_text(env.tenant_id, "sig"@, "ML-DSA-65"@),
        pol: env.policy_id,
        rc: 0,
    }
}

/// The receipt of a decrypt at the time `now_ms`: told apart by the
/// nonce.
pub open spec fn decrypt_entry(env: EnvelopeView, now_ms: u64) -> LogEntryView {
    LogEntryView {
        v: 1,
        ten: env.tenant_id,
        typ: "decrypt"@,
        ts: now_ms,
        hdr_h: header_hash("decrypt"@, env.tenant_id, env.policy_id, env.nonce),
        sig_h: sha256(env.sig),
        kid: kid_text(env.tenant_id, "kem"@, "ML-KEM-768"@),
        pol: env.policy_id,
        rc: 0,
    }
}

/// The key of a rate bucket.
pub fn rate_key(op: &str, tenant_id: &[u8], policy_id: &[u8]) -> (key: String)
    ensures
        key@ == rate_key_text(op@, tenant_id@, policy_id@),
{
    let mut key = op.to_owned();
    push_text(&mut key, "-");
    push_text(&mut key, hex_prefix(tenant_id).as_str());
    push_text(&mut key, "-");
    push_text(&mut key, hex_prefix(policy_id).as_str());
    key
}

/// The key of a cached policy.
pub fn policy_key(tenant_id: &[u8], policy_id: &[u8], path: &str) -> (key: String)
    ensures
        key@ == policy_key_text(tenant_id@, policy_id@, path@),
{
    let mut key = hex_prefix(tenant_id);
    push_text(&mut key, "-");
    push_text(&mut key, hex_prefix(policy_id).as_str());
    push_text(&mut key, "-");
    push_text(&mut key, path);
    key
}

/// The identifier of a server key of a tenant.
pub fn server_kid(tenant_id: &[u8], purpose: &str, alg: &str) -> (kid: String)
    ensures
        kid@ == kid_text(tenant_id@, purpose@, alg@),
{
    let mut kid = "btk/ten-".to_owned();
    push_text(&mut kid, hex_prefix(tenant_id).as_str());
    push_text(&mut kid, "/server-");
    push_text(&mut kid, purpose);
    push_text(&mut kid, "/");
    push_text(&mut kid, alg);
    push_text(&mut kid, "/v1");
    kid
}

/// The header hash of a receipt.
pub fn receipt_hash(op: &str, tenant_id: &[u8], policy_id: &[u8], mark: &[u8]) -> (hash: [u8; 32])
    ensures
        hash@ == header_hash(op@, tenant_id@, policy_id@, mark@),
{
    let mut buf = to_vec(str_bytes(op));
    append(&mut buf, tenant_id);
    append(&mut buf, policy_id);
    append(&mut buf, mark);
    sha256_digest(buf.as_slice())
}

/// The body of a refusal with `reason`.
pub fn rejected(reason: &str) -> (error: ErrorResponse)
    ensures
        error.decision@ == "REJECTED"@,
        error.reason@ == reason@,
{
    ErrorResponse { decision: "REJECTED".to_owned(), reason: reason.to_owned() }
}

/// The state of the gateway: one cohesive piece, made once.
pub struct Gateway {
    kms: DualControlKms,
    transparency_log: TransparencyLog,
    policy_cache: ByteMap<Policy>,
    client_keys: ByteMap<Vec<u8>>,
    replay_cache: ReplayCache,
    rate_limits: RateLimiter,
}

impl Gateway {
    /// The key gate.
    pub closed spec fn kms(&self) -> DualControlKms {
        self.kms
    }

    /// The transparency log.
    pub closed spec fn log(&self) -> TransparencyLog {
        self.transparency_log
    }

    /// The cached policies, by the UTF-8 bytes of their key.
    pub closed spec fn policies(&self) -> Map<Seq<u8>, PolicyView> {
        Map::new(
            |k: Seq<u8>| self.policy_cache.map().contains_key(k),
            |k: Seq<u8>| self.policy_cache.map()[k]@,
        )
    }

    /// The signature keys of the clients, by tenant.
    pub closed spec fn client_keys(&self) -> Map<Seq<u8>, Seq<u8>> {
        Map::new(
            |k: Seq<u8>| self.client_keys.map().contains_key(k),
            |k: Seq<u8>| self.client_keys.map()[k]@,
        )
    }

    /// The replay cache.
    pub closed spec fn replay(&self) -> ReplayCache {
        self.replay_cache
    }

    /// The rate limiter.
    pub closed spec fn rates(&self) -> RateLimiter {
        self.rate_limits
    }

    /// The invariant of the gateway: each of its parts is in order.
    pub closed spec fn wf(&self) -> bool {
        &&& self.kms.wf()
        &&& self.transparency_log.wf()
        &&& self.policy_cache.wf()
        &&& self.client_keys.wf()
        &&& self.replay_cache.wf()
        &&& self.rate_limits.wf()
    }

    /// The policy that covers an envelope: the cached one for its tenant,
    /// policy and path, or the conservative default.
    pub open spec fn policy_for(&self, env: EnvelopeView) -> PolicyView {
        let key = utf8(policy_key_text(env.tenant_id, env.policy_id, env.path));
        if self.policies().contains_key(key) {
            self.policies()[key]
        } else {
            PolicyView::default_for(
                env.tenant_id,
                env.policy_id,
                env.path,
                env.aad_ext.required_algs,
            )
        }
    }

    /// Whether the policy that covers an envelope is its own: a cached
    /// policy must bear the envelope's tenant, policy, path and algorithms;
    /// the default is made for the envelope.
    pub open spec fn policy_matches(&self, env: EnvelopeView) -> bool {
        let key = utf8(policy_key_text(env.tenant_id, env.policy_id, env.path));
        self.policies().contains_key(key) ==> self.policies()[key].matches(
            env.tenant_id,
            env.policy_id,
            env.path,
            env.aad_ext.required_algs,
        )
    }

    /// Whether an envelope bears the signature of its tenant's client: the
    /// tenant has a client key, and that key accepts the signature.
    pub open spec fn signed_by_client(&self, env: EnvelopeView) -> bool {
        self.client_keys().contains_key(env.tenant_id) && env.verified_by(
            self.client_keys()[env.tenant_id],
        )
    }

    /// The envelope that a body carries, where the body is the canonical
    /// encoding of a valid one.
    pub open spec fn envelope_of(body: Seq<u8>) -> Option<EnvelopeView> {
        match decoded(body) {
            Some(env) => if env.valid() {
                Some(env)
            } else {
                None
            },
            None => None,
        }
    }

    /// Where a verify of `body` ends at the time `now_ms`: decoding, then
    /// the signature, then the rate limit, then replay suppression, then
    /// the match with the policy, then freshness under it.
    pub open spec fn verify_admission(&self, body: Seq<u8>, now_ms: u64) -> Admission {
        match Self::envelope_of(body) {
            None => Admission::Malformed,
            Some(env) => if !self.signed_by_client(env) {
                Admission::InvalidSignature
            } else if !self.rates().admits(
                utf8(rate_key_text("verify"@, env.tenant_id, env.policy_id)),
                now_ms,
            ) {
                Admission::RateLimited
            } else if self.replay().is_replay(sha256(env.sig), now_ms) {
                Admission::Replayed
            } else if !self.policy_matches(env) {
                Admission::PolicyMismatch
            } else if !fresh(now_ms, env.ts_epoch_ms, self.policy_for(env).max_age_ms) {
                Admission::Stale
            } else {
                Admission::Admitted
            },
        }
    }

    /// Where a decrypt of `body` ends at the time `now_ms`: decoding, then
    /// the rate limit, then the match with the policy, then freshness
    /// under it, then the key gate and the opening of the envelope.
    pub open spec fn decrypt_admission(&self, body: Seq<u8>, now_ms: u64) -> Admission {
        match Self::envelope_of(body) {
            None => Admission::Malformed,
            Some(env) => if !self.rates().admits(
                utf8(rate_key_text("decrypt"@, env.tenant_id, env.policy_id)),
                now_ms,
            ) {
                Admission::RateLimited
            } else if !self.policy_matches(env) {
                Admission::PolicyMismatch
            } else if !fresh(now_ms, env.ts_epoch_ms, self.policy_for(env).max_age_ms) {
                Admission::Stale
            } else if env.opened_through(&self.kms(), (now_ms / 1000) as u64) is None {
                Admission::DecryptFailed
            } else {
                Admission::Admitted
            },
        }
    }

    /// A gateway around a key gate and a log, with no cached policy, no
    /// client key, a replay window of five minutes, and rate buckets of 100
    /// tokens that regain 10 a second.
    pub fn new(kms: DualControlKms, transparency_log: TransparencyLog) -> (gateway: Gateway)
        requires
            kms.wf(),
            transparency_log.wf(),
        ensures
            gateway.wf(),
            gateway.kms() == kms,
            gateway.log() == transparency_log,
            gateway.policies() == Map::<Seq<u8>, PolicyView>::empty(),
            gateway.client_keys() == Map::<Seq<u8>, Seq<u8>>::empty(),
            gateway.replay().records() == Map::<Seq<u8>, u64>::empty(),
            gateway.replay().window_ms() == REPLAY_WINDOW_MS,
            gateway.rates().capacity() == RATE_CAPACITY,
            gateway.rates().refill_per_sec() == RATE_REFILL_PER_SEC,
            gateway.rates().buckets() == Map::<Seq<u8>, RateLimitBucket>::empty(),
    {
        let gateway = Gateway {
            kms,
            transparency_log,
            policy_cache: ByteMap::new(),
            client_keys: ByteMap::new(),
            replay_cache: ReplayCache::new(REPLAY_WINDOW_MS),
            rate_limits: RateLimiter::new(RATE_CAPACITY, RATE_REFILL_PER_SEC),
        };
        assert(gateway.policies() =~= Map::<Seq<u8>, PolicyView>::empty());
        assert(gateway.client_keys() =~= Map::<Seq<u8>, Seq<u8>>::empty());
        gateway
    }

    /// The body of the health check at the time `now_secs`.
    pub fn health(now_secs: u64) -> (response: HealthResponse)
        ensures
            response.status@ == "healthy"@,
            response.version@ == crate::VERSION@,
            response.timestamp == now_secs,
    {
        HealthResponse {
            status: "healthy".to_owned(),
            version: crate::VERSION.to_owned(),
            timestamp: now_secs,
        }
    }

    /// Caches a policy under `key`, in place of what was cached there.
    pub fn cache_policy(&mut self, key: &str, policy: Policy)
        requires
            old(self).wf(),
        ensures
            final(self).wf(),
            final(self).kms() == old(self).kms(),
            final(self).log() == old(self).log(),
            final(self).replay() == old(self).replay(),
            final(self).rates() == old(self).rates(),
            final(self).client_keys() == old(self).client_keys(),
            final(self).policies() == old(self).policies().insert(utf8(key@), policy@),
    {
        self.policy_cache.insert(to_vec(str_bytes(key)), policy);
        assert(self.policies() =~= old(self).policies().insert(utf8(key@), policy@));
    }

    /// Takes `public_key` as the signature key of the client of
    /// `tenant_id`, in place of the key that the tenant had. Until a tenant
    /// has a key, no envelope of it verifies.
    pub fn register_client_key(&mut self, tenant_id: &[u8], public_key: Vec<u8>)
        requires
            old(self).wf(),
        ensures
            final(self).wf(),
            final(self).kms() == old(self).kms(),
            final(self).log() == old(self).log(),
            final(self).policies() == old(self).policies(),
            final(self).replay() == old(self).replay(),
            final(self).rates() == old(self).rates(),
            final(self).client_keys() == old(self).client_keys().insert(tenant_id@, public_key@),
    {
        self.client_keys.insert(to_vec(tenant_id), public_key);
        assert(self.client_keys() =~= old(self).client_keys().insert(tenant_id@, public_key@));
    }

    /// Whether an envelope bears the signature of its tenant's client.
    fn check_signature(&self, envelope: &Envelope) -> (accepted: bool)
        requires
            self.wf(),
        ensures
            accepted == self.signed_by_client(envelope@),
    {
        match self.client_keys.get(envelope.tenant_id.as_slice()) {
            Some(key) => EnvelopeOps::verify(envelope, key.as_slice()).is_ok(),
            None => false,
        }
    }

    /// The key gate, to install keys and to record approvals. The gateway
    /// is in order again when the borrow ends with the key gate in order.
    pub fn kms_mut(&mut self) -> (kms: &mut DualControlKms)
        requires
            old(self).wf(),
        ensures
            *kms == old(self).kms(),
            kms.wf(),
            final(kms).wf() ==> final(self).wf(),
            final(self).kms() == *final(kms),
            final(self).log() == old(self).log(),
            final(self).policies() == old(self).policies(),
            final(self).client_keys() == old(self).client_keys(),
            final(self).replay() == old(self).replay(),
            final(self).rates() == old(self).rates(),
    {
        &mut self.kms
    }

    /// The transparency log.
    pub fn transparency_log(&self) -> (log: &TransparencyLog)
        ensures
            *log == self.log(),
    {
        &self.transparency_log
    }

    /// Judges an envelope by the policy that covers it at the time
    /// `now_ms`: the match with a cached policy first, then freshness.
    fn check_policy(&self, envelope: &Envelope, now_ms: u64) -> (res: Result<(), BentengError>)
        requires
            self.wf(),
        ensures
            res is Ok <==> self.policy_matches(envelope@) && fresh(
                now_ms,
                envelope.ts_epoch_ms,
                self.policy_for(envelope@).max_age_ms,
            ),
            res matches Err(e) ==> e == if self.policy_matches(envelope@) {
                BentengError::Stale
            } else {
                BentengError::PolicyMismatch
            },
    {
        let key = policy_key(
            envelope.tenant_id.as_slice(),
            envelope.policy_id.as_slice(),
            envelope.path.as_str(),
        );
        match self.policy_cache.get(str_bytes(key.as_str())) {
            Some(policy) => policy.validate_envelope_at(
                envelope.tenant_id.as_slice(),
                envelope.policy_id.as_slice(),
                envelope.path.as_str(),
                envelope.ts_epoch_ms,
                envelope.aad_ext.required_algs.as_str(),
                now_ms,
            ),
            None => {
                let policy = Policy::default_for(
                    envelope.tenant_id.as_slice(),
                    envelope.policy_id.as_slice(),
                    envelope.path.as_str(),
                    envelope.aad_ext.required_algs.as_str(),
                );
                if is_fresh(now_ms, envelope.ts_epoch_ms, policy.max_age_ms) {
                    Ok(())
                } else {
                    Err(BentengError::Stale)
                }
            },
        }
    }

    /// Decodes a body into a valid envelope.
    fn read_envelope(body: &[u8]) -> (envelope: Option<Envelope>)
        ensures
            match Self::envelope_of(body@) {
                Some(env) => envelope matches Some(e) && e@ == env,
                None => envelope is None,
            },
    {
        match Envelope::from_cbor(body) {
            Ok(envelope) => if envelope.check() {
                Some(envelope)
            } else {
                None
            },
            Err(_) => None,
        }
    }

    /// Appends a receipt and makes the evidence of it.
    fn log_receipt(&mut self, entry: LogEntry) -> (receipt: Option<ReceiptInfo>)
        requires
            old(self).wf(),
        ensures
            final(self).wf(),
            final(self).kms() == old(self).kms(),
            final(self).policies() == old(self).policies(),
            final(self).client_keys() == old(self).client_keys(),
            final(self).replay() == old(self).replay(),
            final(self).rates() == old(self).rates(),
            final(self).log().checkpoints() == old(self).log().checkpoints(),
            final(self).log().signing_key() == old(self).log().signing_key(),
            final(self).log().verifying_key() == old(self).log().verifying_key(),
            receipt is Some <==> old(self).log().entries().len() < usize::MAX,
            receipt matches Some(r) ==> {
                &&& final(self).log().entries() == old(self).log().entries().push(entry@)
                &&& r.tlog_hash@ == hex_chars(entry@.hdr_h)
                &&& r.tlog_index == old(self).log().entries().len()
                &&& r.checkpoint@ == "checkpoint-"@ + decimal_text(
                    (old(self).log().entries().len() + 1) as nat,
                )
            },
            receipt is None ==> final(self).log().entries() == old(self).log().entries(),
    {
        let tlog_hash = hex_encode(entry.hdr_h.as_slice());
        match self.transparency_log.append(entry) {
            Ok(index) => {
                let mut checkpoint = "checkpoint-".to_owned();
                push_text(&mut checkpoint, number_text((index + 1) as u64).as_str());
                Some(ReceiptInfo { tlog_hash, checkpoint, tlog_index: index })
            },
            Err(_) => None,
        }
    }

    /// Handles a verify request with the body `body` at the time `now_ms`.
    ///
    /// The body must be the canonical encoding of a valid envelope, and
    /// the envelope must bear the signature of its tenant's client: else
    /// `400 Invalid envelope format`, whichever of the two it was, and the
    /// gateway stays as it is, with nothing counted, recorded or logged.
    /// The request takes a token from the rate bucket of its tenant and
    /// policy, else `429 Rate limit exceeded`. The hash of its signature
    /// must not be on record within the replay window, else `409 Replay
    /// detected`, and is put on record. A cached policy that covers the envelope must be the
    /// envelope's own, else `400 Policy mismatch`, and the envelope must be
    /// fresh under its policy, else `400 Envelope too old`. A request that
    /// passes is appended to the transparency log, before the reply is
    /// made, and answered `200` with its claims and its receipt.
    pub fn verify(&mut self, body: &[u8], now_ms: u64) -> (reply: GatewayReply<VerifyResponse>)
        requires
            old(self).wf(),
        ensures
            final(self).wf(),
            final(self).kms() == old(self).kms(),
            final(self).policies() == old(self).policies(),
            final(self).client_keys() == old(self).client_keys(),
            final(self).log().checkpoints() == old(self).log().checkpoints(),
            final(self).log().signing_key() == old(self).log().signing_key(),
            final(self).log().verifying_key() == old(self).log().verifying_key(),
            final(self).replay().window_ms() == old(self).replay().window_ms(),
            final(self).rates().capacity() == old(self).rates().capacity(),
            final(self).rates().refill_per_sec() == old(self).rates().refill_per_sec(),
            ({
                let admission = old(self).verify_admission(body@, now_ms);
                let logged = admission == Admission::Admitted && old(self).log().entries().len()
                    < usize::MAX;
                &&& reply is Accepted <==> logged
                &&& reply.spec_status() == if admission == Admission::Admitted && !logged {
                    500
                } else {
                    admission.status()
                }
                &&& reply matches GatewayReply::Refused(_, error) ==> error.reason@
                    == admission.reason() && error.decision@ == if admission
                    == Admission::Admitted {
                    "INTERNAL"@
                } else {
                    "REJECTED"@
                }
                &&& admission == Admission::Malformed || admission == Admission::InvalidSignature
                    ==> final(self).rates() == old(self).rates() && final(self).replay() == old(self).replay()
                &&& !logged ==> final(self).log().entries() == old(self).log().entries()
            }),
            Self::envelope_of(body@) matches Some(env) ==> {
                let admission = old(self).verify_admission(body@, now_ms);
                let key = utf8(rate_key_text("verify"@, env.tenant_id, env.policy_id));
                old(self).signed_by_client(env) ==> {
                    &&& final(self).rates().buckets() == old(self).rates().buckets().insert(
                        key,
                        old(self).rates().bucket(key, now_ms).after(1, now_ms),
                    )
                    &&& final(self).replay().records() == if admission == Admission::RateLimited {
                        old(self).replay().records()
                    } else if admission == Admission::Replayed {
                        old(self).replay().live(now_ms)
                    } else {
                        old(self).replay().live(now_ms).insert(sha256(env.sig), now_ms)
                    }
                    &&& reply matches GatewayReply::Accepted(response) ==> {
                        &&& final(self).log().entries() == old(self).log().entries().push(
                            verify_entry(env, now_ms),
                        )
                        &&& response.decision@ == "OK"@
                        &&& response.claims.alg@ == env.aad_ext.required_algs
                        &&& response.claims.path@ == env.path
                        &&& response.claims.age_ms@ == decimal_text(
                            crate::admission::age(now_ms, env.ts_epoch_ms) as nat,
                        )
                        &&& response.kid@ == kid_text(env.tenant_id, "sig"@, "ML-DSA-65"@)
                        &&& response.receipt.tlog_hash@ == hex_chars(verify_entry(env, now_ms).hdr_h)
                        &&& response.receipt.tlog_hash@.len() == 64
                        &&& response.receipt.tlog_index == old(self).log().entries().len()
                        &&& response.receipt.checkpoint@ == "checkpoint-"@ + decimal_text(
                            (old(self).log().entries().len() + 1) as nat,
                        )
                    }
                }
            },
    {
        let envelope = match Self::read_envelope(body) {
            Some(envelope) => envelope,
            None => {
                return GatewayReply::Refused(400, rejected("Invalid envelope format"));
            },
        };
        if !self.check_signature(&envelope) {
            return GatewayReply::Refused(400, rejected("Invalid envelope format"));
        }
        let key = rate_key("verify", envelope.tenant_id.as_slice(), envelope.policy_id.as_slice());
        if self.rate_limits.guard(key.as_str(), now_ms).is_err() {
            return GatewayReply::Refused(429, rejected("Rate limit exceeded"));
        }
        let sig_hash = sha256_digest(envelope.sig.as_slice());
        if self.replay_cache.guard(sig_hash.as_slice(), now_ms).is_err() {
            return GatewayReply::Refused(409, rejected("Replay detected"));
        }
        match self.check_policy(&envelope, now_ms) {
            Ok(()) => {},
            Err(BentengError::PolicyMismatch) => {
                return GatewayReply::Refused(400, rejected("Policy mismatch"));
            },
            Err(_) => {
                return GatewayReply::Refused(400, rejected("Envelope too old"));
            },
        }
        let hdr_h = receipt_hash(
            "verify",
            envelope.tenant_id.as_slice(),
            envelope.policy_id.as_slice(),
            sig_hash.as_slice(),
        );
        let kid = server_kid(envelope.tenant_id.as_slice(), "sig", "ML-DSA-65");
        let entry = LogEntry {
            v: 1,
            ten: to_vec(envelope.tenant_id.as_slice()),
            typ: "verify".to_owned(),
            ts: now_ms,
            hdr_h,
            sig_h: sig_hash,
            kid: kid.clone(),
            pol: to_vec(envelope.policy_id.as_slice()),
            rc: 0,
        };
        assert(entry@ == verify_entry(envelope@, now_ms));
        let receipt = match self.log_receipt(entry) {
            Some(receipt) => receipt,
            None => {
                return GatewayReply::Refused(
                    500,
                    ErrorResponse {
                        decision: "INTERNAL".to_owned(),
                        reason: "Internal error".to_owned(),
                    },
                );
            },
        };
        let age_ms = if now_ms >= envelope.ts_epoch_ms {
            now_ms - envelope.ts_epoch_ms
        } else {
            0
        };
        GatewayReply::Accepted(
            VerifyResponse {
                decision: "OK".to_owned(),
                claims: Claims {
                    alg: envelope.aad_ext.required_algs.clone(),
                    age_ms: number_text(age_ms),
                    path: envelope.path.clone(),
                },
                kid,
                receipt,
            },
        )
    }

    /// Handles a decrypt request with the body `body` at the time
    /// `now_ms`.
    ///
    /// The body must be the canonical encoding of a valid envelope, else
    /// `400 Invalid envelope format`. The request takes a token from the
    /// rate bucket of its tenant and policy, else `429 Rate limit
    /// exceeded`. A cached policy that covers the envelope must be the
    /// envelope's own, else `400 Policy mismatch`, and the envelope must be
    /// fresh under its policy, else `400 Envelope too old`. The key gate
    /// must hand out the key and the key
    /// must open the envelope, else `400 Decrypt failed`, whichever of the
    /// two it was. A request that passes is appended to the transparency
    /// log, before the reply is made, and answered `200` with its receipt.
    /// The payload is handed to the caller in the process and is not part
    /// of the reply.
    pub fn decrypt(&mut self, body: &[u8], now_ms: u64) -> (outcome: DecryptOutcome)
        requires
            old(self).wf(),
        ensures
            final(self).wf(),
            final(self).policies() == old(self).policies(),
            final(self).client_keys() == old(self).client_keys(),
            final(self).replay() == old(self).replay(),
            final(self).log().checkpoints() == old(self).log().checkpoints(),
            final(self).log().signing_key() == old(self).log().signing_key(),
            final(self).log().verifying_key() == old(self).log().verifying_key(),
            final(self).rates().capacity() == old(self).rates().capacity(),
            final(self).rates().refill_per_sec() == old(self).rates().refill_per_sec(),
            final(self).kms().same_config(&old(self).kms()),
            final(self).kms().public_keys() == old(self).kms().public_keys(),
            final(self).kms().secret_keys() == old(self).kms().secret_keys(),
            final(self).kms().approvals() == old(self).kms().approvals(),
            ({
                let admission = old(self).decrypt_admission(body@, now_ms);
                let logged = admission == Admission::Admitted && old(self).log().entries().len()
                    < usize::MAX;
                &&& outcome.reply is Accepted <==> logged
                &&& outcome.payload is Some <==> logged
                &&& outcome.failure is Some <==> admission == Admission::DecryptFailed
                &&& outcome.reply.spec_status() == if admission == Admission::Admitted && !logged {
                    500
                } else {
                    admission.status()
                }
                &&& outcome.reply matches GatewayReply::Refused(_, error) ==> error.reason@
                    == admission.reason() && error.decision@ == if admission
                    == Admission::Admitted {
                    "INTERNAL"@
                } else {
                    "REJECTED"@
                }
                &&& admission == Admission::Malformed ==> final(self).rates() == old(self).rates()
                &&& (admission == Admission::Malformed || admission == Admission::RateLimited
                    || admission == Admission::PolicyMismatch || admission == Admission::Stale)
                    ==> final(self).kms() == old(self).kms()
                &&& !logged ==> final(self).log().entries() == old(self).log().entries()
            }),
            Self::envelope_of(body@) matches Some(env) ==> {
                let key = utf8(rate_key_text("decrypt"@, env.tenant_id, env.policy_id));
                let now_secs = (now_ms / 1000) as u64;
                &&& final(self).rates().buckets() == old(self).rates().buckets().insert(
                    key,
                    old(self).rates().bucket(key, now_ms).after(1, now_ms),
                )
                &&& (old(self).decrypt_admission(body@, now_ms) == Admission::DecryptFailed
                    || old(self).decrypt_admission(body@, now_ms) == Admission::Admitted)
                    ==> final(self).kms().hsm_a_calls() == if env.gate_outcome(
                    &old(self).kms(),
                    now_secs,
                ) is Cached {
                    old(self).kms().hsm_a_calls()
                } else {
                    crate::crypto::kms::bumped(old(self).kms().hsm_a_calls())
                }
                &&& (old(self).decrypt_admission(body@, now_ms) == Admission::DecryptFailed
                    || old(self).decrypt_admission(body@, now_ms) == Admission::Admitted)
                    ==> exists|answer: Result<[u8; 32], BentengError>| #[trigger]
                    old(self).kms().steps_to(
                        &final(self).kms(),
                        env.kem_ct,
                        env.policy_id,
                        env.tenant_id,
                        utf8(env.path),
                        now_secs,
                        answer,
                    )
                &&& outcome.reply matches GatewayReply::Accepted(response) ==> {
                    &&& final(self).log().entries() == old(self).log().entries().push(
                        decrypt_entry(env, now_ms),
                    )
                    &&& crate::envelope::opt_view(outcome.payload) == env.opened_through(
                        &old(self).kms(),
                        now_secs,
                    )
                    &&& response.decision@ == "OK"@
                    &&& response.kid@ == kid_text(env.tenant_id, "kem"@, "ML-KEM-768"@)
                    &&& response.receipt.tlog_hash@ == hex_chars(decrypt_entry(env, now_ms).hdr_h)
                    &&& response.receipt.tlog_index == old(self).log().entries().len()
                    &&& response.receipt.checkpoint@ == "checkpoint-"@ + decimal_text(
                        (old(self).log().entries().len() + 1) as nat,
                    )
                }
            },
    {
        let envelope = match Self::read_envelope(body) {
            Some(envelope) => envelope,
            None => {
                return DecryptOutcome {
                    reply: GatewayReply::Refused(400, rejected("Invalid envelope format")),
                    payload: None,
                    failure: None,
                };
            },
        };
        let key = rate_key("decrypt", envelope.tenant_id.as_slice(), envelope.policy_id.as_slice());
        if self.rate_limits.guard(key.as_str(), now_ms).is_err() {
            return DecryptOutcome {
                reply: GatewayReply::Refused(429, rejected("Rate limit exceeded")),
                payload: None,
                failure: None,
            };
        }
        match self.check_policy(&envelope, now_ms) {
            Ok(()) => {},
            Err(BentengError::PolicyMismatch) => {
                return DecryptOutcome {
                    reply: GatewayReply::Refused(400, rejected("Policy mismatch")),
                    payload: None,
                    failure: None,
                };
            },
            Err(_) => {
                return DecryptOutcome {
                    reply: GatewayReply::Refused(400, rejected("Envelope too old")),
                    payload: None,
                    failure: None,
                };
            },
        }
        let payload = match decrypt_with_gate_at(&envelope, &mut self.kms, now_ms / 1000) {
            Ok(payload) => payload,
            Err(kind) => {
                return DecryptOutcome {
                    reply: GatewayReply::Refused(400, rejected("Decrypt failed")),
                    payload: None,
                    failure: Some(kind),
                };
            },
        };
        let hdr_h = receipt_hash(
            "decrypt",
            envelope.tenant_id.as_slice(),
            envelope.policy_id.as_slice(),
            envelope.nonce.as_slice(),
        );
        let sig_h = sha256_digest(envelope.sig.as_slice());
        let kid = server_kid(envelope.tenant_id.as_slice(), "kem", "ML-KEM-768");
        let entry = LogEntry {
            v: 1,
            ten: to_vec(envelope.tenant_id.as_slice()),
            typ: "decrypt".to_owned(),
            ts: now_ms,
            hdr_h,
            sig_h,
            kid: kid.clone(),
            pol: to_vec(envelope.policy_id.as_slice()),
            rc: 0,
        };
        assert(entry@ == decrypt_entry(envelope@, now_ms));
        let receipt = match self.log_receipt(entry) {
            Some(receipt) => receipt,
            None => {
                return DecryptOutcome {
                    reply: GatewayReply::Refused(
                        500,
                        ErrorResponse {
                            decision: "INTERNAL".to_owned(),
                            reason: "Internal error".to_owned(),
                        },
                    ),
                    payload: None,
                    failure: None,
                };
            },
        };
        DecryptOutcome {
            reply: GatewayReply::Accepted(
                DecryptResponse { decision: "OK".to_owned(), kid, receipt },
            ),
            payload: Some(payload),
            failure: None,
        }
    }
}

/// What a decrypt leaves: the reply for the client, the payload for the
/// consumer in the process, and for the internal log the kind of failure
/// that the reply does not tell.
pub struct DecryptOutcome {
    pub reply: GatewayReply<DecryptResponse>,
    pub payload: Option<Vec<u8>>,
    pub failure: Option<BentengError>,
}

} // verus!
