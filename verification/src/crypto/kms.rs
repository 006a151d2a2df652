//! The dual-control key gate: the data-encryption key is derived from two
//! half-keys of independent custodians. K1 comes from HSM-A, which
//! decapsulates the envelope's KEM ciphertext; K2 comes from HSM-B, which
//! releases it only to a request that a quorum has approved.

use vstd::prelude::*;
use crate::bytemap::ByteMap;
use crate::bytes::{append, push_text, str_bytes, str_eq, to_vec, utf8};
use crate::crypto::cache::{kept_all, kept_but_one, live_keys, CachedKeyView, DerivationCache};
use crate::crypto::kdf::{
    domain_dek, domain_hsm_a, domain_hsm_b, domain_request_id, hkdf_sha256, hkdf_sha256_derive,
    BENTENG_DEK_V1, BENTENG_HSM_A_K1_V1, BENTENG_HSM_B_K2_V1, BENTENG_REQUEST_ID_V1,
};
use crate::crypto::kem::{
    array32, kyber768_decapsulate, kyber768_decapsulated, kyber768_keypair, kyber768_pair,
    KYBER768_CIPHERTEXT_LEN, KYBER768_PUBLIC_KEY_LEN, KYBER768_SECRET_KEY_LEN,
};
use crate::crypto::secret::{scrub, scrub_key, Secret};
use crate::error::BentengError;
use crate::hex::{hex_prefix, hex_prefix4};

verus! {

/// The configuration of the KMS.
#[derive(Debug, Clone)]
pub struct DualControlConfig {
    pub hsm_a_endpoint: String,
    pub hsm_b_endpoint: String,
    pub require_quorum: bool,
    pub quorum_threshold: usize,
    pub timeout_ms: u64,
    pub max_cache_entries: usize,
    pub cache_ttl_secs: u64,
}

impl Default for DualControlConfig {
    fn default() -> (config: DualControlConfig)
        ensures
            config.hsm_a_endpoint@ == "mock://hsm-a"@,
            config.hsm_b_endpoint@ == "mock://hsm-b"@,
            config.require_quorum,
            config.quorum_threshold == 2,
            config.timeout_ms == 5000,
            config.max_cache_entries == 100,
            config.cache_ttl_secs == 300,
    {
        DualControlConfig {
            hsm_a_endpoint: "mock://hsm-a".to_owned(),
            hsm_b_endpoint: "mock://hsm-b".to_owned(),
            require_quorum: true,
            quorum_threshold: 2,
            timeout_ms: 5000,
            max_cache_entries: 100,
            cache_ttl_secs: 300,
        }
    }
}

/// A key pair of HSM-A.
pub struct HsmKeyPair {
    pub public_key: Vec<u8>,
    pub secret_key: Secret,
}

/// The key under which a derivation is cached: the KEM ciphertext, the
/// policy, the tenant and the path, one after the other.
pub open spec fn cache_key(kem_ct: Seq<u8>, policy_id: Seq<u8>, tenant_id: Seq<u8>, path: Seq<u8>) -> Seq<u8> {
    kem_ct + policy_id + tenant_id + path
}

/// The identifier of the request that a quorum approves.
pub open spec fn request_id(cache_key: Seq<u8>) -> Seq<u8> {
    hkdf_sha256(cache_key, Some(domain_request_id()), Seq::empty(), 32)
}

/// The half-key of HSM-A, from the decapsulated secret.
pub open spec fn half_key_a(shared_secret: Seq<u8>) -> Seq<u8> {
    hkdf_sha256(shared_secret, Some(domain_hsm_a()), Seq::empty(), 32)
}

/// The half-key of HSM-B, from the request identifier and the policy.
pub open spec fn half_key_b(request_id: Seq<u8>, policy_id: Seq<u8>) -> Seq<u8> {
    hkdf_sha256(request_id + policy_id, Some(domain_hsm_b()), Seq::empty(), 32)
}

/// The data-encryption key from the two half-keys, bound to tenant, policy
/// and path.
pub open spec fn dual_control_dek(
    k1: Seq<u8>,
    k2: Seq<u8>,
    tenant_id: Seq<u8>,
    policy_id: Seq<u8>,
    path: Seq<u8>,
) -> Seq<u8> {
    hkdf_sha256(k1 + k2, Some(domain_dek()), tenant_id + policy_id + path, 32)
}

/// The identifier of the key of HSM-A for a tenant and a policy: the
/// hexadecimal text of the first four bytes of each, joined by a hyphen.
pub open spec fn kid_text(tenant_id: Seq<u8>, policy_id: Seq<u8>) -> Seq<char> {
    hex_prefix4(tenant_id) + "-"@ + hex_prefix4(policy_id)
}

/// The identifier of the key of HSM-A for a tenant and a policy.
pub fn kid_for(tenant_id: &[u8], policy_id: &[u8]) -> (kid: String)
    ensures
        kid@ == kid_text(tenant_id@, policy_id@),
{
    let mut kid = hex_prefix(tenant_id);
    push_text(&mut kid, "-");
    push_text(&mut kid, hex_prefix(policy_id).as_str());
    kid
}

/// The key under which a derivation is cached.
pub fn build_cache_key(kem_ciphertext: &[u8], policy_id: &[u8], tenant_id: &[u8], path: &str) -> (key: Vec<u8>)
    ensures
        key@ == cache_key(kem_ciphertext@, policy_id@, tenant_id@, utf8(path@)),
{
    let mut key: Vec<u8> = Vec::new();
    append(&mut key, kem_ciphertext);
    append(&mut key, policy_id);
    append(&mut key, tenant_id);
    append(&mut key, str_bytes(path));
    assert(key@ =~= cache_key(kem_ciphertext@, policy_id@, tenant_id@, utf8(path@)));
    key
}

/// Derives 32 bytes with HKDF-SHA256 under a domain string as salt.
fn derive32(ikm: &[u8], domain: &str, info: &[u8]) -> (out: [u8; 32])
    ensures
        out@ == hkdf_sha256(ikm@, Some(utf8(domain@)), info@, 32),
{
    match hkdf_sha256_derive(ikm, Some(str_bytes(domain)), info, 32) {
        Ok(okm) => array32(okm.as_slice()),
        Err(_) => {
            // 32 bytes are within what HKDF expands to.
            assert(false);
            [0u8; 32]
        },
    }
}

/// The identifier of the request for a cache key.
pub fn derive_request_id(cache_key: &[u8]) -> (rid: [u8; 32])
    ensures
        rid@ == request_id(cache_key@),
{
    let empty: Vec<u8> = Vec::new();
    assert(empty@ =~= Seq::<u8>::empty());
    derive32(cache_key, BENTENG_REQUEST_ID_V1, empty.as_slice())
}

/// The half-key of HSM-A from the decapsulated secret.
pub fn derive_k1(shared_secret: &[u8]) -> (k1: [u8; 32])
    ensures
        k1@ == half_key_a(shared_secret@),
{
    let empty: Vec<u8> = Vec::new();
    assert(empty@ =~= Seq::<u8>::empty());
    derive32(shared_secret, BENTENG_HSM_A_K1_V1, empty.as_slice())
}

/// The half-key of HSM-B from the request identifier and the policy.
pub fn derive_k2(request_id: &[u8], policy_id: &[u8]) -> (k2: [u8; 32])
    ensures
        k2@ == half_key_b(request_id@, policy_id@),
{
    let mut context: Vec<u8> = Vec::new();
    append(&mut context, request_id);
    append(&mut context, policy_id);
    let empty: Vec<u8> = Vec::new();
    assert(empty@ =~= Seq::<u8>::empty());
    derive32(context.as_slice(), BENTENG_HSM_B_K2_V1, empty.as_slice())
}

/// The data-encryption key from the two half-keys. The joined half-keys
/// are scrubbed before the key is handed out.
pub fn combine_half_keys(k1: &[u8; 32], k2: &[u8; 32], tenant_id: &[u8], policy_id: &[u8], path: &str) -> (dek: [u8; 32])
    ensures
        dek@ == dual_control_dek(k1@, k2@, tenant_id@, policy_id@, utf8(path@)),
{
    let mut combined: Vec<u8> = Vec::new();
    append(&mut combined, k1.as_slice());
    append(&mut combined, k2.as_slice());
    let mut info: Vec<u8> = Vec::new();
    append(&mut info, tenant_id);
    append(&mut info, policy_id);
    append(&mut info, str_bytes(path));
    let dek = derive32(combined.as_slice(), BENTENG_DEK_V1, info.as_slice());
    scrub(&mut combined);
    dek
}

/// The names of those who approved a request.
pub open spec fn approver_views(approvers: Vec<String>) -> Seq<Seq<char>> {
    Seq::new(approvers@.len(), |i: int| approvers@[i]@)
}

/// What the KMS does with a request.
pub enum GateOutcome {
    /// The key was cached and has not run out.
    Cached(Seq<u8>),
    /// The key is derived from the two half-keys.
    Derived(Seq<u8>),
    /// HSM-A has no key for the tenant and the policy.
    KeyNotFound,
    /// The KEM ciphertext has not the length of one.
    Malformed,
    /// The request has not the approvals that the quorum asks for.
    QuorumShort,
}

/// The text of the refusal for want of a key.
pub open spec fn key_not_found_text() -> Seq<char> {
    "KEM key not found in HSM-A"@
}

/// The text of the refusal for want of approvals.
pub open spec fn quorum_short_text() -> Seq<char> {
    "Insufficient quorum approvals"@
}

/// Whether `e` is a refusal of the KMS with the text `text`.
pub open spec fn is_kms_error(e: BentengError, text: Seq<char>) -> bool {
    e matches BentengError::KmsError(msg) && msg@ == text
}

/// A counter one higher, as far as it can be counted.
pub open spec fn bumped(count: u64) -> u64 {
    if count < u64::MAX {
        (count + 1) as u64
    } else {
        count
    }
}

/// The sum of a time and a lifetime, as far as it can be counted.
pub open spec fn expiry(now: u64, ttl: u64) -> u64 {
    if now + ttl <= u64::MAX {
        (now + ttl) as u64
    } else {
        u64::MAX
    }
}

/// The dual-control gate, with HSM-A and the approvals of HSM-B held in
/// the process.
pub struct DualControlKms {
    config: DualControlConfig,
    cache: DerivationCache,
    hsm_a_keys: ByteMap<HsmKeyPair>,
    quorum_approvals: ByteMap<Vec<String>>,
    hsm_a_calls: u64,
}

impl DualControlKms {
    /// Whether the KMS asks for a quorum.
    pub closed spec fn require_quorum(&self) -> bool {
        self.config.require_quorum
    }

    /// The number of approvals that make a quorum.
    pub closed spec fn quorum_threshold(&self) -> usize {
        self.config.quorum_threshold
    }

    /// The lifetime of a cached key, in seconds.
    pub closed spec fn cache_ttl_secs(&self) -> u64 {
        self.config.cache_ttl_secs
    }

    /// The cache of derived keys.
    pub closed spec fn cache(&self) -> DerivationCache {
        self.cache
    }

    /// The public keys of HSM-A, by the UTF-8 bytes of the key identifier.
    pub closed spec fn public_keys(&self) -> Map<Seq<u8>, Seq<u8>> {
        Map::new(
            |k: Seq<u8>| self.hsm_a_keys.map().contains_key(k),
            |k: Seq<u8>| self.hsm_a_keys.map()[k].public_key@,
        )
    }

    /// The secret keys of HSM-A, by the UTF-8 bytes of the key identifier.
    pub closed spec fn secret_keys(&self) -> Map<Seq<u8>, Seq<u8>> {
        Map::new(
            |k: Seq<u8>| self.hsm_a_keys.map().contains_key(k),
            |k: Seq<u8>| self.hsm_a_keys.map()[k].secret_key@,
        )
    }

    /// Those who approved each request, without repetition.
    pub closed spec fn approvals(&self) -> Map<Seq<u8>, Seq<Seq<char>>> {
        Map::new(
            |k: Seq<u8>| self.quorum_approvals.map().contains_key(k),
            |k: Seq<u8>| approver_views(self.quorum_approvals.map()[k]),
        )
    }

    /// The number of times that HSM-A was asked.
    pub closed spec fn hsm_a_calls(&self) -> u64 {
        self.hsm_a_calls
    }

    /// The number of approvals of a request.
    pub open spec fn approval_count(&self, request_id: Seq<u8>) -> nat {
        if self.approvals().contains_key(request_id) {
            self.approvals()[request_id].len()
        } else {
            0
        }
    }

    /// Whether HSM-B releases its half-key to a request.
    pub open spec fn quorum_met(&self, request_id: Seq<u8>) -> bool {
        !self.require_quorum() || self.approval_count(request_id) >= self.quorum_threshold()
    }

    /// The invariant of the KMS: its maps are in order, and every key
    /// pair of HSM-A has the lengths of ML-KEM-768 keys.
    pub closed spec fn wf(&self) -> bool {
        &&& self.cache.wf()
        &&& self.cache.max_entries() == self.config.max_cache_entries
        &&& self.hsm_a_keys.wf()
        &&& self.quorum_approvals.wf()
        &&& forall|k: Seq<u8>| #[trigger]
            self.hsm_a_keys.map().contains_key(k) ==> self.hsm_a_keys.map()[k].secret_key@.len()
                == KYBER768_SECRET_KEY_LEN && self.hsm_a_keys.map()[k].public_key@.len()
                == KYBER768_PUBLIC_KEY_LEN
    }

    /// What the KMS does with a request at the time `now`, in seconds.
    pub open spec fn outcome(
        &self,
        kem_ct: Seq<u8>,
        policy_id: Seq<u8>,
        tenant_id: Seq<u8>,
        path: Seq<u8>,
        now: u64,
    ) -> GateOutcome {
        let key = cache_key(kem_ct, policy_id, tenant_id, path);
        let rid = request_id(key);
        let kid = utf8(kid_text(tenant_id, policy_id));
        match self.cache().live(key, now) {
            Some(dek) => GateOutcome::Cached(dek),
            None => if !self.secret_keys().contains_key(kid) {
                GateOutcome::KeyNotFound
            } else if kem_ct.len() != KYBER768_CIPHERTEXT_LEN {
                GateOutcome::Malformed
            } else if !self.quorum_met(rid) {
                GateOutcome::QuorumShort
            } else {
                GateOutcome::Derived(
                    dual_control_dek(
                        half_key_a(kyber768_decapsulated(self.secret_keys()[kid], kem_ct)),
                        half_key_b(rid, policy_id),
                        tenant_id,
                        policy_id,
                        path,
                    ),
                )
            },
        }
    }

    /// A KMS with an empty cache, no keys and no approvals.
    pub fn new(config: DualControlConfig) -> (kms: DualControlKms)
        ensures
            kms.wf(),
            kms.require_quorum() == config.require_quorum,
            kms.quorum_threshold() == config.quorum_threshold,
            kms.cache_ttl_secs() == config.cache_ttl_secs,
            kms.cache().max_entries() == config.max_cache_entries,
            kms.cache().count() == 0,
            kms.cache().entries() == Map::<Seq<u8>, CachedKeyView>::empty(),
            kms.public_keys() == Map::<Seq<u8>, Seq<u8>>::empty(),
            kms.secret_keys() == Map::<Seq<u8>, Seq<u8>>::empty(),
            kms.approvals() == Map::<Seq<u8>, Seq<Seq<char>>>::empty(),
            kms.hsm_a_calls() == 0,
    {
        let cache = DerivationCache::new(config.max_cache_entries);
        let kms = DualControlKms {
            config,
            cache,
            hsm_a_keys: ByteMap::new(),
            quorum_approvals: ByteMap::new(),
            hsm_a_calls: 0,
        };
        assert(kms.public_keys() =~= Map::<Seq<u8>, Seq<u8>>::empty());
        assert(kms.secret_keys() =~= Map::<Seq<u8>, Seq<u8>>::empty());
        assert(kms.approvals() =~= Map::<Seq<u8>, Seq<Seq<char>>>::empty());
        kms
    }

    /// The number of times that HSM-A was asked.
    pub fn hsm_a_call_count(&self) -> (count: u64)
        ensures
            count == self.hsm_a_calls(),
    {
        self.hsm_a_calls
    }

    /// Whether everything but the counter, the cache, the keys or the
    /// approvals is as in `before`: the configuration always stays.
    pub open spec fn same_config(&self, before: &DualControlKms) -> bool {
        &&& self.require_quorum() == before.require_quorum()
        &&& self.quorum_threshold() == before.quorum_threshold()
        &&& self.cache_ttl_secs() == before.cache_ttl_secs()
        &&& self.cache().max_entries() == before.cache().max_entries()
    }

    /// Puts a key pair into HSM-A under `kid`, in place of what was there.
    /// Key pairs of other lengths than those of ML-KEM-768 are refused with
    /// `InternalError`.
    pub fn install_hsm_key(&mut self, kid: &str, public_key: Vec<u8>, secret_key: Secret) -> (res: Result<(), BentengError>)
        requires
            old(self).wf(),
        ensures
            final(self).wf(),
            final(self).same_config(old(self)),
            final(self).cache() == old(self).cache(),
            final(self).approvals() == old(self).approvals(),
            final(self).hsm_a_calls() == old(self).hsm_a_calls(),
            res is Ok <==> public_key@.len() == KYBER768_PUBLIC_KEY_LEN && secret_key@.len()
                == KYBER768_SECRET_KEY_LEN,
            res is Ok ==> final(self).public_keys() == old(self).public_keys().insert(
                utf8(kid@),
                public_key@,
            ) && final(self).secret_keys() == old(self).secret_keys().insert(
                utf8(kid@),
                secret_key@,
            ),
            res matches Err(e) ==> e == BentengError::InternalError && final(self).public_keys()
                == old(self).public_keys() && final(self).secret_keys() == old(self).secret_keys(),
    {
        if public_key.len() != KYBER768_PUBLIC_KEY_LEN || secret_key.len()
            != KYBER768_SECRET_KEY_LEN {
            return Err(BentengError::InternalError);
        }
        let pair = HsmKeyPair { public_key, secret_key };
        self.hsm_a_keys.insert(to_vec(str_bytes(kid)), pair);
        proof {
            assert(self.public_keys() =~= old(self).public_keys().insert(utf8(kid@), public_key@));
            assert(self.secret_keys() =~= old(self).secret_keys().insert(utf8(kid@), secret_key@));
        }
        Ok(())
    }

    /// Generates a fresh key pair in HSM-A under `kid`: a public key and a
    /// secret key that belong together.
    pub fn init_mock_hsm(&mut self, kid: &str) -> (res: Result<(), BentengError>)
        requires
            old(self).wf(),
        ensures
            final(self).wf(),
            final(self).same_config(old(self)),
            final(self).cache() == old(self).cache(),
            final(self).approvals() == old(self).approvals(),
            final(self).hsm_a_calls() == old(self).hsm_a_calls(),
            res is Ok,
            final(self).public_keys().contains_key(utf8(kid@)),
            final(self).secret_keys().contains_key(utf8(kid@)),
            final(self).public_keys()[utf8(kid@)].len() == KYBER768_PUBLIC_KEY_LEN,
            final(self).secret_keys()[utf8(kid@)].len() == KYBER768_SECRET_KEY_LEN,
            kyber768_pair(
                final(self).public_keys()[utf8(kid@)],
                final(self).secret_keys()[utf8(kid@)],
            ),
            forall|k: Seq<u8>|
                k != utf8(kid@) ==> (#[trigger] final(self).public_keys().contains_key(k)
                    == old(self).public_keys().contains_key(k)),
            forall|k: Seq<u8>|
                k != utf8(kid@) && #[trigger] final(self).public_keys().contains_key(k)
                    ==> final(self).public_keys()[k] == old(self).public_keys()[k]
                    && final(self).secret_keys()[k] == old(self).secret_keys()[k],
    {
        match kyber768_keypair() {
            Ok((public_key, secret_key)) => self.install_hsm_key(kid, public_key, secret_key),
            Err(e) => Err(e),
        }
    }

    /// The public key of HSM-A under `kid`.
    pub fn get_public_key(&self, kid: &str) -> (res: Result<Vec<u8>, BentengError>)
        requires
            self.wf(),
        ensures
            res is Ok <==> self.public_keys().contains_key(utf8(kid@)),
            res matches Ok(key) ==> key@ == self.public_keys()[utf8(kid@)],
            res matches Err(e) ==> is_kms_error(e, "Key not found"@),
    {
        match self.hsm_a_keys.get(str_bytes(kid)) {
            Some(pair) => Ok(to_vec(pair.public_key.as_slice())),
            None => Err(BentengError::KmsError("Key not found".to_owned())),
        }
    }

    /// The list of approvers with one more, where they are not in it yet.
    pub open spec fn with_approver(approvers: Seq<Seq<char>>, approver: Seq<char>) -> Seq<Seq<char>> {
        if approvers.contains(approver) {
            approvers
        } else {
            approvers.push(approver)
        }
    }

    /// Records that `approver` approved the request. An approver counts
    /// once for a request, however often they approve it.
    pub fn add_approval(&mut self, request_id: &[u8], approver: &str) -> (res: Result<(), BentengError>)
        requires
            old(self).wf(),
        ensures
            final(self).wf(),
            final(self).same_config(old(self)),
            final(self).cache() == old(self).cache(),
            final(self).public_keys() == old(self).public_keys(),
            final(self).secret_keys() == old(self).secret_keys(),
            final(self).hsm_a_calls() == old(self).hsm_a_calls(),
            res is Ok,
            final(self).approvals() == old(self).approvals().insert(
                request_id@,
                Self::with_approver(
                    if old(self).approvals().contains_key(request_id@) {
                        old(self).approvals()[request_id@]
                    } else {
                        Seq::empty()
                    },
                    approver@,
                ),
            ),
    {
        let mut list: Vec<String> = match self.quorum_approvals.remove(request_id) {
            Some(list) => list,
            None => Vec::new(),
        };
        let ghost before = approver_views(list);
        assert(before =~= if old(self).approvals().contains_key(request_id@) {
            old(self).approvals()[request_id@]
        } else {
            Seq::empty()
        });
        let mut found = false;
        let mut i: usize = 0;
        while i < list.len()
            invariant
                i <= list@.len(),
                before == approver_views(list),
                found <==> exists|j: int| 0 <= j < i && before[j] == approver@,
            decreases list@.len() - i,
        {
            if str_eq(list[i].as_str(), approver) {
                assert(before[i as int] == approver@);
                found = true;
            }
            i += 1;
        }
        if !found {
            list.push(approver.to_owned());
            assert(approver_views(list) =~= before.push(approver@));
        }
        let ghost after = approver_views(list);
        self.quorum_approvals.insert(to_vec(request_id), list);
        proof {
            assert(after == Self::with_approver(before, approver@));
            assert(self.approvals() =~= old(self).approvals().insert(request_id@, after));
        }
        Ok(())
    }

    /// The number of approvals of a request.
    fn count_approvals(&self, request_id: &[u8]) -> (count: usize)
        requires
            self.wf(),
        ensures
            count == self.approval_count(request_id@),
    {
        match self.quorum_approvals.get(request_id) {
            Some(list) => list.len(),
            None => 0,
        }
    }

    /// Whether the request has the approvals that make a quorum.
    pub fn has_quorum(&self, request_id: &[u8]) -> (res: Result<bool, BentengError>)
        requires
            self.wf(),
        ensures
            res == Ok::<bool, BentengError>(
                self.approval_count(request_id@) >= self.quorum_threshold(),
            ),
    {
        Ok(self.count_approvals(request_id) >= self.config.quorum_threshold)
    }

    /// K1 from HSM-A: decapsulates the ciphertext with the key under `kid`
    /// and derives the half-key from the shared secret. The call is
    /// counted.
    fn get_k1(&mut self, kem_ciphertext: &[u8], kid: &str) -> (res: Result<[u8; 32], BentengError>)
        requires
            old(self).wf(),
        ensures
            final(self).wf(),
            final(self).same_config(old(self)),
            final(self).cache() == old(self).cache(),
            final(self).public_keys() == old(self).public_keys(),
            final(self).secret_keys() == old(self).secret_keys(),
            final(self).approvals() == old(self).approvals(),
            final(self).hsm_a_calls() == bumped(old(self).hsm_a_calls()),
            !old(self).secret_keys().contains_key(utf8(kid@)) ==> (res matches Err(e)
                && is_kms_error(e, key_not_found_text())),
            old(self).secret_keys().contains_key(utf8(kid@)) && kem_ciphertext@.len()
                != KYBER768_CIPHERTEXT_LEN ==> res == Err::<[u8; 32], BentengError>(
                BentengError::InternalError,
            ),
            old(self).secret_keys().contains_key(utf8(kid@)) && kem_ciphertext@.len()
                == KYBER768_CIPHERTEXT_LEN ==> (res matches Ok(k1) && k1@ == half_key_a(
                kyber768_decapsulated(old(self).secret_keys()[utf8(kid@)], kem_ciphertext@),
            )),
    {
        if self.hsm_a_calls < u64::MAX {
            self.hsm_a_calls = self.hsm_a_calls + 1;
        }
        let pair = match self.hsm_a_keys.get(str_bytes(kid)) {
            Some(pair) => pair,
            None => {
                return Err(BentengError::KmsError("KEM key not found in HSM-A".to_owned()));
            },
        };
        let shared = match kyber768_decapsulate(pair.secret_key.as_slice(), kem_ciphertext) {
            Ok(shared) => shared,
            Err(_) => {
                return Err(BentengError::InternalError);
            },
        };
        Ok(derive_k1(shared.as_slice()))
    }

    /// K2 from HSM-B: released only where the quorum is met.
    fn get_k2(&self, request_id: &[u8], policy_id: &[u8]) -> (res: Result<[u8; 32], BentengError>)
        requires
            self.wf(),
        ensures
            self.quorum_met(request_id@) ==> (res matches Ok(k2) && k2@ == half_key_b(
                request_id@,
                policy_id@,
            )),
            !self.quorum_met(request_id@) ==> (res matches Err(e) && is_kms_error(
                e,
                quorum_short_text(),
            )),
    {
        if self.config.require_quorum && self.count_approvals(request_id)
            < self.config.quorum_threshold {
            return Err(BentengError::KmsError("Insufficient quorum approvals".to_owned()));
        }
        Ok(derive_k2(request_id, policy_id))
    }

    /// Whether `res` is what the KMS answers to a request at the time
    /// `now`: the cached or the derived key, or the refusal.
    pub open spec fn answers(
        &self,
        kem_ct: Seq<u8>,
        policy_id: Seq<u8>,
        tenant_id: Seq<u8>,
        path: Seq<u8>,
        now: u64,
        res: Result<[u8; 32], BentengError>,
    ) -> bool {
        match self.outcome(kem_ct, policy_id, tenant_id, path, now) {
            GateOutcome::Cached(dek) => res matches Ok(d) && d@ == dek,
            GateOutcome::Derived(dek) => res matches Ok(d) && d@ == dek,
            GateOutcome::KeyNotFound => res matches Err(e) && is_kms_error(e, key_not_found_text()),
            GateOutcome::Malformed => res matches Err(e) && e == BentengError::InternalError,
            GateOutcome::QuorumShort => res matches Err(e) && is_kms_error(e, quorum_short_text()),
        }
    }

    /// Whether `res` and the KMS `after` are what a request at the time
    /// `now` leaves of this KMS: configuration, keys and approvals stay; a
    /// cached key is handed out without asking HSM-A; every other request
    /// asks HSM-A once, and a key that is derived is cached until `now`
    /// plus the configured lifetime, in place of the entries that a full
    /// cache drops: those that have run out, and at most one more.
    pub open spec fn steps_to(
        &self,
        after: &DualControlKms,
        kem_ct: Seq<u8>,
        policy_id: Seq<u8>,
        tenant_id: Seq<u8>,
        path: Seq<u8>,
        now: u64,
        res: Result<[u8; 32], BentengError>,
    ) -> bool {
        let key = cache_key(kem_ct, policy_id, tenant_id, path);
        &&& after.same_config(self)
        &&& after.public_keys() == self.public_keys()
        &&& after.secret_keys() == self.secret_keys()
        &&& after.approvals() == self.approvals()
        &&& self.answers(kem_ct, policy_id, tenant_id, path, now, res)
        &&& match self.outcome(kem_ct, policy_id, tenant_id, path, now) {
            GateOutcome::Cached(dek) => {
                &&& after.hsm_a_calls() == self.hsm_a_calls()
                &&& after.cache() == self.cache()
            },
            GateOutcome::Derived(dek) => {
                &&& after.hsm_a_calls() == bumped(self.hsm_a_calls())
                &&& after.cache().entries().contains_key(key)
                &&& after.cache().entries()[key] == (CachedKeyView {
                    expires_at: expiry(now, self.cache_ttl_secs()),
                    key_material: dek,
                })
                &&& forall|k: Seq<u8>|
                    k != key && #[trigger] after.cache().entries().contains_key(k)
                        ==> self.cache().entries().contains_key(k)
                        && after.cache().entries()[k]
                        == self.cache().entries()[k]
                &&& self.cache().count() < self.cache().max_entries()
                    ==> forall|k: Seq<u8>| #[trigger]
                    self.cache().entries().contains_key(k)
                        ==> after.cache().entries().contains_key(k)
                &&& self.cache().count() >= self.cache().max_entries()
                    ==> forall|k: Seq<u8>|
                    k != key && #[trigger] after.cache().entries().contains_key(k)
                        ==> after.cache().entries()[k].expires_at > now
                &&& kept_but_one(self.cache().entries(), after.cache().entries(), now)
                &&& live_keys(self.cache().entries(), now).len() < self.cache().max_entries()
                    ==> kept_all(self.cache().entries(), after.cache().entries(), now)
            },
            GateOutcome::KeyNotFound => {
                &&& after.hsm_a_calls() == bumped(self.hsm_a_calls())
                &&& after.cache() == self.cache()
            },
            GateOutcome::Malformed => {
                &&& after.hsm_a_calls() == bumped(self.hsm_a_calls())
                &&& after.cache() == self.cache()
            },
            GateOutcome::QuorumShort => {
                &&& after.hsm_a_calls() == bumped(self.hsm_a_calls())
                &&& after.cache() == self.cache()
            },
        }
    }

    /// Derives the data-encryption key of a request at the time `now`, in
    /// seconds. A key that is cached and has not run out is returned
    /// without asking HSM-A. Otherwise K1 is had from HSM-A and K2 from
    /// HSM-B, the two are combined, the half-keys are scrubbed, and the key
    /// is cached until `now` plus the configured lifetime.
    pub fn dual_decrypt_at(
        &mut self,
        kem_ciphertext: &[u8],
        policy_id: &[u8],
        tenant_id: &[u8],
        path: &str,
        now: u64,
    ) -> (res: Result<[u8; 32], BentengError>)
        requires
            old(self).wf(),
        ensures
            final(self).wf(),
            final(self).same_config(old(self)),
            final(self).public_keys() == old(self).public_keys(),
            final(self).secret_keys() == old(self).secret_keys(),
            final(self).approvals() == old(self).approvals(),
            old(self).steps_to(
                final(self),
                kem_ciphertext@,
                policy_id@,
                tenant_id@,
                utf8(path@),
                now,
                res,
            ),
    {
        let key = build_cache_key(kem_ciphertext, policy_id, tenant_id, path);
        match self.cache.lookup(key.as_slice(), now) {
            Some(dek) => {
                return Ok(dek);
            },
            None => {},
        }
        let request_id = derive_request_id(key.as_slice());
        let kid = kid_for(tenant_id, policy_id);
        let mut k1 = match self.get_k1(kem_ciphertext, kid.as_str()) {
            Ok(k1) => k1,
            Err(e) => {
                return Err(e);
            },
        };
        let mut k2 = match self.get_k2(request_id.as_slice(), policy_id) {
            Ok(k2) => k2,
            Err(e) => {
                scrub_key(&mut k1);
                return Err(e);
            },
        };
        let dek = combine_half_keys(&k1, &k2, tenant_id, policy_id, path);
        scrub_key(&mut k1);
        scrub_key(&mut k2);
        let expires_at = if self.config.cache_ttl_secs <= u64::MAX - now {
            now + self.config.cache_ttl_secs
        } else {
            u64::MAX
        };
        self.cache.store(key, &dek, expires_at, now);
        Ok(dek)
    }
}

impl DualControlKms {
    /// The number of cached keys, which the configured bound limits.
    pub fn cached_keys(&self) -> (count: usize)
        requires
            self.wf(),
        ensures
            count == self.cache().count(),
            count <= crate::crypto::cache::capacity(self.cache().max_entries()),
    {
        self.cache.len()
    }
}

/// A key that was derived and cached is handed out from the cache for as
/// long as it lasts: a KMS whose cache holds the key of a request until
/// `expires_at` answers the request from the cache at every time before
/// that, whatever its keys and approvals are by then.
pub proof fn lemma_cached_key_is_reused(
    kms: DualControlKms,
    kem_ct: Seq<u8>,
    policy_id: Seq<u8>,
    tenant_id: Seq<u8>,
    path: Seq<u8>,
    dek: Seq<u8>,
    expires_at: u64,
    later: u64,
)
    requires
        kms.cache().entries().contains_key(cache_key(kem_ct, policy_id, tenant_id, path)),
        kms.cache().entries()[cache_key(kem_ct, policy_id, tenant_id, path)] == (CachedKeyView {
            expires_at,
            key_material: dek,
        }),
        later < expires_at,
    ensures
        kms.outcome(kem_ct, policy_id, tenant_id, path, later) == GateOutcome::Cached(dek),
{
}

/// A request without the approvals that the quorum asks for gets no key
/// from HSM-B, unless its key is still cached.
pub proof fn lemma_quorum_gates_the_key(
    kms: DualControlKms,
    kem_ct: Seq<u8>,
    policy_id: Seq<u8>,
    tenant_id: Seq<u8>,
    path: Seq<u8>,
    now: u64,
)
    requires
        kms.require_quorum(),
        kms.approval_count(request_id(cache_key(kem_ct, policy_id, tenant_id, path)))
            < kms.quorum_threshold(),
        kms.cache().live(cache_key(kem_ct, policy_id, tenant_id, path), now) is None,
    ensures
        !(kms.outcome(kem_ct, policy_id, tenant_id, path, now) is Derived),
        !(kms.outcome(kem_ct, policy_id, tenant_id, path, now) is Cached),
{
}

/// A KMS that derives the data-encryption key of a request under dual
/// control.
pub trait KmsGate {
    /// Whether the KMS is in order.
    spec fn gate_wf(&self) -> bool;

    /// Whether `res` is an answer that the KMS gives to a request in its
    /// present state.
    spec fn may_answer(
        &self,
        kem_ciphertext: Seq<u8>,
        policy_id: Seq<u8>,
        tenant_id: Seq<u8>,
        path: Seq<char>,
        res: Result<[u8; 32], BentengError>,
    ) -> bool;

    /// Derives the data-encryption key of a request.
    fn dual_decrypt(
        &mut self,
        kem_ciphertext: &[u8],
        policy_id: &[u8],
        tenant_id: &[u8],
        path: &str,
    ) -> (res: Result<[u8; 32], BentengError>)
        requires
            old(self).gate_wf(),
        ensures
            final(self).gate_wf(),
            old(self).may_answer(kem_ciphertext@, policy_id@, tenant_id@, path@, res),
    ;

    /// Whether the request has the approvals that make a quorum.
    fn check_quorum(&self, request_id: &[u8]) -> (res: Result<bool, BentengError>)
        requires
            self.gate_wf(),
    ;
}

impl KmsGate for DualControlKms {
    open spec fn gate_wf(&self) -> bool {
        self.wf()
    }

    /// The answers of the KMS are those that it gives at a time that the
    /// clock can tell.
    open spec fn may_answer(
        &self,
        kem_ciphertext: Seq<u8>,
        policy_id: Seq<u8>,
        tenant_id: Seq<u8>,
        path: Seq<char>,
        res: Result<[u8; 32], BentengError>,
    ) -> bool {
        exists|now: u64|
            crate::clock::clock_secs(now) && #[trigger] self.answers(
                kem_ciphertext,
                policy_id,
                tenant_id,
                utf8(path),
                now,
                res,
            )
    }

    /// Derives the data-encryption key of a request at the time that the
    /// clock tells: the answer and the KMS afterwards are what
    /// `dual_decrypt_at` leaves at that time.
    fn dual_decrypt(
        &mut self,
        kem_ciphertext: &[u8],
        policy_id: &[u8],
        tenant_id: &[u8],
        path: &str,
    ) -> (res: Result<[u8; 32], BentengError>)
        ensures
            exists|now: u64|
                crate::clock::clock_secs(now) && #[trigger] old(self).steps_to(
                    final(self),
                    kem_ciphertext@,
                    policy_id@,
                    tenant_id@,
                    utf8(path@),
                    now,
                    res,
                ),
    {
        let now = crate::clock::now_epoch_secs();
        let res = self.dual_decrypt_at(kem_ciphertext, policy_id, tenant_id, path, now);
        proof {
            assert(old(self).steps_to(
                self,
                kem_ciphertext@,
                policy_id@,
                tenant_id@,
                utf8(path@),
                now,
                res,
            ));
            assert(old(self).answers(
                kem_ciphertext@,
                policy_id@,
                tenant_id@,
                utf8(path@),
                now,
                res,
            ));
        }
        res
    }

    fn check_quorum(&self, request_id: &[u8]) -> (res: Result<bool, BentengError>)
        ensures
            res == Ok::<bool, BentengError>(
                self.approval_count(request_id@) >= self.quorum_threshold(),
            ),
    {
        self.has_quorum(request_id)
    }
}

} // verus!
