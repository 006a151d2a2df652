//! Signed policy bundles and their staged activation.

use vstd::prelude::*;
use crate::bytes::{str_eq, to_vec, utf8};
use crate::crypto::sig::{
    dilithium3_pair, dilithium3_sign, dilithium3_signed, dilithium3_verify, signature_accepted,
    DILITHIUM3_PUBLIC_KEY_LEN, DILITHIUM3_SECRET_KEY_LEN,
};
use crate::error::BentengError;
use crate::json::{
    decimal, json_bool, json_bytes, json_string, write_bool, write_byte_array, write_decimal,
    write_raw, write_string,
};
use crate::envelope::DEFAULT_REQUIRED_ALGS;
use crate::policy::{Policy, PolicyView};

verus! {

/// A versioned set of policies under one signature.
#[derive(Debug, Clone)]
pub struct SignedPolicyBundle {
    pub policies: Vec<Policy>,
    pub version: u64,
    pub created_at: u64,
    pub not_after: u64,
    pub signer_kid: String,
    pub signature: Vec<u8>,
}

/// The model of a `SignedPolicyBundle`.
pub struct BundleView {
    pub policies: Seq<PolicyView>,
    pub version: u64,
    pub created_at: u64,
    pub not_after: u64,
    pub signer_kid: Seq<char>,
    pub signature: Seq<u8>,
}

/// The models of a sequence of policies.
pub open spec fn policy_views(policies: Seq<Policy>) -> Seq<PolicyView> {
    Seq::new(policies.len(), |i: int| policies[i]@)
}

impl View for SignedPolicyBundle {
    type V = BundleView;

    open spec fn view(&self) -> BundleView {
        BundleView {
            policies: policy_views(self.policies@),
            version: self.version,
            created_at: self.created_at,
            not_after: self.not_after,
            signer_kid: self.signer_kid@,
            signature: self.signature@,
        }
    }
}

/// The first part of the canonical JSON of a policy: what it applies to.
pub open spec fn policy_json_scope(p: PolicyView) -> Seq<u8> {
    utf8("{\"tenant_id\":"@) + json_string(p.tenant_id) + utf8(",\"policy_id\":"@) + json_string(
        p.policy_id,
    ) + utf8(",\"path\":"@) + json_string(p.path) + utf8(",\"required_algs\":"@) + json_string(
        p.required_algs,
    )
}

/// The second part of the canonical JSON of a policy: its limits.
pub open spec fn policy_json_limits(p: PolicyView) -> Seq<u8> {
    utf8(",\"max_age_ms\":"@) + decimal(p.max_age_ms as nat) + utf8(",\"max_body_bytes\":"@)
        + decimal(p.max_body_bytes as nat) + utf8(",\"require_device_attest\":"@) + json_bool(
        p.require_device_attest,
    ) + utf8(",\"hybrid_allowed\":"@) + json_bool(p.hybrid_allowed) + utf8(",\"replay_ttl_ms\":"@)
        + decimal(p.replay_ttl_ms as nat) + utf8(",\"version\":"@) + decimal(p.version as nat)
        + utf8("}"@)
}

/// The canonical JSON of a policy: its fields in their order.
pub open spec fn policy_json(p: PolicyView) -> Seq<u8> {
    policy_json_scope(p) + policy_json_limits(p)
}

/// The canonical JSON of policies, each followed by a comma but the last.
pub open spec fn policies_json(policies: Seq<PolicyView>) -> Seq<u8>
    decreases policies.len(),
{
    if policies.len() == 0 {
        Seq::empty()
    } else if policies.len() == 1 {
        policy_json(policies[0])
    } else {
        policies_json(policies.drop_last()) + utf8(","@) + policy_json(policies.last())
    }
}

impl BundleView {
    /// The bundle with its signature replaced.
    pub open spec fn with_signature(self, signature: Seq<u8>) -> BundleView {
        BundleView { signature, ..self }
    }

    /// The canonical JSON of the bundle.
    pub open spec fn json(self) -> Seq<u8> {
        utf8("{\"policies\":["@) + policies_json(self.policies) + utf8("],\"version\":"@) + decimal(
            self.version as nat,
        ) + utf8(",\"created_at\":"@) + decimal(self.created_at as nat) + utf8(",\"not_after\":"@)
            + decimal(self.not_after as nat) + utf8(",\"signer_kid\":"@) + json_string(
            self.signer_kid,
        ) + utf8(",\"signature\":"@) + json_bytes(self.signature) + utf8("}"@)
    }

    /// What is signed: the canonical JSON of the bundle with its signature
    /// cleared.
    pub open spec fn signing_bytes(self) -> Seq<u8> {
        self.with_signature(Seq::empty()).json()
    }

    /// Whether `public_key` accepts the bundle's signature.
    pub open spec fn verified_by(self, public_key: Seq<u8>) -> bool {
        signature_accepted(public_key, self.signing_bytes(), self.signature)
    }

    /// That the bundle verifies under every public key that was generated
    /// together with `secret_key`.
    pub open spec fn verifies_for(self, secret_key: Seq<u8>) -> bool {
        forall|public_key: Seq<u8>|
            #[trigger] dilithium3_pair(public_key, secret_key) && public_key.len()
                == DILITHIUM3_PUBLIC_KEY_LEN ==> self.verified_by(public_key)
    }

    /// Whether the bundle is within its lifetime at `now`, in seconds.
    pub open spec fn valid_at(self, now: u64) -> bool {
        self.created_at <= now < self.not_after
    }
}

/// What is signed does not depend on the signature field.
pub proof fn lemma_signing_bytes_ignore_signature(bundle: BundleView, signature: Seq<u8>)
    ensures
        bundle.with_signature(signature).signing_bytes() == bundle.signing_bytes(),
{
    assert(bundle.with_signature(signature).with_signature(Seq::empty()) == bundle.with_signature(
        Seq::empty(),
    ));
}

/// A bundle that was created with a secret key verifies under the public
/// key that agrees with it.
pub proof fn lemma_created_bundle_verifies(
    policies: Seq<PolicyView>,
    version: u64,
    now: u64,
    ttl_secs: u64,
    signer_kid: Seq<char>,
    signing_key: Seq<u8>,
    public_key: Seq<u8>,
)
    requires
        crate::envelope::operations::signing_keys_agree(public_key, signing_key),
    ensures
        SignedPolicyBundle::created(
            policies,
            version,
            now,
            ttl_secs,
            signer_kid,
            signing_key,
        ).verified_by(public_key),
{
    let unsigned = BundleView {
        policies,
        version,
        created_at: now,
        not_after: (now + ttl_secs) as u64,
        signer_kid,
        signature: Seq::empty(),
    };
    let signature = dilithium3_signed(signing_key, unsigned.signing_bytes());
    lemma_signing_bytes_ignore_signature(unsigned, signature);
    assert(signature_accepted(public_key, unsigned.signing_bytes(), signature));
}

fn write_policy_scope(out: &mut Vec<u8>, p: &Policy)
    ensures
        final(out)@ == old(out)@ + policy_json_scope(p@),
{
    write_raw(out, "{\"tenant_id\":");
    write_string(out, p.tenant_id.as_str());
    write_raw(out, ",\"policy_id\":");
    write_string(out, p.policy_id.as_str());
    write_raw(out, ",\"path\":");
    write_string(out, p.path.as_str());
    write_raw(out, ",\"required_algs\":");
    write_string(out, p.required_algs.as_str());
    assert(out@ =~= old(out)@ + policy_json_scope(p@));
}

fn write_policy_limits(out: &mut Vec<u8>, p: &Policy)
    ensures
        final(out)@ == old(out)@ + policy_json_limits(p@),
{
    write_raw(out, ",\"max_age_ms\":");
    write_decimal(out, p.max_age_ms);
    write_raw(out, ",\"max_body_bytes\":");
    write_decimal(out, p.max_body_bytes as u64);
    write_raw(out, ",\"require_device_attest\":");
    write_bool(out, p.require_device_attest);
    write_raw(out, ",\"hybrid_allowed\":");
    write_bool(out, p.hybrid_allowed);
    write_raw(out, ",\"replay_ttl_ms\":");
    write_decimal(out, p.replay_ttl_ms);
    write_raw(out, ",\"version\":");
    write_decimal(out, p.version as u64);
    write_raw(out, "}");
    assert(out@ =~= old(out)@ + policy_json_limits(p@));
}

fn write_policy(out: &mut Vec<u8>, p: &Policy)
    ensures
        final(out)@ == old(out)@ + policy_json(p@),
{
    write_policy_scope(out, p);
    write_policy_limits(out, p);
    assert(out@ =~= old(out)@ + policy_json(p@));
}

fn write_policies(out: &mut Vec<u8>, policies: &Vec<Policy>)
    ensures
        final(out)@ == old(out)@ + policies_json(policy_views(policies@)),
{
    let ghost all = policy_views(policies@);
    let ghost start = out@;
    let mut i: usize = 0;
    assert(start =~= start + policies_json(all.take(0)));
    while i < policies.len()
        invariant
            i <= policies@.len(),
            all == policy_views(policies@),
            out@ == start + policies_json(all.take(i as int)),
        decreases policies@.len() - i,
    {
        if i > 0 {
            write_raw(out, ",");
        }
        write_policy(out, &policies[i]);
        proof {
            assert(all.take(i + 1).drop_last() =~= all.take(i as int));
            assert(all.take(i + 1).last() == policies@[i as int]@);
            assert(out@ =~= start + policies_json(all.take(i + 1)));
        }
        i += 1;
    }
    assert(all.take(i as int) =~= all);
}

impl SignedPolicyBundle {
    /// A copy of the bundle.
    pub fn duplicate(&self) -> (out: SignedPolicyBundle)
        ensures
            out@ == self@,
    {
        let mut policies: Vec<Policy> = Vec::new();
        let mut i: usize = 0;
        while i < self.policies.len()
            invariant
                i <= self.policies@.len(),
                policies@.len() == i,
                forall|j: int| 0 <= j < i ==> policies@[j]@ == self.policies@[j]@,
            decreases self.policies@.len() - i,
        {
            policies.push(self.policies[i].duplicate());
            i += 1;
        }
        assert(policy_views(policies@) =~= policy_views(self.policies@));
        SignedPolicyBundle {
            policies,
            version: self.version,
            created_at: self.created_at,
            not_after: self.not_after,
            signer_kid: self.signer_kid.clone(),
            signature: to_vec(self.signature.as_slice()),
        }
    }

    /// Writes the canonical JSON of the bundle with `signature` in the
    /// place of its signature.
    fn write_json(&self, signature: &[u8]) -> (out: Vec<u8>)
        ensures
            out@ == self@.with_signature(signature@).json(),
    {
        let mut out: Vec<u8> = Vec::new();
        write_raw(&mut out, "{\"policies\":[");
        write_policies(&mut out, &self.policies);
        write_raw(&mut out, "],\"version\":");
        write_decimal(&mut out, self.version);
        write_raw(&mut out, ",\"created_at\":");
        write_decimal(&mut out, self.created_at);
        write_raw(&mut out, ",\"not_after\":");
        write_decimal(&mut out, self.not_after);
        write_raw(&mut out, ",\"signer_kid\":");
        write_string(&mut out, self.signer_kid.as_str());
        write_raw(&mut out, ",\"signature\":");
        write_byte_array(&mut out, signature);
        write_raw(&mut out, "}");
        assert(out@ =~= self@.with_signature(signature@).json());
        out
    }

    /// The bundle file: the canonical JSON of the bundle, signature
    /// included.
    pub fn to_json(&self) -> (json: Vec<u8>)
        ensures
            json@ == self@.json(),
    {
        assert(self@.with_signature(self.signature@) == self@);
        self.write_json(self.signature.as_slice())
    }

    /// What is signed: the canonical JSON of the bundle with its signature
    /// cleared.
    pub fn serialize_for_signing(bundle: &SignedPolicyBundle) -> (res: Result<Vec<u8>, BentengError>)
        ensures
            res matches Ok(bytes) && bytes@ == bundle@.signing_bytes(),
    {
        let cleared: Vec<u8> = Vec::new();
        assert(cleared@ =~= Seq::<u8>::empty());
        Ok(bundle.write_json(cleared.as_slice()))
    }

    /// The bundle that `create_at` makes.
    pub open spec fn created(
        policies: Seq<PolicyView>,
        version: u64,
        now: u64,
        ttl_secs: u64,
        signer_kid: Seq<char>,
        signing_key: Seq<u8>,
    ) -> BundleView {
        let unsigned = BundleView {
            policies,
            version,
            created_at: now,
            not_after: (now + ttl_secs) as u64,
            signer_kid,
            signature: Seq::empty(),
        };
        unsigned.with_signature(dilithium3_signed(signing_key, unsigned.signing_bytes()))
    }

    /// Creates a bundle at the time `now`, in seconds, that lives for
    /// `ttl_secs`, and signs it. The bundle verifies under every public key
    /// that belongs to the signing key. Fails with `InternalError` exactly
    /// where the end of the lifetime cannot be counted or the signing key
    /// is malformed.
    pub fn create_at(
        policies: Vec<Policy>,
        version: u64,
        now: u64,
        ttl_secs: u64,
        signer_kid: String,
        signing_key: &[u8],
    ) -> (res: Result<SignedPolicyBundle, BentengError>)
        ensures
            res is Ok <==> now + ttl_secs <= u64::MAX && signing_key@.len()
                == DILITHIUM3_SECRET_KEY_LEN,
            res matches Ok(bundle) ==> bundle@ == Self::created(
                policy_views(policies@),
                version,
                now,
                ttl_secs,
                signer_kid@,
                signing_key@,
            ),
            res matches Ok(bundle) ==> bundle@.verifies_for(signing_key@),
            res matches Err(e) ==> e == BentengError::InternalError,
    {
        let not_after = match now.checked_add(ttl_secs) {
            Some(t) => t,
            None => {
                return Err(BentengError::InternalError);
            },
        };
        let mut bundle = SignedPolicyBundle {
            policies,
            version,
            created_at: now,
            not_after,
            signer_kid,
            signature: Vec::new(),
        };
        assert(bundle.signature@ =~= Seq::<u8>::empty());
        let msg = Self::serialize_for_signing(&bundle)?;
        assert(bundle@.with_signature(Seq::empty()) == bundle@);
        let ghost unsigned = bundle@;
        let signature = dilithium3_sign(signing_key, msg.as_slice())?;
        bundle.signature = signature;
        proof {
            lemma_signing_bytes_ignore_signature(unsigned, bundle.signature@);
            assert(bundle@ == unsigned.with_signature(bundle.signature@));
        }
        Ok(bundle)
    }

    /// Whether `res` is what creating a bundle at the time `now` gives:
    /// the signed bundle where the end of its lifetime can be counted and
    /// the signing key is well-formed, and `InternalError` otherwise.
    pub open spec fn creates(
        policies: Seq<PolicyView>,
        version: u64,
        now: u64,
        ttl_secs: u64,
        signer_kid: Seq<char>,
        signing_key: Seq<u8>,
        res: Result<SignedPolicyBundle, BentengError>,
    ) -> bool {
        if now + ttl_secs <= u64::MAX && signing_key.len() == DILITHIUM3_SECRET_KEY_LEN {
            res matches Ok(bundle) && bundle@ == Self::created(
                policies,
                version,
                now,
                ttl_secs,
                signer_kid,
                signing_key,
            )
        } else {
            res matches Err(e) && e == BentengError::InternalError
        }
    }

    /// Creates a bundle at the current time that lives for `ttl_secs`, and
    /// signs it: what `create_at` gives for the time that the clock tells.
    pub fn create(
        policies: Vec<Policy>,
        version: u64,
        ttl_secs: u64,
        signer_kid: String,
        signing_key: &[u8],
    ) -> (res: Result<SignedPolicyBundle, BentengError>)
        ensures
            exists|now: u64|
                crate::clock::clock_secs(now) && #[trigger] Self::creates(
                    policy_views(policies@),
                    version,
                    now,
                    ttl_secs,
                    signer_kid@,
                    signing_key@,
                    res,
                ),
            res matches Ok(bundle) ==> bundle@.verifies_for(signing_key@),
    {
        let now = crate::clock::now_epoch_secs();
        let res = Self::create_at(policies, version, now, ttl_secs, signer_kid, signing_key);
        assert(crate::clock::clock_secs(now) && Self::creates(
            policy_views(policies@),
            version,
            now,
            ttl_secs,
            signer_kid@,
            signing_key@,
            res,
        ));
        res
    }

    /// Whether `public_key` accepts the signature over the bundle with its
    /// signature cleared. An empty key is `InvalidSignature`.
    pub fn verify(&self, public_key: &[u8]) -> (res: Result<bool, BentengError>)
        ensures
            public_key@.len() == 0 ==> res == Err::<bool, BentengError>(
                BentengError::InvalidSignature,
            ),
            public_key@.len() != 0 ==> res == Ok::<bool, BentengError>(
                self@.verified_by(public_key@),
            ),
    {
        let msg = match Self::serialize_for_signing(self) {
            Ok(msg) => msg,
            Err(_) => {
                return Err(BentengError::InvalidSignature);
            },
        };
        dilithium3_verify(public_key, msg.as_slice(), self.signature.as_slice())
    }

    /// Whether the bundle is within its lifetime at `now`, in seconds:
    /// created at or before `now`, and `now` before its end.
    pub fn is_valid_at(&self, now: u64) -> (valid: bool)
        ensures
            valid == self@.valid_at(now),
    {
        now >= self.created_at && now < self.not_after
    }

    /// Whether the bundle is within its lifetime at the current time: the
    /// answer of `is_valid_at` for the time that the clock tells.
    pub fn is_valid(&self) -> (valid: bool)
        ensures
            exists|now: u64|
                crate::clock::clock_secs(now) && valid == #[trigger] self@.valid_at(now),
    {
        let now = crate::clock::now_epoch_secs();
        let valid = self.is_valid_at(now);
        assert(crate::clock::clock_secs(now) && valid == self@.valid_at(now));
        valid
    }
}

/// The model of an optional bundle.
pub open spec fn bundle_view(bundle: Option<SignedPolicyBundle>) -> Option<BundleView> {
    match bundle {
        Some(b) => Some(b@),
        None => None,
    }
}

/// Distributes bundles in two slots: the current one, which lookups read,
/// and the staged one, which waits for activation.
pub struct PolicyDistributor {
    current_bundle: Option<SignedPolicyBundle>,
    next_bundle: Option<SignedPolicyBundle>,
    signer_public_key: Vec<u8>,
}

/// The first policy that is stored for a tenant, a policy identifier and a
/// path among `policies`, by position.
pub open spec fn first_policy_index(
    policies: Seq<PolicyView>,
    tenant_id: Seq<char>,
    policy_id: Seq<char>,
    path: Seq<char>,
) -> Option<int>
    decreases policies.len(),
{
    if policies.len() == 0 {
        None
    } else {
        match first_policy_index(policies.drop_last(), tenant_id, policy_id, path) {
            Some(i) => Some(i),
            None => if policies.last().stored_for(tenant_id, policy_id, path) {
                Some(policies.len() - 1)
            } else {
                None
            },
        }
    }
}

/// The policy that a lookup among `policies` gives for a tenant, a policy
/// identifier and a path: the first one stored for all three, or the
/// conservative default for them.
pub open spec fn looked_up(
    policies: Seq<PolicyView>,
    tenant_id: Seq<char>,
    policy_id: Seq<char>,
    path: Seq<char>,
) -> PolicyView {
    match first_policy_index(policies, tenant_id, policy_id, path) {
        Some(i) => policies[i],
        None => PolicyView::conservative(tenant_id, policy_id, path, DEFAULT_REQUIRED_ALGS@),
    }
}

/// What the first position says: the policy there is stored for what was
/// asked and none before it is; and where there is no such position, no
/// policy is stored for it.
proof fn lemma_first_policy_index(
    policies: Seq<PolicyView>,
    tenant_id: Seq<char>,
    policy_id: Seq<char>,
    path: Seq<char>,
)
    ensures
        looked_up(policies, tenant_id, policy_id, path).stored_for(tenant_id, policy_id, path),
        first_policy_index(policies, tenant_id, policy_id, path) matches Some(i) ==> 0 <= i
            < policies.len() && forall|j: int|
            0 <= j < i ==> !(#[trigger] policies[j]).stored_for(tenant_id, policy_id, path),
        first_policy_index(policies, tenant_id, policy_id, path) is None ==> forall|j: int|
            0 <= j < policies.len() ==> !(#[trigger] policies[j]).stored_for(
                tenant_id,
                policy_id,
                path,
            ),
    decreases policies.len(),
{
    if policies.len() > 0 {
        lemma_first_policy_index(policies.drop_last(), tenant_id, policy_id, path);
        assert(forall|j: int|
            0 <= j < policies.len() - 1 ==> policies.drop_last()[j] == policies[j]);
    }
}

/// A lookup gives the first policy that is stored for what was asked, and
/// the conservative default where none is.
pub proof fn lemma_lookup_takes_the_first(
    policies: Seq<PolicyView>,
    tenant_id: Seq<char>,
    policy_id: Seq<char>,
    path: Seq<char>,
)
    ensures
        looked_up(policies, tenant_id, policy_id, path).stored_for(tenant_id, policy_id, path),
        forall|i: int|
            0 <= i < policies.len() && (#[trigger] policies[i]).stored_for(
                tenant_id,
                policy_id,
                path,
            ) && (forall|j: int|
                0 <= j < i ==> !(#[trigger] policies[j]).stored_for(tenant_id, policy_id, path))
                ==> looked_up(policies, tenant_id, policy_id, path) == policies[i],
        (forall|i: int|
            0 <= i < policies.len() ==> !(#[trigger] policies[i]).stored_for(
                tenant_id,
                policy_id,
                path,
            )) ==> looked_up(policies, tenant_id, policy_id, path) == PolicyView::conservative(
            tenant_id,
            policy_id,
            path,
            DEFAULT_REQUIRED_ALGS@,
        ),
{
    lemma_first_policy_index(policies, tenant_id, policy_id, path);
    let first = first_policy_index(policies, tenant_id, policy_id, path);
    assert forall|i: int|
        0 <= i < policies.len() && (#[trigger] policies[i]).stored_for(
            tenant_id,
            policy_id,
            path,
        ) && (forall|j: int|
            0 <= j < i ==> !(#[trigger] policies[j]).stored_for(
                tenant_id,
                policy_id,
                path,
            )) implies looked_up(policies, tenant_id, policy_id, path) == policies[i] by {
        match first {
            Some(k) => {
                assert(policies[k].stored_for(tenant_id, policy_id, path));
                if k < i {
                    assert(!policies[k].stored_for(tenant_id, policy_id, path));
                } else if k > i {
                    assert(!policies[i].stored_for(tenant_id, policy_id, path));
                }
            },
            None => {
                assert(!policies[i].stored_for(tenant_id, policy_id, path));
            },
        }
    }
    if forall|i: int|
        0 <= i < policies.len() ==> !(#[trigger] policies[i]).stored_for(
            tenant_id,
            policy_id,
            path,
        ) {
        match first {
            Some(k) => {
                assert(policies[k].stored_for(tenant_id, policy_id, path));
            },
            None => {},
        }
    }
}

impl PolicyDistributor {
    /// The current bundle.
    pub closed spec fn current(&self) -> Option<BundleView> {
        bundle_view(self.current_bundle)
    }

    /// The staged bundle.
    pub closed spec fn staged(&self) -> Option<BundleView> {
        bundle_view(self.next_bundle)
    }

    /// The public key of the configured signer.
    pub closed spec fn signer_key(&self) -> Seq<u8> {
        self.signer_public_key@
    }

    /// The version of the current bundle, zero where there is none.
    pub open spec fn spec_current_version(&self) -> u64 {
        match self.current() {
            Some(b) => b.version,
            None => 0,
        }
    }

    /// Whether a bundle is accepted into the staged slot at `now`: its
    /// signature verifies under the configured signer's key, its version is
    /// above the current one, and it has not run out.
    pub open spec fn accepts(&self, bundle: BundleView, now: u64) -> bool {
        &&& bundle.verified_by(self.signer_key())
        &&& bundle.version > self.spec_current_version()
        &&& now < bundle.not_after
    }

    /// A distributor without a configured signer: no public key accepts,
    /// so no bundle is staged.
    pub fn new() -> (distributor: PolicyDistributor)
        ensures
            distributor.current() is None,
            distributor.staged() is None,
            distributor.signer_key().len() == 0,
    {
        PolicyDistributor { current_bundle: None, next_bundle: None, signer_public_key: Vec::new() }
    }

    /// A distributor for the bundles of the signer with `public_key`.
    pub fn with_signer(public_key: Vec<u8>) -> (distributor: PolicyDistributor)
        ensures
            distributor.current() is None,
            distributor.staged() is None,
            distributor.signer_key() == public_key@,
    {
        PolicyDistributor { current_bundle: None, next_bundle: None, signer_public_key: public_key }
    }

    /// The version of the current bundle, zero where there is none.
    pub fn current_version(&self) -> (version: u64)
        ensures
            version == self.spec_current_version(),
    {
        match &self.current_bundle {
            Some(b) => b.version,
            None => 0,
        }
    }

    /// Offers a bundle at the time `now`, in seconds. The bundle is staged
    /// exactly where it is accepted; a bundle that is refused changes
    /// nothing. The current bundle stays in either case.
    pub fn update_bundle_at(&mut self, bundle: SignedPolicyBundle, now: u64) -> (staged: bool)
        ensures
            staged == old(self).accepts(bundle@, now),
            final(self).current() == old(self).current(),
            final(self).signer_key() == old(self).signer_key(),
            final(self).staged() == if staged {
                Some(bundle@)
            } else {
                old(self).staged()
            },
    {
        let verified = match bundle.verify(self.signer_public_key.as_slice()) {
            Ok(accepted) => accepted,
            Err(_) => false,
        };
        if verified && bundle.version > self.current_version() && now < bundle.not_after {
            self.next_bundle = Some(bundle);
            true
        } else {
            false
        }
    }

    /// The staged slot after a bundle was offered at the time `now`: the
    /// bundle where it is accepted, and else what was staged before.
    pub open spec fn staged_after(&self, bundle: BundleView, now: u64) -> Option<BundleView> {
        if self.accepts(bundle, now) {
            Some(bundle)
        } else {
            self.staged()
        }
    }

    /// Offers a bundle at the current time: the bundle is staged exactly
    /// where it is accepted at the time that the clock tells. The current
    /// bundle stays.
    pub fn update_bundle(&mut self, bundle: SignedPolicyBundle)
        ensures
            final(self).current() == old(self).current(),
            final(self).signer_key() == old(self).signer_key(),
            exists|now: u64|
                crate::clock::clock_secs(now) && final(self).staged()
                    == #[trigger] old(self).staged_after(bundle@, now),
    {
        let now = crate::clock::now_epoch_secs();
        let _ = self.update_bundle_at(bundle, now);
        assert(crate::clock::clock_secs(now) && self.staged() == old(self).staged_after(
            bundle@,
            now,
        ));
    }

    /// Makes the staged bundle the current one. With no staged bundle
    /// nothing changes.
    pub fn activate_next(&mut self)
        ensures
            final(self).signer_key() == old(self).signer_key(),
            final(self).staged() is None,
            final(self).current() == if old(self).staged() is Some {
                old(self).staged()
            } else {
                old(self).current()
            },
    {
        let next = self.next_bundle.take();
        match next {
            Some(bundle) => {
                self.current_bundle = Some(bundle);
            },
            None => {},
        }
    }

    /// What a lookup for a tenant, a policy identifier and a path gives
    /// with the present bundles: the lookup reads the current bundle, and
    /// with no current bundle every lookup gives the default.
    pub open spec fn policy_of(&self, tenant_id: Seq<char>, policy_id: Seq<char>, path: Seq<char>) -> PolicyView {
        match self.current() {
            Some(b) => looked_up(b.policies, tenant_id, policy_id, path),
            None => PolicyView::conservative(tenant_id, policy_id, path, DEFAULT_REQUIRED_ALGS@),
        }
    }

    /// Looks up the policy of a tenant, a policy identifier and a path:
    /// the first policy of the current bundle that is stored for all three,
    /// or the conservative default for them. The staged bundle is never
    /// read.
    pub fn get_policy(&self, tenant_id: &str, policy_id: &str, path: &str) -> (policy: Policy)
        ensures
            policy@ == self.policy_of(tenant_id@, policy_id@, path@),
            policy@.stored_for(tenant_id@, policy_id@, path@),
            self.current() matches Some(b) ==> forall|i: int|
                0 <= i < b.policies.len() && (#[trigger] b.policies[i]).stored_for(
                    tenant_id@,
                    policy_id@,
                    path@,
                ) && (forall|j: int|
                    0 <= j < i ==> !(#[trigger] b.policies[j]).stored_for(
                        tenant_id@,
                        policy_id@,
                        path@,
                    )) ==> policy@ == b.policies[i],
            (self.current() matches Some(b) ==> forall|i: int|
                0 <= i < b.policies.len() ==> !(#[trigger] b.policies[i]).stored_for(
                    tenant_id@,
                    policy_id@,
                    path@,
                )) ==> policy@ == PolicyView::conservative(
                tenant_id@,
                policy_id@,
                path@,
                DEFAULT_REQUIRED_ALGS@,
            ),
    {
        proof {
            match self.current() {
                Some(b) => {
                    lemma_lookup_takes_the_first(b.policies, tenant_id@, policy_id@, path@);
                },
                None => {},
            }
        }
        match &self.current_bundle {
            Some(bundle) => {
                let ghost all = policy_views(bundle.policies@);
                let mut i: usize = 0;
                assert(all.take(0) =~= Seq::<PolicyView>::empty());
                while i < bundle.policies.len()
                    invariant
                        i <= bundle.policies@.len(),
                        all == policy_views(bundle.policies@),
                        self.current() == Some(bundle@),
                        first_policy_index(all.take(i as int), tenant_id@, policy_id@, path@)
                            is None,
                    decreases bundle.policies@.len() - i,
                {
                    let p = &bundle.policies[i];
                    proof {
                        assert(all.take(i + 1).drop_last() =~= all.take(i as int));
                        assert(all.take(i + 1).last() == p@);
                    }
                    if str_eq(p.tenant_id.as_str(), tenant_id) && str_eq(
                        p.policy_id.as_str(),
                        policy_id,
                    ) && str_eq(p.path.as_str(), path) {
                        proof {
                            assert(all.take(i + 1).len() - 1 == i);
                            assert(first_policy_index(
                                all.take(i + 1),
                                tenant_id@,
                                policy_id@,
                                path@,
                            ) == Some(i as int));
                            lemma_first_policy_extends(all, i + 1, tenant_id@, policy_id@, path@);
                            assert(all[i as int] == p@);
                            assert(bundle@.policies == all);
                            lemma_lookup_takes_the_first(all, tenant_id@, policy_id@, path@);
                        }
                        return p.duplicate();
                    }
                    i += 1;
                }
                assert(all.take(i as int) =~= all);
                assert(bundle@.policies == all);
                Policy::conservative(
                    tenant_id.to_owned(),
                    policy_id.to_owned(),
                    path,
                    DEFAULT_REQUIRED_ALGS,
                )
            },
            None => Policy::conservative(
                tenant_id.to_owned(),
                policy_id.to_owned(),
                path,
                DEFAULT_REQUIRED_ALGS,
            ),
        }
    }
}

/// The first match among the first `n` policies is the first match among
/// all of them.
proof fn lemma_first_policy_extends(
    policies: Seq<PolicyView>,
    n: int,
    tenant_id: Seq<char>,
    policy_id: Seq<char>,
    path: Seq<char>,
)
    requires
        0 <= n <= policies.len(),
        first_policy_index(policies.take(n), tenant_id, policy_id, path) is Some,
    ensures
        first_policy_index(policies, tenant_id, policy_id, path) == first_policy_index(
            policies.take(n),
            tenant_id,
            policy_id,
            path,
        ),
    decreases policies.len() - n,
{
    if n < policies.len() {
        assert(policies.take(n + 1).drop_last() =~= policies.take(n));
        lemma_first_policy_extends(policies, n + 1, tenant_id, policy_id, path);
    } else {
        assert(policies.take(n) =~= policies);
    }
}

} // verus!
