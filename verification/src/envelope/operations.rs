//! Sealing, verifying and opening envelopes.
//!
//! In hybrid mode the server's key-encapsulation keys carry its X25519 key
//! after the ML-KEM-768 key: the public key is the 1184-byte lattice key
//! followed by the 32-byte curve point, the secret key the 2400-byte lattice
//! key followed by the 32-byte scalar.

use vstd::prelude::*;
use crate::bytes::{append, str_eq, to_vec, utf8};
use crate::crypto::aad::{Aad, AadView};
use crate::crypto::aead::{
    aead_decrypt, aead_encrypt, aead_input_fits, aead_opened, aead_sealed, AeadAlgorithm,
    AEAD_TAG_LEN,
};
use crate::crypto::hash::{sha256, sha256_digest};
use crate::crypto::kdf::{derive_envelope_dek, envelope_dek};
use crate::crypto::kem::{
    array32, kyber768_decapsulate, kyber768_decapsulated, kyber768_encapsulate, kyber768_keypair,
    kyber768_pair, x25519_basepoint, x25519_keypair, x25519_shared, x25519_shared_secret,
    KYBER768_CIPHERTEXT_LEN, KYBER768_PUBLIC_KEY_LEN, KYBER768_SECRET_KEY_LEN,
};
use crate::crypto::secret::{scrub_key, Secret};
use crate::crypto::sig::{
    dilithium3_pair, dilithium3_sign, dilithium3_signed, dilithium3_verify, signature_accepted,
    DILITHIUM3_PUBLIC_KEY_LEN, DILITHIUM3_SECRET_KEY_LEN, DILITHIUM3_SIGNATURE_LEN,
};
use crate::envelope::{
    binding_valid, check_binding, copy_opt, AadExtensions, AadExtensionsView, AlgorithmSet,
    AlgorithmSetView, Envelope, EnvelopeView, AEAD_AES_256_GCM, AEAD_CHACHA20_POLY1305,
    DEFAULT_REQUIRED_ALGS, ENVELOPE_VERSION, KEM_ML_KEM_768, NONCE_LEN, SIG_ML_DSA_65,
};
use crate::error::BentengError;

verus! {

/// Length of the server's public key in hybrid mode.
pub const HYBRID_PUBLIC_KEY_LEN: usize = 1216;

/// Length of the server's secret key in hybrid mode.
pub const HYBRID_SECRET_KEY_LEN: usize = 2432;

/// Whether the server's public key and secret key belong together: the
/// lattice keys were generated together, and in hybrid mode the curve point
/// behind the lattice public key is the public key of the scalar behind
/// the lattice secret key.
pub open spec fn server_keys_pair(public_key: Seq<u8>, secret_key: Seq<u8>, hybrid: bool) -> bool {
    if hybrid {
        &&& public_key.len() == HYBRID_PUBLIC_KEY_LEN
        &&& secret_key.len() == HYBRID_SECRET_KEY_LEN
        &&& kyber768_pair(
            public_key.subrange(0, KYBER768_PUBLIC_KEY_LEN as int),
            secret_key.subrange(0, KYBER768_SECRET_KEY_LEN as int),
        )
        &&& public_key.subrange(KYBER768_PUBLIC_KEY_LEN as int, HYBRID_PUBLIC_KEY_LEN as int)
            == x25519_shared(
            secret_key.subrange(KYBER768_SECRET_KEY_LEN as int, HYBRID_SECRET_KEY_LEN as int),
            x25519_basepoint(),
        )
    } else {
        &&& public_key.len() == KYBER768_PUBLIC_KEY_LEN
        &&& secret_key.len() == KYBER768_SECRET_KEY_LEN
        &&& kyber768_pair(public_key, secret_key)
    }
}

impl EnvelopeView {
    /// That every secret key that belongs to the server's public key opens
    /// the envelope to `payload`.
    pub open spec fn opens_for(self, payload: Seq<u8>, server_pk: Seq<u8>) -> bool {
        forall|server_sk: Seq<u8>| #[trigger]
            server_keys_pair(server_pk, server_sk, self.algs.hybrid) ==> self.opened(server_sk)
                == Some(payload)
    }

    /// The associated data of the envelope. It is made of the version, the
    /// tenant, the policy, the path, the timestamp, the required algorithms,
    /// the hybrid flag and the attestation hash, and of nothing else.
    pub open spec fn aad(self) -> AadView {
        AadView {
            ver: self.ver,
            tenant_id: self.tenant_id,
            policy_id: self.policy_id,
            path: self.path,
            ts_epoch_ms: self.ts_epoch_ms,
            required_algs: self.aad_ext.required_algs,
            hybrid: self.algs.hybrid,
            device_attest_hash: self.aad_ext.device_attest_hash,
        }
    }

    /// The message that is signed: the encoding of the envelope with its
    /// signature field cleared, the nonce, the ciphertext, and the digest of
    /// the associated data.
    pub open spec fn signature_message(self) -> Seq<u8> {
        self.with_sig(Seq::empty()).encoding() + self.nonce + self.ct + self.aad().digest()
    }

    /// Whether `public_key` accepts the envelope's signature.
    pub open spec fn verified_by(self, public_key: Seq<u8>) -> bool {
        signature_accepted(public_key, self.signature_message(), self.sig)
    }

    /// The AEAD algorithm that the envelope names, where it is a known one.
    pub open spec fn aead(self) -> Option<AeadAlgorithm> {
        if self.algs.aead == AEAD_AES_256_GCM@ {
            Some(AeadAlgorithm::Aes256Gcm)
        } else if self.algs.aead == AEAD_CHACHA20_POLY1305@ {
            Some(AeadAlgorithm::ChaCha20Poly1305)
        } else {
            None
        }
    }

    /// The data-encryption key that the shared secrets give for this
    /// envelope.
    pub open spec fn dek(self, ss_ecc: Option<Seq<u8>>, ss_pqc: Seq<u8>) -> Seq<u8> {
        envelope_dek(ss_ecc, ss_pqc, self.tenant_id, self.policy_id, utf8(self.path))
    }

    /// What the envelope opens to under a data-encryption key.
    pub open spec fn opened_under(self, dek: Seq<u8>) -> Option<Seq<u8>> {
        if self.nonce.len() == NONCE_LEN && dek.len() == 32 && self.aead() is Some {
            aead_opened(self.aead()->0, dek, self.nonce, self.ct, self.aad().encoding())
        } else {
            None
        }
    }

    /// What the envelope opens to with the given shared secrets.
    pub open spec fn opened_with(self, ss_ecc: Option<Seq<u8>>, ss_pqc: Seq<u8>) -> Option<Seq<u8>> {
        self.opened_under(self.dek(ss_ecc, ss_pqc))
    }

    /// The shared secrets that the server's secret key recovers from the
    /// envelope: the elliptic-curve secret in hybrid mode, and the lattice
    /// secret. Nothing where a key or the ciphertext has the wrong length.
    pub open spec fn shared_secrets(self, server_sk: Seq<u8>) -> Option<(Option<Seq<u8>>, Seq<u8>)> {
        if self.kem_ct.len() != KYBER768_CIPHERTEXT_LEN {
            None
        } else if self.algs.hybrid {
            match self.kem_pub_ephem {
                Some(point) => if server_sk.len() == HYBRID_SECRET_KEY_LEN && point.len() == 32 {
                    Some(
                        (
                            Some(
                                x25519_shared(
                                    server_sk.subrange(
                                        KYBER768_SECRET_KEY_LEN as int,
                                        HYBRID_SECRET_KEY_LEN as int,
                                    ),
                                    point,
                                ),
                            ),
                            kyber768_decapsulated(
                                server_sk.subrange(0, KYBER768_SECRET_KEY_LEN as int),
                                self.kem_ct,
                            ),
                        ),
                    )
                } else {
                    None
                },
                None => None,
            }
        } else if server_sk.len() == KYBER768_SECRET_KEY_LEN {
            Some((None, kyber768_decapsulated(server_sk, self.kem_ct)))
        } else {
            None
        }
    }

    /// What the server's secret key opens the envelope to.
    pub open spec fn opened(self, server_sk: Seq<u8>) -> Option<Seq<u8>> {
        match self.shared_secrets(server_sk) {
            Some((ss_ecc, ss_pqc)) => self.opened_with(ss_ecc, ss_pqc),
            None => None,
        }
    }

    /// The header of a sealed envelope: every field but ciphertext and
    /// signature.
    pub open spec fn header(
        tenant_id: Seq<u8>,
        policy_id: Seq<u8>,
        path: Seq<char>,
        ts_epoch_ms: u64,
        nonce: Seq<u8>,
        kem_ct: Seq<u8>,
        kem_pub_ephem: Option<Seq<u8>>,
    ) -> EnvelopeView {
        EnvelopeView {
            ver: ENVELOPE_VERSION,
            algs: AlgorithmSetView {
                kem: KEM_ML_KEM_768@,
                sig: SIG_ML_DSA_65@,
                aead: AEAD_AES_256_GCM@,
                hybrid: kem_pub_ephem is Some,
            },
            tenant_id,
            policy_id,
            path,
            ts_epoch_ms,
            nonce,
            aad_ext: AadExtensionsView {
                device_attest_hash: None,
                required_algs: DEFAULT_REQUIRED_ALGS@,
            },
            kem_pub_ephem,
            kem_ct,
            sig: Seq::empty(),
            ct: Seq::empty(),
        }
    }

    /// The header with the payload sealed in: the ciphertext is the payload
    /// under `dek`, with the header's nonce and associated data.
    pub open spec fn with_payload(self, payload: Seq<u8>, dek: Seq<u8>) -> EnvelopeView {
        EnvelopeView {
            ct: aead_sealed(
                AeadAlgorithm::Aes256Gcm,
                dek,
                self.nonce,
                payload,
                self.aad().encoding(),
            ),
            ..self
        }
    }

    /// The envelope signed with `secret_key`, over its signature message.
    pub open spec fn signed_with(self, secret_key: Seq<u8>) -> EnvelopeView {
        self.with_sig(dilithium3_signed(secret_key, self.signature_message()))
    }

    /// That the envelope verifies under every public key that was generated
    /// together with `secret_key`.
    pub open spec fn verifies_for(self, secret_key: Seq<u8>) -> bool {
        forall|public_key: Seq<u8>|
            #[trigger] dilithium3_pair(public_key, secret_key) && public_key.len()
                == DILITHIUM3_PUBLIC_KEY_LEN ==> self.verified_by(public_key)
    }

    /// What sealing `payload` gives from its parts: the nonce, the
    /// timestamp, the KEM ciphertext, the shared secrets and, in hybrid
    /// mode, the ephemeral public key. Malformed identifiers, path or
    /// signing key give `InternalError`; a payload over the cipher's limit
    /// gives `AeadFailure`; all else gives the header with the payload
    /// sealed under the derived key, signed.
    pub open spec fn sealing(
        payload: Seq<u8>,
        tenant_id: Seq<u8>,
        policy_id: Seq<u8>,
        path: Seq<char>,
        client_sig_sk: Seq<u8>,
        nonce: Seq<u8>,
        ts_epoch_ms: u64,
        kem_ct: Seq<u8>,
        ss_pqc: Seq<u8>,
        kem_pub_ephem: Option<Seq<u8>>,
        ss_ecc: Option<Seq<u8>>,
    ) -> Result<EnvelopeView, BentengError> {
        let header = Self::header(tenant_id, policy_id, path, ts_epoch_ms, nonce, kem_ct, kem_pub_ephem);
        if !binding_valid(tenant_id, policy_id, path) || client_sig_sk.len()
            != DILITHIUM3_SECRET_KEY_LEN {
            Err(BentengError::InternalError)
        } else if !aead_input_fits(
            AeadAlgorithm::Aes256Gcm,
            payload.len(),
            header.aad().encoding().len(),
        ) {
            Err(BentengError::AeadFailure)
        } else {
            Ok(header.with_payload(payload, header.dek(ss_ecc, ss_pqc)).signed_with(client_sig_sk))
        }
    }
}

/// The outcome of a sealing, the envelope taken by its view.
pub open spec fn sealing_view(res: Result<Envelope, BentengError>) -> Result<EnvelopeView, BentengError> {
    match res {
        Ok(env) => Ok(env@),
        Err(e) => Err(e),
    }
}

/// The signature message does not depend on the signature field: the
/// signature is made when every other field is final.
pub proof fn lemma_signature_message_ignores_sig(v: EnvelopeView, sig: Seq<u8>)
    ensures
        v.with_sig(sig).signature_message() == v.signature_message(),
{
    assert(v.with_sig(sig).with_sig(Seq::empty()) == v.with_sig(Seq::empty()));
    assert(v.with_sig(sig).aad() == v.aad());
}

/// The signature message binds every field: envelopes with the same
/// signature message are the same in every field but the signature. A
/// change of any field that is signed over changes what is signed.
pub proof fn lemma_signature_message_binds(a: EnvelopeView, b: EnvelopeView)
    requires
        a.encodable(),
        b.encodable(),
        a.signature_message() == b.signature_message(),
    ensures
        a.with_sig(Seq::empty()) == b.with_sig(Seq::empty()),
{
    let ca = a.with_sig(Seq::empty());
    let cb = b.with_sig(Seq::empty());
    let ra = a.nonce + a.ct + a.aad().digest();
    let rb = b.nonce + b.ct + b.aad().digest();
    assert(a.signature_message() =~= ca.encoding() + ra);
    assert(b.signature_message() =~= cb.encoding() + rb);
    crate::envelope::codec::lemma_encoding_prefix_free(ca, ra, cb, rb);
}

/// The associated data is a function of the bound fields alone: envelopes
/// that agree on them have the same associated data, whatever their nonce,
/// key material, signature and ciphertext.
pub proof fn lemma_aad_of_bound_fields(a: EnvelopeView, b: EnvelopeView)
    requires
        a.ver == b.ver,
        a.tenant_id == b.tenant_id,
        a.policy_id == b.policy_id,
        a.path == b.path,
        a.ts_epoch_ms == b.ts_epoch_ms,
        a.aad_ext == b.aad_ext,
        a.algs.hybrid == b.algs.hybrid,
    ensures
        a.aad() == b.aad(),
        a.aad().encoding() == b.aad().encoding(),
{
}

/// Whether a public key accepts every signature that a secret key makes.
pub open spec fn signing_keys_agree(public_key: Seq<u8>, secret_key: Seq<u8>) -> bool {
    forall|message: Seq<u8>| #[trigger]
        signature_accepted(public_key, message, dilithium3_signed(secret_key, message))
}

/// An envelope that was signed with a secret key verifies under the public
/// key that agrees with it.
pub proof fn lemma_signed_envelope_verifies(v: EnvelopeView, public_key: Seq<u8>, secret_key: Seq<u8>)
    requires
        signing_keys_agree(public_key, secret_key),
    ensures
        v.signed_with(secret_key).verified_by(public_key),
{
    let sig = dilithium3_signed(secret_key, v.signature_message());
    lemma_signature_message_ignores_sig(v, sig);
    assert(signature_accepted(public_key, v.signature_message(), sig));
}

/// Opening inverts sealing: an envelope that opens to a payload with the
/// shared secrets it was sealed with opens to that payload with every
/// server key that recovers those secrets from it.
pub proof fn lemma_open_inverts_seal(
    v: EnvelopeView,
    payload: Seq<u8>,
    ss_ecc: Option<Seq<u8>>,
    ss_pqc: Seq<u8>,
    server_sk: Seq<u8>,
)
    requires
        v.opened_with(ss_ecc, ss_pqc) == Some(payload),
        v.shared_secrets(server_sk) == Some((ss_ecc, ss_pqc)),
    ensures
        v.opened(server_sk) == Some(payload),
{
}

/// A sealed envelope opens: what sealing makes for the server's public key
/// opens to the payload with every secret key that belongs to that key.
pub proof fn lemma_sealed_envelope_opens(
    v: EnvelopeView,
    payload: Seq<u8>,
    server_pk: Seq<u8>,
    server_sk: Seq<u8>,
)
    requires
        v.opens_for(payload, server_pk),
        server_keys_pair(server_pk, server_sk, v.algs.hybrid),
    ensures
        v.opened(server_sk) == Some(payload),
{
}

/// A sealed envelope verifies: what sealing signs with a secret key is
/// accepted under every public key that was generated with it.
pub proof fn lemma_sealed_envelope_verifies(v: EnvelopeView, public_key: Seq<u8>, secret_key: Seq<u8>)
    requires
        v.verifies_for(secret_key),
        dilithium3_pair(public_key, secret_key),
        public_key.len() == DILITHIUM3_PUBLIC_KEY_LEN,
    ensures
        v.verified_by(public_key),
{
}

/// The elliptic-curve part of a hybrid sealing: the ephemeral public key
/// that goes into the envelope, and the shared secret.
pub struct EcdhShare {
    pub ephemeral_public: Vec<u8>,
    pub shared: Secret,
}

/// The model of an optional `EcdhShare`: the ephemeral public key.
pub open spec fn share_public(share: Option<EcdhShare>) -> Option<Seq<u8>> {
    match share {
        Some(s) => Some(s.ephemeral_public@),
        None => None,
    }
}

/// The model of an optional `EcdhShare`: the shared secret.
pub open spec fn share_secret(share: Option<EcdhShare>) -> Option<Seq<u8>> {
    match share {
        Some(s) => Some(s.shared@),
        None => None,
    }
}

/// Envelope operations.
pub struct EnvelopeOps;

impl EnvelopeOps {
    /// The associated data of an envelope, rebuilt from its fields.
    pub fn build_aad(envelope: &Envelope) -> (aad: Aad)
        ensures
            aad@ == envelope@.aad(),
    {
        Aad::build(
            envelope.ver,
            envelope.tenant_id.as_slice(),
            envelope.policy_id.as_slice(),
            envelope.path.as_str(),
            envelope.ts_epoch_ms,
            envelope.aad_ext.required_algs.as_str(),
            envelope.algs.hybrid,
            copy_opt(&envelope.aad_ext.device_attest_hash),
        )
    }

    /// The message to sign or to verify: the encoding of the envelope with
    /// its signature cleared, the nonce, the ciphertext, and the SHA-256
    /// digest of the encoded associated data.
    pub fn build_signature_message(envelope: &Envelope, aad_bytes: &[u8]) -> (res: Result<Vec<u8>, BentengError>)
        ensures
            res matches Ok(msg) && msg@ == envelope@.with_sig(Seq::empty()).encoding()
                + envelope@.nonce + envelope@.ct + sha256(aad_bytes@),
    {
        let mut cleared = envelope.duplicate();
        cleared.sig = Vec::new();
        assert(cleared@ == envelope@.with_sig(Seq::empty())) by {
            assert(cleared.sig@ =~= Seq::<u8>::empty());
        }
        let mut msg = cleared.to_cbor()?;
        append(&mut msg, envelope.nonce.as_slice());
        append(&mut msg, envelope.ct.as_slice());
        let digest = sha256_digest(aad_bytes);
        append(&mut msg, digest.as_slice());
        Ok(msg)
    }

    /// The AEAD algorithm that the envelope names.
    fn aead_of(envelope: &Envelope) -> (alg: Option<AeadAlgorithm>)
        ensures
            alg == envelope@.aead(),
    {
        if str_eq(envelope.algs.aead.as_str(), AEAD_AES_256_GCM) {
            Some(AeadAlgorithm::Aes256Gcm)
        } else if str_eq(envelope.algs.aead.as_str(), AEAD_CHACHA20_POLY1305) {
            Some(AeadAlgorithm::ChaCha20Poly1305)
        } else {
            None
        }
    }

    /// Generates the server's key-encapsulation keys: an ML-KEM-768 key
    /// pair and, in hybrid mode, an X25519 key pair behind it. The two keys
    /// belong together. Fails with `EntropyUnavailable` only where the
    /// random source fails.
    pub fn server_keypair(hybrid: bool) -> (res: Result<(Vec<u8>, Secret), BentengError>)
        ensures
            res matches Ok(keys) ==> server_keys_pair(keys.0@, keys.1@, hybrid),
            !hybrid ==> res is Ok,
            res matches Err(e) ==> e == BentengError::EntropyUnavailable,
    {
        let (lattice_pk, lattice_sk) = match kyber768_keypair() {
            Ok(keys) => keys,
            Err(_) => {
                proof {
                    assert(false);
                }
                return Err(BentengError::EntropyUnavailable);
            },
        };
        if !hybrid {
            return Ok((lattice_pk, lattice_sk));
        }
        let curve = x25519_keypair()?;
        let mut public_key = to_vec(lattice_pk.as_slice());
        append(&mut public_key, curve.public.as_slice());
        let mut secret_key = lattice_sk.to_vec();
        append(&mut secret_key, curve.secret.as_slice());
        let secret = Secret::from_slice(secret_key.as_slice());
        crate::crypto::secret::scrub(&mut secret_key);
        proof {
            assert(public_key@.subrange(0, KYBER768_PUBLIC_KEY_LEN as int) =~= lattice_pk@);
            assert(secret@.subrange(0, KYBER768_SECRET_KEY_LEN as int) =~= lattice_sk@);
            assert(public_key@.subrange(
                KYBER768_PUBLIC_KEY_LEN as int,
                HYBRID_PUBLIC_KEY_LEN as int,
            ) =~= curve.public@);
            assert(secret@.subrange(KYBER768_SECRET_KEY_LEN as int, HYBRID_SECRET_KEY_LEN as int)
                =~= curve.secret@);
        }
        Ok((public_key, secret))
    }

    /// Seals `payload` into an envelope from given parts: the nonce, the
    /// timestamp, the KEM ciphertext with the lattice secret it carries, and
    /// in hybrid mode the elliptic-curve share. The envelope is the header,
    /// the payload encrypted with AES-256-GCM under the derived key, and the
    /// signature over all of it. It opens to `payload` again with the same
    /// shared secrets, and verifies under every public key that belongs to
    /// the signing key.
    ///
    /// Fails with `InternalError` where the identifiers, the path or the
    /// signing key are malformed, and else with `AeadFailure` where the
    /// payload is over the cipher's limit.
    pub fn seal_with(
        payload: &[u8],
        tenant_id: &[u8],
        policy_id: &[u8],
        path: &str,
        client_sig_sk: &[u8],
        nonce: &[u8; 12],
        ts_epoch_ms: u64,
        kem_ct: Vec<u8>,
        ss_pqc: &Secret,
        ecdh: Option<EcdhShare>,
    ) -> (res: Result<Envelope, BentengError>)
        ensures
            ({
                let header = EnvelopeView::header(
                    tenant_id@,
                    policy_id@,
                    path@,
                    ts_epoch_ms,
                    nonce@,
                    kem_ct@,
                    share_public(ecdh),
                );
                let dek = header.dek(share_secret(ecdh), ss_pqc@);
                let well_formed = binding_valid(tenant_id@, policy_id@, path@)
                    && client_sig_sk@.len() == DILITHIUM3_SECRET_KEY_LEN;
                let fits = aead_input_fits(
                    AeadAlgorithm::Aes256Gcm,
                    payload@.len(),
                    header.aad().encoding().len(),
                );
                &&& sealing_view(res) == EnvelopeView::sealing(
                    payload@,
                    tenant_id@,
                    policy_id@,
                    path@,
                    client_sig_sk@,
                    nonce@,
                    ts_epoch_ms,
                    kem_ct@,
                    ss_pqc@,
                    share_public(ecdh),
                    share_secret(ecdh),
                )
                &&& res is Ok <==> well_formed && fits
                &&& res matches Ok(env) ==> {
                    &&& env@ == header.with_payload(payload@, dek).signed_with(client_sig_sk@)
                    &&& env@.valid()
                    &&& env@.ct.len() == payload@.len() + AEAD_TAG_LEN
                    &&& env@.sig.len() == DILITHIUM3_SIGNATURE_LEN
                    &&& env@.opened_with(share_secret(ecdh), ss_pqc@) == Some(payload@)
                    &&& env@.verifies_for(client_sig_sk@)
                }
                &&& res matches Err(e) ==> e == if well_formed {
                    BentengError::AeadFailure
                } else {
                    BentengError::InternalError
                }
            }),
    {
        if !check_binding(tenant_id, policy_id, path) || client_sig_sk.len()
            != DILITHIUM3_SECRET_KEY_LEN {
            return Err(BentengError::InternalError);
        }
        let (kem_pub_ephem, hybrid, dek) = match &ecdh {
            Some(share) => (
                Some(to_vec(share.ephemeral_public.as_slice())),
                true,
                derive_envelope_dek(
                    Some(share.shared.as_slice()),
                    ss_pqc.as_slice(),
                    tenant_id,
                    policy_id,
                    path,
                ),
            ),
            None => (
                None,
                false,
                derive_envelope_dek(None, ss_pqc.as_slice(), tenant_id, policy_id, path),
            ),
        };
        let dek = match dek {
            Ok(dek) => dek,
            Err(_) => {
                return Err(BentengError::InternalError);
            },
        };
        let mut envelope = Envelope {
            ver: ENVELOPE_VERSION,
            algs: AlgorithmSet {
                kem: KEM_ML_KEM_768.to_owned(),
                sig: SIG_ML_DSA_65.to_owned(),
                aead: AEAD_AES_256_GCM.to_owned(),
                hybrid,
            },
            tenant_id: to_vec(tenant_id),
            policy_id: to_vec(policy_id),
            path: path.to_owned(),
            ts_epoch_ms,
            nonce: to_vec(nonce.as_slice()),
            aad_ext: AadExtensions {
                device_attest_hash: None,
                required_algs: DEFAULT_REQUIRED_ALGS.to_owned(),
            },
            kem_pub_ephem,
            kem_ct,
            sig: Vec::new(),
            ct: Vec::new(),
        };
        let ghost header = EnvelopeView::header(
            tenant_id@,
            policy_id@,
            path@,
            ts_epoch_ms,
            nonce@,
            kem_ct@,
            share_public(ecdh),
        );
        assert(envelope@ == header) by {
            assert(envelope.sig@ =~= Seq::<u8>::empty());
            assert(envelope.ct@ =~= Seq::<u8>::empty());
        }
        let aad = Self::build_aad(&envelope);
        let aad_bytes = match aad.to_cbor() {
            Ok(bytes) => bytes,
            Err(_) => {
                return Err(BentengError::InternalError);
            },
        };
        let mut key = array32(dek.as_slice());
        let sealed = aead_encrypt(
            AeadAlgorithm::Aes256Gcm,
            &key,
            nonce,
            payload,
            aad_bytes.as_slice(),
        );
        scrub_key(&mut key);
        envelope.ct = match sealed {
            Ok(ct) => ct,
            Err(_) => {
                return Err(BentengError::AeadFailure);
            },
        };
        let ghost unsigned = header.with_payload(payload@, dek@);
        assert(envelope@ == unsigned);
        assert(unsigned.aad() == header.aad());
        let msg = match Self::build_signature_message(&envelope, aad_bytes.as_slice()) {
            Ok(msg) => msg,
            Err(_) => {
                return Err(BentengError::InternalError);
            },
        };
        assert(msg@ == unsigned.signature_message()) by {
            assert(unsigned.with_sig(Seq::empty()) == unsigned);
        }
        envelope.sig = match dilithium3_sign(client_sig_sk, msg.as_slice()) {
            Ok(sig) => sig,
            Err(_) => {
                return Err(BentengError::InternalError);
            },
        };
        assert(envelope@ == unsigned.signed_with(client_sig_sk@));
        assert(envelope@.aad() == header.aad());
        proof {
            lemma_signature_message_ignores_sig(unsigned, envelope@.sig);
            assert(envelope@.signature_message() == msg@);
        }
        Ok(envelope)
    }

    /// Seals and signs a payload for a tenant, a policy and a path: a fresh
    /// nonce, the current time, a fresh encapsulation to the server's key,
    /// in hybrid mode also a fresh elliptic-curve share, then `seal_with`.
    ///
    /// Malformed identifiers, path or keys are refused with `InternalError`
    /// before anything is drawn. Otherwise the outcome depends on the random
    /// source and the clock: either the random source fails, with
    /// `EntropyUnavailable`, or the outcome is the sealing from some nonce,
    /// some clock time and some fresh secrets, so that `AeadFailure` comes
    /// exactly where the payload is over the cipher's limit. An envelope
    /// that comes back is valid, carries the given header, is signed with
    /// the given key, verifies under every public key that belongs to it,
    /// and opens to the payload with the secrets it was sealed with, which
    /// every secret key that belongs to the server's public key recovers.
    pub fn encrypt_and_sign(
        payload: &[u8],
        tenant_id: &[u8],
        policy_id: &[u8],
        path: &str,
        server_kem_pk: &[u8],
        client_sig_sk: &[u8],
        hybrid: bool,
    ) -> (res: Result<Envelope, BentengError>)
        ensures
            ({
                let well_formed = binding_valid(tenant_id@, policy_id@, path@)
                    && client_sig_sk@.len() == DILITHIUM3_SECRET_KEY_LEN && server_kem_pk@.len()
                    == if hybrid {
                    HYBRID_PUBLIC_KEY_LEN
                } else {
                    KYBER768_PUBLIC_KEY_LEN
                };
                &&& !well_formed ==> res == Err::<Envelope, BentengError>(
                    BentengError::InternalError,
                )
                &&& res matches Ok(env) ==> {
                    &&& env@.valid()
                    &&& env@.tenant_id == tenant_id@
                    &&& env@.policy_id == policy_id@
                    &&& env@.path == path@
                    &&& env@.algs.hybrid == hybrid
                    &&& env@.aad_ext.device_attest_hash is None
                    &&& env@.kem_ct.len() == KYBER768_CIPHERTEXT_LEN
                    &&& env@.ct.len() == payload@.len() + AEAD_TAG_LEN
                    &&& env@.sig.len() == DILITHIUM3_SIGNATURE_LEN
                    &&& env@ == env@.with_sig(Seq::empty()).signed_with(client_sig_sk@)
                    &&& env@.verifies_for(client_sig_sk@)
                    &&& env@.opens_for(payload@, server_kem_pk@)
                    &&& exists|ss_ecc: Option<Seq<u8>>, ss_pqc: Seq<u8>| #[trigger]
                        env@.opened_with(ss_ecc, ss_pqc) == Some(payload@)
                }
                &&& res matches Err(e) ==> e == BentengError::InternalError || e
                    == BentengError::AeadFailure || e == BentengError::EntropyUnavailable
                &&& well_formed ==> res == Err::<Envelope, BentengError>(
                    BentengError::EntropyUnavailable,
                ) || exists|
                    nonce: Seq<u8>,
                    ts: u64,
                    kem_ct: Seq<u8>,
                    ss_pqc: Seq<u8>,
                    kem_pub_ephem: Option<Seq<u8>>,
                    ss_ecc: Option<Seq<u8>>,
                |
                    {
                        &&& nonce.len() == NONCE_LEN
                        &&& crate::clock::clock_ms(ts)
                        &&& kem_ct.len() == KYBER768_CIPHERTEXT_LEN
                        &&& kem_pub_ephem is Some <==> hybrid
                        &&& sealing_view(res) == #[trigger] EnvelopeView::sealing(
                            payload@,
                            tenant_id@,
                            policy_id@,
                            path@,
                            client_sig_sk@,
                            nonce,
                            ts,
                            kem_ct,
                            ss_pqc,
                            kem_pub_ephem,
                            ss_ecc,
                        )
                    }
            }),
    {
        let expected_pk_len = if hybrid {
            HYBRID_PUBLIC_KEY_LEN
        } else {
            KYBER768_PUBLIC_KEY_LEN
        };
        if !check_binding(tenant_id, policy_id, path) || client_sig_sk.len()
            != DILITHIUM3_SECRET_KEY_LEN || server_kem_pk.len() != expected_pk_len {
            return Err(BentengError::InternalError);
        }
        let nonce = crate::crypto::generate_nonce()?;
        let ts_epoch_ms = crate::clock::now_epoch_ms();
        let (kem_ct, ss_pqc) = kyber768_encapsulate(&server_kem_pk[0..KYBER768_PUBLIC_KEY_LEN])?;
        let ecdh = if hybrid {
            let server_point = array32(&server_kem_pk[KYBER768_PUBLIC_KEY_LEN..HYBRID_PUBLIC_KEY_LEN]);
            let ephemeral = x25519_keypair()?;
            let mut scalar = array32(ephemeral.secret.as_slice());
            let shared = x25519_shared_secret(&scalar, &server_point);
            scrub_key(&mut scalar);
            match shared {
                Ok(shared) => Some(
                    EcdhShare { ephemeral_public: to_vec(ephemeral.public.as_slice()), shared },
                ),
                Err(_) => {
                    // The exchange itself does not fail.
                    assert(false);
                    return Err(BentengError::InternalError);
                },
            }
        } else {
            None
        };
        let ghost ss_ecc = share_secret(ecdh);
        let ghost ephem = share_public(ecdh);
        let ghost kem_ct_view = kem_ct@;
        let res = Self::seal_with(
            payload,
            tenant_id,
            policy_id,
            path,
            client_sig_sk,
            &nonce,
            ts_epoch_ms,
            kem_ct,
            &ss_pqc,
            ecdh,
        );
        proof {
            if res is Ok {
                let sealed = res->Ok_0@;
                let sig = sealed.sig;
                let unsigned = sealed.with_sig(Seq::empty());
                lemma_signature_message_ignores_sig(unsigned, sig);
                assert(sealed.opened_with(ss_ecc, ss_pqc@) == Some(payload@));
                assert forall|server_sk: Seq<u8>| #[trigger]
                    server_keys_pair(server_kem_pk@, server_sk, hybrid) implies sealed.opened(
                    server_sk,
                ) == Some(payload@) by {
                    if hybrid {
                        let scalar = server_sk.subrange(
                            KYBER768_SECRET_KEY_LEN as int,
                            HYBRID_SECRET_KEY_LEN as int,
                        );
                        assert(server_kem_pk@.subrange(
                            KYBER768_PUBLIC_KEY_LEN as int,
                            HYBRID_PUBLIC_KEY_LEN as int,
                        ) == x25519_shared(scalar, x25519_basepoint()));
                        assert(sealed.shared_secrets(server_sk) == Some((ss_ecc, ss_pqc@)));
                    } else {
                        assert(server_kem_pk@.subrange(0, KYBER768_PUBLIC_KEY_LEN as int)
                            =~= server_kem_pk@);
                        assert(sealed.shared_secrets(server_sk) == Some((ss_ecc, ss_pqc@)));
                    }
                }
            }
            assert(sealing_view(res) == EnvelopeView::sealing(
                payload@,
                tenant_id@,
                policy_id@,
                path@,
                client_sig_sk@,
                nonce@,
                ts_epoch_ms,
                kem_ct_view,
                ss_pqc@,
                ephem,
                ss_ecc,
            ));
        }
        res
    }

    /// Verifies the signature of an envelope: the associated data is rebuilt
    /// from the envelope's own fields, the signature message is recomputed
    /// with the signature field cleared, and the signature is checked under
    /// `client_sig_pk`. Anything but an accepted signature is
    /// `InvalidSignature`.
    pub fn verify(envelope: &Envelope, client_sig_pk: &[u8]) -> (res: Result<(), BentengError>)
        ensures
            res is Ok <==> envelope@.verified_by(client_sig_pk@),
            res matches Err(e) ==> e == BentengError::InvalidSignature,
    {
        let aad = Self::build_aad(envelope);
        let aad_bytes = match aad.to_cbor() {
            Ok(bytes) => bytes,
            Err(_) => {
                return Err(BentengError::InvalidSignature);
            },
        };
        let msg = match Self::build_signature_message(envelope, aad_bytes.as_slice()) {
            Ok(msg) => msg,
            Err(_) => {
                return Err(BentengError::InvalidSignature);
            },
        };
        match dilithium3_verify(client_sig_pk, msg.as_slice(), envelope.sig.as_slice()) {
            Ok(true) => Ok(()),
            _ => Err(BentengError::InvalidSignature),
        }
    }

    /// Opens an envelope under a data-encryption key: the associated data
    /// is rebuilt from the envelope's fields and the ciphertext is decrypted
    /// with the algorithm the envelope names. Any failure is `AeadFailure`.
    pub fn open_with_dek(envelope: &Envelope, dek: &[u8]) -> (res: Result<Secret, BentengError>)
        ensures
            match envelope@.opened_under(dek@) {
                Some(payload) => res matches Ok(pt) && pt@ == payload,
                None => res matches Err(e) && e == BentengError::AeadFailure,
            },
    {
        let alg = match Self::aead_of(envelope) {
            Some(alg) => alg,
            None => {
                return Err(BentengError::AeadFailure);
            },
        };
        if envelope.nonce.len() != NONCE_LEN || dek.len() != 32 {
            return Err(BentengError::AeadFailure);
        }
        let aad = Self::build_aad(envelope);
        let aad_bytes = match aad.to_cbor() {
            Ok(bytes) => bytes,
            Err(_) => {
                return Err(BentengError::AeadFailure);
            },
        };
        let nonce = nonce12(envelope.nonce.as_slice());
        let mut key = array32(dek);
        let res = aead_decrypt(alg, &key, &nonce, envelope.ct.as_slice(), aad_bytes.as_slice());
        scrub_key(&mut key);
        res
    }

    /// Opens an envelope with the server's secret key, without the key
    /// gate: decapsulates, in hybrid mode also derives the elliptic-curve
    /// secret from the ephemeral key, derives the data-encryption key as
    /// sealing did, and decrypts. Any failure is `AeadFailure`.
    pub fn decrypt(envelope: &Envelope, server_kem_sk: &[u8]) -> (res: Result<Secret, BentengError>)
        ensures
            match envelope@.opened(server_kem_sk@) {
                Some(payload) => res matches Ok(pt) && pt@ == payload,
                None => res matches Err(e) && e == BentengError::AeadFailure,
            },
    {
        if envelope.kem_ct.len() != KYBER768_CIPHERTEXT_LEN {
            return Err(BentengError::AeadFailure);
        }
        let dek = if envelope.algs.hybrid {
            let point = match &envelope.kem_pub_ephem {
                Some(point) => point,
                None => {
                    return Err(BentengError::AeadFailure);
                },
            };
            if server_kem_sk.len() != HYBRID_SECRET_KEY_LEN || point.len() != 32 {
                return Err(BentengError::AeadFailure);
            }
            let ss_pqc = match kyber768_decapsulate(
                &server_kem_sk[0..KYBER768_SECRET_KEY_LEN],
                envelope.kem_ct.as_slice(),
            ) {
                Ok(ss) => ss,
                Err(_) => {
                    return Err(BentengError::AeadFailure);
                },
            };
            let mut scalar = array32(&server_kem_sk[KYBER768_SECRET_KEY_LEN..HYBRID_SECRET_KEY_LEN]);
            let theirs = array32(point.as_slice());
            let ss_ecc = x25519_shared_secret(&scalar, &theirs);
            scrub_key(&mut scalar);
            let ss_ecc = match ss_ecc {
                Ok(ss) => ss,
                Err(_) => {
                    return Err(BentengError::AeadFailure);
                },
            };
            derive_envelope_dek(
                Some(ss_ecc.as_slice()),
                ss_pqc.as_slice(),
                envelope.tenant_id.as_slice(),
                envelope.policy_id.as_slice(),
                envelope.path.as_str(),
            )
        } else {
            let ss_pqc = match kyber768_decapsulate(server_kem_sk, envelope.kem_ct.as_slice()) {
                Ok(ss) => ss,
                Err(_) => {
                    return Err(BentengError::AeadFailure);
                },
            };
            derive_envelope_dek(
                None,
                ss_pqc.as_slice(),
                envelope.tenant_id.as_slice(),
                envelope.policy_id.as_slice(),
                envelope.path.as_str(),
            )
        };
        match dek {
            Ok(dek) => Self::open_with_dek(envelope, dek.as_slice()),
            Err(_) => Err(BentengError::AeadFailure),
        }
    }
}

/// Copies 12 bytes into an array.
pub fn nonce12(bytes: &[u8]) -> (out: [u8; 12])
    requires
        bytes@.len() == 12,
    ensures
        out@ == bytes@,
{
    let mut out = [0u8; 12];
    let mut i: usize = 0;
    while i < 12
        invariant
            i <= 12,
            bytes@.len() == 12,
            forall|j: int| 0 <= j < i ==> out@[j] == bytes@[j],
        decreases 12 - i,
    {
        out[i] = bytes[i];
        i += 1;
    }
    assert(out@ =~= bytes@);
    out
}

} // verus!
