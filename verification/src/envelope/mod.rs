//! The request envelope: its twelve tagged fields and their model.

pub mod codec;
pub mod kms_decrypt;
pub mod operations;

use vstd::prelude::*;
use crate::bytes::{str_bytes, str_eq, to_vec, utf8};

verus! {

/// The envelope version that this library writes.
pub const ENVELOPE_VERSION: u8 = 1;

/// Length of an envelope nonce.
pub const NONCE_LEN: usize = 12;

/// Length of a device attestation hash.
pub const ATTEST_HASH_LEN: usize = 32;

/// Longest tenant or policy identifier.
pub const MAX_ID_LEN: usize = 64;

/// Longest request path, in bytes.
pub const MAX_PATH_LEN: usize = 1024;

/// The byte that a request path starts with.
pub const SLASH: u8 = 0x2f;

pub const KEM_ML_KEM_768: &'static str = "ML-KEM-768";

pub const SIG_ML_DSA_65: &'static str = "ML-DSA-65";

pub const AEAD_AES_256_GCM: &'static str = "AES-256-GCM";

pub const AEAD_CHACHA20_POLY1305: &'static str = "ChaCha20-Poly1305";

pub const DEFAULT_REQUIRED_ALGS: &'static str = "kyber+dilithium";

/// The algorithms an envelope was made with.
#[derive(Debug, Clone, PartialEq, Eq)]
pub struct AlgorithmSet {
    pub kem: String,
    pub sig: String,
    pub aead: String,
    pub hybrid: bool,
}

/// The model of an `AlgorithmSet`.
pub struct AlgorithmSetView {
    pub kem: Seq<char>,
    pub sig: Seq<char>,
    pub aead: Seq<char>,
    pub hybrid: bool,
}

impl View for AlgorithmSet {
    type V = AlgorithmSetView;

    open spec fn view(&self) -> AlgorithmSetView {
        AlgorithmSetView { kem: self.kem@, sig: self.sig@, aead: self.aead@, hybrid: self.hybrid }
    }
}

impl Default for AlgorithmSet {
    fn default() -> (algs: AlgorithmSet)
        ensures
            algs@ == (AlgorithmSetView {
                kem: KEM_ML_KEM_768@,
                sig: SIG_ML_DSA_65@,
                aead: AEAD_AES_256_GCM@,
                hybrid: true,
            }),
    {
        AlgorithmSet {
            kem: KEM_ML_KEM_768.to_owned(),
            sig: SIG_ML_DSA_65.to_owned(),
            aead: AEAD_AES_256_GCM.to_owned(),
            hybrid: true,
        }
    }
}

/// The extensions that enter the associated data.
#[derive(Debug, Clone)]
pub struct AadExtensions {
    pub device_attest_hash: Option<Vec<u8>>,
    pub required_algs: String,
}

/// The model of `AadExtensions`.
pub struct AadExtensionsView {
    pub device_attest_hash: Option<Seq<u8>>,
    pub required_algs: Seq<char>,
}

/// The byte string behind an optional vector.
pub open spec fn opt_view(v: Option<Vec<u8>>) -> Option<Seq<u8>> {
    match v {
        Some(bytes) => Some(bytes@),
        None => None,
    }
}

impl View for AadExtensions {
    type V = AadExtensionsView;

    open spec fn view(&self) -> AadExtensionsView {
        AadExtensionsView {
            device_attest_hash: opt_view(self.device_attest_hash),
            required_algs: self.required_algs@,
        }
    }
}

/// The self-describing container of one request.
#[derive(Debug, Clone)]
pub struct Envelope {
    pub ver: u8,
    pub algs: AlgorithmSet,
    pub tenant_id: Vec<u8>,
    pub policy_id: Vec<u8>,
    pub path: String,
    pub ts_epoch_ms: u64,
    pub nonce: Vec<u8>,
    pub aad_ext: AadExtensions,
    pub kem_pub_ephem: Option<Vec<u8>>,
    pub kem_ct: Vec<u8>,
    pub sig: Vec<u8>,
    pub ct: Vec<u8>,
}

/// The model of an `Envelope`: its fields as mathematical values, in tag
/// order.
pub struct EnvelopeView {
    pub ver: u8,
    pub algs: AlgorithmSetView,
    pub tenant_id: Seq<u8>,
    pub policy_id: Seq<u8>,
    pub path: Seq<char>,
    pub ts_epoch_ms: u64,
    pub nonce: Seq<u8>,
    pub aad_ext: AadExtensionsView,
    pub kem_pub_ephem: Option<Seq<u8>>,
    pub kem_ct: Seq<u8>,
    pub sig: Seq<u8>,
    pub ct: Seq<u8>,
}

impl View for Envelope {
    type V = EnvelopeView;

    open spec fn view(&self) -> EnvelopeView {
        EnvelopeView {
            ver: self.ver,
            algs: self.algs@,
            tenant_id: self.tenant_id@,
            policy_id: self.policy_id@,
            path: self.path@,
            ts_epoch_ms: self.ts_epoch_ms,
            nonce: self.nonce@,
            aad_ext: self.aad_ext@,
            kem_pub_ephem: opt_view(self.kem_pub_ephem),
            kem_ct: self.kem_ct@,
            sig: self.sig@,
            ct: self.ct@,
        }
    }
}

impl EnvelopeView {
    /// The envelope with its signature field replaced.
    pub open spec fn with_sig(self, sig: Seq<u8>) -> EnvelopeView {
        EnvelopeView { sig, ..self }
    }

    /// The blank envelope of a tenant, a policy and a path at a time: the
    /// default algorithms, a zero nonce, and nothing sealed yet.
    pub open spec fn blank(
        tenant_id: Seq<u8>,
        policy_id: Seq<u8>,
        path: Seq<char>,
        ts_epoch_ms: u64,
    ) -> EnvelopeView {
        EnvelopeView {
            ver: ENVELOPE_VERSION,
            algs: AlgorithmSetView {
                kem: KEM_ML_KEM_768@,
                sig: SIG_ML_DSA_65@,
                aead: AEAD_AES_256_GCM@,
                hybrid: true,
            },
            tenant_id,
            policy_id,
            path,
            ts_epoch_ms,
            nonce: Seq::new(NONCE_LEN as nat, |i: int| 0u8),
            aad_ext: AadExtensionsView {
                device_attest_hash: None,
                required_algs: DEFAULT_REQUIRED_ALGS@,
            },
            kem_pub_ephem: None,
            kem_ct: Seq::empty(),
            sig: Seq::empty(),
            ct: Seq::empty(),
        }
    }

    /// Whether the fields meet the constraints of version 1: the version,
    /// the known algorithm names, identifiers of 1 to 64 bytes, a path of at
    /// most 1024 bytes that starts with a slash, a 12-byte nonce, a 32-byte
    /// attestation hash where there is one, and an ephemeral key exactly in
    /// hybrid mode.
    pub open spec fn valid(self) -> bool {
        &&& self.ver == ENVELOPE_VERSION
        &&& self.algs.kem == KEM_ML_KEM_768@
        &&& self.algs.sig == SIG_ML_DSA_65@
        &&& (self.algs.aead == AEAD_AES_256_GCM@ || self.algs.aead == AEAD_CHACHA20_POLY1305@)
        &&& 1 <= self.tenant_id.len() <= MAX_ID_LEN
        &&& 1 <= self.policy_id.len() <= MAX_ID_LEN
        &&& 1 <= utf8(self.path).len() <= MAX_PATH_LEN
        &&& utf8(self.path)[0] == SLASH
        &&& self.nonce.len() == NONCE_LEN
        &&& (self.aad_ext.device_attest_hash matches Some(h) ==> h.len() == ATTEST_HASH_LEN)
        &&& (self.kem_pub_ephem is Some <==> self.algs.hybrid)
    }
}

/// A copy of an optional byte vector.
pub fn copy_opt(v: &Option<Vec<u8>>) -> (out: Option<Vec<u8>>)
    ensures
        opt_view(out) == opt_view(*v),
{
    match v {
        Some(bytes) => Some(to_vec(bytes.as_slice())),
        None => None,
    }
}

impl AlgorithmSet {
    /// A copy with the same names and flag.
    pub fn duplicate(&self) -> (out: AlgorithmSet)
        ensures
            out@ == self@,
    {
        AlgorithmSet {
            kem: self.kem.clone(),
            sig: self.sig.clone(),
            aead: self.aead.clone(),
            hybrid: self.hybrid,
        }
    }
}

/// Whether a tenant identifier, a policy identifier and a path are of the
/// lengths an envelope admits, the path starting with a slash.
pub open spec fn binding_valid(tenant_id: Seq<u8>, policy_id: Seq<u8>, path: Seq<char>) -> bool {
    &&& 1 <= tenant_id.len() <= MAX_ID_LEN
    &&& 1 <= policy_id.len() <= MAX_ID_LEN
    &&& 1 <= utf8(path).len() <= MAX_PATH_LEN
    &&& utf8(path)[0] == SLASH
}

/// Checks the lengths of the identifiers and the shape of the path.
pub fn check_binding(tenant_id: &[u8], policy_id: &[u8], path: &str) -> (ok: bool)
    ensures
        ok == binding_valid(tenant_id@, policy_id@, path@),
{
    let p = str_bytes(path);
    1 <= tenant_id.len() && tenant_id.len() <= MAX_ID_LEN && 1 <= policy_id.len()
        && policy_id.len() <= MAX_ID_LEN && 1 <= p.len() && p.len() <= MAX_PATH_LEN && p[0]
        == SLASH
}

impl Envelope {
    /// Whether the envelope meets the constraints of version 1.
    pub fn check(&self) -> (ok: bool)
        ensures
            ok == self@.valid(),
    {
        let aead_known = str_eq(self.algs.aead.as_str(), AEAD_AES_256_GCM) || str_eq(
            self.algs.aead.as_str(),
            AEAD_CHACHA20_POLY1305,
        );
        let attest_ok = match &self.aad_ext.device_attest_hash {
            Some(h) => h.len() == ATTEST_HASH_LEN,
            None => true,
        };
        self.ver == ENVELOPE_VERSION && str_eq(self.algs.kem.as_str(), KEM_ML_KEM_768) && str_eq(
            self.algs.sig.as_str(),
            SIG_ML_DSA_65,
        ) && aead_known && check_binding(
            self.tenant_id.as_slice(),
            self.policy_id.as_slice(),
            self.path.as_str(),
        ) && self.nonce.len() == NONCE_LEN && attest_ok && (self.kem_pub_ephem.is_some()
            == self.algs.hybrid)
    }

    /// A blank envelope for a tenant, a policy and a path, stamped with
    /// `ts_epoch_ms`.
    pub fn new_at(tenant_id: Vec<u8>, policy_id: Vec<u8>, path: String, ts_epoch_ms: u64) -> (env: Envelope)
        ensures
            env@ == EnvelopeView::blank(tenant_id@, policy_id@, path@, ts_epoch_ms),
    {
        let mut nonce: Vec<u8> = Vec::new();
        nonce.resize(NONCE_LEN, 0u8);
        let env = Envelope {
            ver: ENVELOPE_VERSION,
            algs: AlgorithmSet::default(),
            tenant_id,
            policy_id,
            path,
            ts_epoch_ms,
            nonce,
            aad_ext: AadExtensions {
                device_attest_hash: None,
                required_algs: DEFAULT_REQUIRED_ALGS.to_owned(),
            },
            kem_pub_ephem: None,
            kem_ct: Vec::new(),
            sig: Vec::new(),
            ct: Vec::new(),
        };
        assert(env.nonce@ =~= Seq::new(NONCE_LEN as nat, |i: int| 0u8));
        assert(env.kem_ct@ =~= Seq::<u8>::empty());
        assert(env.sig@ =~= Seq::<u8>::empty());
        assert(env.ct@ =~= Seq::<u8>::empty());
        env
    }

    /// A blank envelope for a tenant, a policy and a path, stamped with the
    /// current time.
    pub fn new(tenant_id: Vec<u8>, policy_id: Vec<u8>, path: String) -> (env: Envelope)
        ensures
            env@ == EnvelopeView::blank(tenant_id@, policy_id@, path@, env.ts_epoch_ms),
            crate::clock::clock_ms(env.ts_epoch_ms),
    {
        let now = crate::clock::now_epoch_ms();
        Envelope::new_at(tenant_id, policy_id, path, now)
    }

    /// A copy with the same fields.
    pub fn duplicate(&self) -> (out: Envelope)
        ensures
            out@ == self@,
    {
        Envelope {
            ver: self.ver,
            algs: self.algs.duplicate(),
            tenant_id: to_vec(self.tenant_id.as_slice()),
            policy_id: to_vec(self.policy_id.as_slice()),
            path: self.path.clone(),
            ts_epoch_ms: self.ts_epoch_ms,
            nonce: to_vec(self.nonce.as_slice()),
            aad_ext: AadExtensions {
                device_attest_hash: copy_opt(&self.aad_ext.device_attest_hash),
                required_algs: self.aad_ext.required_algs.clone(),
            },
            kem_pub_ephem: copy_opt(&self.kem_pub_ephem),
            kem_ct: to_vec(self.kem_ct.as_slice()),
            sig: to_vec(self.sig.as_slice()),
            ct: to_vec(self.ct.as_slice()),
        }
    }
}

} // verus!
