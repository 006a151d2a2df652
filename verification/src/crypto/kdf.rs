//! HKDF-SHA256 and the data-encryption-key derivations built on it.

use vstd::prelude::*;
use crate::bytes::{append, str_bytes, utf8};
use crate::crypto::secret::Secret;
use crate::error::BentengError;

verus! {

/// The longest output that HKDF-SHA256 can expand to: 255 blocks of 32 bytes.
pub const HKDF_MAX_OUTPUT: usize = 8160;

/// HKDF-SHA256 extract-and-expand of `len` bytes.
pub uninterp spec fn hkdf_sha256(ikm: Seq<u8>, salt: Option<Seq<u8>>, info: Seq<u8>, len: nat) -> Seq<u8>;

/// The byte string behind an optional slice.
pub open spec fn opt_slice_view(salt: Option<&[u8]>) -> Option<Seq<u8>> {
    match salt {
        Some(s) => Some(s@),
        None => None,
    }
}

/// Domain separation for the hybrid input key material.
pub open spec fn domain_hybrid() -> Seq<u8> {
    utf8("benteng/hybrid/v1"@)
}

/// Domain separation for the envelope's data-encryption key.
pub open spec fn domain_aead() -> Seq<u8> {
    utf8("benteng/aead/v1"@)
}

/// Domain separation for the half-key of HSM-A.
pub open spec fn domain_hsm_a() -> Seq<u8> {
    utf8("benteng/hsm-a/k1/v1"@)
}

/// Domain separation for the half-key of HSM-B.
pub open spec fn domain_hsm_b() -> Seq<u8> {
    utf8("benteng/hsm-b/k2/v1"@)
}

/// Domain separation for the dual-control data-encryption key.
pub open spec fn domain_dek() -> Seq<u8> {
    utf8("benteng/dek/v1"@)
}

/// Domain separation for request identifiers.
pub open spec fn domain_request_id() -> Seq<u8> {
    utf8("benteng/request-id/v1"@)
}

pub const BENTENG_HYBRID_V1: &'static str = "benteng/hybrid/v1";

pub const BENTENG_AEAD_V1: &'static str = "benteng/aead/v1";

pub const BENTENG_HSM_A_K1_V1: &'static str = "benteng/hsm-a/k1/v1";

pub const BENTENG_HSM_B_K2_V1: &'static str = "benteng/hsm-b/k2/v1";

pub const BENTENG_DEK_V1: &'static str = "benteng/dek/v1";

pub const BENTENG_REQUEST_ID_V1: &'static str = "benteng/request-id/v1";

/// `hkdf::Hkdf::<Sha256>::new` followed by `expand`: extract with `salt`, then
/// expand `info` to `output_len` bytes. The crate refuses only lengths above
/// 255 blocks, which `requires` leaves out.
#[verifier::external_body]
fn hkdf_extract_expand(
    ikm: &[u8],
    salt: Option<&[u8]>,
    info: &[u8],
    output_len: usize,
) -> (okm: Option<Vec<u8>>)
    requires
        output_len <= HKDF_MAX_OUTPUT,
    ensures
        okm is Some,
        okm matches Some(k) ==> k@ == hkdf_sha256(
            ikm@,
            opt_slice_view(salt),
            info@,
            output_len as nat,
        ),
        okm matches Some(k) ==> k@.len() == output_len,
{
    let mut okm = vec![0u8; output_len];
    let hk = hkdf::Hkdf::<sha2::Sha256>::new(salt, ikm);
    match hk.expand(info, okm.as_mut_slice()) {
        Ok(()) => Some(okm),
        Err(_) => None,
    }
}

/// HKDF-SHA256 extract-and-expand in one call. Fails with `InternalError`
/// exactly where more than `HKDF_MAX_OUTPUT` bytes are asked for.
pub fn hkdf_sha256_derive(
    ikm: &[u8],
    salt: Option<&[u8]>,
    info: &[u8],
    output_len: usize,
) -> (res: Result<Secret, BentengError>)
    ensures
        res is Ok <==> output_len <= HKDF_MAX_OUTPUT,
        res matches Ok(okm) ==> okm@ == hkdf_sha256(
            ikm@,
            opt_slice_view(salt),
            info@,
            output_len as nat,
        ) && okm@.len() == output_len,
        res matches Err(e) ==> e == BentengError::InternalError,
{
    if output_len > HKDF_MAX_OUTPUT {
        return Err(BentengError::InternalError);
    }
    match hkdf_extract_expand(ikm, salt, info, output_len) {
        Some(okm) => Ok(Secret::new(okm)),
        None => Err(BentengError::InternalError),
    }
}

/// The input key material of an envelope's key derivation: the domain string,
/// the elliptic-curve secret and the lattice secret in hybrid mode, the
/// lattice secret alone otherwise.
pub open spec fn envelope_ikm(ss_ecc: Option<Seq<u8>>, ss_pqc: Seq<u8>) -> Seq<u8> {
    match ss_ecc {
        Some(ecc) => domain_hybrid() + ecc + ss_pqc,
        None => ss_pqc,
    }
}

/// The data-encryption key of an envelope.
pub open spec fn envelope_dek(
    ss_ecc: Option<Seq<u8>>,
    ss_pqc: Seq<u8>,
    tenant_id: Seq<u8>,
    policy_id: Seq<u8>,
    path: Seq<u8>,
) -> Seq<u8> {
    hkdf_sha256(
        envelope_ikm(ss_ecc, ss_pqc),
        Some(tenant_id + policy_id),
        domain_aead() + tenant_id + policy_id + path,
        32,
    )
}

/// Derives the 32-byte data-encryption key of an envelope from the shared
/// secrets, salted with the identifiers and bound to the request path.
pub fn derive_envelope_dek(
    ss_ecc: Option<&[u8]>,
    ss_pqc: &[u8],
    tenant_id: &[u8],
    policy_id: &[u8],
    path: &str,
) -> (res: Result<Secret, BentengError>)
    ensures
        res matches Ok(dek) && dek@ == envelope_dek(
            opt_slice_view(ss_ecc),
            ss_pqc@,
            tenant_id@,
            policy_id@,
            utf8(path@),
        ) && dek@.len() == 32,
{
    let mut ikm: Vec<u8> = Vec::new();
    match ss_ecc {
        Some(ecc) => {
            append(&mut ikm, str_bytes(BENTENG_HYBRID_V1));
            append(&mut ikm, ecc);
        },
        None => {},
    }
    append(&mut ikm, ss_pqc);
    assert(ikm@ =~= envelope_ikm(opt_slice_view(ss_ecc), ss_pqc@));

    let mut salt: Vec<u8> = Vec::new();
    append(&mut salt, tenant_id);
    append(&mut salt, policy_id);

    let mut info: Vec<u8> = Vec::new();
    append(&mut info, str_bytes(BENTENG_AEAD_V1));
    append(&mut info, tenant_id);
    append(&mut info, policy_id);
    append(&mut info, str_bytes(path));

    let res = hkdf_sha256_derive(ikm.as_slice(), Some(salt.as_slice()), info.as_slice(), 32);
    crate::crypto::secret::scrub(&mut ikm);
    res
}

/// Derives the data-encryption key for hybrid mode, from the elliptic-curve
/// secret and the lattice secret.
pub fn derive_hybrid_dek(
    ss_ecc: &[u8],
    ss_pqc: &[u8],
    tenant_id: &[u8],
    policy_id: &[u8],
    path: &str,
) -> (res: Result<Secret, BentengError>)
    ensures
        res matches Ok(dek) && dek@ == envelope_dek(
            Some(ss_ecc@),
            ss_pqc@,
            tenant_id@,
            policy_id@,
            utf8(path@),
        ) && dek@.len() == 32,
{
    derive_envelope_dek(Some(ss_ecc), ss_pqc, tenant_id, policy_id, path)
}

} // verus!
