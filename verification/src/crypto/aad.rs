//! The additional authenticated data: the canonical binding blob over the
//! header fields of an envelope.

use vstd::prelude::*;
use crate::bytes::to_vec;
use crate::cbor::{
    bool_item, bytes_item, map_head, text_item, uint_item, write_bool, write_bytes,
    write_map_head, write_text, write_uint,
};
use crate::crypto::hash::{sha256, sha256_digest};
use crate::envelope::opt_view;
use crate::error::BentengError;

verus! {

/// What an envelope binds its payload to.
#[derive(Debug, Clone)]
pub struct Aad {
    pub ver: u8,
    pub tenant_id: Vec<u8>,
    pub policy_id: Vec<u8>,
    pub path: String,
    pub ts_epoch_ms: u64,
    pub required_algs: String,
    pub hybrid: bool,
    pub device_attest_hash: Option<Vec<u8>>,
}

/// The model of an `Aad`.
pub struct AadView {
    pub ver: u8,
    pub tenant_id: Seq<u8>,
    pub policy_id: Seq<u8>,
    pub path: Seq<char>,
    pub ts_epoch_ms: u64,
    pub required_algs: Seq<char>,
    pub hybrid: bool,
    pub device_attest_hash: Option<Seq<u8>>,
}

impl View for Aad {
    type V = AadView;

    open spec fn view(&self) -> AadView {
        AadView {
            ver: self.ver,
            tenant_id: self.tenant_id@,
            policy_id: self.policy_id@,
            path: self.path@,
            ts_epoch_ms: self.ts_epoch_ms,
            required_algs: self.required_algs@,
            hybrid: self.hybrid,
            device_attest_hash: opt_view(self.device_attest_hash),
        }
    }
}

impl AadView {
    /// The canonical encoding: a map from the field names to the fields, in
    /// the order given here, the attestation hash last and only where there
    /// is one.
    pub open spec fn encoding(self) -> Seq<u8> {
        map_head(if self.device_attest_hash is Some { 8 } else { 7 }) + text_item("ver"@)
            + uint_item(self.ver as u64) + text_item("tenant_id"@) + bytes_item(self.tenant_id)
            + text_item("policy_id"@) + bytes_item(self.policy_id) + text_item("path"@) + text_item(
            self.path,
        ) + text_item("ts_epoch_ms"@) + uint_item(self.ts_epoch_ms) + text_item("required_algs"@)
            + text_item(self.required_algs) + text_item("hybrid"@) + bool_item(self.hybrid)
            + match self.device_attest_hash {
            Some(h) => text_item("device_attest_hash"@) + bytes_item(h),
            None => Seq::empty(),
        }
    }

    /// The SHA-256 digest of the canonical encoding.
    pub open spec fn digest(self) -> Seq<u8> {
        sha256(self.encoding())
    }
}

impl Aad {
    /// Builds the associated data from the header fields.
    pub fn build(
        ver: u8,
        tenant_id: &[u8],
        policy_id: &[u8],
        path: &str,
        ts_epoch_ms: u64,
        required_algs: &str,
        hybrid: bool,
        device_attest_hash: Option<Vec<u8>>,
    ) -> (aad: Aad)
        ensures
            aad@ == (AadView {
                ver,
                tenant_id: tenant_id@,
                policy_id: policy_id@,
                path: path@,
                ts_epoch_ms,
                required_algs: required_algs@,
                hybrid,
                device_attest_hash: opt_view(device_attest_hash),
            }),
    {
        Aad {
            ver,
            tenant_id: to_vec(tenant_id),
            policy_id: to_vec(policy_id),
            path: path.to_owned(),
            ts_epoch_ms,
            required_algs: required_algs.to_owned(),
            hybrid,
            device_attest_hash,
        }
    }

    /// The canonical encoding of the associated data. Identical fields give
    /// identical bytes.
    pub fn to_cbor(&self) -> (res: Result<Vec<u8>, BentengError>)
        ensures
            res matches Ok(bytes) && bytes@ == self@.encoding(),
    {
        let mut out: Vec<u8> = Vec::new();
        write_map_head(&mut out, if self.device_attest_hash.is_some() { 8 } else { 7 });
        write_text(&mut out, "ver");
        write_uint(&mut out, self.ver as u64);
        write_text(&mut out, "tenant_id");
        write_bytes(&mut out, self.tenant_id.as_slice());
        write_text(&mut out, "policy_id");
        write_bytes(&mut out, self.policy_id.as_slice());
        write_text(&mut out, "path");
        write_text(&mut out, self.path.as_str());
        write_text(&mut out, "ts_epoch_ms");
        write_uint(&mut out, self.ts_epoch_ms);
        write_text(&mut out, "required_algs");
        write_text(&mut out, self.required_algs.as_str());
        write_text(&mut out, "hybrid");
        write_bool(&mut out, self.hybrid);
        match &self.device_attest_hash {
            Some(h) => {
                write_text(&mut out, "device_attest_hash");
                write_bytes(&mut out, h.as_slice());
            },
            None => {},
        }
        assert(out@ =~= self@.encoding());
        Ok(out)
    }

    /// The SHA-256 digest of the canonical encoding, as it enters the
    /// signature message.
    pub fn hash(&self) -> (res: Result<[u8; 32], BentengError>)
        ensures
            res matches Ok(digest) && digest@ == self@.digest(),
    {
        let bytes = self.to_cbor()?;
        Ok(sha256_digest(bytes.as_slice()))
    }
}

} // verus!
