//! The canonical encoding of the envelope: a map from the integer tags 1 to
//! 12 to the fields, in ascending tag order, with definite lengths and
//! shortest-form heads. Field 9 is left out where there is no ephemeral key.

use vstd::prelude::*;
use crate::bytes::{bytes_eq, utf8};
use crate::cbor::{
    bool_item, bytes_item, keyed, lemma_keyed_bool, lemma_keyed_bytes, lemma_keyed_map,
    lemma_keyed_text, lemma_keyed_uint, lemma_parse_head, map_head, parse_head, parse_keyed_bool,
    parse_keyed_bytes, parse_keyed_map, parse_keyed_text, parse_keyed_uint, read_head,
    read_keyed_bool, read_keyed_bytes, read_keyed_map, read_keyed_text, read_keyed_uint,
    text_item, text_key, uint_item, uint_key, write_bool, write_bytes, write_map_head,
    write_text, write_uint, MAJOR_MAP,
};
use crate::envelope::{
    opt_view, AadExtensions, AadExtensionsView, AlgorithmSet, AlgorithmSetView, Envelope,
    EnvelopeView,
};
use crate::error::BentengError;

verus! {

impl AlgorithmSetView {
    /// Whether the names can be encoded: each fits a 64-bit length.
    pub open spec fn encodable(self) -> bool {
        &&& utf8(self.kem).len() <= u64::MAX
        &&& utf8(self.sig).len() <= u64::MAX
        &&& utf8(self.aead).len() <= u64::MAX
    }

    /// Field 2: the map of the three algorithm names and the hybrid flag.
    pub open spec fn encoding(self) -> Seq<u8> {
        uint_item(2) + map_head(4) + text_item("kem"@) + text_item(self.kem) + text_item("sig"@)
            + text_item(self.sig) + text_item("aead"@) + text_item(self.aead) + text_item(
            "hybrid"@,
        ) + bool_item(self.hybrid)
    }
}

impl AadExtensionsView {
    /// Whether the extensions can be encoded.
    pub open spec fn encodable(self) -> bool {
        &&& utf8(self.required_algs).len() <= u64::MAX
        &&& (self.device_attest_hash matches Some(h) ==> h.len() <= u64::MAX)
    }

    /// Field 8: the map of the required algorithms and, where there is one,
    /// the device attestation hash.
    pub open spec fn encoding(self) -> Seq<u8> {
        uint_item(8) + map_head(if self.device_attest_hash is Some { 2 } else { 1 }) + text_item(
            "required_algs"@,
        ) + text_item(self.required_algs) + match self.device_attest_hash {
            Some(h) => text_item("device_attest_hash"@) + bytes_item(h),
            None => Seq::empty(),
        }
    }
}

impl EnvelopeView {
    /// Whether the envelope can be encoded: every length fits 64 bits.
    pub open spec fn encodable(self) -> bool {
        &&& self.algs.encodable()
        &&& self.aad_ext.encodable()
        &&& self.tenant_id.len() <= u64::MAX
        &&& self.policy_id.len() <= u64::MAX
        &&& utf8(self.path).len() <= u64::MAX
        &&& self.nonce.len() <= u64::MAX
        &&& (self.kem_pub_ephem matches Some(k) ==> k.len() <= u64::MAX)
        &&& self.kem_ct.len() <= u64::MAX
        &&& self.sig.len() <= u64::MAX
        &&& self.ct.len() <= u64::MAX
    }

    /// The map header and field 1.
    pub open spec fn encoding_start(self) -> Seq<u8> {
        map_head(if self.kem_pub_ephem is Some { 12 } else { 11 }) + uint_item(1) + uint_item(
            self.ver as u64,
        )
    }

    /// Fields 3 to 7: what binds the envelope to its request.
    pub open spec fn encoding_binding(self) -> Seq<u8> {
        uint_item(3) + bytes_item(self.tenant_id) + uint_item(4) + bytes_item(self.policy_id)
            + uint_item(5) + text_item(self.path) + uint_item(6) + uint_item(self.ts_epoch_ms)
            + uint_item(7) + bytes_item(self.nonce)
    }

    /// Fields 9 to 12: the key material, the signature and the ciphertext.
    pub open spec fn encoding_sealed(self) -> Seq<u8> {
        (match self.kem_pub_ephem {
            Some(k) => uint_item(9) + bytes_item(k),
            None => Seq::empty(),
        }) + uint_item(10) + bytes_item(self.kem_ct) + uint_item(11) + bytes_item(self.sig)
            + uint_item(12) + bytes_item(self.ct)
    }

    /// The canonical encoding of the envelope.
    pub open spec fn encoding(self) -> Seq<u8> {
        self.encoding_start() + self.algs.encoding() + self.encoding_binding()
            + self.aad_ext.encoding() + self.encoding_sealed()
    }
}

/// The envelope that `data` is the canonical encoding of, where it is one.
pub open spec fn decoded(data: Seq<u8>) -> Option<EnvelopeView> {
    if exists|v: EnvelopeView| v.encodable() && #[trigger] v.encoding() == data {
        Some(choose|v: EnvelopeView| v.encodable() && #[trigger] v.encoding() == data)
    } else {
        None
    }
}

// Reading back, group by group. The readers take any head that holds the
// value; `from_cbor` admits only what encodes to the input again.
spec fn parse_start(s: Seq<u8>) -> Option<(u64, u8, Seq<u8>)> {
    match parse_head(s) {
        Some((major, pairs, r0)) => if major == MAJOR_MAP {
            match parse_keyed_uint(r0, uint_item(1)) {
                Some((ver, r1)) => if ver <= u8::MAX {
                    Some((pairs, ver as u8, r1))
                } else {
                    None
                },
                None => None,
            }
        } else {
            None
        },
        None => None,
    }
}

spec fn parse_algs(s: Seq<u8>) -> Option<(AlgorithmSetView, Seq<u8>)> {
    match parse_keyed_map(s, uint_item(2)) {
        Some((pairs, r0)) => match parse_keyed_text(r0, text_item("kem"@)) {
            Some((kem, r1)) => match parse_keyed_text(r1, text_item("sig"@)) {
                Some((sig, r2)) => match parse_keyed_text(r2, text_item("aead"@)) {
                    Some((aead, r3)) => match parse_keyed_bool(r3, text_item("hybrid"@)) {
                        Some((hybrid, r4)) => Some((AlgorithmSetView { kem, sig, aead, hybrid }, r4)),
                        None => None,
                    },
                    None => None,
                },
                None => None,
            },
            None => None,
        },
        None => None,
    }
}

spec fn parse_binding(s: Seq<u8>) -> Option<(Seq<u8>, Seq<u8>, Seq<char>, u64, Seq<u8>, Seq<u8>)> {
    match parse_keyed_bytes(s, uint_item(3)) {
        Some((tenant_id, r1)) => match parse_keyed_bytes(r1, uint_item(4)) {
            Some((policy_id, r2)) => match parse_keyed_text(r2, uint_item(5)) {
                Some((path, r3)) => match parse_keyed_uint(r3, uint_item(6)) {
                    Some((ts, r4)) => match parse_keyed_bytes(r4, uint_item(7)) {
                        Some((nonce, r5)) => Some((tenant_id, policy_id, path, ts, nonce, r5)),
                        None => None,
                    },
                    None => None,
                },
                None => None,
            },
            None => None,
        },
        None => None,
    }
}

spec fn parse_aad_ext(s: Seq<u8>) -> Option<(AadExtensionsView, Seq<u8>)> {
    match parse_keyed_map(s, uint_item(8)) {
        Some((pairs, r0)) => match parse_keyed_text(r0, text_item("required_algs"@)) {
            Some((required_algs, r1)) => if pairs == 2 {
                match parse_keyed_bytes(r1, text_item("device_attest_hash"@)) {
                    Some((h, r2)) => Some(
                        (AadExtensionsView { device_attest_hash: Some(h), required_algs }, r2),
                    ),
                    None => None,
                }
            } else {
                Some((AadExtensionsView { device_attest_hash: None, required_algs }, r1))
            },
            None => None,
        },
        None => None,
    }
}

spec fn parse_ephem(s: Seq<u8>, pairs: u64) -> Option<(Option<Seq<u8>>, Seq<u8>)> {
    if pairs == 12 {
        match parse_keyed_bytes(s, uint_item(9)) {
            Some((k, r0)) => Some((Some(k), r0)),
            None => None,
        }
    } else {
        Some((None, s))
    }
}

spec fn parse_sealed(s: Seq<u8>, pairs: u64) -> Option<
    (Option<Seq<u8>>, Seq<u8>, Seq<u8>, Seq<u8>, Seq<u8>),
> {
    match parse_ephem(s, pairs) {
        Some((kem_pub_ephem, r1)) => match parse_keyed_bytes(r1, uint_item(10)) {
            Some((kem_ct, r2)) => match parse_keyed_bytes(r2, uint_item(11)) {
                Some((sig, r3)) => match parse_keyed_bytes(r3, uint_item(12)) {
                    Some((ct, r4)) => Some((kem_pub_ephem, kem_ct, sig, ct, r4)),
                    None => None,
                },
                None => None,
            },
            None => None,
        },
        None => None,
    }
}

spec fn parse_envelope_prefix(s: Seq<u8>) -> Option<(EnvelopeView, Seq<u8>)> {
    match parse_start(s) {
        Some((pairs, ver, r0)) => match parse_algs(r0) {
            Some((algs, r1)) => match parse_binding(r1) {
                Some((tenant_id, policy_id, path, ts_epoch_ms, nonce, r2)) => match parse_aad_ext(r2) {
                    Some((aad_ext, r3)) => match parse_sealed(r3, pairs) {
                        Some((kem_pub_ephem, kem_ct, sig, ct, r4)) => Some(
                            (
                                EnvelopeView {
                                    ver,
                                    algs,
                                    tenant_id,
                                    policy_id,
                                    path,
                                    ts_epoch_ms,
                                    nonce,
                                    aad_ext,
                                    kem_pub_ephem,
                                    kem_ct,
                                    sig,
                                    ct,
                                },
                                r4,
                            ),
                        ),
                        None => None,
                    },
                    None => None,
                },
                None => None,
            },
            None => None,
        },
        None => None,
    }
}

spec fn parse_envelope(s: Seq<u8>) -> Option<EnvelopeView> {
    match parse_envelope_prefix(s) {
        Some((v, rest)) => if rest.len() == 0 {
            Some(v)
        } else {
            None
        },
        None => None,
    }
}

proof fn lemma_parse_start(v: EnvelopeView, rest: Seq<u8>)
    ensures
        parse_start(v.encoding_start() + rest) == Some(
            (if v.kem_pub_ephem is Some { 12u64 } else { 11u64 }, v.ver, rest),
        ),
{
    let pairs: u64 = if v.kem_pub_ephem is Some { 12 } else { 11 };
    let after = keyed(uint_item(1), uint_item(v.ver as u64), rest);
    assert(v.encoding_start() + rest =~= map_head(pairs) + after);
    lemma_parse_head(MAJOR_MAP, pairs, after);
    lemma_keyed_uint(uint_item(1), v.ver as u64, rest);
}

proof fn lemma_parse_algs(a: AlgorithmSetView, rest: Seq<u8>)
    requires
        a.encodable(),
    ensures
        parse_algs(a.encoding() + rest) == Some((a, rest)),
{
    let r4 = rest;
    let r3 = keyed(text_item("hybrid"@), bool_item(a.hybrid), r4);
    let r2 = keyed(text_item("aead"@), text_item(a.aead), r3);
    let r1 = keyed(text_item("sig"@), text_item(a.sig), r2);
    let r0 = keyed(text_item("kem"@), text_item(a.kem), r1);
    assert(a.encoding() + rest =~= keyed(uint_item(2), map_head(4), r0));
    lemma_keyed_map(uint_item(2), 4, r0);
    lemma_keyed_text(text_item("kem"@), a.kem, r1);
    lemma_keyed_text(text_item("sig"@), a.sig, r2);
    lemma_keyed_text(text_item("aead"@), a.aead, r3);
    lemma_keyed_bool(text_item("hybrid"@), a.hybrid, r4);
}

proof fn lemma_parse_binding(v: EnvelopeView, rest: Seq<u8>)
    requires
        v.encodable(),
    ensures
        parse_binding(v.encoding_binding() + rest) == Some(
            (v.tenant_id, v.policy_id, v.path, v.ts_epoch_ms, v.nonce, rest),
        ),
{
    let r5 = rest;
    let r4 = keyed(uint_item(7), bytes_item(v.nonce), r5);
    let r3 = keyed(uint_item(6), uint_item(v.ts_epoch_ms), r4);
    let r2 = keyed(uint_item(5), text_item(v.path), r3);
    let r1 = keyed(uint_item(4), bytes_item(v.policy_id), r2);
    assert(v.encoding_binding() + rest =~= keyed(uint_item(3), bytes_item(v.tenant_id), r1));
    lemma_keyed_bytes(uint_item(3), v.tenant_id, r1);
    lemma_keyed_bytes(uint_item(4), v.policy_id, r2);
    lemma_keyed_text(uint_item(5), v.path, r3);
    lemma_keyed_uint(uint_item(6), v.ts_epoch_ms, r4);
    lemma_keyed_bytes(uint_item(7), v.nonce, r5);
}

proof fn lemma_parse_aad_ext(x: AadExtensionsView, rest: Seq<u8>)
    requires
        x.encodable(),
    ensures
        parse_aad_ext(x.encoding() + rest) == Some((x, rest)),
{
    let pairs: u64 = if x.device_attest_hash is Some { 2 } else { 1 };
    let r1 = match x.device_attest_hash {
        Some(h) => keyed(text_item("device_attest_hash"@), bytes_item(h), rest),
        None => rest,
    };
    let r0 = keyed(text_item("required_algs"@), text_item(x.required_algs), r1);
    assert(x.encoding() + rest =~= keyed(uint_item(8), map_head(pairs), r0));
    lemma_keyed_map(uint_item(8), pairs, r0);
    lemma_keyed_text(text_item("required_algs"@), x.required_algs, r1);
    match x.device_attest_hash {
        Some(h) => {
            lemma_keyed_bytes(text_item("device_attest_hash"@), h, rest);
        },
        None => {},
    }
}

proof fn lemma_parse_sealed(v: EnvelopeView, rest: Seq<u8>)
    requires
        v.encodable(),
    ensures
        parse_sealed(v.encoding_sealed() + rest, if v.kem_pub_ephem is Some { 12u64 } else { 11u64 })
            == Some((v.kem_pub_ephem, v.kem_ct, v.sig, v.ct, rest)),
{
    let r4 = rest;
    let r3 = keyed(uint_item(12), bytes_item(v.ct), r4);
    let r2 = keyed(uint_item(11), bytes_item(v.sig), r3);
    let r1 = keyed(uint_item(10), bytes_item(v.kem_ct), r2);
    let r0 = match v.kem_pub_ephem {
        Some(k) => keyed(uint_item(9), bytes_item(k), r1),
        None => r1,
    };
    assert(v.encoding_sealed() + rest =~= r0);
    match v.kem_pub_ephem {
        Some(k) => {
            lemma_keyed_bytes(uint_item(9), k, r1);
        },
        None => {},
    }
    lemma_keyed_bytes(uint_item(10), v.kem_ct, r2);
    lemma_keyed_bytes(uint_item(11), v.sig, r3);
    lemma_keyed_bytes(uint_item(12), v.ct, r4);
}

/// Reading an encoding back from the front of an input gives the
/// envelope that was encoded, and leaves what follows it.
proof fn lemma_parse_envelope_prefix(v: EnvelopeView, rest: Seq<u8>)
    requires
        v.encodable(),
    ensures
        parse_envelope_prefix(v.encoding() + rest) == Some((v, rest)),
{
    let r4 = rest;
    let r3 = v.encoding_sealed() + r4;
    let r2 = v.aad_ext.encoding() + r3;
    let r1 = v.encoding_binding() + r2;
    let r0 = v.algs.encoding() + r1;
    assert(v.encoding() + rest =~= v.encoding_start() + r0);
    lemma_parse_start(v, r0);
    lemma_parse_algs(v.algs, r1);
    lemma_parse_binding(v, r2);
    lemma_parse_aad_ext(v.aad_ext, r3);
    lemma_parse_sealed(v, r4);
}

/// Reading an encoding back gives the envelope that was encoded.
proof fn lemma_parse_envelope(v: EnvelopeView)
    requires
        v.encodable(),
    ensures
        parse_envelope(v.encoding()) == Some(v),
{
    lemma_parse_envelope_prefix(v, Seq::empty());
    assert(v.encoding() + Seq::<u8>::empty() =~= v.encoding());
}

/// No encoding is the beginning of another: where two encodings, each
/// followed by more bytes, give the same bytes, the envelopes are the same
/// and so is what follows them.
pub proof fn lemma_encoding_prefix_free(a: EnvelopeView, rest_a: Seq<u8>, b: EnvelopeView, rest_b: Seq<u8>)
    requires
        a.encodable(),
        b.encodable(),
        a.encoding() + rest_a == b.encoding() + rest_b,
    ensures
        a == b,
        rest_a == rest_b,
{
    lemma_parse_envelope_prefix(a, rest_a);
    lemma_parse_envelope_prefix(b, rest_b);
}

/// Decoding inverts encoding: the canonical encoding of an envelope
/// decodes to that envelope, field for field.
pub proof fn lemma_decode_inverts_encode(v: EnvelopeView)
    requires
        v.encodable(),
    ensures
        decoded(v.encoding()) == Some(v),
{
    let w = choose|w: EnvelopeView| w.encodable() && #[trigger] w.encoding() == v.encoding();
    lemma_parse_envelope(v);
    lemma_parse_envelope(w);
}

/// Two envelopes with the same encoding are the same envelope.
pub proof fn lemma_encoding_injective(a: EnvelopeView, b: EnvelopeView)
    requires
        a.encodable(),
        b.encodable(),
        a.encoding() == b.encoding(),
    ensures
        a == b,
{
    lemma_parse_envelope(a);
    lemma_parse_envelope(b);
}

/// The encoding is stable: what decodes to an envelope is that envelope's
/// encoding, so that encoding it again gives the same bytes.
pub proof fn lemma_encode_inverts_decode(data: Seq<u8>)
    requires
        decoded(data) is Some,
    ensures
        decoded(data)->0.encodable(),
        decoded(data)->0.encoding() == data,
{
}

fn write_algs(out: &mut Vec<u8>, algs: &AlgorithmSet)
    ensures
        final(out)@ == old(out)@ + algs@.encoding(),
        algs@.encodable(),
{
    write_uint(out, 2);
    write_map_head(out, 4);
    write_text(out, "kem");
    write_text(out, algs.kem.as_str());
    write_text(out, "sig");
    write_text(out, algs.sig.as_str());
    write_text(out, "aead");
    write_text(out, algs.aead.as_str());
    write_text(out, "hybrid");
    write_bool(out, algs.hybrid);
    assert(out@ =~= old(out)@ + algs@.encoding());
}

fn write_aad_ext(out: &mut Vec<u8>, ext: &AadExtensions)
    ensures
        final(out)@ == old(out)@ + ext@.encoding(),
        ext@.encodable(),
{
    write_uint(out, 8);
    write_map_head(out, if ext.device_attest_hash.is_some() { 2 } else { 1 });
    write_text(out, "required_algs");
    write_text(out, ext.required_algs.as_str());
    match &ext.device_attest_hash {
        Some(h) => {
            write_text(out, "device_attest_hash");
            write_bytes(out, h.as_slice());
        },
        None => {},
    }
    assert(out@ =~= old(out)@ + ext@.encoding());
}

fn write_binding(out: &mut Vec<u8>, env: &Envelope)
    ensures
        final(out)@ == old(out)@ + env@.encoding_binding(),
        env@.tenant_id.len() <= u64::MAX,
        env@.policy_id.len() <= u64::MAX,
        utf8(env@.path).len() <= u64::MAX,
        env@.nonce.len() <= u64::MAX,
{
    write_uint(out, 3);
    write_bytes(out, env.tenant_id.as_slice());
    write_uint(out, 4);
    write_bytes(out, env.policy_id.as_slice());
    write_uint(out, 5);
    write_text(out, env.path.as_str());
    write_uint(out, 6);
    write_uint(out, env.ts_epoch_ms);
    write_uint(out, 7);
    write_bytes(out, env.nonce.as_slice());
    assert(out@ =~= old(out)@ + env@.encoding_binding());
}

fn write_sealed(out: &mut Vec<u8>, env: &Envelope)
    ensures
        final(out)@ == old(out)@ + env@.encoding_sealed(),
        env@.kem_pub_ephem matches Some(k) ==> k.len() <= u64::MAX,
        env@.kem_ct.len() <= u64::MAX,
        env@.sig.len() <= u64::MAX,
        env@.ct.len() <= u64::MAX,
{
    match &env.kem_pub_ephem {
        Some(k) => {
            write_uint(out, 9);
            write_bytes(out, k.as_slice());
        },
        None => {},
    }
    write_uint(out, 10);
    write_bytes(out, env.kem_ct.as_slice());
    write_uint(out, 11);
    write_bytes(out, env.sig.as_slice());
    write_uint(out, 12);
    write_bytes(out, env.ct.as_slice());
    assert(out@ =~= old(out)@ + env@.encoding_sealed());
}

fn read_start(data: &[u8]) -> (res: Option<(u64, u8, usize)>)
    ensures
        match parse_start(data@) {
            Some((pairs, ver, rest)) => res matches Some((n, v, next)) && n == pairs && v == ver
                && next <= data@.len() && data@.skip(next as int) == rest,
            None => res is None,
        },
{
    assert(data@.skip(0) =~= data@);
    let (major, pairs, p0) = read_head(data, 0)?;
    if major != MAJOR_MAP {
        return None;
    }
    let key = uint_key(1);
    let (ver, p1) = read_keyed_uint(data, p0, key.as_slice())?;
    if ver > 255 {
        return None;
    }
    Some((pairs, ver as u8, p1))
}

fn read_algs(data: &[u8], pos: usize) -> (res: Option<(AlgorithmSet, usize)>)
    requires
        pos <= data@.len(),
    ensures
        match parse_algs(data@.skip(pos as int)) {
            Some((algs, rest)) => res matches Some((a, next)) && a@ == algs && pos <= next
                <= data@.len() && data@.skip(next as int) == rest,
            None => res is None,
        },
{
    let (pairs, p0) = read_keyed_map(data, pos, uint_key(2).as_slice())?;
    let (kem, p1) = read_keyed_text(data, p0, text_key("kem").as_slice())?;
    let (sig, p2) = read_keyed_text(data, p1, text_key("sig").as_slice())?;
    let (aead, p3) = read_keyed_text(data, p2, text_key("aead").as_slice())?;
    let (hybrid, p4) = read_keyed_bool(data, p3, text_key("hybrid").as_slice())?;
    Some((AlgorithmSet { kem, sig, aead, hybrid }, p4))
}

fn read_binding(data: &[u8], pos: usize) -> (res: Option<(Vec<u8>, Vec<u8>, String, u64, Vec<u8>, usize)>)
    requires
        pos <= data@.len(),
    ensures
        match parse_binding(data@.skip(pos as int)) {
            Some((tenant_id, policy_id, path, ts, nonce, rest)) => res matches Some(
                (t, p, a, s, n, next),
            ) && t@ == tenant_id && p@ == policy_id && a@ == path && s == ts && n@ == nonce && pos
                <= next <= data@.len() && data@.skip(next as int) == rest,
            None => res is None,
        },
{
    let (tenant_id, p1) = read_keyed_bytes(data, pos, uint_key(3).as_slice())?;
    let (policy_id, p2) = read_keyed_bytes(data, p1, uint_key(4).as_slice())?;
    let (path, p3) = read_keyed_text(data, p2, uint_key(5).as_slice())?;
    let (ts, p4) = read_keyed_uint(data, p3, uint_key(6).as_slice())?;
    let (nonce, p5) = read_keyed_bytes(data, p4, uint_key(7).as_slice())?;
    Some((tenant_id, policy_id, path, ts, nonce, p5))
}

fn read_aad_ext(data: &[u8], pos: usize) -> (res: Option<(AadExtensions, usize)>)
    requires
        pos <= data@.len(),
    ensures
        match parse_aad_ext(data@.skip(pos as int)) {
            Some((ext, rest)) => res matches Some((x, next)) && x@ == ext && pos <= next
                <= data@.len() && data@.skip(next as int) == rest,
            None => res is None,
        },
{
    let (pairs, p0) = read_keyed_map(data, pos, uint_key(8).as_slice())?;
    let (required_algs, p1) = read_keyed_text(data, p0, text_key("required_algs").as_slice())?;
    if pairs == 2 {
        let (h, p2) = read_keyed_bytes(data, p1, text_key("device_attest_hash").as_slice())?;
        Some((AadExtensions { device_attest_hash: Some(h), required_algs }, p2))
    } else {
        Some((AadExtensions { device_attest_hash: None, required_algs }, p1))
    }
}

fn read_sealed(data: &[u8], pos: usize, pairs: u64) -> (res: Option<(Option<Vec<u8>>, Vec<u8>, Vec<u8>, Vec<u8>, usize)>)
    requires
        pos <= data@.len(),
    ensures
        match parse_sealed(data@.skip(pos as int), pairs) {
            Some((kem_pub_ephem, kem_ct, sig, ct, rest)) => res matches Some((k, c, s, t, next))
                && opt_view(k) == kem_pub_ephem && c@ == kem_ct && s@ == sig && t@ == ct && pos
                <= next <= data@.len() && data@.skip(next as int) == rest,
            None => res is None,
        },
{
    let (kem_pub_ephem, p1) = if pairs == 12 {
        let (k, p0) = read_keyed_bytes(data, pos, uint_key(9).as_slice())?;
        (Some(k), p0)
    } else {
        (None, pos)
    };
    let (kem_ct, p2) = read_keyed_bytes(data, p1, uint_key(10).as_slice())?;
    let (sig, p3) = read_keyed_bytes(data, p2, uint_key(11).as_slice())?;
    let (ct, p4) = read_keyed_bytes(data, p3, uint_key(12).as_slice())?;
    Some((kem_pub_ephem, kem_ct, sig, ct, p4))
}

fn read_envelope(data: &[u8]) -> (res: Option<Envelope>)
    ensures
        match parse_envelope(data@) {
            Some(v) => res matches Some(e) && e@ == v,
            None => res is None,
        },
{
    let (pairs, ver, p0) = read_start(data)?;
    let (algs, p1) = read_algs(data, p0)?;
    let (tenant_id, policy_id, path, ts_epoch_ms, nonce, p2) = read_binding(data, p1)?;
    let (aad_ext, p3) = read_aad_ext(data, p2)?;
    let (kem_pub_ephem, kem_ct, sig, ct, p4) = read_sealed(data, p3, pairs)?;
    if p4 != data.len() {
        return None;
    }
    Some(
        Envelope {
            ver,
            algs,
            tenant_id,
            policy_id,
            path,
            ts_epoch_ms,
            nonce,
            aad_ext,
            kem_pub_ephem,
            kem_ct,
            sig,
            ct,
        },
    )
}

impl Envelope {
    /// The canonical encoding of the envelope.
    pub fn to_cbor(&self) -> (res: Result<Vec<u8>, BentengError>)
        ensures
            res matches Ok(bytes) && bytes@ == self@.encoding(),
            self@.encodable(),
    {
        let mut out: Vec<u8> = Vec::new();
        write_map_head(&mut out, if self.kem_pub_ephem.is_some() { 12 } else { 11 });
        write_uint(&mut out, 1);
        write_uint(&mut out, self.ver as u64);
        assert(out@ =~= self@.encoding_start());
        write_algs(&mut out, &self.algs);
        write_binding(&mut out, self);
        write_aad_ext(&mut out, &self.aad_ext);
        write_sealed(&mut out, self);
        Ok(out)
    }

    /// Decodes an envelope. Only the canonical encoding of an envelope is
    /// taken: any other input is refused with `InternalError`.
    pub fn from_cbor(data: &[u8]) -> (res: Result<Envelope, BentengError>)
        ensures
            match decoded(data@) {
                Some(v) => res matches Ok(env) && env@ == v,
                None => res matches Err(e) && e == BentengError::InternalError,
            },
    {
        proof {
            if decoded(data@) is Some {
                lemma_parse_envelope(decoded(data@)->0);
            }
        }
        let env = match read_envelope(data) {
            Some(env) => env,
            None => {
                return Err(BentengError::InternalError);
            },
        };
        let again = match env.to_cbor() {
            Ok(bytes) => bytes,
            Err(e) => {
                return Err(BentengError::InternalError);
            },
        };
        if bytes_eq(again.as_slice(), data) {
            proof {
                lemma_decode_inverts_encode(env@);
            }
            Ok(env)
        } else {
            Err(BentengError::InternalError)
        }
    }
}

} // verus!
