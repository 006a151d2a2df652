use benteng::crypto::aad::Aad;
use benteng::crypto::hash::sha256_digest;
use benteng::crypto::kdf::derive_envelope_dek;
use benteng::crypto::kem::{kyber768_encapsulate, kyber768_keypair, x25519_keypair};
use benteng::crypto::secret::Secret;
use benteng::crypto::sig::{dilithium3_keypair, dilithium3_verify};
use benteng::envelope::operations::{EcdhShare, EnvelopeOps};
use benteng::envelope::{check_binding, AadExtensions, AlgorithmSet, Envelope};
use benteng::error::BentengError;
use benteng::hex::hex_encode;
use ciborium::Value;

fn sample_envelope() -> Envelope {
    Envelope {
        ver: 1,
        algs: AlgorithmSet {
            kem: "ML-KEM-768".to_string(),
            sig: "ML-DSA-65".to_string(),
            aead: "AES-256-GCM".to_string(),
            hybrid: false,
        },
        tenant_id: b"tenant123".to_vec(),
        policy_id: b"policy456".to_vec(),
        path: "/payments/transfer".to_string(),
        ts_epoch_ms: 1_700_000_000_123,
        nonce: vec![7u8; 12],
        aad_ext: AadExtensions {
            device_attest_hash: None,
            required_algs: "kyber+dilithium".to_string(),
        },
        kem_pub_ephem: None,
        kem_ct: vec![0xAA; 1088],
        sig: vec![0xBB; 3309],
        ct: vec![0xCC; 70000],
    }
}

fn same_envelope(a: &Envelope, b: &Envelope) -> bool {
    a.ver == b.ver
        && a.algs == b.algs
        && a.tenant_id == b.tenant_id
        && a.policy_id == b.policy_id
        && a.path == b.path
        && a.ts_epoch_ms == b.ts_epoch_ms
        && a.nonce == b.nonce
        && a.aad_ext.device_attest_hash == b.aad_ext.device_attest_hash
        && a.aad_ext.required_algs == b.aad_ext.required_algs
        && a.kem_pub_ephem == b.kem_pub_ephem
        && a.kem_ct == b.kem_ct
        && a.sig == b.sig
        && a.ct == b.ct
}

fn uint(n: u64) -> Value {
    Value::Integer(n.into())
}

fn text(s: &str) -> Value {
    Value::Text(s.to_string())
}

#[test]
fn test_envelope_roundtrip() {
    let env = Envelope::new(b"tenant123".to_vec(), b"policy456".to_vec(), "/payments/transfer".into());

    let cbor = env.to_cbor().unwrap();
    let env2 = Envelope::from_cbor(&cbor).unwrap();

    assert_eq!(env.tenant_id, env2.tenant_id);
    assert_eq!(env.policy_id, env2.policy_id);
    assert_eq!(env.path, env2.path);
}

#[test]
fn test_encrypt_verify_decrypt() {
    let (server_kem_pk, server_kem_sk) = kyber768_keypair().unwrap();
    let (client_sig_pk, client_sig_sk) = dilithium3_keypair().unwrap();

    let payload = b"Secret message";
    let tenant_id = b"tenant123";
    let policy_id = b"policy456";
    let path = "/test";

    let envelope = EnvelopeOps::encrypt_and_sign(
        payload,
        tenant_id,
        policy_id,
        path,
        &server_kem_pk,
        &client_sig_sk,
        false,
    )
    .unwrap();

    assert_eq!(envelope.tenant_id, tenant_id);
    assert_eq!(envelope.policy_id, policy_id);
    assert_eq!(envelope.path, path);
    assert!(!envelope.algs.hybrid);

    match EnvelopeOps::verify(&envelope, &client_sig_pk) {
        Ok(_) => {}
        Err(e) => panic!("Verification failed: {:?}", e),
    }

    let decrypted = EnvelopeOps::decrypt(&envelope, server_kem_sk.as_slice()).unwrap();
    assert_eq!(payload, decrypted.as_slice());
}

#[test]
fn decode_inverts_encode_field_for_field() {
    let mut env = sample_envelope();
    let bytes = env.to_cbor().unwrap();
    let back = Envelope::from_cbor(&bytes).unwrap();
    assert!(same_envelope(&env, &back));
    assert_eq!(back.to_cbor().unwrap(), bytes);

    env.algs.hybrid = true;
    env.kem_pub_ephem = Some(vec![3u8; 32]);
    env.aad_ext.device_attest_hash = Some(vec![0xFF; 32]);
    env.path = "/päth/ü".to_string();
    env.ts_epoch_ms = u64::MAX;
    env.ct = vec![];
    let bytes = env.to_cbor().unwrap();
    let back = Envelope::from_cbor(&bytes).unwrap();
    assert!(same_envelope(&env, &back));
    assert_eq!(back.to_cbor().unwrap(), bytes);
}

#[test]
fn encoding_round_trips_at_every_head_width() {
    for len in [0usize, 1, 23, 24, 255, 256, 65535, 65536, 70000] {
        for ts in [0u64, 23, 24, 255, 256, 65535, 65536, 0xFFFF_FFFF, 0x1_0000_0000, u64::MAX] {
            let mut env = sample_envelope();
            env.ct = vec![0x5A; len];
            env.ts_epoch_ms = ts;
            let bytes = env.to_cbor().unwrap();
            let back = Envelope::from_cbor(&bytes).unwrap();
            assert!(same_envelope(&env, &back));
        }
    }
}

#[test]
fn encoding_is_a_map_of_the_tags_in_ascending_order() {
    let mut env = sample_envelope();
    env.kem_ct = vec![1, 2, 3];
    env.sig = vec![4, 5];
    env.ct = vec![6];
    env.ts_epoch_ms = 1000;
    let bytes = env.to_cbor().unwrap();
    let value: Value = ciborium::de::from_reader(&bytes[..]).unwrap();
    let expected = Value::Map(vec![
        (uint(1), uint(1)),
        (
            uint(2),
            Value::Map(vec![
                (text("kem"), text("ML-KEM-768")),
                (text("sig"), text("ML-DSA-65")),
                (text("aead"), text("AES-256-GCM")),
                (text("hybrid"), Value::Bool(false)),
            ]),
        ),
        (uint(3), Value::Bytes(b"tenant123".to_vec())),
        (uint(4), Value::Bytes(b"policy456".to_vec())),
        (uint(5), text("/payments/transfer")),
        (uint(6), uint(1000)),
        (uint(7), Value::Bytes(vec![7u8; 12])),
        (uint(8), Value::Map(vec![(text("required_algs"), text("kyber+dilithium"))])),
        (uint(10), Value::Bytes(vec![1, 2, 3])),
        (uint(11), Value::Bytes(vec![4, 5])),
        (uint(12), Value::Bytes(vec![6])),
    ]);
    assert_eq!(value, expected);

    env.algs.hybrid = true;
    env.kem_pub_ephem = Some(vec![9, 9]);
    env.aad_ext.device_attest_hash = Some(vec![8; 32]);
    let bytes = env.to_cbor().unwrap();
    let value: Value = ciborium::de::from_reader(&bytes[..]).unwrap();
    let entries = match value {
        Value::Map(entries) => entries,
        _ => panic!("not a map"),
    };
    assert_eq!(entries.len(), 12);
    assert_eq!(entries[8], (uint(9), Value::Bytes(vec![9, 9])));
    assert_eq!(
        entries[7],
        (
            uint(8),
            Value::Map(vec![
                (text("required_algs"), text("kyber+dilithium")),
                (text("device_attest_hash"), Value::Bytes(vec![8; 32])),
            ])
        )
    );
}

#[test]
fn encoding_has_the_exact_bytes() {
    let env = Envelope {
        ver: 1,
        algs: AlgorithmSet { kem: "K".into(), sig: "S".into(), aead: "A".into(), hybrid: true },
        tenant_id: vec![0x74],
        policy_id: vec![0x70],
        path: "/".into(),
        ts_epoch_ms: 300,
        nonce: vec![],
        aad_ext: AadExtensions { device_attest_hash: None, required_algs: "r".into() },
        kem_pub_ephem: None,
        kem_ct: vec![],
        sig: vec![],
        ct: vec![0xff],
    };
    let expected = concat_hex(&[
        "ab",
        "0101",
        "02a4",
        "636b656d", "614b",
        "63736967", "6153",
        "6461656164", "6141",
        "66687962726964", "f5",
        "034174",
        "044170",
        "05612f",
        "0619012c",
        "0740",
        "08a1", "6d72657175697265645f616c6773", "6172",
        "0a40",
        "0b40",
        "0c41ff",
    ]);
    assert_eq!(hex_encode(&env.to_cbor().unwrap()), expected);
}

fn concat_hex(parts: &[&str]) -> String {
    let mut out = String::new();
    for p in parts {
        out.push_str(p);
    }
    out
}

#[test]
fn decode_refuses_what_is_not_canonical() {
    let env = sample_envelope();
    let bytes = env.to_cbor().unwrap();
    assert!(Envelope::from_cbor(&bytes).is_ok());

    assert_eq!(Envelope::from_cbor(&[]).err(), Some(BentengError::InternalError));
    assert_eq!(Envelope::from_cbor(&bytes[..bytes.len() - 1]).err(), Some(BentengError::InternalError));
    let mut longer = bytes.clone();
    longer.push(0);
    assert_eq!(Envelope::from_cbor(&longer).err(), Some(BentengError::InternalError));

    // The version in a two-byte head where one byte holds it.
    let mut wide = vec![bytes[0], 0x01, 0x18, 0x01];
    wide.extend_from_slice(&bytes[3..]);
    assert!(Envelope::from_cbor(&wide).is_err());

    // A map header that announces one pair too many.
    let mut more = bytes.clone();
    more[0] = 0xac;
    assert!(Envelope::from_cbor(&more).is_err());

    // Fields in another order.
    let mut small = sample_envelope();
    small.kem_ct = vec![1];
    small.sig = vec![2];
    small.ct = vec![3];
    let b = small.to_cbor().unwrap();
    let n = b.len();
    assert_eq!(&b[n - 9..], &[0x0a, 0x41, 1, 0x0b, 0x41, 2, 0x0c, 0x41, 3]);
    let mut swapped = b.clone();
    swapped[n - 6..n - 3].copy_from_slice(&[0x0c, 0x41, 3]);
    swapped[n - 3..].copy_from_slice(&[0x0b, 0x41, 2]);
    assert!(Envelope::from_cbor(&swapped).is_err());

    // A path that is not UTF-8.
    let mut env = sample_envelope();
    env.path = "/ab".into();
    let mut b = env.to_cbor().unwrap();
    let at = b.windows(4).position(|w| w == [0x63, b'/', b'a', b'b']).unwrap();
    b[at + 2] = 0xff;
    assert!(Envelope::from_cbor(&b).is_err());

    assert!(Envelope::from_cbor(b"not an envelope").is_err());
}

#[test]
fn check_enforces_the_constraints_of_version_one() {
    let good = sample_envelope();
    assert!(good.check());

    let mut e = sample_envelope();
    e.ver = 2;
    assert!(!e.check());
    let mut e = sample_envelope();
    e.algs.kem = "RSA".into();
    assert!(!e.check());
    let mut e = sample_envelope();
    e.algs.sig = "ECDSA".into();
    assert!(!e.check());
    let mut e = sample_envelope();
    e.algs.aead = "ChaCha20-Poly1305".into();
    assert!(e.check());
    e.algs.aead = "DES".into();
    assert!(!e.check());
    let mut e = sample_envelope();
    e.tenant_id = vec![];
    assert!(!e.check());
    e.tenant_id = vec![1; 64];
    assert!(e.check());
    e.tenant_id = vec![1; 65];
    assert!(!e.check());
    let mut e = sample_envelope();
    e.policy_id = vec![];
    assert!(!e.check());
    let mut e = sample_envelope();
    e.path = "payments".into();
    assert!(!e.check());
    e.path = "".into();
    assert!(!e.check());
    e.path = format!("/{}", "a".repeat(1023));
    assert!(e.check());
    e.path = format!("/{}", "a".repeat(1024));
    assert!(!e.check());
    let mut e = sample_envelope();
    e.nonce = vec![0; 11];
    assert!(!e.check());
    let mut e = sample_envelope();
    e.aad_ext.device_attest_hash = Some(vec![0; 31]);
    assert!(!e.check());
    e.aad_ext.device_attest_hash = Some(vec![0; 32]);
    assert!(e.check());
    let mut e = sample_envelope();
    e.algs.hybrid = true;
    assert!(!e.check());
    e.kem_pub_ephem = Some(vec![0; 32]);
    assert!(e.check());
    e.algs.hybrid = false;
    assert!(!e.check());

    assert!(check_binding(b"t", b"p", "/"));
    assert!(!check_binding(b"", b"p", "/"));
    assert!(!Envelope::new(b"t".to_vec(), b"p".to_vec(), "/x".into()).check());
}

#[test]
fn blank_envelope_has_the_defaults() {
    let env = Envelope::new_at(b"t".to_vec(), b"p".to_vec(), "/x".into(), 42);
    assert_eq!(env.ver, 1);
    assert_eq!(env.algs, AlgorithmSet::default());
    assert_eq!(env.algs.kem, "ML-KEM-768");
    assert_eq!(env.algs.sig, "ML-DSA-65");
    assert_eq!(env.algs.aead, "AES-256-GCM");
    assert!(env.algs.hybrid);
    assert_eq!(env.ts_epoch_ms, 42);
    assert_eq!(env.nonce, vec![0u8; 12]);
    assert_eq!(env.aad_ext.required_algs, "kyber+dilithium");
    assert!(env.aad_ext.device_attest_hash.is_none());
    assert!(env.kem_pub_ephem.is_none());
    assert!(env.kem_ct.is_empty() && env.sig.is_empty() && env.ct.is_empty());
    let copy = env.duplicate();
    assert!(same_envelope(&env, &copy));
}

#[test]
fn aad_encoding_has_the_exact_bytes_and_binds_each_field() {
    let aad = Aad::build(1, b"t", b"p", "/", 5, "r", true, None);
    let expected = concat_hex(&[
        "a7",
        "63766572", "01",
        "6974656e616e745f6964", "4174",
        "69706f6c6963795f6964", "4170",
        "6470617468", "612f",
        "6b74735f65706f63685f6d73", "05",
        "6d72657175697265645f616c6773", "6172",
        "66687962726964", "f5",
    ]);
    let bytes = aad.to_cbor().unwrap();
    assert_eq!(hex_encode(&bytes), expected);
    assert_eq!(aad.hash().unwrap(), sha256_digest(&bytes));

    let with_hash = Aad::build(1, b"t", b"p", "/", 5, "r", true, Some(vec![0xee; 32]));
    let b2 = with_hash.to_cbor().unwrap();
    assert_eq!(b2[0], 0xa8);
    assert_eq!(b2.len(), bytes.len() + 19 + 34);

    let variants = [
        Aad::build(2, b"t", b"p", "/", 5, "r", true, None),
        Aad::build(1, b"u", b"p", "/", 5, "r", true, None),
        Aad::build(1, b"t", b"q", "/", 5, "r", true, None),
        Aad::build(1, b"t", b"p", "/a", 5, "r", true, None),
        Aad::build(1, b"t", b"p", "/", 6, "r", true, None),
        Aad::build(1, b"t", b"p", "/", 5, "s", true, None),
        Aad::build(1, b"t", b"p", "/", 5, "r", false, None),
    ];
    for v in variants.iter() {
        assert_ne!(v.to_cbor().unwrap(), bytes);
    }
}

#[test]
fn signature_message_is_header_nonce_ciphertext_and_aad_digest() {
    let env = sample_envelope();
    let aad = EnvelopeOps::build_aad(&env);
    let aad_bytes = aad.to_cbor().unwrap();
    let msg = EnvelopeOps::build_signature_message(&env, &aad_bytes).unwrap();

    let mut cleared = env.duplicate();
    cleared.sig = vec![];
    let mut expected = cleared.to_cbor().unwrap();
    expected.extend_from_slice(&env.nonce);
    expected.extend_from_slice(&env.ct);
    expected.extend_from_slice(&sha256_digest(&aad_bytes));
    assert_eq!(msg, expected);

    let mut resigned = env.duplicate();
    resigned.sig = vec![1, 2, 3];
    assert_eq!(EnvelopeOps::build_signature_message(&resigned, &aad_bytes).unwrap(), msg);
}

#[test]
fn sealing_with_given_parts_is_exact() {
    let (pk, sk) = kyber768_keypair().unwrap();
    let (sig_pk, sig_sk) = dilithium3_keypair().unwrap();
    let (kem_ct, ss) = kyber768_encapsulate(&pk).unwrap();
    let nonce = [5u8; 12];
    let env = EnvelopeOps::seal_with(
        b"hello", b"tenant123", b"policy456", "/payments/transfer", &sig_sk, &nonce, 77,
        kem_ct.clone(), &ss, None,
    )
    .unwrap();
    assert!(env.check());
    assert_eq!(env.ts_epoch_ms, 77);
    assert_eq!(env.nonce, nonce.to_vec());
    assert_eq!(env.kem_ct, kem_ct);
    assert_eq!(env.ct.len(), 5 + 16);
    assert_eq!(env.sig.len(), 3309);

    // The ciphertext is the payload under the derived key, nonce and associated data.
    let dek = derive_envelope_dek(None, ss.as_slice(), b"tenant123", b"policy456", "/payments/transfer").unwrap();
    let mut key = [0u8; 32];
    key.copy_from_slice(dek.as_slice());
    let aad = EnvelopeOps::build_aad(&env).to_cbor().unwrap();
    let expected_ct = benteng::crypto::aead::aes_256_gcm_encrypt(&key, &nonce, b"hello", &aad).unwrap();
    assert_eq!(env.ct, expected_ct);
    assert_eq!(EnvelopeOps::open_with_dek(&env, dek.as_slice()).unwrap().as_slice(), b"hello");

    // The signature is over the signature message.
    let msg = EnvelopeOps::build_signature_message(&env, &aad).unwrap();
    assert_eq!(dilithium3_verify(&sig_pk, &msg, &env.sig), Ok(true));
    assert!(EnvelopeOps::verify(&env, &sig_pk).is_ok());
    assert_eq!(EnvelopeOps::decrypt(&env, sk.as_slice()).unwrap().as_slice(), b"hello");

    // Sealing again from the same parts gives the same envelope.
    let again = EnvelopeOps::seal_with(
        b"hello", b"tenant123", b"policy456", "/payments/transfer", &sig_sk, &nonce, 77,
        kem_ct, &ss, None,
    )
    .unwrap();
    assert!(same_envelope(&env, &again));
}

#[test]
fn sealing_refuses_malformed_input() {
    let (pk, _) = kyber768_keypair().unwrap();
    let (_, sig_sk) = dilithium3_keypair().unwrap();
    let cases: [(&[u8], &[u8], &str); 5] = [
        (b"", b"p", "/x"),
        (b"t", b"", "/x"),
        (b"t", b"p", "x"),
        (b"t", b"p", ""),
        (&[1u8; 65], b"p", "/x"),
    ];
    for (t, p, path) in cases.iter() {
        assert_eq!(
            EnvelopeOps::encrypt_and_sign(b"m", t, p, path, &pk, &sig_sk, false).err(),
            Some(BentengError::InternalError)
        );
    }
    assert_eq!(
        EnvelopeOps::encrypt_and_sign(b"m", b"t", b"p", "/x", &pk[..10], &sig_sk, false).err(),
        Some(BentengError::InternalError)
    );
    assert_eq!(
        EnvelopeOps::encrypt_and_sign(b"m", b"t", b"p", "/x", &pk, &sig_sk[..10], false).err(),
        Some(BentengError::InternalError)
    );
    assert_eq!(
        EnvelopeOps::encrypt_and_sign(b"m", b"t", b"p", "/x", &pk, &sig_sk, true).err(),
        Some(BentengError::InternalError)
    );
    let ss = Secret::new(vec![1u8; 32]);
    assert_eq!(
        EnvelopeOps::seal_with(b"m", b"t", b"p", "/x", &[0u8; 3], &[0u8; 12], 0, vec![], &ss, None).err(),
        Some(BentengError::InternalError)
    );
}

#[test]
fn hybrid_sealing_round_trips_and_needs_the_curve_key() {
    let (kem_pk, kem_sk) = kyber768_keypair().unwrap();
    let server = x25519_keypair().unwrap();
    let (sig_pk, sig_sk) = dilithium3_keypair().unwrap();
    let mut pk = kem_pk.clone();
    pk.extend_from_slice(&server.public);
    let mut sk = kem_sk.to_vec();
    sk.extend_from_slice(server.secret.as_slice());
    assert_eq!(pk.len(), 1216);
    assert_eq!(sk.len(), 2432);

    let env = EnvelopeOps::encrypt_and_sign(b"hybrid payload", b"tenant123", b"policy456", "/h", &pk, &sig_sk, true).unwrap();
    assert!(env.algs.hybrid);
    assert!(env.check());
    assert_eq!(env.kem_pub_ephem.as_ref().unwrap().len(), 32);
    assert!(EnvelopeOps::verify(&env, &sig_pk).is_ok());
    assert_eq!(EnvelopeOps::decrypt(&env, &sk).unwrap().as_slice(), b"hybrid payload");

    // The lattice key alone does not open a hybrid envelope.
    assert_eq!(EnvelopeOps::decrypt(&env, kem_sk.as_slice()).err(), Some(BentengError::AeadFailure));
    // Nor does another curve key.
    let other = x25519_keypair().unwrap();
    let mut wrong = kem_sk.to_vec();
    wrong.extend_from_slice(other.secret.as_slice());
    assert_eq!(EnvelopeOps::decrypt(&env, &wrong).err(), Some(BentengError::AeadFailure));

    // Both secrets enter the key: the envelope does not open under the key of the lattice secret alone.
    let ss = benteng::crypto::kem::kyber768_decapsulate(kem_sk.as_slice(), &env.kem_ct).unwrap();
    let dek = derive_envelope_dek(None, ss.as_slice(), b"tenant123", b"policy456", "/h").unwrap();
    assert!(EnvelopeOps::open_with_dek(&env, dek.as_slice()).is_err());

    // Round trip through the wire format.
    let back = Envelope::from_cbor(&env.to_cbor().unwrap()).unwrap();
    assert!(same_envelope(&env, &back));
    assert_eq!(EnvelopeOps::decrypt(&back, &sk).unwrap().as_slice(), b"hybrid payload");
}

#[test]
fn seal_with_takes_an_elliptic_curve_share() {
    let (pk, _) = kyber768_keypair().unwrap();
    let (_, sig_sk) = dilithium3_keypair().unwrap();
    let (kem_ct, ss) = kyber768_encapsulate(&pk).unwrap();
    let share = EcdhShare { ephemeral_public: vec![4u8; 32], shared: Secret::new(vec![6u8; 32]) };
    let env = EnvelopeOps::seal_with(b"x", b"t", b"p", "/x", &sig_sk, &[1u8; 12], 9, kem_ct, &ss, Some(share)).unwrap();
    assert!(env.algs.hybrid);
    assert_eq!(env.kem_pub_ephem, Some(vec![4u8; 32]));
    let dek = derive_envelope_dek(Some(&[6u8; 32]), ss.as_slice(), b"t", b"p", "/x").unwrap();
    assert_eq!(EnvelopeOps::open_with_dek(&env, dek.as_slice()).unwrap().as_slice(), b"x");
}

#[test]
fn tampering_with_any_bound_field_is_caught() {
    let (server_pk, server_sk) = kyber768_keypair().unwrap();
    let (sig_pk, sig_sk) = dilithium3_keypair().unwrap();
    let env = EnvelopeOps::encrypt_and_sign(b"hello", b"tenant123", b"policy456", "/payments/transfer", &server_pk, &sig_sk, false).unwrap();
    assert!(EnvelopeOps::verify(&env, &sig_pk).is_ok());

    let caught = |e: &Envelope| {
        EnvelopeOps::verify(e, &sig_pk) == Err(BentengError::InvalidSignature)
            || EnvelopeOps::decrypt(e, server_sk.as_slice()).err() == Some(BentengError::AeadFailure)
    };
    let mut e = env.duplicate();
    e.ct[0] ^= 1;
    assert!(caught(&e));
    assert_eq!(EnvelopeOps::decrypt(&e, server_sk.as_slice()).err(), Some(BentengError::AeadFailure));
    let mut e = env.duplicate();
    e.nonce[0] ^= 1;
    assert!(caught(&e));
    let mut e = env.duplicate();
    e.aad_ext.required_algs = "kyber+dilithiun".into();
    assert!(caught(&e));
    let mut e = env.duplicate();
    e.aad_ext.device_attest_hash = Some(vec![0; 32]);
    assert!(caught(&e));
    let mut e = env.duplicate();
    e.algs.hybrid = true;
    assert!(caught(&e));
    let mut e = env.duplicate();
    e.tenant_id[0] ^= 1;
    assert!(caught(&e));
    let mut e = env.duplicate();
    e.policy_id[0] ^= 1;
    assert!(caught(&e));
    let mut e = env.duplicate();
    e.path = "/payments/transfes".into();
    assert!(caught(&e));
    let mut e = env.duplicate();
    e.ts_epoch_ms ^= 1;
    assert!(caught(&e));
    let mut e = env.duplicate();
    e.kem_ct[0] ^= 1;
    assert!(caught(&e));
    let mut e = env.duplicate();
    e.sig[10] ^= 1;
    assert_eq!(EnvelopeOps::verify(&e, &sig_pk), Err(BentengError::InvalidSignature));
}

#[test]
fn verify_refuses_other_keys_and_open_collapses_failures() {
    let (server_pk, server_sk) = kyber768_keypair().unwrap();
    let (_, other_sk) = kyber768_keypair().unwrap();
    let (sig_pk, sig_sk) = dilithium3_keypair().unwrap();
    let (other_sig_pk, _) = dilithium3_keypair().unwrap();
    let env = EnvelopeOps::encrypt_and_sign(b"hello", b"t", b"p", "/x", &server_pk, &sig_sk, false).unwrap();
    assert_eq!(EnvelopeOps::verify(&env, &sig_pk), Ok(()));
    assert_eq!(EnvelopeOps::verify(&env, &other_sig_pk), Err(BentengError::InvalidSignature));
    assert_eq!(EnvelopeOps::verify(&env, &[]), Err(BentengError::InvalidSignature));
    assert_eq!(EnvelopeOps::verify(&env, &[1, 2, 3]), Err(BentengError::InvalidSignature));

    assert_eq!(EnvelopeOps::decrypt(&env, other_sk.as_slice()).err(), Some(BentengError::AeadFailure));
    assert_eq!(EnvelopeOps::decrypt(&env, &[]).err(), Some(BentengError::AeadFailure));
    assert_eq!(EnvelopeOps::decrypt(&env, &server_sk.as_slice()[..100]).err(), Some(BentengError::AeadFailure));
    let mut e = env.duplicate();
    e.nonce.push(0);
    assert_eq!(EnvelopeOps::decrypt(&e, server_sk.as_slice()).err(), Some(BentengError::AeadFailure));
    let mut e = env.duplicate();
    e.kem_ct.pop();
    assert_eq!(EnvelopeOps::decrypt(&e, server_sk.as_slice()).err(), Some(BentengError::AeadFailure));
    let mut e = env.duplicate();
    e.algs.aead = "ROT13".into();
    assert_eq!(EnvelopeOps::decrypt(&e, server_sk.as_slice()).err(), Some(BentengError::AeadFailure));
    assert_eq!(EnvelopeOps::open_with_dek(&env, &[0u8; 31]).err(), Some(BentengError::AeadFailure));
}

#[test]
fn an_envelope_that_names_chacha_opens_with_chacha() {
    let (pk, sk) = kyber768_keypair().unwrap();
    let (kem_ct, ss) = kyber768_encapsulate(&pk).unwrap();
    let mut env = sample_envelope();
    env.algs.aead = "ChaCha20-Poly1305".into();
    env.kem_ct = kem_ct;
    let dek = derive_envelope_dek(None, ss.as_slice(), &env.tenant_id, &env.policy_id, &env.path).unwrap();
    let mut key = [0u8; 32];
    key.copy_from_slice(dek.as_slice());
    let mut nonce = [0u8; 12];
    nonce.copy_from_slice(&env.nonce);
    let aad = EnvelopeOps::build_aad(&env).to_cbor().unwrap();
    env.ct = benteng::crypto::aead::chacha20_poly1305_encrypt(&key, &nonce, b"fallback", &aad).unwrap();
    assert_eq!(EnvelopeOps::decrypt(&env, sk.as_slice()).unwrap().as_slice(), b"fallback");
}

#[test]
fn generated_server_keys_open_what_is_sealed_to_them() {
    let (sig_pk, sig_sk) = dilithium3_keypair().unwrap();
    for hybrid in [false, true] {
        let (pk, sk) = EnvelopeOps::server_keypair(hybrid).unwrap();
        assert_eq!((pk.len(), sk.len()), if hybrid { (1216, 2432) } else { (1184, 2400) });
        for payload in [&b""[..], b"x", &[7u8; 5000]] {
            let env = EnvelopeOps::encrypt_and_sign(payload, b"tenant123", b"policy456", "/p", &pk, &sig_sk, hybrid)
                .unwrap();
            assert_eq!(env.sig.len(), 3309);
            assert_eq!(env.ct.len(), payload.len() + 16);
            assert_eq!(EnvelopeOps::verify(&env, &sig_pk), Ok(()));
            assert_eq!(EnvelopeOps::decrypt(&env, sk.as_slice()).unwrap().as_slice(), payload);
            // The keys of another server do not open it.
            let (_, other) = EnvelopeOps::server_keypair(hybrid).unwrap();
            assert_eq!(EnvelopeOps::decrypt(&env, other.as_slice()).err(), Some(BentengError::AeadFailure));
        }
    }
}
