use benteng::crypto::aad::Aad;
use benteng::crypto::aead::{
    aead_decrypt, aead_encrypt, aes_256_gcm_decrypt, aes_256_gcm_encrypt,
    chacha20_poly1305_decrypt, chacha20_poly1305_encrypt, AeadAlgorithm,
};
use benteng::crypto::hash::sha256_digest;
use benteng::crypto::kdf::{derive_envelope_dek, derive_hybrid_dek, hkdf_sha256_derive};
use benteng::crypto::kem::{
    kyber768_decapsulate, kyber768_encapsulate, kyber768_keypair, x25519_keypair,
    x25519_public_key, x25519_shared_secret,
};
use benteng::crypto::secret::{scrub, scrub_key, Secret};
use benteng::crypto::sig::{dilithium3_keypair, dilithium3_sign, dilithium3_verify};
use benteng::crypto::{generate_nonce, random_bytes, secure_random};
use benteng::error::BentengError;
use benteng::hex::{hex_encode, hex_prefix};

fn unhex(text: &str) -> Vec<u8> {
    hex::decode(text).unwrap()
}

#[test]
fn test_aad_deterministic() {
    let aad1 = Aad::build(1, b"tenant", b"policy", "/path", 1234567890, "kyber+dilithium", true, None);
    let aad2 = Aad::build(1, b"tenant", b"policy", "/path", 1234567890, "kyber+dilithium", true, None);

    assert_eq!(aad1.to_cbor().unwrap(), aad2.to_cbor().unwrap());
    assert_eq!(aad1.hash().unwrap(), aad2.hash().unwrap());
}

#[test]
fn test_aes_gcm_roundtrip() {
    let key = [0x42u8; 32];
    let nonce = [0x01u8; 12];
    let plaintext = b"Hello, Benteng!";
    let aad = b"additional data";

    let ct = aes_256_gcm_encrypt(&key, &nonce, plaintext, aad).unwrap();
    let pt = aes_256_gcm_decrypt(&key, &nonce, &ct, aad).unwrap();

    assert_eq!(plaintext, pt.as_slice());
}

#[test]
fn test_chacha_roundtrip() {
    let key = [0x42u8; 32];
    let nonce = [0x01u8; 12];
    let plaintext = b"Hello, Benteng with ChaCha!";
    let aad = b"additional data";

    let ct = chacha20_poly1305_encrypt(&key, &nonce, plaintext, aad).unwrap();
    assert!(ct.len() > plaintext.len());
}

#[test]
fn test_hkdf_derive() {
    let ikm = b"input key material";
    let salt = b"salt";
    let info = b"info";

    let output = hkdf_sha256_derive(ikm, Some(salt), info, 32).unwrap();
    assert_eq!(output.len(), 32);
}

#[test]
fn test_kyber768_roundtrip() {
    let (pk, sk) = kyber768_keypair().unwrap();
    let (ct, ss1) = kyber768_encapsulate(&pk).unwrap();
    let ss2 = kyber768_decapsulate(sk.as_slice(), &ct).unwrap();

    assert_eq!(ss1.as_slice(), ss2.as_slice());
}

#[test]
fn test_dilithium3_roundtrip() {
    let (pk, sk) = dilithium3_keypair().unwrap();
    let msg = b"Test message";
    let sig = dilithium3_sign(&sk, msg).unwrap();
    let valid = dilithium3_verify(&pk, msg, &sig).unwrap();

    assert!(valid);
}

#[test]
fn test_dilithium3_invalid_sig() {
    let (pk, _) = dilithium3_keypair().unwrap();
    let msg = b"Test message";
    let bad_sig = vec![0u8; 3293];
    let valid = dilithium3_verify(&pk, msg, &bad_sig).unwrap();

    assert!(!valid);
}

#[test]
fn a_signature_of_another_length_is_never_accepted() {
    let (pk, sk) = dilithium3_keypair().unwrap();
    let msg = b"Test message";
    let sig = dilithium3_sign(&sk, msg).unwrap();
    assert_eq!(sig.len(), 3309);
    assert_eq!(dilithium3_verify(&pk, msg, &sig), Ok(true));
    assert_eq!(dilithium3_verify(&pk, msg, &sig[..3308]), Ok(false));
    assert_eq!(dilithium3_verify(&pk, msg, &sig[..3293]), Ok(false));
    assert_eq!(dilithium3_verify(&pk, msg, &[]), Ok(false));
    let mut longer = sig.clone();
    longer.push(0);
    assert_eq!(dilithium3_verify(&pk, msg, &longer), Ok(false));
    assert_eq!(dilithium3_verify(&pk, msg, &vec![0u8; 3309]), Ok(false));
    assert_eq!(dilithium3_verify(&pk[..1951], msg, &sig), Ok(false));
}

#[test]
fn sha256_of_abc_is_the_known_digest() {
    assert_eq!(
        hex_encode(&sha256_digest(b"abc")),
        "ba7816bf8f01cfea414140de5dae2223b00361a396177a9cb410ff61f20015ad"
    );
    assert_eq!(
        hex_encode(&sha256_digest(b"")),
        "e3b0c44298fc1c149afbf4c8996fb92427ae41e4649b934ca495991b7852b855"
    );
}

#[test]
fn hex_encode_is_lower_case_two_digits_a_byte() {
    assert_eq!(hex_encode(&[1, 2, 3, 15, 16]), "0102030f10");
    assert_eq!(hex_encode(&[0xab, 0xcd, 0xef, 0x00, 0xff]), "abcdef00ff");
    assert_eq!(hex_encode(&[]), "");
}

#[test]
fn hex_prefix_takes_four_bytes_or_fewer() {
    assert_eq!(hex_prefix(b"tenant123"), "74656e61");
    assert_eq!(hex_prefix(&[0xab; 16]), "abababab");
    assert_eq!(hex_prefix(&[1, 2]), "0102");
    assert_eq!(hex_prefix(&[]), "");
}

#[test]
fn hkdf_matches_the_first_reference_vector() {
    let ikm = [0x0bu8; 22];
    let salt = unhex("000102030405060708090a0b0c");
    let info = unhex("f0f1f2f3f4f5f6f7f8f9");
    let okm = hkdf_sha256_derive(&ikm, Some(&salt), &info, 42).unwrap();
    assert_eq!(
        hex_encode(okm.as_slice()),
        "3cb25f25faacd57a90434f64d0362f2a2d2d0a90cf1a5a4c5db02d56ecc4c5bf34007208d5b887185865"
    );
}

#[test]
fn hkdf_without_salt_matches_the_third_reference_vector() {
    let ikm = [0x0bu8; 22];
    let okm = hkdf_sha256_derive(&ikm, None, &[], 42).unwrap();
    assert_eq!(
        hex_encode(okm.as_slice()),
        "8da4e775a563c18f715f802a063c5a31b8a11f5c5ee1879ec3454e5f3c738d2d9d201395faa4b61a96c8"
    );
}

#[test]
fn hkdf_refuses_more_than_255_blocks() {
    assert!(hkdf_sha256_derive(b"ikm", None, b"info", 8160).is_ok());
    assert_eq!(
        hkdf_sha256_derive(b"ikm", None, b"info", 8161).err(),
        Some(BentengError::InternalError)
    );
}

#[test]
fn envelope_dek_is_hkdf_over_the_stated_inputs() {
    let ss_pqc = [7u8; 32];
    let ss_ecc = [9u8; 32];
    let tenant = b"tenant123";
    let policy = b"policy456";
    let path = "/payments/transfer";

    let mut salt = tenant.to_vec();
    salt.extend_from_slice(policy);
    let mut info = b"benteng/aead/v1".to_vec();
    info.extend_from_slice(tenant);
    info.extend_from_slice(policy);
    info.extend_from_slice(path.as_bytes());

    let plain = derive_envelope_dek(None, &ss_pqc, tenant, policy, path).unwrap();
    let expected = hkdf_sha256_derive(&ss_pqc, Some(&salt), &info, 32).unwrap();
    assert_eq!(plain.as_slice(), expected.as_slice());

    let mut ikm = b"benteng/hybrid/v1".to_vec();
    ikm.extend_from_slice(&ss_ecc);
    ikm.extend_from_slice(&ss_pqc);
    let hybrid = derive_hybrid_dek(&ss_ecc, &ss_pqc, tenant, policy, path).unwrap();
    let expected = hkdf_sha256_derive(&ikm, Some(&salt), &info, 32).unwrap();
    assert_eq!(hybrid.as_slice(), expected.as_slice());
    assert_ne!(hybrid.as_slice(), plain.as_slice());
    assert_eq!(hybrid.len(), 32);
}

#[test]
fn aes_gcm_matches_the_reference_vectors() {
    let key = [0u8; 32];
    let nonce = [0u8; 12];
    let empty = aes_256_gcm_encrypt(&key, &nonce, &[], &[]).unwrap();
    assert_eq!(hex_encode(&empty), "530f8afbc74536b9a963b4f1c4cb738b");
    let block = aes_256_gcm_encrypt(&key, &nonce, &[0u8; 16], &[]).unwrap();
    assert_eq!(
        hex_encode(&block),
        "cea7403d4d606b6e074ec5d3baf39d18d0d1c8a799996bf0265b98b5d48ab919"
    );
}

#[test]
fn aead_open_fails_on_any_tampering() {
    let key = [0x42u8; 32];
    let nonce = [0x01u8; 12];
    for alg in [AeadAlgorithm::Aes256Gcm, AeadAlgorithm::ChaCha20Poly1305] {
        let ct = aead_encrypt(alg, &key, &nonce, b"payload", b"aad").unwrap();
        assert_eq!(ct.len(), 7 + 16);
        assert_eq!(aead_decrypt(alg, &key, &nonce, &ct, b"aad").unwrap().as_slice(), b"payload");

        let mut flipped = ct.clone();
        flipped[0] ^= 1;
        assert_eq!(
            aead_decrypt(alg, &key, &nonce, &flipped, b"aad").err(),
            Some(BentengError::AeadFailure)
        );
        assert_eq!(
            aead_decrypt(alg, &key, &nonce, &ct, b"aae").err(),
            Some(BentengError::AeadFailure)
        );
        let mut other_nonce = nonce;
        other_nonce[11] ^= 1;
        assert_eq!(
            aead_decrypt(alg, &key, &other_nonce, &ct, b"aad").err(),
            Some(BentengError::AeadFailure)
        );
        let mut other_key = key;
        other_key[0] ^= 1;
        assert_eq!(
            aead_decrypt(alg, &other_key, &nonce, &ct, b"aad").err(),
            Some(BentengError::AeadFailure)
        );
        assert_eq!(
            aead_decrypt(alg, &key, &nonce, &ct[..10], b"aad").err(),
            Some(BentengError::AeadFailure)
        );
    }
}

#[test]
fn the_two_aead_algorithms_differ() {
    let key = [0x42u8; 32];
    let nonce = [0x01u8; 12];
    let aes = aes_256_gcm_encrypt(&key, &nonce, b"payload", b"aad").unwrap();
    let chacha = chacha20_poly1305_encrypt(&key, &nonce, b"payload", b"aad").unwrap();
    assert_ne!(aes, chacha);
    assert_eq!(
        chacha20_poly1305_decrypt(&key, &nonce, &chacha, b"aad").unwrap().as_slice(),
        b"payload"
    );
    assert!(chacha20_poly1305_decrypt(&key, &nonce, &aes, b"aad").is_err());
    assert!(aes_256_gcm_decrypt(&key, &nonce, &chacha, b"aad").is_err());
}

#[test]
fn chacha20_poly1305_matches_the_reference_vector() {
    let key = unhex("808182838485868788898a8b8c8d8e8f909192939495969798999a9b9c9d9e9f");
    let nonce = unhex("070000004041424344454647");
    let aad = unhex("50515253c0c1c2c3c4c5c6c7");
    let plaintext = b"Ladies and Gentlemen of the class of '99: If I could offer you only one tip for the future, sunscreen would be it.";
    let mut k = [0u8; 32];
    k.copy_from_slice(&key);
    let mut n = [0u8; 12];
    n.copy_from_slice(&nonce);
    let ct = chacha20_poly1305_encrypt(&k, &n, plaintext, &aad).unwrap();
    assert_eq!(ct.len(), plaintext.len() + 16);
    assert_eq!(hex_encode(&ct[..16]), "d31a8d34648e60db7b86afbc53ef7ec2");
    assert_eq!(hex_encode(&ct[plaintext.len()..]), "1ae10b594f09e26a7e902ecbd0600691");
}

#[test]
fn kyber768_keys_and_ciphertexts_have_their_lengths() {
    let (pk, sk) = kyber768_keypair().unwrap();
    assert_eq!(pk.len(), 1184);
    assert_eq!(sk.len(), 2400);
    let (ct, ss) = kyber768_encapsulate(&pk).unwrap();
    assert_eq!(ct.len(), 1088);
    assert_eq!(ss.len(), 32);
    assert_ne!(ss.as_slice(), &ct[..32]);
    let (ct2, ss2) = kyber768_encapsulate(&pk).unwrap();
    assert_ne!(ct, ct2);
    assert_ne!(ss.as_slice(), ss2.as_slice());
}

#[test]
fn kyber768_refuses_malformed_keys_with_internal_error() {
    let (pk, sk) = kyber768_keypair().unwrap();
    let (ct, _) = kyber768_encapsulate(&pk).unwrap();
    assert_eq!(kyber768_encapsulate(&pk[..100]).err(), Some(BentengError::InternalError));
    assert_eq!(kyber768_encapsulate(&[]).err(), Some(BentengError::InternalError));
    assert_eq!(
        kyber768_decapsulate(&sk.as_slice()[..2399], &ct).err(),
        Some(BentengError::InternalError)
    );
    assert_eq!(
        kyber768_decapsulate(sk.as_slice(), &ct[..1087]).err(),
        Some(BentengError::InternalError)
    );
}

#[test]
fn kyber768_decapsulation_is_a_function_of_key_and_ciphertext() {
    let (pk, sk) = kyber768_keypair().unwrap();
    let (ct, _) = kyber768_encapsulate(&pk).unwrap();
    let a = kyber768_decapsulate(sk.as_slice(), &ct).unwrap();
    let b = kyber768_decapsulate(sk.as_slice(), &ct).unwrap();
    assert_eq!(a.as_slice(), b.as_slice());
    let mut other = ct.clone();
    other[0] ^= 1;
    let c = kyber768_decapsulate(sk.as_slice(), &other).unwrap();
    assert_ne!(a.as_slice(), c.as_slice());
}

#[test]
fn x25519_matches_the_reference_vectors() {
    let mut scalar = [0u8; 32];
    scalar.copy_from_slice(&unhex(
        "a546e36bf0527c9d3b16154b82465edd62144c0ac1fc5a18506a2244ba449ac4",
    ));
    let mut point = [0u8; 32];
    point.copy_from_slice(&unhex(
        "e6db6867583030db3594c1a424b15f7c726624ec26b3353b10a903a6d0ab1c4c",
    ));
    let shared = x25519_shared_secret(&scalar, &point).unwrap();
    assert_eq!(
        hex_encode(shared.as_slice()),
        "c3da55379de9c6908e94ea4df28d084f32eccf03491c71f754b4075577a28552"
    );

    let mut alice = [0u8; 32];
    alice.copy_from_slice(&unhex(
        "77076d0a7318a57d3c16c17251b26645df4c2f87ebc0992ab177fba51db92c2a",
    ));
    assert_eq!(
        hex_encode(&x25519_public_key(&alice)),
        "8520f0098930a754748b7ddcb43ef75a0dbf3a0d26381af4eba4a98eaa9b4e6a"
    );
}

#[test]
fn x25519_key_pairs_agree_on_a_shared_secret() {
    let a = x25519_keypair().unwrap();
    let b = x25519_keypair().unwrap();
    assert_ne!(a.public, b.public);
    let mut sa = [0u8; 32];
    sa.copy_from_slice(a.secret.as_slice());
    let mut sb = [0u8; 32];
    sb.copy_from_slice(b.secret.as_slice());
    assert_eq!(a.public, x25519_public_key(&sa));
    let ab = x25519_shared_secret(&sa, &b.public).unwrap();
    let ba = x25519_shared_secret(&sb, &a.public).unwrap();
    assert_eq!(ab.as_slice(), ba.as_slice());
    assert_eq!(ab.len(), 32);
}

#[test]
fn dilithium3_keys_and_signatures_have_their_lengths() {
    let (pk, sk) = dilithium3_keypair().unwrap();
    assert_eq!(pk.len(), 1952);
    assert_eq!(sk.len(), 4032);
    let sig = dilithium3_sign(&sk, b"message").unwrap();
    assert_eq!(sig.len(), 3309);
    assert_eq!(sig, dilithium3_sign(&sk, b"message").unwrap());
    assert_ne!(sig, dilithium3_sign(&sk, b"messagf").unwrap());
}

#[test]
fn dilithium3_verify_is_total_on_malformed_input() {
    let (pk, sk) = dilithium3_keypair().unwrap();
    let (other_pk, _) = dilithium3_keypair().unwrap();
    let sig = dilithium3_sign(&sk, b"message").unwrap();
    assert_eq!(dilithium3_verify(&pk, b"message", &sig), Ok(true));
    assert_eq!(dilithium3_verify(&pk, b"messagf", &sig), Ok(false));
    assert_eq!(dilithium3_verify(&other_pk, b"message", &sig), Ok(false));
    assert_eq!(dilithium3_verify(&pk[..1951], b"message", &sig), Ok(false));
    assert_eq!(dilithium3_verify(&pk, b"message", &sig[..3308]), Ok(false));
    assert_eq!(dilithium3_verify(&pk, b"message", &vec![0u8; 3310]), Ok(false));
    assert_eq!(dilithium3_verify(&pk, b"message", &[]), Ok(false));
    assert_eq!(dilithium3_verify(&[], b"message", &sig), Err(BentengError::InvalidSignature));
    let mut flipped = sig.clone();
    flipped[100] ^= 0x10;
    assert_eq!(dilithium3_verify(&pk, b"message", &flipped), Ok(false));
}

#[test]
fn dilithium3_sign_refuses_a_malformed_key() {
    assert_eq!(dilithium3_sign(&[0u8; 10], b"m").err(), Some(BentengError::InternalError));
    assert_eq!(dilithium3_sign(&[], b"m").err(), Some(BentengError::InternalError));
}

#[test]
fn random_bytes_have_the_length_asked_for_and_differ() {
    let a = random_bytes(32).unwrap();
    let b = random_bytes(32).unwrap();
    assert_eq!(a.len(), 32);
    assert_ne!(a, b);
    assert_eq!(random_bytes(0).unwrap().len(), 0);
    let mut buf = vec![0u8; 64];
    secure_random(&mut buf).unwrap();
    assert_eq!(buf.len(), 64);
    assert_ne!(buf, vec![0u8; 64]);
    let n1 = generate_nonce().unwrap();
    let n2 = generate_nonce().unwrap();
    assert_ne!(n1, n2);
}

#[test]
fn secrets_hold_their_bytes_and_scrubbing_clears() {
    let secret = Secret::new(vec![1, 2, 3]);
    assert_eq!(secret.as_slice(), &[1, 2, 3]);
    assert_eq!(secret.len(), 3);
    assert_eq!(secret.to_vec(), vec![1, 2, 3]);
    assert_eq!(Secret::from_slice(&[9, 8]).as_slice(), &[9, 8]);

    let mut key = [0xffu8; 32];
    scrub_key(&mut key);
    assert_eq!(key, [0u8; 32]);
    let mut buf = vec![5u8; 10];
    scrub(&mut buf);
    assert!(buf.is_empty());
}
