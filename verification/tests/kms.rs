use benteng::crypto::aead::aes_256_gcm_encrypt;
use benteng::crypto::cache::DerivationCache;
use benteng::crypto::kdf::hkdf_sha256_derive;
use benteng::crypto::kem::{kyber768_decapsulate, kyber768_encapsulate, kyber768_keypair};
use benteng::crypto::kms::{
    build_cache_key, combine_half_keys, derive_k1, derive_k2, derive_request_id, kid_for,
    DualControlConfig, DualControlKms, KmsGate,
};
use benteng::crypto::kms_storage::{
    approval_prefix, count_key, cutoff, decode_count, next_count, PersistedApproval,
};
use benteng::crypto::secret::Secret;
use benteng::envelope::kms_decrypt::{decrypt_with_gate_at, decrypt_with_kms};
use benteng::envelope::operations::EnvelopeOps;
use benteng::envelope::{AadExtensions, AlgorithmSet, Envelope};
use benteng::error::BentengError;

fn kms_with(require_quorum: bool, threshold: usize) -> DualControlKms {
    DualControlKms::new(DualControlConfig {
        require_quorum,
        quorum_threshold: threshold,
        ..Default::default()
    })
}

/// An envelope for the KMS: its payload is sealed under the dual-control key.
fn gated_envelope(public_key: &[u8], tenant: &[u8], policy: &[u8], path: &str, payload: &[u8]) -> Envelope {
    let (kem_ct, ss) = kyber768_encapsulate(public_key).unwrap();
    let key = build_cache_key(&kem_ct, policy, tenant, path);
    let rid = derive_request_id(&key);
    let k1 = derive_k1(ss.as_slice());
    let k2 = derive_k2(&rid, policy);
    let dek = combine_half_keys(&k1, &k2, tenant, policy, path);
    let mut env = Envelope {
        ver: 1,
        algs: AlgorithmSet {
            kem: "ML-KEM-768".into(),
            sig: "ML-DSA-65".into(),
            aead: "AES-256-GCM".into(),
            hybrid: false,
        },
        tenant_id: tenant.to_vec(),
        policy_id: policy.to_vec(),
        path: path.to_string(),
        ts_epoch_ms: 1_000_000,
        nonce: vec![3u8; 12],
        aad_ext: AadExtensions { device_attest_hash: None, required_algs: "kyber+dilithium".into() },
        kem_pub_ephem: None,
        kem_ct,
        sig: vec![],
        ct: vec![],
    };
    let aad = EnvelopeOps::build_aad(&env).to_cbor().unwrap();
    env.ct = aes_256_gcm_encrypt(&dek, &[3u8; 12], payload, &aad).unwrap();
    env
}

#[test]
fn test_dual_control_basic() {
    let config = DualControlConfig { require_quorum: false, ..Default::default() };
    let mut kms = DualControlKms::new(config);

    let kid = format!("{}-{}", hex::encode(&[1u8; 4]), hex::encode(&[2u8; 4]));
    kms.init_mock_hsm(&kid).unwrap();

    let public_key = kms.get_public_key(&kid).unwrap();
    let (ciphertext, _) = kyber768_encapsulate(&public_key).unwrap();

    let dek = kms.dual_decrypt(&ciphertext, &[2u8; 8], &[1u8; 16], "/test/path").unwrap();

    assert_eq!(dek.len(), 32);
}

#[test]
fn test_dual_control_with_quorum() {
    let config = DualControlConfig { require_quorum: true, quorum_threshold: 2, ..Default::default() };
    let mut kms = DualControlKms::new(config);

    let kid = format!("{}-{}", hex::encode(&[1u8; 4]), hex::encode(&[2u8; 4]));
    kms.init_mock_hsm(&kid).unwrap();

    let public_key = kms.get_public_key(&kid).unwrap();
    let (ciphertext, _) = kyber768_encapsulate(&public_key).unwrap();

    let mut request_data = Vec::new();
    request_data.extend_from_slice(&ciphertext);
    request_data.extend_from_slice(&[2u8; 8]);
    request_data.extend_from_slice(&[1u8; 16]);
    request_data.extend_from_slice(b"/test/path");

    let request_id_vec =
        hkdf_sha256_derive(&request_data, Some(b"benteng/request-id/v1"), b"", 32).unwrap();

    let mut request_id = [0u8; 32];
    request_id.copy_from_slice(request_id_vec.as_slice());

    let result = kms.dual_decrypt(&ciphertext, &[2u8; 8], &[1u8; 16], "/test/path");
    assert!(result.is_err());

    kms.add_approval(&request_id, "approver1").unwrap();
    kms.add_approval(&request_id, "approver2").unwrap();

    let dek = kms.dual_decrypt(&ciphertext, &[2u8; 8], &[1u8; 16], "/test/path").unwrap();

    assert_eq!(dek.len(), 32);

    assert!(kms.check_quorum(&request_id).unwrap());
}

#[test]
fn test_kms_decrypt() {
    let config = DualControlConfig { require_quorum: false, ..Default::default() };
    let mut kms = DualControlKms::new(config);

    let kid = format!("{}-{}", hex::encode(&[0xABu8; 4]), hex::encode(&[0x12u8; 4]));
    kms.init_mock_hsm(&kid).unwrap();

    assert!(kms.check_quorum(&[0u8; 32]).unwrap() == false);
}

#[test]
fn default_configuration_is_the_documented_one() {
    let c = DualControlConfig::default();
    assert_eq!(c.hsm_a_endpoint, "mock://hsm-a");
    assert_eq!(c.hsm_b_endpoint, "mock://hsm-b");
    assert!(c.require_quorum);
    assert_eq!(c.quorum_threshold, 2);
    assert_eq!(c.timeout_ms, 5000);
    assert_eq!(c.max_cache_entries, 100);
    assert_eq!(c.cache_ttl_secs, 300);
}

#[test]
fn key_identifier_is_the_hex_prefixes_joined() {
    assert_eq!(kid_for(&[1u8; 16], &[2u8; 8]), "01010101-02020202");
    assert_eq!(kid_for(b"tenant123", b"policy456"), "74656e61-706f6c69");
    assert_eq!(kid_for(&[0xAB], &[]), "ab-");
}

#[test]
fn the_key_is_hkdf_of_both_half_keys() {
    let (pk, sk) = kyber768_keypair().unwrap();
    let mut kms = kms_with(false, 0);
    kms.install_hsm_key("01010101-02020202", pk.clone(), Secret::new(sk.to_vec())).unwrap();
    assert_eq!(kms.get_public_key("01010101-02020202"), Ok(pk.clone()));
    let (ct, _) = kyber768_encapsulate(&pk).unwrap();
    let tenant = [1u8; 16];
    let policy = [2u8; 8];
    let dek = kms.dual_decrypt_at(&ct, &policy, &tenant, "/test/path", 1000).unwrap();

    let ss = kyber768_decapsulate(sk.as_slice(), &ct).unwrap();
    let k1 = hkdf_sha256_derive(ss.as_slice(), Some(b"benteng/hsm-a/k1/v1"), b"", 32).unwrap();
    let mut cache_key = ct.clone();
    cache_key.extend_from_slice(&policy);
    cache_key.extend_from_slice(&tenant);
    cache_key.extend_from_slice(b"/test/path");
    assert_eq!(build_cache_key(&ct, &policy, &tenant, "/test/path"), cache_key);
    let rid = hkdf_sha256_derive(&cache_key, Some(b"benteng/request-id/v1"), b"", 32).unwrap();
    assert_eq!(derive_request_id(&cache_key).as_slice(), rid.as_slice());
    let mut context = rid.to_vec();
    context.extend_from_slice(&policy);
    let k2 = hkdf_sha256_derive(&context, Some(b"benteng/hsm-b/k2/v1"), b"", 32).unwrap();
    assert_eq!(derive_k1(ss.as_slice()).as_slice(), k1.as_slice());
    assert_eq!(derive_k2(rid.as_slice(), &policy).as_slice(), k2.as_slice());
    let mut combined = k1.to_vec();
    combined.extend_from_slice(k2.as_slice());
    let mut info = tenant.to_vec();
    info.extend_from_slice(&policy);
    info.extend_from_slice(b"/test/path");
    let expected = hkdf_sha256_derive(&combined, Some(b"benteng/dek/v1"), &info, 32).unwrap();
    assert_eq!(&dek[..], expected.as_slice());
}

#[test]
fn quorum_gates_the_key_and_the_cache_spares_hsm_a() {
    let mut kms = kms_with(true, 2);
    kms.init_mock_hsm("01010101-02020202").unwrap();
    let pk = kms.get_public_key("01010101-02020202").unwrap();
    let (ct, _) = kyber768_encapsulate(&pk).unwrap();
    let tenant = [1u8; 16];
    let policy = [2u8; 8];
    let rid = derive_request_id(&build_cache_key(&ct, &policy, &tenant, "/p"));
    let short = Err(BentengError::KmsError("Insufficient quorum approvals".to_string()));

    assert_eq!(kms.hsm_a_call_count(), 0);
    assert_eq!(kms.dual_decrypt_at(&ct, &policy, &tenant, "/p", 1000), short);
    assert_eq!(kms.has_quorum(&rid), Ok(false));
    kms.add_approval(&rid, "approver1").unwrap();
    assert_eq!(kms.dual_decrypt_at(&ct, &policy, &tenant, "/p", 1000), short);
    // The same approver again does not make a quorum.
    kms.add_approval(&rid, "approver1").unwrap();
    assert_eq!(kms.has_quorum(&rid), Ok(false));
    assert_eq!(kms.dual_decrypt_at(&ct, &policy, &tenant, "/p", 1000), short);
    // An approval of another request does not count.
    kms.add_approval(&[0u8; 32], "approver2").unwrap();
    assert_eq!(kms.dual_decrypt_at(&ct, &policy, &tenant, "/p", 1000), short);
    assert_eq!(kms.hsm_a_call_count(), 4);

    kms.add_approval(&rid, "approver2").unwrap();
    assert_eq!(kms.has_quorum(&rid), Ok(true));
    let dek = kms.dual_decrypt_at(&ct, &policy, &tenant, "/p", 1000).unwrap();
    assert_eq!(kms.hsm_a_call_count(), 5);

    // Within the lifetime of the cached key HSM-A is not asked again.
    assert_eq!(kms.dual_decrypt_at(&ct, &policy, &tenant, "/p", 1000), Ok(dek));
    assert_eq!(kms.dual_decrypt_at(&ct, &policy, &tenant, "/p", 1299), Ok(dek));
    assert_eq!(kms.hsm_a_call_count(), 5);
    // At its expiry the key is derived again, to the same key.
    assert_eq!(kms.dual_decrypt_at(&ct, &policy, &tenant, "/p", 1300), Ok(dek));
    assert_eq!(kms.hsm_a_call_count(), 6);
    // Another path is another request and another key.
    assert_eq!(kms.dual_decrypt_at(&ct, &policy, &tenant, "/q", 1300), short);
    assert_eq!(kms.hsm_a_call_count(), 7);
}

#[test]
fn the_kms_refuses_missing_keys_and_malformed_ciphertexts() {
    let mut kms = kms_with(false, 0);
    let (pk, _) = kyber768_keypair().unwrap();
    let (ct, _) = kyber768_encapsulate(&pk).unwrap();
    assert_eq!(
        kms.dual_decrypt_at(&ct, &[2u8; 8], &[1u8; 16], "/p", 0),
        Err(BentengError::KmsError("KEM key not found in HSM-A".to_string()))
    );
    assert_eq!(kms.get_public_key("nope"), Err(BentengError::KmsError("Key not found".to_string())));
    kms.init_mock_hsm("01010101-02020202").unwrap();
    assert_eq!(
        kms.dual_decrypt_at(&ct[..100], &[2u8; 8], &[1u8; 16], "/p", 0),
        Err(BentengError::InternalError)
    );
    assert!(kms.dual_decrypt_at(&ct, &[2u8; 8], &[1u8; 16], "/p", 0).is_ok());
    // Short identifiers are taken whole for the key identifier.
    assert_eq!(
        kms.dual_decrypt_at(&ct, &[2u8; 2], &[1u8; 16], "/p", 0),
        Err(BentengError::KmsError("KEM key not found in HSM-A".to_string()))
    );
    kms.init_mock_hsm("01010101-0202").unwrap();
    assert!(kms.dual_decrypt_at(&ct, &[2u8; 2], &[1u8; 16], "/p", 0).is_ok());
    assert_eq!(
        kms.install_hsm_key("k", vec![1, 2, 3], Secret::new(vec![0; 2400])),
        Err(BentengError::InternalError)
    );
    assert_eq!(
        kms.install_hsm_key("k", vec![0; 1184], Secret::new(vec![0; 10])),
        Err(BentengError::InternalError)
    );
}

#[test]
fn a_lifetime_of_zero_caches_nothing_usable() {
    let mut kms = DualControlKms::new(DualControlConfig {
        require_quorum: false,
        cache_ttl_secs: 0,
        ..Default::default()
    });
    kms.init_mock_hsm("01010101-02020202").unwrap();
    let pk = kms.get_public_key("01010101-02020202").unwrap();
    let (ct, _) = kyber768_encapsulate(&pk).unwrap();
    let a = kms.dual_decrypt_at(&ct, &[2u8; 8], &[1u8; 16], "/p", 5).unwrap();
    let b = kms.dual_decrypt_at(&ct, &[2u8; 8], &[1u8; 16], "/p", 5).unwrap();
    assert_eq!(a, b);
    assert_eq!(kms.hsm_a_call_count(), 2);
}

#[test]
fn the_cache_is_bounded_and_drops_what_has_run_out() {
    let mut cache = DerivationCache::new(3);
    assert_eq!(cache.len(), 0);
    cache.store(vec![1], &[1u8; 32], 10, 0);
    cache.store(vec![2], &[2u8; 32], 20, 0);
    cache.store(vec![3], &[3u8; 32], 30, 0);
    assert_eq!(cache.len(), 3);
    assert_eq!(cache.lookup(&[1], 9), Some([1u8; 32]));
    assert_eq!(cache.lookup(&[1], 10), None);
    assert_eq!(cache.lookup(&[9], 0), None);

    // Full at the time 15: the entry that ran out at 10 goes, the others stay.
    cache.store(vec![4], &[4u8; 32], 40, 15);
    assert_eq!(cache.len(), 3);
    assert_eq!(cache.lookup(&[1], 0), None);
    assert_eq!(cache.lookup(&[2], 15), Some([2u8; 32]));
    assert_eq!(cache.lookup(&[3], 15), Some([3u8; 32]));
    assert_eq!(cache.lookup(&[4], 15), Some([4u8; 32]));

    // Full and nothing has run out: one entry goes, the new one is there.
    cache.store(vec![5], &[5u8; 32], 50, 15);
    assert_eq!(cache.len(), 3);
    assert_eq!(cache.lookup(&[5], 15), Some([5u8; 32]));
    let left = [2u8, 3, 4].iter().filter(|k| cache.lookup(&[**k], 15).is_some()).count();
    assert_eq!(left, 2);

    // Storing under a key that is there replaces its entry.
    cache.store(vec![5], &[6u8; 32], 60, 15);
    assert_eq!(cache.lookup(&[5], 55), Some([6u8; 32]));
    assert!(cache.len() <= 3);

    let mut none = DerivationCache::new(0);
    none.store(vec![1], &[1u8; 32], 10, 0);
    none.store(vec![2], &[2u8; 32], 10, 0);
    assert_eq!(none.len(), 1);
    assert_eq!(none.lookup(&[2], 0), Some([2u8; 32]));
}

#[test]
fn the_kms_cache_stays_within_its_bound() {
    let mut kms = DualControlKms::new(DualControlConfig {
        require_quorum: false,
        max_cache_entries: 2,
        ..Default::default()
    });
    kms.init_mock_hsm("01010101-02020202").unwrap();
    let pk = kms.get_public_key("01010101-02020202").unwrap();
    let (ct, _) = kyber768_encapsulate(&pk).unwrap();
    let mut deks = Vec::new();
    for path in ["/a", "/b", "/c", "/d"] {
        deks.push(kms.dual_decrypt_at(&ct, &[2u8; 8], &[1u8; 16], path, 100).unwrap());
    }
    assert_eq!(kms.hsm_a_call_count(), 4);
    assert_eq!(kms.cached_keys(), 2);
    // The key stored last is cached.
    assert_eq!(kms.dual_decrypt_at(&ct, &[2u8; 8], &[1u8; 16], "/d", 100), Ok(deks[3]));
    assert_eq!(kms.hsm_a_call_count(), 4);
    // Of the four, at most two were kept.
    for path in ["/a", "/b", "/c"] {
        kms.dual_decrypt_at(&ct, &[2u8; 8], &[1u8; 16], path, 100).unwrap();
    }
    assert!(kms.hsm_a_call_count() >= 6);
}

#[test]
fn decrypting_through_the_kms_opens_what_was_sealed_for_it() {
    let mut kms = kms_with(true, 2);
    kms.init_mock_hsm("74656e61-706f6c69").unwrap();
    let pk = kms.get_public_key("74656e61-706f6c69").unwrap();
    let env = gated_envelope(&pk, b"tenant123", b"policy456", "/payments/transfer", b"hello");
    let rid = derive_request_id(&build_cache_key(&env.kem_ct, b"policy456", b"tenant123", "/payments/transfer"));

    assert_eq!(
        decrypt_with_gate_at(&env, &mut kms, 10),
        Err(BentengError::KmsError("Insufficient quorum approvals".to_string()))
    );
    kms.add_approval(&rid, "alice").unwrap();
    kms.add_approval(&rid, "bob").unwrap();
    assert_eq!(decrypt_with_gate_at(&env, &mut kms, 10), Ok(b"hello".to_vec()));
    assert_eq!(decrypt_with_kms(&env, &mut kms), Ok(b"hello".to_vec()));

    // A key that does not open the envelope is an AEAD failure.
    let mut tampered = env.duplicate();
    tampered.ts_epoch_ms += 1;
    assert_eq!(decrypt_with_gate_at(&tampered, &mut kms, 10), Err(BentengError::AeadFailure));
    let mut bad_nonce = env.duplicate();
    bad_nonce.nonce.pop();
    assert_eq!(decrypt_with_gate_at(&bad_nonce, &mut kms, 10), Err(BentengError::AeadFailure));

    // An envelope sealed for direct opening does not open through the KMS.
    let (_, sig_sk) = benteng::crypto::sig::dilithium3_keypair().unwrap();
    let direct = EnvelopeOps::encrypt_and_sign(b"hello", b"tenant123", b"policy456", "/x", &pk, &sig_sk, false).unwrap();
    let mut open = kms_with(false, 0);
    open.init_mock_hsm("74656e61-706f6c69").unwrap();
    assert_eq!(decrypt_with_gate_at(&direct, &mut open, 10), Err(BentengError::AeadFailure));
}

#[test]
fn approval_records_are_keyed_and_encoded_as_documented() {
    let approval = PersistedApproval {
        request_id: vec![1, 2, 3, 4],
        approver: "approver1".to_string(),
        timestamp: 1234567890,
        signature: vec![5, 6, 7, 8],
    };
    assert_eq!(approval.key(), "approval:01020304:approver1");
    assert_eq!(approval_prefix(&[1, 2, 3, 4]), "approval:01020304:");
    assert_eq!(count_key(&[1, 2, 3, 4]), "count:01020304");
    assert_eq!(
        String::from_utf8(approval.to_json()).unwrap(),
        "{\"request_id\":[1,2,3,4],\"approver\":\"approver1\",\"timestamp\":1234567890,\"signature\":[5,6,7,8]}"
    );
    let value: serde_json::Value = serde_json::from_slice(&approval.to_json()).unwrap();
    assert_eq!(value["approver"].as_str(), Some("approver1"));
    assert_eq!(value["timestamp"].as_u64(), Some(1234567890));
}

#[test]
fn approval_counters_are_eight_little_endian_bytes() {
    assert_eq!(decode_count(None), 0);
    assert_eq!(decode_count(Some(&[1, 0, 0, 0, 0, 0, 0, 0])), 1);
    assert_eq!(decode_count(Some(&[0, 1, 0, 0, 0, 0, 0, 0])), 256);
    assert_eq!(decode_count(Some(&[1, 2, 3])), 0);
    assert_eq!(decode_count(Some(&[])), 0);
    assert_eq!(decode_count(Some(&[0xff; 8])), u64::MAX);

    assert_eq!(next_count(None), 1u64.to_le_bytes().to_vec());
    assert_eq!(next_count(Some(&1u64.to_le_bytes())), 2u64.to_le_bytes().to_vec());
    assert_eq!(next_count(Some(&255u64.to_le_bytes())), 256u64.to_le_bytes().to_vec());
    assert_eq!(next_count(Some(&[9, 9])), 1u64.to_le_bytes().to_vec());
    assert_eq!(next_count(Some(&[0xff; 8])), vec![0xff; 8]);
}

#[test]
fn approvals_older_than_the_cutoff_are_due_for_cleanup() {
    assert_eq!(cutoff(1000, 300), 700);
    assert_eq!(cutoff(100, 300), 0);
    let approval = |timestamp: u64| PersistedApproval {
        request_id: vec![],
        approver: String::new(),
        timestamp,
        signature: vec![],
    };
    assert!(approval(699).is_expired(1000, 300));
    assert!(!approval(700).is_expired(1000, 300));
    assert!(!approval(0).is_expired(100, 300));
}
