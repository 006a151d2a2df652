use benteng::admission::{RateLimitBucket, RateLimiter, ReplayCache};
use benteng::crypto::aead::aes_256_gcm_encrypt;
use benteng::crypto::hash::sha256_digest;
use benteng::crypto::kem::{kyber768_encapsulate, kyber768_keypair};
use benteng::crypto::kms::{
    build_cache_key, combine_half_keys, derive_k1, derive_k2, derive_request_id, DualControlConfig,
    DualControlKms,
};
use benteng::crypto::sig::{dilithium3_keypair, dilithium3_sign};
use benteng::envelope::operations::EnvelopeOps;
use benteng::envelope::{AadExtensions, AlgorithmSet, Envelope};
use benteng::gateway::{
    policy_key, rate_key, receipt_hash, server_kid, Gateway, GatewayReply, VerifyResponse,
};
use benteng::hex::hex_encode;
use benteng::policy::Policy;
use benteng::transparency::merkle::verify_inclusion;
use benteng::transparency::TransparencyLog;

const NOW: u64 = 1_700_000_000_000;

/// A gateway that knows one client key for the tenants of these tests, and
/// the secret key that belongs to it.
fn gateway(require_quorum: bool) -> (Gateway, Vec<u8>) {
    let kms = DualControlKms::new(DualControlConfig {
        require_quorum,
        quorum_threshold: 2,
        ..Default::default()
    });
    let mut gw = Gateway::new(kms, TransparencyLog::new());
    let (pk, sk) = dilithium3_keypair().unwrap();
    for tenant in [&b"tenant123"[..], b"other-tenant", b"tenaXYZ", b"tenant999"] {
        gw.register_client_key(tenant, pk.clone());
    }
    (gw, sk)
}

fn signed(sk: &[u8], mut env: Envelope) -> Envelope {
    env.sig = Vec::new();
    let aad = EnvelopeOps::build_aad(&env).to_cbor().unwrap();
    let msg = EnvelopeOps::build_signature_message(&env, &aad).unwrap();
    env.sig = dilithium3_sign(sk, &msg).unwrap();
    env
}

fn envelope_at(ts: u64, mark: u8) -> Envelope {
    Envelope {
        ver: 1,
        algs: AlgorithmSet {
            kem: "ML-KEM-768".into(),
            sig: "ML-DSA-65".into(),
            aead: "AES-256-GCM".into(),
            hybrid: false,
        },
        tenant_id: b"tenant123".to_vec(),
        policy_id: b"policy456".to_vec(),
        path: "/payments/transfer".to_string(),
        ts_epoch_ms: ts,
        nonce: vec![mark; 12],
        aad_ext: AadExtensions { device_attest_hash: None, required_algs: "kyber+dilithium".into() },
        kem_pub_ephem: None,
        kem_ct: vec![0; 1088],
        sig: vec![mark, (mark as u16 * 7 % 251) as u8, 1, 2, 3],
        ct: vec![1, 2, 3],
    }
}

fn body_at(sk: &[u8], ts: u64, mark: u8) -> Vec<u8> {
    signed(sk, envelope_at(ts, mark)).to_cbor().unwrap()
}

fn accepted(reply: GatewayReply<VerifyResponse>) -> VerifyResponse {
    match reply {
        GatewayReply::Accepted(response) => response,
        GatewayReply::Refused(status, error) => panic!("refused: {} {}", status, error.reason),
    }
}

fn refusal<T>(reply: GatewayReply<T>) -> (u16, String, String) {
    match reply {
        GatewayReply::Accepted(_) => panic!("accepted"),
        GatewayReply::Refused(status, error) => (status, error.decision, error.reason),
    }
}

fn rejected(status: u16, reason: &str) -> (u16, String, String) {
    (status, "REJECTED".to_string(), reason.to_string())
}

fn gated_envelope(sk: &[u8], public_key: &[u8], payload: &[u8], ts: u64) -> Envelope {
    let (kem_ct, ss) = kyber768_encapsulate(public_key).unwrap();
    let mut env = envelope_at(ts, 9);
    env.kem_ct = kem_ct;
    let key = build_cache_key(&env.kem_ct, &env.policy_id, &env.tenant_id, &env.path);
    let rid = derive_request_id(&key);
    let dek = combine_half_keys(
        &derive_k1(ss.as_slice()),
        &derive_k2(&rid, &env.policy_id),
        &env.tenant_id,
        &env.policy_id,
        &env.path,
    );
    let aad = EnvelopeOps::build_aad(&env).to_cbor().unwrap();
    env.ct = aes_256_gcm_encrypt(&dek, &[9u8; 12], payload, &aad).unwrap();
    signed(sk, env)
}

#[test]
fn verify_of_a_sealed_envelope_is_ok_with_claims_and_receipt() {
    let (server_pk, _) = kyber768_keypair().unwrap();
    let (sig_pk, sig_sk) = dilithium3_keypair().unwrap();
    let envelope = EnvelopeOps::encrypt_and_sign(
        b"hello",
        b"tenant123",
        b"policy456",
        "/payments/transfer",
        &server_pk,
        &sig_sk,
        false,
    )
    .unwrap();
    let body = envelope.to_cbor().unwrap();
    let (mut gw, _) = gateway(false);
    // Before the client's key is known the envelope does not verify.
    gw.register_client_key(b"tenant123", vec![7; 1952]);
    assert_eq!(refusal(gw.verify(&body, envelope.ts_epoch_ms)), rejected(400, "Invalid envelope format"));
    gw.register_client_key(b"tenant123", sig_pk);
    let now = envelope.ts_epoch_ms + 5;
    let reply = gw.verify(&body, now);
    assert_eq!(reply.status(), 200);
    let response = accepted(reply);
    assert_eq!(response.decision, "OK");
    assert_eq!(response.claims.path, "/payments/transfer");
    assert_eq!(response.claims.alg, "kyber+dilithium");
    assert_eq!(response.claims.age_ms, "5");
    assert_eq!(response.kid, "btk/ten-74656e61/server-sig/ML-DSA-65/v1");
    assert_eq!(response.receipt.tlog_hash.len(), 64);
    assert!(response.receipt.tlog_hash.chars().all(|c| c.is_ascii_hexdigit()));
    assert_eq!(response.receipt.tlog_index, 0);
    assert_eq!(response.receipt.checkpoint, "checkpoint-1");

    // The receipt is in the log before the reply is made.
    let log = gw.transparency_log();
    assert_eq!(log.len(), 1);
    let entry = log.get_entry(0).unwrap();
    assert_eq!(entry.typ, "verify");
    assert_eq!(entry.v, 1);
    assert_eq!(entry.ts, now);
    assert_eq!(entry.rc, 0);
    assert_eq!(entry.ten, b"tenant123".to_vec());
    assert_eq!(entry.pol, b"policy456".to_vec());
    assert_eq!(entry.kid, response.kid);
    assert_eq!(entry.sig_h, sha256_digest(&envelope.sig));
    let mut hashed = b"verify".to_vec();
    hashed.extend_from_slice(b"tenant123");
    hashed.extend_from_slice(b"policy456");
    hashed.extend_from_slice(&sha256_digest(&envelope.sig));
    assert_eq!(entry.hdr_h, sha256_digest(&hashed));
    assert_eq!(response.receipt.tlog_hash, hex_encode(&entry.hdr_h));
    let root = log.get_root_hash().unwrap();
    let proof = log.get_inclusion_proof(0).unwrap();
    assert!(verify_inclusion(&entry.leaf_hash(), 0, 1, &proof, &root));
}

#[test]
fn an_envelope_whose_signature_does_not_verify_is_refused_and_leaves_no_trace() {
    let (mut gw, sk) = gateway(false);
    let (_, other_sk) = dilithium3_keypair().unwrap();
    let genuine = signed(&sk, envelope_at(NOW, 1));
    // Fresh and never seen, but: not signed at all, signed with another key,
    // changed after signing, without its signature, of a tenant without a key.
    let unsigned = envelope_at(NOW, 1);
    let foreign = signed(&other_sk, envelope_at(NOW, 1));
    let mut changed = genuine.clone();
    changed.path = "/payments/refund".to_string();
    let mut later = genuine.clone();
    later.ts_epoch_ms += 1;
    let mut swapped = genuine.clone();
    swapped.ct = vec![3, 2, 1];
    let mut bare = genuine.clone();
    bare.sig = Vec::new();
    let mut stranger = envelope_at(NOW, 1);
    stranger.tenant_id = b"nobody".to_vec();
    let stranger = signed(&sk, stranger);
    for envelope in [unsigned, foreign, changed, later, swapped, bare, stranger] {
        let body = envelope.to_cbor().unwrap();
        let reply = gw.verify(&body, NOW);
        assert_eq!(reply.status(), 400);
        // The reply is that of a malformed body: it does not tell which check failed.
        assert_eq!(refusal(reply), rejected(400, "Invalid envelope format"));
        assert_eq!(refusal(gw.verify(b"junk", NOW)), rejected(400, "Invalid envelope format"));
    }
    // Nothing was logged, no signature was put on record, no token was taken.
    assert_eq!(gw.transparency_log().len(), 0);
    assert_eq!(gw.verify(&genuine.to_cbor().unwrap(), NOW).status(), 200);
    for i in 2..101u8 {
        assert_eq!(gw.verify(&body_at(&sk, NOW, i), NOW).status(), 200);
    }
    assert_eq!(gw.verify(&body_at(&sk, NOW, 101), NOW).status(), 429);
    assert_eq!(gw.transparency_log().len(), 100);
}

#[test]
fn the_same_envelope_twice_is_a_replay() {
    let (mut gw, sk) = gateway(false);
    let body = body_at(&sk, NOW, 1);
    assert_eq!(gw.verify(&body, NOW).status(), 200);
    assert_eq!(refusal(gw.verify(&body, NOW + 9_000)), rejected(409, "Replay detected"));
    assert_eq!(gw.transparency_log().len(), 1);
    // Another signature is another request.
    assert_eq!(gw.verify(&body_at(&sk, NOW, 2), NOW + 9_000).status(), 200);
    assert_eq!(gw.transparency_log().len(), 2);
}

#[test]
fn a_replay_is_admitted_again_after_the_window() {
    let (mut gw, sk) = gateway(false);
    // Stamped in the future, so that freshness does not decide.
    let body = body_at(&sk, NOW + 1_000_000, 1);
    assert_eq!(gw.verify(&body, NOW).status(), 200);
    assert_eq!(gw.verify(&body, NOW + 299_999).status(), 409);
    assert_eq!(gw.verify(&body, NOW + 300_000).status(), 200);
    assert_eq!(gw.verify(&body, NOW + 300_001).status(), 409);
}

#[test]
fn an_envelope_of_a_minute_ago_is_too_old() {
    let (mut gw, sk) = gateway(false);
    assert_eq!(refusal(gw.verify(&body_at(&sk, NOW - 60_000, 1), NOW)), rejected(400, "Envelope too old"));
    assert_eq!(refusal(gw.verify(&body_at(&sk, NOW - 30_001, 2), NOW)), rejected(400, "Envelope too old"));
    assert_eq!(gw.verify(&body_at(&sk, NOW - 30_000, 3), NOW).status(), 200);
    assert_eq!(gw.transparency_log().len(), 1);
    // A stale envelope was put on record: sent again it is a replay.
    assert_eq!(gw.verify(&body_at(&sk, NOW - 60_000, 1), NOW).status(), 409);
}

#[test]
fn the_hundred_and_first_verify_in_a_second_is_rate_limited() {
    let (mut gw, sk) = gateway(false);
    for i in 0..100u8 {
        assert_eq!(gw.verify(&body_at(&sk, NOW, i), NOW).status(), 200);
    }
    assert_eq!(refusal(gw.verify(&body_at(&sk, NOW, 100), NOW)), rejected(429, "Rate limit exceeded"));
    assert_eq!(gw.verify(&body_at(&sk, NOW, 100), NOW + 99).status(), 429);
    assert_eq!(gw.transparency_log().len(), 100);
    // One second later ten tokens are back.
    for i in 101..111u8 {
        assert_eq!(gw.verify(&body_at(&sk, NOW, i), NOW + 1_099).status(), 200);
    }
    assert_eq!(gw.verify(&body_at(&sk, NOW, 111), NOW + 1_099).status(), 429);
    // The request that was limited was not put on record as seen.
    assert_eq!(gw.verify(&body_at(&sk, NOW, 100), NOW + 1_200).status(), 200);
}

#[test]
fn rate_buckets_are_per_tenant_prefix_and_policy_prefix() {
    let (mut gw, sk) = gateway(false);
    for i in 0..100u8 {
        assert_eq!(gw.verify(&body_at(&sk, NOW, i), NOW).status(), 200);
    }
    assert_eq!(gw.verify(&body_at(&sk, NOW, 100), NOW).status(), 429);
    let mut other = envelope_at(NOW, 101);
    other.tenant_id = b"other-tenant".to_vec();
    assert_eq!(gw.verify(&signed(&sk, other).to_cbor().unwrap(), NOW).status(), 200);
    // The first four bytes make the prefix.
    let mut same_prefix = envelope_at(NOW, 102);
    same_prefix.tenant_id = b"tenaXYZ".to_vec();
    assert_eq!(gw.verify(&signed(&sk, same_prefix).to_cbor().unwrap(), NOW).status(), 429);
}

#[test]
fn a_body_that_is_no_valid_envelope_is_refused_and_changes_nothing() {
    let (mut gw, sk) = gateway(false);
    for body in [vec![], b"junk".to_vec(), {
        let mut b = body_at(&sk, NOW, 1);
        b.push(0);
        b
    }, {
        let mut e = envelope_at(NOW, 1);
        e.tenant_id = vec![];
        e.to_cbor().unwrap()
    }, {
        let mut e = envelope_at(NOW, 1);
        e.path = "no-slash".into();
        e.to_cbor().unwrap()
    }] {
        assert_eq!(refusal(gw.verify(&body, NOW)), rejected(400, "Invalid envelope format"));
        assert_eq!(refusal(gw.decrypt(&body, NOW).reply), rejected(400, "Invalid envelope format"));
    }
    assert_eq!(gw.transparency_log().len(), 0);
    // No token was taken.
    for i in 0..100u8 {
        assert_eq!(gw.verify(&body_at(&sk, NOW, i), NOW).status(), 200);
    }
}

fn stored_policy(max_age_ms: u64) -> Policy {
    Policy {
        tenant_id: "tenant123".to_string(),
        policy_id: "policy456".to_string(),
        path: "/payments/transfer".to_string(),
        required_algs: "kyber+dilithium".to_string(),
        max_age_ms,
        max_body_bytes: 65_536,
        require_device_attest: false,
        hybrid_allowed: true,
        replay_ttl_ms: 30_000,
        version: 2,
    }
}

#[test]
fn a_cached_policy_sets_the_freshness_window() {
    let (mut gw, sk) = gateway(false);
    let key = policy_key(b"tenant123", b"policy456", "/payments/transfer");
    assert_eq!(key, "74656e61-706f6c69-/payments/transfer");
    gw.cache_policy(&key, stored_policy(120_000));
    assert_eq!(gw.verify(&body_at(&sk, NOW - 60_000, 1), NOW).status(), 200);
    assert_eq!(refusal(gw.verify(&body_at(&sk, NOW - 120_001, 2), NOW)), rejected(400, "Envelope too old"));
    // Another path falls back to the default.
    let mut other = envelope_at(NOW - 60_000, 3);
    other.path = "/other".into();
    assert_eq!(gw.verify(&signed(&sk, other).to_cbor().unwrap(), NOW).status(), 400);
}

#[test]
fn a_cached_policy_of_another_tenant_is_a_mismatch() {
    let (mut gw, sk) = gateway(false);
    gw.kms_mut().init_mock_hsm("74656e61-706f6c69").unwrap();
    let pk = gw.kms_mut().get_public_key("74656e61-706f6c69").unwrap();
    let key = policy_key(b"tenant123", b"policy456", "/payments/transfer");
    gw.cache_policy(&key, stored_policy(30_000));
    assert_eq!(gw.verify(&body_at(&sk, NOW, 1), NOW).status(), 200);

    // The same four-byte prefix, another tenant: the cached policy is not its own.
    let mut alias = envelope_at(NOW, 2);
    alias.tenant_id = b"tenant999".to_vec();
    assert_eq!(refusal(gw.verify(&signed(&sk, alias).to_cbor().unwrap(), NOW)), rejected(400, "Policy mismatch"));
    // Other algorithms than the policy requires.
    let mut algs = envelope_at(NOW, 3);
    algs.aad_ext.required_algs = "kyber".into();
    assert_eq!(refusal(gw.verify(&signed(&sk, algs).to_cbor().unwrap(), NOW)), rejected(400, "Policy mismatch"));
    // A mismatch comes before staleness.
    let mut old = envelope_at(NOW - 60_000, 4);
    old.policy_id = b"policy999".to_vec();
    assert_eq!(refusal(gw.verify(&signed(&sk, old).to_cbor().unwrap(), NOW)), rejected(400, "Policy mismatch"));
    assert_eq!(gw.transparency_log().len(), 1);

    // Decrypt judges the policy alike, before the key is asked for.
    let mut gated = gated_envelope(&sk, &pk, b"hello", NOW);
    assert_eq!(gw.decrypt(&gated.to_cbor().unwrap(), NOW).reply.status(), 200);
    gated.tenant_id = b"tenant999".to_vec();
    let calls = gw.kms_mut().hsm_a_call_count();
    let outcome = gw.decrypt(&gated.to_cbor().unwrap(), NOW);
    assert_eq!(refusal(outcome.reply), rejected(400, "Policy mismatch"));
    assert!(outcome.failure.is_none());
    assert_eq!(gw.kms_mut().hsm_a_call_count(), calls);
}

#[test]
fn decrypt_needs_the_quorum_and_succeeds_after_two_approvals() {
    let (mut gw, sk) = gateway(true);
    gw.kms_mut().init_mock_hsm("74656e61-706f6c69").unwrap();
    let pk = gw.kms_mut().get_public_key("74656e61-706f6c69").unwrap();
    let env = gated_envelope(&sk, &pk, b"hello", NOW);
    let body = env.to_cbor().unwrap();

    let first = gw.decrypt(&body, NOW);
    assert_eq!(refusal(first.reply), rejected(400, "Decrypt failed"));
    assert!(first.payload.is_none());
    assert_eq!(
        first.failure,
        Some(benteng::BentengError::KmsError("Insufficient quorum approvals".to_string()))
    );
    assert_eq!(gw.transparency_log().len(), 0);

    let rid = derive_request_id(&build_cache_key(&env.kem_ct, &env.policy_id, &env.tenant_id, &env.path));
    gw.kms_mut().add_approval(&rid, "approver1").unwrap();
    assert_eq!(gw.decrypt(&body, NOW).reply.status(), 400);
    gw.kms_mut().add_approval(&rid, "approver2").unwrap();

    let calls_before = gw.kms_mut().hsm_a_call_count();
    let outcome = gw.decrypt(&body, NOW);
    assert_eq!(outcome.reply.status(), 200);
    assert_eq!(outcome.payload, Some(b"hello".to_vec()));
    let response = match outcome.reply {
        GatewayReply::Accepted(r) => r,
        GatewayReply::Refused(..) => panic!("refused"),
    };
    assert_eq!(response.decision, "OK");
    assert_eq!(response.kid, "btk/ten-74656e61/server-kem/ML-KEM-768/v1");
    assert_eq!(response.receipt.tlog_hash.len(), 64);
    assert_eq!(response.receipt.tlog_index, 0);
    assert_eq!(gw.kms_mut().hsm_a_call_count(), calls_before + 1);

    let entry = gw.transparency_log().get_entry(0).unwrap();
    assert_eq!(entry.typ, "decrypt");
    assert_eq!(entry.kid, response.kid);
    assert_eq!(entry.hdr_h, receipt_hash("decrypt", b"tenant123", b"policy456", &env.nonce));
    assert_eq!(entry.sig_h, sha256_digest(&env.sig));
    assert_eq!(response.receipt.tlog_hash, hex_encode(&entry.hdr_h));

    // A repeat within the lifetime of the cached key does not ask HSM-A.
    let again = gw.decrypt(&body, NOW + 1_000);
    assert_eq!(again.reply.status(), 200);
    assert_eq!(again.payload, Some(b"hello".to_vec()));
    assert_eq!(gw.kms_mut().hsm_a_call_count(), calls_before + 1);
    assert_eq!(gw.transparency_log().len(), 2);
}

#[test]
fn decrypt_collapses_every_failure_of_key_and_cipher() {
    let (mut gw, sk) = gateway(false);
    // No key in HSM-A.
    assert_eq!(refusal(gw.decrypt(&body_at(&sk, NOW, 1), NOW).reply), rejected(400, "Decrypt failed"));
    gw.kms_mut().init_mock_hsm("74656e61-706f6c69").unwrap();
    let pk = gw.kms_mut().get_public_key("74656e61-706f6c69").unwrap();
    // A ciphertext that the key does not open.
    let mut env = gated_envelope(&sk, &pk, b"hello", NOW);
    env.ct[0] ^= 1;
    assert_eq!(refusal(gw.decrypt(&env.to_cbor().unwrap(), NOW).reply), rejected(400, "Decrypt failed"));
    // Stale comes before the key.
    let old = gated_envelope(&sk, &pk, b"hello", NOW - 60_000);
    assert_eq!(refusal(gw.decrypt(&old.to_cbor().unwrap(), NOW).reply), rejected(400, "Envelope too old"));
    assert_eq!(gw.transparency_log().len(), 0);
}

#[test]
fn decrypt_is_rate_limited_under_its_own_key() {
    let (mut gw, sk) = gateway(false);
    gw.kms_mut().init_mock_hsm("74656e61-706f6c69").unwrap();
    let pk = gw.kms_mut().get_public_key("74656e61-706f6c69").unwrap();
    let body = gated_envelope(&sk, &pk, b"hello", NOW).to_cbor().unwrap();
    for _ in 0..100 {
        assert_eq!(gw.decrypt(&body, NOW).reply.status(), 200);
    }
    assert_eq!(refusal(gw.decrypt(&body, NOW).reply), rejected(429, "Rate limit exceeded"));
    // Verify has a bucket of its own.
    assert_eq!(gw.verify(&body, NOW).status(), 200);
    assert_eq!(gw.decrypt(&body, NOW + 100).reply.status(), 200);
}

#[test]
fn receipts_are_logged_in_the_order_of_the_requests() {
    let (mut gw, sk) = gateway(false);
    let mut last = None;
    for i in 0..5u8 {
        let response = accepted(gw.verify(&body_at(&sk, NOW, i), NOW + i as u64));
        assert_eq!(response.receipt.tlog_index, i as usize);
        assert_eq!(response.receipt.checkpoint, format!("checkpoint-{}", i + 1));
        if let Some(previous) = last {
            assert!(previous < response.receipt.tlog_index);
        }
        last = Some(response.receipt.tlog_index);
    }
}

#[test]
fn keys_and_identifiers_have_the_documented_shape() {
    assert_eq!(rate_key("verify", b"tenant123", b"policy456"), "verify-74656e61-706f6c69");
    assert_eq!(rate_key("decrypt", &[1], &[]), "decrypt-01-");
    assert_eq!(server_kid(b"tenant123", "sig", "ML-DSA-65"), "btk/ten-74656e61/server-sig/ML-DSA-65/v1");
    assert_eq!(server_kid(&[0xab; 16], "kem", "ML-KEM-768"), "btk/ten-abababab/server-kem/ML-KEM-768/v1");
    let health = Gateway::health(77);
    assert_eq!(health.status, "healthy");
    assert_eq!(health.version, "0.1.0");
    assert_eq!(health.timestamp, 77);
}

#[test]
fn replay_cache_keeps_a_key_for_its_window() {
    let mut cache = ReplayCache::new(300_000);
    assert!(cache.check_and_record(b"a", 1_000));
    assert!(!cache.check_and_record(b"a", 1_000));
    assert!(!cache.check_and_record(b"a", 300_999));
    assert!(cache.check_and_record(b"b", 300_999));
    assert_eq!(cache.len(), 2);
    // At the age of the window the record is dropped and the key admitted again.
    assert!(cache.check_and_record(b"a", 301_000));
    assert!(!cache.check_and_record(b"a", 301_001));
    // A clock that went back leaves the record at age zero.
    assert!(!cache.check_and_record(b"a", 5));
    assert_eq!(cache.len(), 2);
    cache.evict(1_000_000);
    assert_eq!(cache.len(), 0);

    let mut none = ReplayCache::new(0);
    assert!(none.check_and_record(b"a", 5));
    assert!(none.check_and_record(b"a", 5));

    let mut kinds = ReplayCache::new(1_000);
    assert_eq!(kinds.guard(b"k", 0), Ok(()));
    assert_eq!(kinds.guard(b"k", 999), Err(benteng::BentengError::Replay));
    assert_eq!(kinds.guard(b"k", 1_000), Ok(()));
}

#[test]
fn token_bucket_refills_by_elapsed_time_up_to_capacity() {
    let mut bucket = RateLimitBucket::new(100, 10, 1_000);
    assert_eq!(bucket.tokens_milli, 100_000);
    assert!(bucket.try_consume(1, 1_000));
    assert_eq!(bucket.tokens_milli, 99_000);
    // 250 ms bring 2.5 tokens, capped at the capacity.
    assert!(bucket.try_consume(1, 1_250));
    assert_eq!(bucket.tokens_milli, 99_000);
    assert_eq!(bucket.last_update_ms, 1_250);
    for _ in 0..99 {
        assert!(bucket.try_consume(1, 1_250));
    }
    assert_eq!(bucket.tokens_milli, 0);
    assert!(!bucket.try_consume(1, 1_250));
    assert!(!bucket.try_consume(1, 1_349));
    assert_eq!(bucket.tokens_milli, 990);
    assert!(bucket.try_consume(1, 1_350));
    assert_eq!(bucket.tokens_milli, 0);
    // tokens = min(capacity, tokens + elapsed * refill)
    assert!(bucket.try_consume(3, 2_000));
    assert_eq!(bucket.tokens_milli, 6_500 - 3_000);
    assert!(!bucket.try_consume(100, 2_000));
    assert_eq!(bucket.tokens_milli, 3_500);
    // A clock that went back brings nothing.
    assert!(bucket.try_consume(1, 5));
    assert_eq!(bucket.tokens_milli, 2_500);
    assert_eq!(bucket.last_update_ms, 5);
    // A long pause fills the bucket and no more.
    assert!(bucket.try_consume(100, u64::MAX));
    assert_eq!(bucket.tokens_milli, 0);

    let mut still = RateLimitBucket::new(2, 0, 0);
    assert!(still.try_consume(2, 10));
    assert!(!still.try_consume(1, u64::MAX));
    let mut large = RateLimitBucket::new(u32::MAX, u32::MAX, 0);
    assert!(large.try_consume(u32::MAX, 0));
    assert!(large.try_consume(u32::MAX, 1_000));
    assert!(!large.try_consume(1, 1_000));
}

#[test]
fn rate_limiter_gives_each_key_a_full_bucket() {
    let mut limiter = RateLimiter::new(2, 1);
    assert!(limiter.try_acquire("a", 0));
    assert!(limiter.try_acquire("a", 0));
    assert!(!limiter.try_acquire("a", 0));
    assert!(limiter.try_acquire("b", 0));
    assert!(!limiter.try_acquire("a", 999));
    assert!(limiter.try_acquire("a", 1_999));
    assert!(!limiter.try_acquire("a", 1_999));
    assert_eq!(limiter.guard("a", 1_999), Err(benteng::BentengError::RateLimited));
    assert_eq!(limiter.guard("c", 0), Ok(()));
}
