use benteng::crypto::hash::sha256_digest;
use benteng::crypto::sig::{dilithium3_keypair, dilithium3_sign, dilithium3_verify};
use benteng::hex::hex_encode;
use benteng::transparency::merkle::{
    hash_leaf, hash_node, root_from_inclusion_path, split, subtree_root, verify_consistency,
    verify_inclusion,
};
use benteng::transparency::witness::{WitnessCoordinator, WitnessSignature};
use benteng::transparency::{build_checkpoint_note, LogEntry, MerkleNode, TransparencyLog};

fn entry(n: u64) -> LogEntry {
    LogEntry {
        v: 1,
        ten: b"tenant".to_vec(),
        typ: "verify".to_string(),
        ts: 1234567890 + n,
        hdr_h: [n as u8; 32],
        sig_h: [1; 32],
        kid: "btk/test/key/v1".to_string(),
        pol: b"policy".to_vec(),
        rc: 0,
    }
}

fn log_of(n: u64) -> TransparencyLog {
    let mut log = TransparencyLog::new();
    for i in 0..n {
        assert_eq!(log.append(entry(i)), Ok(i as usize));
    }
    log
}

/// The root by pairing level by level, an odd trailing node carried up unchanged.
fn level_by_level_root(leaves: &[[u8; 32]]) -> [u8; 32] {
    let mut nodes = leaves.to_vec();
    while nodes.len() > 1 {
        let mut next = Vec::new();
        for chunk in nodes.chunks(2) {
            if chunk.len() == 2 {
                let mut buf = vec![0x01u8];
                buf.extend_from_slice(&chunk[0]);
                buf.extend_from_slice(&chunk[1]);
                next.push(sha256_digest(&buf));
            } else {
                next.push(chunk[0]);
            }
        }
        nodes = next;
    }
    nodes[0]
}

#[test]
fn test_transparency_log() {
    let mut log = TransparencyLog::new();

    let entry = LogEntry {
        v: 1,
        ten: b"tenant".to_vec(),
        typ: "verify".to_string(),
        ts: 1234567890,
        hdr_h: [0; 32],
        sig_h: [1; 32],
        kid: "btk/test/key/v1".to_string(),
        pol: b"policy".to_vec(),
        rc: 0,
    };

    let id = log.append(entry.clone()).unwrap();
    assert_eq!(id, 0);

    let retrieved = log.get_entry(0).unwrap();
    assert_eq!(retrieved.typ, "verify");

    let checkpoint = log.create_checkpoint().unwrap();
    assert_eq!(checkpoint.tree_size, 1);
}

#[test]
fn test_witness_quorum() {
    let witnesses = vec![
        ("witness1".into(), "http://w1.example".into(), vec![]),
        ("witness2".into(), "http://w2.example".into(), vec![]),
        ("witness3".into(), "http://w3.example".into(), vec![]),
    ];

    let coordinator = WitnessCoordinator::new(witnesses, 2);
    assert_eq!(coordinator.quorum_threshold(), 2);
}

#[test]
fn seven_entries_checkpoint_and_inclusion_of_leaf_three() {
    let mut log = log_of(7);
    let checkpoint = log.create_checkpoint_at(99).unwrap();
    assert_eq!(checkpoint.tree_size, 7);
    assert_eq!(checkpoint.ts, 99);
    assert_eq!(checkpoint.ver, 1);
    assert_eq!(Some(checkpoint.root_hash), log.get_root_hash());

    let proof = log.get_inclusion_proof(3).unwrap();
    assert_eq!(proof.len(), 3);
    let leaf = log.get_entry(3).unwrap().leaf_hash();
    assert_eq!(root_from_inclusion_path(&leaf, 3, 7, &proof), Some(checkpoint.root_hash));
    assert!(verify_inclusion(&leaf, 3, 7, &proof, &checkpoint.root_hash));
    assert!(!verify_inclusion(&leaf, 2, 7, &proof, &checkpoint.root_hash));
    assert!(!verify_inclusion(&leaf, 3, 9, &proof, &checkpoint.root_hash));
    assert!(!verify_inclusion(&leaf, 3, 4, &proof, &checkpoint.root_hash));
    let other = log.get_entry(4).unwrap().leaf_hash();
    assert!(!verify_inclusion(&other, 3, 7, &proof, &checkpoint.root_hash));
    assert!(log.get_inclusion_proof(7).is_none());
}

#[test]
fn canonical_entry_bytes_are_compact_json() {
    let mut e = entry(0);
    e.ten = vec![1, 2, 255];
    e.pol = vec![];
    e.rc = 404;
    e.kid = "k\"\\\t".into();
    let bytes = e.canonical_bytes();
    let zeros = vec!["0"; 32].join(",");
    let ones = vec!["1"; 32].join(",");
    let expected = format!(
        "{{\"v\":1,\"ten\":[1,2,255],\"typ\":\"verify\",\"ts\":1234567890,\"hdr_h\":[{}],\"sig_h\":[{}],\"kid\":\"k\\\"\\\\\\t\",\"pol\":[],\"rc\":404}}",
        zeros, ones
    );
    assert_eq!(String::from_utf8(bytes.clone()).unwrap(), expected);
    let value: serde_json::Value = serde_json::from_slice(&bytes).unwrap();
    assert_eq!(value["kid"].as_str(), Some("k\"\\\t"));
    assert_eq!(value["ts"].as_u64(), Some(1234567890));
    assert_eq!(value["rc"].as_u64(), Some(404));

    let mut buf = vec![0u8];
    buf.extend_from_slice(&bytes);
    assert_eq!(e.leaf_hash(), sha256_digest(&buf));
    assert_eq!(hash_leaf(&bytes), sha256_digest(&buf));
}

#[test]
fn json_strings_escape_every_control_character() {
    let mut e = entry(0);
    let mut typ = String::new();
    for c in 0u8..0x30 {
        typ.push(c as char);
    }
    typ.push('\u{7f}');
    typ.push('é');
    typ.push('\u{1F600}');
    e.typ = typ.clone();
    e.ts = u64::MAX;
    let bytes = e.canonical_bytes();
    let value: serde_json::Value = serde_json::from_slice(&bytes).unwrap();
    assert_eq!(value["typ"].as_str(), Some(typ.as_str()));
    assert_eq!(value["ts"].as_u64(), Some(u64::MAX));
    let text = String::from_utf8(bytes).unwrap();
    assert!(text.contains("\\u0000\\u0001"));
    assert!(text.contains("\\b\\t\\n\\u000b\\f\\r\\u000e"));
    assert!(text.contains("\\u001f !\\\"#"));
    // The same text as the outside serialiser writes.
    assert!(text.contains(&serde_json::to_string(&typ).unwrap()));
}

#[test]
fn interior_nodes_hash_the_prefix_and_both_children() {
    let left = [3u8; 32];
    let right = [4u8; 32];
    let mut buf = vec![1u8];
    buf.extend_from_slice(&left);
    buf.extend_from_slice(&right);
    assert_eq!(hash_node(&left, &right), sha256_digest(&buf));
    assert_ne!(hash_node(&left, &right), hash_node(&right, &left));
}

#[test]
fn split_is_the_largest_power_of_two_below() {
    let expected = [(2, 1), (3, 2), (4, 2), (5, 4), (7, 4), (8, 4), (9, 8), (16, 8), (17, 16), (1000, 512)];
    for (n, k) in expected.iter() {
        assert_eq!(split(*n), *k);
    }
}

#[test]
fn root_is_the_tree_over_all_leaves_for_every_size() {
    let mut log = TransparencyLog::new();
    assert_eq!(log.get_root_hash(), None);
    assert!(log.rebuild_tree().is_none());
    let mut leaves: Vec<[u8; 32]> = Vec::new();
    for i in 0..70u64 {
        let e = entry(i);
        leaves.push(e.leaf_hash());
        log.append(e).unwrap();
        let root = log.get_root_hash().unwrap();
        assert_eq!(root, level_by_level_root(&leaves));
        assert_eq!(root, subtree_root(&leaves, 0, leaves.len()));
        assert_eq!(log.get_root_at(leaves.len()), Some(root));
        assert_eq!(log.len(), leaves.len());
    }
    // One leaf is its own root; two make one node.
    assert_eq!(log.get_root_at(1), Some(leaves[0]));
    assert_eq!(log.get_root_at(2), Some(hash_node(&leaves[0], &leaves[1])));
    // Three leaves: the odd one is carried up unchanged.
    assert_eq!(
        log.get_root_at(3),
        Some(hash_node(&hash_node(&leaves[0], &leaves[1]), &leaves[2]))
    );
    assert_eq!(log.get_root_at(0), None);
    assert_eq!(log.get_root_at(71), None);
}

#[test]
fn every_inclusion_proof_verifies_against_the_root() {
    for n in 1..=33u64 {
        let log = log_of(n);
        let root = log.get_root_hash().unwrap();
        for i in 0..n as usize {
            let proof = log.get_inclusion_proof(i).unwrap();
            let leaf = log.get_leaf_hash(i).unwrap();
            assert_eq!(leaf, log.get_entry(i).unwrap().leaf_hash());
            assert!(verify_inclusion(&leaf, i, n as usize, &proof, &root));
            if !proof.is_empty() {
                let mut bad = proof.clone();
                bad[0][0] ^= 1;
                assert!(!verify_inclusion(&leaf, i, n as usize, &bad, &root));
                assert!(!verify_inclusion(&leaf, i, n as usize, &proof[1..], &root));
            }
        }
        assert!(log.get_inclusion_proof(n as usize).is_none());
        assert!(log.get_leaf_hash(n as usize).is_none());
    }
}

#[test]
fn every_consistency_proof_verifies() {
    let log = log_of(20);
    for n in 1..=20usize {
        let new_root = log.get_root_at(n).unwrap();
        for m in 1..=n {
            let old_root = log.get_root_at(m).unwrap();
            let proof = log.get_consistency_proof(m, n).unwrap();
            assert!(verify_consistency(m, n, &proof, &old_root, &new_root));
            if m < n {
                assert!(!proof.is_empty());
                assert!(!verify_consistency(m, n, &proof, &new_root, &old_root));
                let mut bad = proof.clone();
                let last = bad.len() - 1;
                bad[last][31] ^= 1;
                assert!(!verify_consistency(m, n, &bad, &old_root, &new_root));
                assert!(!verify_consistency(m, n, &proof[..proof.len() - 1], &old_root, &new_root));
            } else {
                assert!(proof.is_empty());
            }
        }
    }
    assert!(log.get_consistency_proof(0, 5).is_none());
    assert!(log.get_consistency_proof(6, 5).is_none());
    assert!(log.get_consistency_proof(5, 21).is_none());
    assert!(!verify_consistency(0, 5, &[], &[0; 32], &[0; 32]));
}

#[test]
fn consistency_proof_of_three_in_seven_is_the_known_one() {
    let log = log_of(7);
    let l: Vec<[u8; 32]> = (0..7).map(|i| log.get_leaf_hash(i).unwrap()).collect();
    let proof = log.get_consistency_proof(3, 7).unwrap();
    let expected = vec![
        l[2],
        l[3],
        hash_node(&l[0], &l[1]),
        hash_node(&hash_node(&l[4], &l[5]), &l[6]),
    ];
    assert_eq!(proof, expected);
    let proof = log.get_consistency_proof(4, 7).unwrap();
    assert_eq!(proof, vec![hash_node(&hash_node(&l[4], &l[5]), &l[6])]);
    let proof = log.get_inclusion_proof(0).unwrap();
    assert_eq!(
        proof,
        vec![l[1], hash_node(&l[2], &l[3]), hash_node(&hash_node(&l[4], &l[5]), &l[6])]
    );
}

#[test]
fn an_entry_appended_twice_stands_at_two_positions() {
    let mut log = TransparencyLog::new();
    let a = log.append(entry(5)).unwrap();
    let b = log.append(entry(5)).unwrap();
    assert_ne!(a, b);
    assert_eq!((a, b), (0, 1));
    assert_eq!(log.len(), 2);
    assert_eq!(log.get_entry(0).unwrap().ts, log.get_entry(1).unwrap().ts);
    let root = log.get_root_hash().unwrap();
    let leaf = entry(5).leaf_hash();
    assert_eq!(root, hash_node(&leaf, &leaf));
    for i in 0..2 {
        let proof = log.get_inclusion_proof(i).unwrap();
        assert!(verify_inclusion(&leaf, i, 2, &proof, &root));
    }
    assert!(log.get_entry(2).is_none());
}

#[test]
fn checkpoints_are_monotone_and_signed() {
    let (pk, sk) = dilithium3_keypair().unwrap();
    let mut log = TransparencyLog::with_signing_key(sk.clone()).unwrap();
    assert!(log.public_key().is_none());
    assert_eq!(log.create_checkpoint_at(1).err(), Some("No entries in log".to_string()));
    assert_eq!(log.create_checkpoint().err(), Some("No entries in log".to_string()));
    assert!(log.get_latest_checkpoint().is_none());
    log.append(entry(0)).unwrap();
    let c1 = log.create_checkpoint_at(10).unwrap();
    log.append(entry(1)).unwrap();
    log.append(entry(2)).unwrap();
    let c2 = log.create_checkpoint_at(20).unwrap();
    let c3 = log.create_checkpoint_at(30).unwrap();
    assert_eq!((c1.tree_size, c2.tree_size, c3.tree_size), (1, 3, 3));
    assert_eq!(c2.root_hash, c3.root_hash);
    assert_ne!(c1.root_hash, c2.root_hash);
    assert_eq!(Some(c1.root_hash), log.get_root_at(1));
    assert_eq!(Some(c2.root_hash), log.get_root_at(3));
    let latest = log.get_latest_checkpoint().unwrap();
    assert_eq!((latest.tree_size, latest.ts), (3, 30));

    // The note is size, root and time; the signature is over it.
    let note = build_checkpoint_note(3, &c2.root_hash, 20);
    let mut expected = 3u64.to_le_bytes().to_vec();
    expected.extend_from_slice(&c2.root_hash);
    expected.extend_from_slice(&20u64.to_le_bytes());
    assert_eq!(note, expected);
    assert_eq!(c2.signature, dilithium3_sign(&sk, &note).unwrap());
    assert_eq!(dilithium3_verify(&pk, &note, &c2.signature), Ok(true));

    // An earlier checkpoint is consistent with a later one.
    let proof = log.get_consistency_proof(c1.tree_size, c2.tree_size).unwrap();
    assert!(verify_consistency(1, 3, &proof, &c1.root_hash, &c2.root_hash));
}

#[test]
fn every_log_signs_its_checkpoints_and_a_bad_key_makes_no_log() {
    for mut log in [TransparencyLog::new(), TransparencyLog::default()] {
        let pk = log.public_key().unwrap();
        assert_eq!(pk.len(), 1952);
        assert_eq!(log.create_checkpoint_at(1).err(), Some("No entries in log".to_string()));
        log.append(entry(0)).unwrap();
        log.append(entry(1)).unwrap();
        let c = log.create_checkpoint_at(77).unwrap();
        assert_eq!(c.signature.len(), 3309);
        assert_eq!((c.tree_size, c.ts, c.ver), (2, 77, 1));
        assert_eq!(Some(c.root_hash), log.get_root_hash());
        let note = build_checkpoint_note(c.tree_size, &c.root_hash, c.ts);
        assert_eq!(dilithium3_verify(&pk, &note, &c.signature), Ok(true));
        assert_eq!(
            dilithium3_verify(&pk, &build_checkpoint_note(3, &c.root_hash, c.ts), &c.signature),
            Ok(false)
        );
        let now = log.create_checkpoint().unwrap();
        assert_eq!(now.signature.len(), 3309);
        let note = build_checkpoint_note(now.tree_size, &now.root_hash, now.ts);
        assert_eq!(dilithium3_verify(&pk, &note, &now.signature), Ok(true));
    }
    // Two logs have two keys.
    assert_ne!(TransparencyLog::new().public_key(), TransparencyLog::new().public_key());
    assert!(TransparencyLog::with_signing_key(vec![1, 2, 3]).is_none());
    assert!(TransparencyLog::with_signing_key(Vec::new()).is_none());
    assert!(TransparencyLog::with_signing_key(vec![0; 4031]).is_none());
    assert!(TransparencyLog::with_signing_key(vec![0; 4032]).is_some());
}

fn count_leaves(node: &MerkleNode) -> usize {
    match (&node.left, &node.right) {
        (Some(l), Some(r)) => {
            assert_eq!(node.hash, hash_node(&l.hash, &r.hash));
            count_leaves(l) + count_leaves(r)
        }
        (None, None) => 1,
        _ => panic!("a node with one child"),
    }
}

#[test]
fn rebuilt_tree_has_every_leaf_and_the_root_on_top() {
    for n in 1..=12u64 {
        let log = log_of(n);
        let tree = log.rebuild_tree().unwrap();
        assert_eq!(Some(tree.hash), log.get_root_hash());
        assert_eq!(count_leaves(&tree), n as usize);
    }
}

fn cosign(id: &str, sk: &[u8], tree_size: usize, root: [u8; 32], ts: u64) -> WitnessSignature {
    let mut msg = (tree_size as u64).to_le_bytes().to_vec();
    msg.extend_from_slice(&root);
    msg.extend_from_slice(&ts.to_le_bytes());
    WitnessSignature {
        witness_id: id.to_string(),
        tree_size,
        root_hash: root,
        signature: dilithium3_sign(sk, &msg).unwrap(),
        timestamp: ts,
    }
}

#[test]
fn witness_signatures_are_over_size_root_and_time() {
    let (pk, sk) = dilithium3_keypair().unwrap();
    let (other_pk, _) = dilithium3_keypair().unwrap();
    let c = WitnessCoordinator::new(vec![("w1".into(), "http://w1".into(), pk.clone())], 1);
    let sig = cosign("w1", &sk, 7, [9; 32], 1234);
    assert!(c.verify_witness_signature(&sig, &pk));
    assert!(!c.verify_witness_signature(&sig, &other_pk));
    assert!(!c.verify_witness_signature(&sig, &[]));
    let mut s = sig.clone();
    s.tree_size = 8;
    assert!(!c.verify_witness_signature(&s, &pk));
    let mut s = sig.clone();
    s.root_hash[0] ^= 1;
    assert!(!c.verify_witness_signature(&s, &pk));
    let mut s = sig.clone();
    s.timestamp += 1;
    assert!(!c.verify_witness_signature(&s, &pk));
    let mut s = sig.clone();
    s.signature = vec![];
    assert!(!c.verify_witness_signature(&s, &pk));

    assert_eq!(c.accept_response(0, sig.clone()).map(|s| s.witness_id), Ok("w1".to_string()));
    assert_eq!(c.accept_response(1, sig.clone()).err(), Some("Invalid witness signature".to_string()));
    let mut s = sig.clone();
    s.timestamp += 1;
    assert_eq!(c.accept_response(0, s).err(), Some("Invalid witness signature".to_string()));
}

#[test]
fn cosignatures_need_a_quorum_of_accepted_responses() {
    let keys: Vec<(Vec<u8>, Vec<u8>)> = (0..3).map(|_| dilithium3_keypair().unwrap()).collect();
    let witnesses = vec![
        ("witness1".to_string(), "http://w1.example".to_string(), keys[0].0.clone()),
        ("witness2".to_string(), "http://w2.example".to_string(), keys[1].0.clone()),
        ("witness3".to_string(), "http://w3.example".to_string(), keys[2].0.clone()),
    ];
    let c = WitnessCoordinator::new(witnesses, 2);
    assert_eq!(c.witness_count(), 3);
    assert_eq!(c.witness(1).map(|w| w.url.clone()), Some("http://w2.example".to_string()));
    assert_eq!(c.witness(1).map(|w| w.id.clone()), Some("witness2".to_string()));
    assert!(c.witness(3).is_none());
    let root = [5u8; 32];
    let good = |i: usize| cosign(&format!("witness{}", i + 1), &keys[i].1, 7, root, 100 + i as u64);

    // All three answer: more than the quorum is taken along.
    let all = c.collect_cosignatures(vec![Some(good(0)), Some(good(1)), Some(good(2))]).unwrap();
    assert_eq!(all.len(), 3);
    assert_eq!(all[2].witness_id, "witness3");

    // One fails, two remain: the quorum is met, in the order of the witnesses.
    let two = c.collect_cosignatures(vec![Some(good(0)), None, Some(good(2))]).unwrap();
    assert_eq!(two.iter().map(|s| s.witness_id.clone()).collect::<Vec<_>>(), vec!["witness1", "witness3"]);

    // A signature under another witness's key does not count.
    let res = c.collect_cosignatures(vec![Some(good(0)), Some(good(0)), None]);
    assert_eq!(res.err(), Some("Insufficient witness signatures: 1 < 2".to_string()));
    let res = c.collect_cosignatures(vec![None, None, None]);
    assert_eq!(res.err(), Some("Insufficient witness signatures: 0 < 2".to_string()));
    let res = c.collect_cosignatures(vec![]);
    assert_eq!(res.err(), Some("Insufficient witness signatures: 0 < 2".to_string()));
    // Responses beyond the configured witnesses do not count.
    let res = c.collect_cosignatures(vec![None, None, Some(good(2)), Some(good(0))]);
    assert_eq!(res.err(), Some("Insufficient witness signatures: 1 < 2".to_string()));

    let none_needed = WitnessCoordinator::new(vec![], 0);
    assert_eq!(none_needed.collect_cosignatures(vec![]).map(|v| v.len()), Ok(0));
    let many = WitnessCoordinator::new(vec![], 12345);
    assert_eq!(
        many.collect_cosignatures(vec![]).err(),
        Some("Insufficient witness signatures: 0 < 12345".to_string())
    );
}

#[test]
fn receipts_hash_to_sixty_four_hex_characters() {
    assert_eq!(hex_encode(&entry(3).leaf_hash()).len(), 64);
}
