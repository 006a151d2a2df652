//! The transparency log: an append-only sequence of receipts under a hash
//! tree, with signed checkpoints and proofs of inclusion and consistency.

pub mod merkle;
pub mod witness;

use vstd::prelude::*;
use crate::bytes::{append, to_vec, utf8};
use crate::crypto::sig::{
    dilithium3_keypair, dilithium3_pair, dilithium3_sign, dilithium3_signed, signed_by_pair,
    DILITHIUM3_PUBLIC_KEY_LEN, DILITHIUM3_SECRET_KEY_LEN, DILITHIUM3_SIGNATURE_LEN,
};
use crate::json::{
    decimal, json_bytes, json_string, write_byte_array, write_decimal, write_raw, write_string,
};
use crate::transparency::merkle::{
    consistency_path, consistent, hash_leaf, hash_node, hash_views, inclusion_path, leaf_hash,
    lemma_consistency_proof_verifies, lemma_inclusion_proof_verifies, lemma_split_point, merkle_root, node_hash, peaks_cover,
    push_peak, root_from_path, root_of_peaks, split, split_point, subtree_consistency_path,
    subtree_inclusion_path, subtree_root, Peak,
};

verus! {

/// One receipt of the log.
#[derive(Debug, Clone)]
pub struct LogEntry {
    pub v: u8,
    pub ten: Vec<u8>,
    pub typ: String,
    pub ts: u64,
    pub hdr_h: [u8; 32],
    pub sig_h: [u8; 32],
    pub kid: String,
    pub pol: Vec<u8>,
    pub rc: u16,
}

/// The model of a `LogEntry`.
pub struct LogEntryView {
    pub v: u8,
    pub ten: Seq<u8>,
    pub typ: Seq<char>,
    pub ts: u64,
    pub hdr_h: Seq<u8>,
    pub sig_h: Seq<u8>,
    pub kid: Seq<char>,
    pub pol: Seq<u8>,
    pub rc: u16,
}

impl View for LogEntry {
    type V = LogEntryView;

    open spec fn view(&self) -> LogEntryView {
        LogEntryView {
            v: self.v,
            ten: self.ten@,
            typ: self.typ@,
            ts: self.ts,
            hdr_h: self.hdr_h@,
            sig_h: self.sig_h@,
            kid: self.kid@,
            pol: self.pol@,
            rc: self.rc,
        }
    }
}

impl LogEntryView {
    /// The canonical bytes of the entry: a JSON object of its fields in
    /// their order, byte strings as arrays of numbers, without white
    /// space.
    pub open spec fn canonical_bytes(self) -> Seq<u8> {
        utf8("{\"v\":"@) + decimal(self.v as nat) + utf8(",\"ten\":"@) + json_bytes(self.ten)
            + utf8(",\"typ\":"@) + json_string(self.typ) + utf8(",\"ts\":"@) + decimal(
            self.ts as nat,
        ) + utf8(",\"hdr_h\":"@) + json_bytes(self.hdr_h) + utf8(",\"sig_h\":"@) + json_bytes(
            self.sig_h,
        ) + utf8(",\"kid\":"@) + json_string(self.kid) + utf8(",\"pol\":"@) + json_bytes(self.pol)
            + utf8(",\"rc\":"@) + decimal(self.rc as nat) + utf8("}"@)
    }

    /// The hash of the entry's leaf in the tree.
    pub open spec fn leaf(self) -> Seq<u8> {
        leaf_hash(self.canonical_bytes())
    }
}

impl LogEntry {
    /// The canonical bytes of the entry.
    pub fn canonical_bytes(&self) -> (bytes: Vec<u8>)
        ensures
            bytes@ == self@.canonical_bytes(),
    {
        let mut out: Vec<u8> = Vec::new();
        write_raw(&mut out, "{\"v\":");
        write_decimal(&mut out, self.v as u64);
        write_raw(&mut out, ",\"ten\":");
        write_byte_array(&mut out, self.ten.as_slice());
        write_raw(&mut out, ",\"typ\":");
        write_string(&mut out, self.typ.as_str());
        write_raw(&mut out, ",\"ts\":");
        write_decimal(&mut out, self.ts);
        write_raw(&mut out, ",\"hdr_h\":");
        write_byte_array(&mut out, self.hdr_h.as_slice());
        write_raw(&mut out, ",\"sig_h\":");
        write_byte_array(&mut out, self.sig_h.as_slice());
        write_raw(&mut out, ",\"kid\":");
        write_string(&mut out, self.kid.as_str());
        write_raw(&mut out, ",\"pol\":");
        write_byte_array(&mut out, self.pol.as_slice());
        write_raw(&mut out, ",\"rc\":");
        write_decimal(&mut out, self.rc as u64);
        write_raw(&mut out, "}");
        assert(out@ =~= self@.canonical_bytes());
        out
    }

    /// The hash of the entry's leaf in the tree.
    pub fn leaf_hash(&self) -> (hash: [u8; 32])
        ensures
            hash@ == self@.leaf(),
    {
        let bytes = self.canonical_bytes();
        hash_leaf(bytes.as_slice())
    }
}

/// A node of the hash tree, with its subtrees.
#[derive(Debug)]
pub struct MerkleNode {
    pub hash: [u8; 32],
    pub left: Option<Box<MerkleNode>>,
    pub right: Option<Box<MerkleNode>>,
}

/// A signed statement that commits the log to its first `tree_size`
/// entries.
#[derive(Debug, Clone)]
pub struct Checkpoint {
    pub tree_size: usize,
    pub root_hash: [u8; 32],
    pub ts: u64,
    pub ver: u8,
    pub signature: Vec<u8>,
}

/// The model of a `Checkpoint`.
pub struct CheckpointView {
    pub tree_size: usize,
    pub root_hash: Seq<u8>,
    pub ts: u64,
    pub ver: u8,
    pub signature: Seq<u8>,
}

impl View for Checkpoint {
    type V = CheckpointView;

    open spec fn view(&self) -> CheckpointView {
        CheckpointView {
            tree_size: self.tree_size,
            root_hash: self.root_hash@,
            ts: self.ts,
            ver: self.ver,
            signature: self.signature@,
        }
    }
}

/// Whether `node` is the hash tree over `leaves`: a leaf for one of them,
/// and else a node over the trees of the two sides of the split.
pub open spec fn tree_over(node: MerkleNode, leaves: Seq<Seq<u8>>) -> bool
    decreases leaves.len(),
{
    let n = leaves.len();
    let k = split_point(n) as int;
    if n <= 1 || !(0 < k < n) {
        n == 1 && node.hash@ == leaves[0] && node.left is None && node.right is None
    } else {
        match (node.left, node.right) {
            (Some(left), Some(right)) => tree_over(*left, leaves.take(k)) && tree_over(
                *right,
                leaves.skip(k),
            ) && node.hash@ == node_hash(left.hash@, right.hash@),
            _ => false,
        }
    }
}

/// The hash at the top of the hash tree over leaves is their root.
pub proof fn lemma_tree_root(node: MerkleNode, leaves: Seq<Seq<u8>>)
    requires
        tree_over(node, leaves),
    ensures
        node.hash@ == merkle_root(leaves),
    decreases leaves.len(),
{
    let n = leaves.len();
    let k = split_point(n) as int;
    if n >= 2 {
        lemma_split_point(n);
        lemma_tree_root(*node.left->0, leaves.take(k));
        lemma_tree_root(*node.right->0, leaves.skip(k));
    }
}

/// Builds the hash tree over the leaves from `lo` up to `hi`.
pub fn build_tree(leaves: &Vec<[u8; 32]>, lo: usize, hi: usize) -> (node: MerkleNode)
    requires
        lo < hi <= leaves@.len(),
    ensures
        tree_over(node, hash_views(leaves@).subrange(lo as int, hi as int)),
    decreases hi - lo,
{
    let ghost range = hash_views(leaves@).subrange(lo as int, hi as int);
    if hi - lo == 1 {
        return MerkleNode { hash: leaves[lo], left: None, right: None };
    }
    let k = split(hi - lo);
    let left = build_tree(leaves, lo, lo + k);
    let right = build_tree(leaves, lo + k, hi);
    proof {
        assert(range.take(k as int) =~= hash_views(leaves@).subrange(lo as int, lo + k));
        assert(range.skip(k as int) =~= hash_views(leaves@).subrange(lo + k, hi as int));
    }
    let hash = hash_node(&left.hash, &right.hash);
    MerkleNode { hash, left: Some(Box::new(left)), right: Some(Box::new(right)) }
}

/// The version of the checkpoint format.
pub const CHECKPOINT_VERSION: u8 = 1;

/// The canonical note of a checkpoint, which is what gets signed: the tree
/// size as eight little-endian bytes, the root hash, and the timestamp as
/// eight little-endian bytes.
pub open spec fn checkpoint_note(tree_size: nat, root_hash: Seq<u8>, ts: u64) -> Seq<u8> {
    vstd::bytes::spec_u64_to_le_bytes(tree_size as u64) + root_hash + vstd::bytes::spec_u64_to_le_bytes(
        ts,
    )
}

/// The canonical note of a checkpoint.
pub fn build_checkpoint_note(tree_size: usize, root_hash: &[u8; 32], ts: u64) -> (note: Vec<u8>)
    ensures
        note@ == checkpoint_note(tree_size as nat, root_hash@, ts),
{
    let mut note = vstd::bytes::u64_to_le_bytes(tree_size as u64);
    append(&mut note, root_hash.as_slice());
    let tail = vstd::bytes::u64_to_le_bytes(ts);
    append(&mut note, tail.as_slice());
    note
}

/// The append-only log.
pub struct TransparencyLog {
    entries: Vec<LogEntry>,
    leaves: Vec<[u8; 32]>,
    peaks: Vec<Peak>,
    checkpoints: Vec<Checkpoint>,
    signing_key: Vec<u8>,
    verifying_key: Option<Vec<u8>>,
}

impl TransparencyLog {
    /// The entries of the log, in the order in which they were appended.
    pub closed spec fn entries(&self) -> Seq<LogEntryView> {
        Seq::new(self.entries@.len(), |i: int| self.entries@[i]@)
    }

    /// The checkpoints of the log, oldest first.
    pub closed spec fn checkpoints(&self) -> Seq<CheckpointView> {
        Seq::new(self.checkpoints@.len(), |i: int| self.checkpoints@[i]@)
    }

    /// The secret key that signs the checkpoints.
    pub closed spec fn signing_key(&self) -> Seq<u8> {
        self.signing_key@
    }

    /// The public key under which the checkpoints verify, where the log
    /// made its own key pair.
    pub closed spec fn verifying_key(&self) -> Option<Seq<u8>> {
        match self.verifying_key {
            Some(key) => Some(key@),
            None => None,
        }
    }

    /// The leaf hashes of the log's entries.
    pub open spec fn leaf_hashes(&self) -> Seq<Seq<u8>> {
        Seq::new(self.entries().len(), |i: int| self.entries()[i].leaf())
    }

    /// The root of the hash tree over all entries.
    pub open spec fn root(&self) -> Seq<u8> {
        merkle_root(self.leaf_hashes())
    }

    /// Whether `checkpoints` are monotone commitments to prefixes of the
    /// leaves: the tree sizes do not decrease, and each root is the root of
    /// the tree over exactly that many leaves.
    pub open spec fn checkpoints_commit(
        checkpoints: Seq<CheckpointView>,
        leaves: Seq<Seq<u8>>,
    ) -> bool {
        &&& forall|i: int|
            0 <= i < checkpoints.len() ==> 1 <= (#[trigger] checkpoints[i]).tree_size
                <= leaves.len() && checkpoints[i].root_hash == merkle_root(
                leaves.take(checkpoints[i].tree_size as int),
            )
        &&& forall|i: int, j: int|
            0 <= i <= j < checkpoints.len() ==> (#[trigger] checkpoints[i]).tree_size <= (
            #[trigger] checkpoints[j]).tree_size
    }

    /// The invariant of the log: its key has the length of an ML-DSA-65
    /// secret key, the stored leaf hashes and complete subtrees belong to
    /// the entries, and the checkpoints commit to prefixes of them.
    pub closed spec fn wf(&self) -> bool {
        &&& self.signing_key@.len() == DILITHIUM3_SECRET_KEY_LEN
        &&& hash_views(self.leaves@) == self.leaf_hashes()
        &&& peaks_cover(self.peaks@, self.leaf_hashes())
        &&& Self::checkpoints_commit(self.checkpoints(), self.leaf_hashes())
    }

    /// What the invariant says of the checkpoints.
    pub proof fn lemma_checkpoints_commit(&self)
        requires
            self.wf(),
        ensures
            Self::checkpoints_commit(self.checkpoints(), self.leaf_hashes()),
    {
    }

    /// What the invariant says of the key.
    pub proof fn lemma_key_length(&self)
        requires
            self.wf(),
        ensures
            self.signing_key().len() == DILITHIUM3_SECRET_KEY_LEN,
    {
    }

    /// An empty log with a key pair of its own: the secret key signs the
    /// checkpoints, and the public key, which belongs to it, is there to be
    /// published.
    pub fn new() -> (log: TransparencyLog)
        ensures
            log.wf(),
            log.entries().len() == 0,
            log.checkpoints().len() == 0,
            log.verifying_key() matches Some(key) && key.len() == DILITHIUM3_PUBLIC_KEY_LEN
                && dilithium3_pair(key, log.signing_key()),
    {
        let (public_key, secret_key) = match dilithium3_keypair() {
            Ok(keys) => keys,
            Err(_) => {
                proof {
                    assert(false);
                }
                (Vec::new(), Vec::new())
            },
        };
        let log = TransparencyLog {
            entries: Vec::new(),
            leaves: Vec::new(),
            peaks: Vec::new(),
            checkpoints: Vec::new(),
            signing_key: secret_key,
            verifying_key: Some(public_key),
        };
        assert(hash_views(log.leaves@) =~= log.leaf_hashes());
        log
    }

    /// An empty log whose checkpoints are signed with `signing_key`. A key
    /// that has not the length of an ML-DSA-65 secret key could sign
    /// nothing, and makes no log.
    pub fn with_signing_key(signing_key: Vec<u8>) -> (res: Option<TransparencyLog>)
        ensures
            res is Some <==> signing_key@.len() == DILITHIUM3_SECRET_KEY_LEN,
            res matches Some(log) ==> log.wf() && log.entries().len() == 0
                && log.checkpoints().len() == 0 && log.signing_key() == signing_key@
                && log.verifying_key() is None,
    {
        if signing_key.len() != DILITHIUM3_SECRET_KEY_LEN {
            return None;
        }
        let log = TransparencyLog {
            entries: Vec::new(),
            leaves: Vec::new(),
            peaks: Vec::new(),
            checkpoints: Vec::new(),
            signing_key,
            verifying_key: None,
        };
        assert(hash_views(log.leaves@) =~= log.leaf_hashes());
        Some(log)
    }

    /// The public key under which the checkpoints verify, where the log
    /// made its own key pair.
    pub fn public_key(&self) -> (key: Option<Vec<u8>>)
        ensures
            crate::envelope::opt_view(key) == self.verifying_key(),
    {
        match &self.verifying_key {
            Some(k) => Some(to_vec(k.as_slice())),
            None => None,
        }
    }

    /// The number of entries.
    pub fn len(&self) -> (n: usize)
        requires
            self.wf(),
        ensures
            n == self.entries().len(),
    {
        self.entries.len()
    }

    /// Appends an entry and returns its position. Entries are never
    /// rewritten: the log after the call is the log before it with the entry
    /// at its end, so that an entry appended twice stands at two
    /// positions. The hash tree is brought up to date from the complete
    /// subtrees of the log, without hashing the older entries again. Only a
    /// log that holds as many entries as can be counted refuses, and stays
    /// as it is.
    pub fn append(&mut self, entry: LogEntry) -> (res: Result<usize, String>)
        requires
            old(self).wf(),
        ensures
            final(self).wf(),
            final(self).checkpoints() == old(self).checkpoints(),
            final(self).signing_key() == old(self).signing_key(),
            final(self).verifying_key() == old(self).verifying_key(),
            old(self).entries().len() < usize::MAX ==> res == Ok::<usize, String>(
                old(self).entries().len() as usize,
            ) && final(self).entries() == old(self).entries().push(entry@),
            old(self).entries().len() >= usize::MAX ==> res is Err && final(self).entries() == old(self).entries(),
            res matches Err(e) ==> e@ == "Log is full"@,
    {
        let id = self.entries.len();
        let leaf = entry.leaf_hash();
        let ghost before = self.leaf_hashes();
        let ghost grown = before.push(leaf@);
        proof {
            assert(forall|i: int|
                0 <= i < self.checkpoints().len() ==> grown.take(
                    (#[trigger] self.checkpoints()[i]).tree_size as int,
                ) =~= before.take(self.checkpoints()[i].tree_size as int));
        }
        if id == usize::MAX {
            return Err("Log is full".to_owned());
        }
        push_peak(&mut self.peaks, leaf, Ghost(before));
        self.leaves.push(leaf);
        self.entries.push(entry);
        proof {
            assert(self.entries() =~= old(self).entries().push(entry@));
            assert(self.leaf_hashes() =~= grown);
            assert(hash_views(self.leaves@) =~= grown);
        }
        Ok(id)
    }

    /// The entry at position `id`, where there is one.
    pub fn get_entry(&self, id: usize) -> (entry: Option<&LogEntry>)
        ensures
            entry is Some <==> id < self.entries().len(),
            entry matches Some(e) ==> e@ == self.entries()[id as int],
    {
        if id < self.entries.len() {
            Some(&self.entries[id])
        } else {
            None
        }
    }

    /// The newest checkpoint, where there is one.
    pub fn get_latest_checkpoint(&self) -> (checkpoint: Option<&Checkpoint>)
        ensures
            checkpoint is Some <==> self.checkpoints().len() > 0,
            checkpoint matches Some(c) ==> c@ == self.checkpoints().last(),
    {
        if self.checkpoints.len() > 0 {
            Some(&self.checkpoints[self.checkpoints.len() - 1])
        } else {
            None
        }
    }

    /// The root of the hash tree over all entries; nothing for the empty
    /// log.
    pub fn get_root_hash(&self) -> (root: Option<[u8; 32]>)
        requires
            self.wf(),
        ensures
            root is Some <==> self.entries().len() > 0,
            root matches Some(h) ==> h@ == self.root(),
    {
        if self.peaks.len() == 0 {
            None
        } else {
            Some(root_of_peaks(&self.peaks, Ghost(self.leaf_hashes())))
        }
    }

    /// The hash of the leaf at position `id`.
    pub fn get_leaf_hash(&self, id: usize) -> (hash: Option<[u8; 32]>)
        requires
            self.wf(),
        ensures
            hash is Some <==> id < self.entries().len(),
            hash matches Some(h) ==> h@ == self.entries()[id as int].leaf(),
    {
        if id < self.leaves.len() {
            assert(hash_views(self.leaves@)[id as int] == self.leaves@[id as int]@);
            Some(self.leaves[id])
        } else {
            None
        }
    }

    /// The inclusion proof of the entry at position `entry_id`: the
    /// co-path from its leaf up to the root. The proof leads from the leaf
    /// to the root of the log.
    pub fn get_inclusion_proof(&self, entry_id: usize) -> (proof_path: Option<Vec<[u8; 32]>>)
        requires
            self.wf(),
        ensures
            proof_path is Some <==> entry_id < self.entries().len(),
            proof_path matches Some(path) ==> {
                &&& hash_views(path@) == inclusion_path(self.leaf_hashes(), entry_id as int)
                &&& root_from_path(
                    self.entries()[entry_id as int].leaf(),
                    entry_id as int,
                    self.entries().len(),
                    hash_views(path@),
                ) == Some(self.root())
            },
    {
        if entry_id >= self.leaves.len() {
            return None;
        }
        let path = subtree_inclusion_path(&self.leaves, entry_id, 0, self.leaves.len());
        proof {
            assert(self.leaf_hashes().subrange(0, self.leaf_hashes().len() as int)
                =~= self.leaf_hashes());
            lemma_inclusion_proof_verifies(self.leaf_hashes(), entry_id as int);
        }
        Some(path)
    }

    /// The root of the tree over the first `size` entries.
    pub fn get_root_at(&self, size: usize) -> (root: Option<[u8; 32]>)
        requires
            self.wf(),
        ensures
            root is Some <==> 1 <= size <= self.entries().len(),
            root matches Some(h) ==> h@ == merkle_root(self.leaf_hashes().take(size as int)),
    {
        if size < 1 || size > self.leaves.len() {
            return None;
        }
        let root = subtree_root(&self.leaves, 0, size);
        assert(self.leaf_hashes().subrange(0, size as int) =~= self.leaf_hashes().take(size as int));
        Some(root)
    }

    /// The consistency proof between the tree over the first `old_size`
    /// entries and the tree over the first `new_size`, for sizes with
    /// `1 <= old_size <= new_size` within the log.
    pub fn get_consistency_proof(&self, old_size: usize, new_size: usize) -> (proof_path: Option<Vec<[u8; 32]>>)
        requires
            self.wf(),
        ensures
            proof_path is Some <==> 1 <= old_size <= new_size <= self.entries().len(),
            proof_path matches Some(path) ==> {
                &&& hash_views(path@) == consistency_path(
                    self.leaf_hashes().take(new_size as int),
                    old_size as int,
                )
                &&& consistent(
                    old_size as int,
                    new_size as nat,
                    hash_views(path@),
                    merkle_root(self.leaf_hashes().take(old_size as int)),
                    merkle_root(self.leaf_hashes().take(new_size as int)),
                )
            },
    {
        if old_size < 1 || old_size > new_size || new_size > self.leaves.len() {
            return None;
        }
        let path = subtree_consistency_path(&self.leaves, old_size, 0, new_size, true);
        proof {
            let prefix = self.leaf_hashes().take(new_size as int);
            assert(self.leaf_hashes().subrange(0, new_size as int) =~= prefix);
            lemma_consistency_proof_verifies(prefix, old_size as int);
            assert(prefix.take(old_size as int) =~= self.leaf_hashes().take(old_size as int));
        }
        Some(path)
    }

    /// The note that a checkpoint made at `ts` over the present log signs.
    pub open spec fn note_at(&self, ts: u64) -> Seq<u8> {
        checkpoint_note(self.entries().len(), self.root(), ts)
    }

    /// The checkpoint that is created at `ts` over the present log.
    pub open spec fn checkpoint_at(&self, ts: u64) -> CheckpointView {
        CheckpointView {
            tree_size: self.entries().len() as usize,
            root_hash: self.root(),
            ts,
            ver: CHECKPOINT_VERSION,
            signature: dilithium3_signed(self.signing_key(), self.note_at(ts)),
        }
    }

    /// Creates a checkpoint at the time `ts`: a snapshot of tree size and
    /// root, signed with the log's key over its canonical note, and
    /// appended to the checkpoints. The signature has the length of an
    /// ML-DSA-65 signature, and every public key that belongs to the log's
    /// key accepts it over the note. Only an empty log has no checkpoint:
    /// it refuses and stays as it is.
    pub fn create_checkpoint_at(&mut self, ts: u64) -> (res: Result<Checkpoint, String>)
        requires
            old(self).wf(),
        ensures
            final(self).wf(),
            final(self).entries() == old(self).entries(),
            final(self).signing_key() == old(self).signing_key(),
            final(self).verifying_key() == old(self).verifying_key(),
            res is Ok <==> old(self).entries().len() > 0,
            res matches Ok(c) ==> c@ == old(self).checkpoint_at(ts) && final(self).checkpoints()
                == old(self).checkpoints().push(c@),
            res matches Ok(c) ==> c@.signature.len() == DILITHIUM3_SIGNATURE_LEN && signed_by_pair(
                old(self).signing_key(),
                old(self).note_at(ts),
                c@.signature,
            ),
            res is Err ==> final(self).checkpoints() == old(self).checkpoints(),
            res matches Err(e) ==> e@ == "No entries in log"@,
    {
        let root_hash = match self.get_root_hash() {
            Some(root) => root,
            None => {
                return Err("No entries in log".to_owned());
            },
        };
        let tree_size = self.entries.len();
        let note = build_checkpoint_note(tree_size, &root_hash, ts);
        let signature = match dilithium3_sign(self.signing_key.as_slice(), note.as_slice()) {
            Ok(sig) => sig,
            Err(_) => {
                proof {
                    assert(false);
                }
                Vec::new()
            },
        };
        let checkpoint = Checkpoint {
            tree_size,
            root_hash,
            ts,
            ver: CHECKPOINT_VERSION,
            signature: to_vec(signature.as_slice()),
        };
        let kept = Checkpoint { tree_size, root_hash, ts, ver: CHECKPOINT_VERSION, signature };
        proof {
            assert(kept.signature@ =~= dilithium3_signed(self.signing_key(), self.note_at(ts)));
            assert(self.leaf_hashes().take(tree_size as int) =~= self.leaf_hashes());
        }
        let ghost before = self.checkpoints();
        self.checkpoints.push(kept);
        proof {
            assert(self.checkpoints() =~= before.push(checkpoint@));
        }
        Ok(checkpoint)
    }

    /// Creates a checkpoint at the current time.
    pub fn create_checkpoint(&mut self) -> (res: Result<Checkpoint, String>)
        requires
            old(self).wf(),
        ensures
            final(self).wf(),
            final(self).entries() == old(self).entries(),
            final(self).signing_key() == old(self).signing_key(),
            final(self).verifying_key() == old(self).verifying_key(),
            res is Ok <==> old(self).entries().len() > 0,
            res matches Ok(c) ==> c@ == old(self).checkpoint_at(c.ts) && final(self).checkpoints()
                == old(self).checkpoints().push(c@) && crate::clock::clock_ms(c.ts),
            res matches Ok(c) ==> c@.signature.len() == DILITHIUM3_SIGNATURE_LEN && signed_by_pair(
                old(self).signing_key(),
                old(self).note_at(c.ts),
                c@.signature,
            ),
            res is Err ==> final(self).checkpoints() == old(self).checkpoints(),
            res matches Err(e) ==> e@ == "No entries in log"@,
    {
        let now = crate::clock::now_epoch_ms();
        self.create_checkpoint_at(now)
    }

    /// Builds the hash tree over all entries from their leaves: a snapshot
    /// with every node, whose top hash is the root. Nothing for the empty
    /// log.
    pub fn rebuild_tree(&self) -> (tree: Option<MerkleNode>)
        requires
            self.wf(),
        ensures
            tree is Some <==> self.entries().len() > 0,
            tree matches Some(node) ==> tree_over(node, self.leaf_hashes()) && node.hash@
                == self.root(),
    {
        if self.leaves.len() == 0 {
            return None;
        }
        let node = build_tree(&self.leaves, 0, self.leaves.len());
        proof {
            assert(self.leaf_hashes().subrange(0, self.leaf_hashes().len() as int)
                =~= self.leaf_hashes());
            lemma_tree_root(node, self.leaf_hashes());
        }
        Some(node)
    }
}

impl Default for TransparencyLog {
    fn default() -> (log: TransparencyLog)
        ensures
            log.wf(),
            log.entries().len() == 0,
            log.checkpoints().len() == 0,
            log.verifying_key() matches Some(key) && key.len() == DILITHIUM3_PUBLIC_KEY_LEN
                && dilithium3_pair(key, log.signing_key()),
    {
        TransparencyLog::new()
    }
}

} // verus!
