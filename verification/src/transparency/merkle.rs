//! The hash tree of the transparency log: leaves are hashed with the prefix
//! 0x00, interior nodes with the prefix 0x01, and a tree of n leaves splits
//! at the largest power of two below n, so that an odd trailing subtree is
//! carried upward unchanged.

use vstd::prelude::*;
use crate::bytes::append;
use crate::crypto::hash::{sha256, sha256_digest};

verus! {

/// The hash of a leaf: SHA-256 of 0x00 and the entry's canonical bytes.
pub open spec fn leaf_hash(entry: Seq<u8>) -> Seq<u8> {
    sha256(seq![0x00u8] + entry)
}

/// The hash of an interior node: SHA-256 of 0x01 and the two children.
pub open spec fn node_hash(left: Seq<u8>, right: Seq<u8>) -> Seq<u8> {
    sha256(seq![0x01u8] + left + right)
}

/// Whether `k` is a power of two.
pub open spec fn is_pow2(k: nat) -> bool
    decreases k,
{
    k == 1 || (k >= 2 && k % 2 == 0 && is_pow2(k / 2))
}

/// Where a tree of `n` leaves splits: the largest power of two below `n`,
/// for `n` of at least 2.
pub open spec fn split_point(n: nat) -> nat
    decreases n,
{
    if n <= 2 {
        1
    } else {
        2 * split_point((n + 1) / 2)
    }
}

/// The split point is a power of two, lies below `n`, and is at least half
/// of `n`.
pub proof fn lemma_split_point(n: nat)
    requires
        n >= 2,
    ensures
        is_pow2(split_point(n)),
        1 <= split_point(n) < n <= 2 * split_point(n),
    decreases n,
{
    if n > 2 {
        lemma_split_point((n + 1) / 2);
        let k = split_point((n + 1) / 2);
        assert(is_pow2(2 * k)) by {
            assert((2 * k) / 2 == k);
        }
    }
}

/// The split point of `n` is the one power of two `p` with `p < n <= 2p`.
pub proof fn lemma_split_point_unique(n: nat, p: nat)
    requires
        is_pow2(p),
        p < n <= 2 * p,
    ensures
        split_point(n) == p,
    decreases n,
{
    if n > 2 {
        assert(p >= 2);
        lemma_split_point_unique((n + 1) / 2, p / 2);
    }
}

/// The root of the hash tree over leaf hashes: the hash of the empty string
/// for no leaf, the leaf hash for one, and else the node over the roots of
/// the two sides of the split.
pub open spec fn merkle_root(leaves: Seq<Seq<u8>>) -> Seq<u8>
    decreases leaves.len(),
{
    let n = leaves.len();
    let k = split_point(n) as int;
    if n == 0 {
        sha256(Seq::empty())
    } else if n == 1 || !(0 < k < n) {
        leaves[0]
    } else {
        node_hash(merkle_root(leaves.take(k)), merkle_root(leaves.skip(k)))
    }
}

/// The inclusion proof of the leaf at `index`: the roots of the sibling
/// subtrees on the way from the leaf up to the root.
pub open spec fn inclusion_path(leaves: Seq<Seq<u8>>, index: int) -> Seq<Seq<u8>>
    decreases leaves.len(),
{
    let n = leaves.len();
    let k = split_point(n) as int;
    if n <= 1 || !(0 < k < n) {
        Seq::empty()
    } else if index < k {
        inclusion_path(leaves.take(k), index).push(merkle_root(leaves.skip(k)))
    } else {
        inclusion_path(leaves.skip(k), index - k).push(merkle_root(leaves.take(k)))
    }
}

/// The root that an inclusion proof leads to from a leaf hash at `index` in
/// a tree of `size` leaves; nothing where the proof has not the length that
/// the position asks for.
pub open spec fn root_from_path(leaf: Seq<u8>, index: int, size: nat, path: Seq<Seq<u8>>) -> Option<Seq<u8>>
    decreases size,
{
    let k = split_point(size) as int;
    if size <= 1 || !(0 < k < size) {
        if size == 1 && index == 0 && path.len() == 0 {
            Some(leaf)
        } else {
            None
        }
    } else if path.len() == 0 || index < 0 || index >= size {
        None
    } else if index < k {
        match root_from_path(leaf, index, k as nat, path.drop_last()) {
            Some(left) => Some(node_hash(left, path.last())),
            None => None,
        }
    } else {
        match root_from_path(leaf, index - k, (size - k) as nat, path.drop_last()) {
            Some(right) => Some(node_hash(path.last(), right)),
            None => None,
        }
    }
}

/// Every inclusion proof verifies: from each leaf of a tree, its inclusion
/// proof leads to the root of the tree.
pub proof fn lemma_inclusion_proof_verifies(leaves: Seq<Seq<u8>>, index: int)
    requires
        0 <= index < leaves.len(),
    ensures
        root_from_path(leaves[index], index, leaves.len(), inclusion_path(leaves, index)) == Some(
            merkle_root(leaves),
        ),
    decreases leaves.len(),
{
    let n = leaves.len();
    if n >= 2 {
        lemma_split_point(n);
        let k = split_point(n) as int;
        if index < k {
            let left = leaves.take(k);
            lemma_inclusion_proof_verifies(left, index);
            let path = inclusion_path(left, index).push(merkle_root(leaves.skip(k)));
            assert(path.drop_last() =~= inclusion_path(left, index));
        } else {
            let right = leaves.skip(k);
            lemma_inclusion_proof_verifies(right, index - k);
            let path = inclusion_path(right, index - k).push(merkle_root(leaves.take(k)));
            assert(path.drop_last() =~= inclusion_path(right, index - k));
        }
    }
}

/// The byte strings of a sequence of hashes.
pub open spec fn hash_views(hashes: Seq<[u8; 32]>) -> Seq<Seq<u8>> {
    Seq::new(hashes.len(), |i: int| hashes[i]@)
}

/// The byte string of an optional hash.
pub open spec fn opt_hash_view(hash: Option<[u8; 32]>) -> Option<Seq<u8>> {
    match hash {
        Some(h) => Some(h@),
        None => None,
    }
}

/// The hash of a leaf with the canonical bytes `entry`.
pub fn hash_leaf(entry: &[u8]) -> (hash: [u8; 32])
    ensures
        hash@ == leaf_hash(entry@),
{
    let mut buf: Vec<u8> = Vec::new();
    buf.push(0x00);
    append(&mut buf, entry);
    assert(buf@ =~= seq![0x00u8] + entry@);
    sha256_digest(buf.as_slice())
}

/// The hash of the interior node over `left` and `right`.
pub fn hash_node(left: &[u8; 32], right: &[u8; 32]) -> (hash: [u8; 32])
    ensures
        hash@ == node_hash(left@, right@),
{
    let mut buf: Vec<u8> = Vec::new();
    buf.push(0x01);
    append(&mut buf, left.as_slice());
    append(&mut buf, right.as_slice());
    assert(buf@ =~= seq![0x01u8] + left@ + right@);
    sha256_digest(buf.as_slice())
}

/// Where a tree of `n` leaves splits.
pub fn split(n: usize) -> (k: usize)
    requires
        n >= 2,
    ensures
        k == split_point(n as nat),
        1 <= k < n,
{
    let mut k: usize = 1;
    while k < n - k
        invariant
            is_pow2(k as nat),
            1 <= k < n,
        decreases n - k,
    {
        assert(is_pow2((2 * k) as nat)) by {
            assert((2 * k) / 2 == k);
        }
        k = 2 * k;
    }
    proof {
        lemma_split_point_unique(n as nat, k as nat);
    }
    k
}

/// The root of the subtree over the leaves from `lo` up to `hi`.
pub fn subtree_root(leaves: &Vec<[u8; 32]>, lo: usize, hi: usize) -> (root: [u8; 32])
    requires
        lo < hi <= leaves@.len(),
    ensures
        root@ == merkle_root(hash_views(leaves@).subrange(lo as int, hi as int)),
    decreases hi - lo,
{
    let ghost range = hash_views(leaves@).subrange(lo as int, hi as int);
    if hi - lo == 1 {
        return leaves[lo];
    }
    let k = split(hi - lo);
    let left = subtree_root(leaves, lo, lo + k);
    let right = subtree_root(leaves, lo + k, hi);
    proof {
        assert(range.take(k as int) =~= hash_views(leaves@).subrange(lo as int, lo + k));
        assert(range.skip(k as int) =~= hash_views(leaves@).subrange(lo + k, hi as int));
    }
    hash_node(&left, &right)
}

/// The inclusion proof of the leaf at `index` within the subtree over the
/// leaves from `lo` up to `hi`.
pub fn subtree_inclusion_path(leaves: &Vec<[u8; 32]>, index: usize, lo: usize, hi: usize) -> (path: Vec<[u8; 32]>)
    requires
        lo <= index < hi <= leaves@.len(),
    ensures
        hash_views(path@) == inclusion_path(
            hash_views(leaves@).subrange(lo as int, hi as int),
            index - lo,
        ),
    decreases hi - lo,
{
    let ghost range = hash_views(leaves@).subrange(lo as int, hi as int);
    if hi - lo == 1 {
        let path: Vec<[u8; 32]> = Vec::new();
        assert(hash_views(path@) =~= Seq::<Seq<u8>>::empty());
        return path;
    }
    let k = split(hi - lo);
    proof {
        assert(range.take(k as int) =~= hash_views(leaves@).subrange(lo as int, lo + k));
        assert(range.skip(k as int) =~= hash_views(leaves@).subrange(lo + k, hi as int));
    }
    if index - lo < k {
        let mut path = subtree_inclusion_path(leaves, index, lo, lo + k);
        let ghost before = path@;
        let sibling = subtree_root(leaves, lo + k, hi);
        path.push(sibling);
        assert(hash_views(path@) =~= hash_views(before).push(sibling@));
        path
    } else {
        let mut path = subtree_inclusion_path(leaves, index, lo + k, hi);
        let ghost before = path@;
        let sibling = subtree_root(leaves, lo, lo + k);
        path.push(sibling);
        assert(hash_views(path@) =~= hash_views(before).push(sibling@));
        path
    }
}

/// The root that the first `len` hashes of `path` lead to from `leaf` at
/// `index` in a tree of `size` leaves.
fn root_from_prefix(leaf: &[u8; 32], index: usize, size: usize, path: &[[u8; 32]], len: usize) -> (root: Option<[u8; 32]>)
    requires
        len <= path@.len(),
    ensures
        opt_hash_view(root) == root_from_path(
            leaf@,
            index as int,
            size as nat,
            hash_views(path@.subrange(0, len as int)),
        ),
    decreases size,
{
    let ghost taken = hash_views(path@.subrange(0, len as int));
    if size <= 1 {
        if size == 1 && index == 0 && len == 0 {
            return Some(*leaf);
        } else {
            return None;
        }
    }
    let k = split(size);
    if len == 0 || index >= size {
        return None;
    }
    proof {
        assert(taken.drop_last() =~= hash_views(path@.subrange(0, len - 1)));
        assert(taken.last() == path@[len - 1]@);
    }
    let sibling = &path[len - 1];
    if index < k {
        match root_from_prefix(leaf, index, k, path, len - 1) {
            Some(left) => Some(hash_node(&left, sibling)),
            None => None,
        }
    } else {
        match root_from_prefix(leaf, index - k, size - k, path, len - 1) {
            Some(right) => Some(hash_node(sibling, &right)),
            None => None,
        }
    }
}

/// The root that an inclusion proof leads to from a leaf hash at `index` in
/// a tree of `size` leaves.
pub fn root_from_inclusion_path(leaf: &[u8; 32], index: usize, size: usize, path: &[[u8; 32]]) -> (root: Option<[u8; 32]>)
    ensures
        opt_hash_view(root) == root_from_path(leaf@, index as int, size as nat, hash_views(path@)),
{
    assert(path@.subrange(0, path@.len() as int) =~= path@);
    root_from_prefix(leaf, index, size, path, path.len())
}

/// Whether an inclusion proof leads from the leaf hash to `root`.
pub fn verify_inclusion(leaf: &[u8; 32], index: usize, size: usize, path: &[[u8; 32]], root: &[u8; 32]) -> (ok: bool)
    ensures
        ok == (root_from_path(leaf@, index as int, size as nat, hash_views(path@)) == Some(root@)),
{
    match root_from_inclusion_path(leaf, index, size, path) {
        Some(computed) => crate::bytes::bytes_eq(computed.as_slice(), root.as_slice()),
        None => false,
    }
}

/// The consistency proof between the first `old_size` leaves and the whole
/// tree: the roots of the subtrees that lie on the way from the old tree to
/// the new root. With `whole` set, the old tree is a subtree that the
/// verifier already knows and is left out.
pub open spec fn consistency_subproof(leaves: Seq<Seq<u8>>, old_size: int, whole: bool) -> Seq<Seq<u8>>
    decreases leaves.len(),
{
    let n = leaves.len();
    let k = split_point(n) as int;
    if old_size >= n || n < 2 || !(0 < k < n) {
        if whole {
            Seq::empty()
        } else {
            seq![merkle_root(leaves)]
        }
    } else if old_size <= k {
        consistency_subproof(leaves.take(k), old_size, whole).push(merkle_root(leaves.skip(k)))
    } else {
        consistency_subproof(leaves.skip(k), old_size - k, false).push(merkle_root(leaves.take(k)))
    }
}

/// The consistency proof between the tree of the first `old_size` leaves
/// and the tree of all of them.
pub open spec fn consistency_path(leaves: Seq<Seq<u8>>, old_size: int) -> Seq<Seq<u8>> {
    consistency_subproof(leaves, old_size, true)
}

/// The old root and the new root that a consistency proof leads to, for an
/// old tree of `old_size` leaves within a tree of `size` leaves; nothing
/// where the proof has not the shape that the sizes ask for.
pub open spec fn roots_from_consistency(
    old_size: int,
    size: nat,
    path: Seq<Seq<u8>>,
    whole: bool,
    old_root: Seq<u8>,
) -> Option<(Seq<u8>, Seq<u8>)>
    decreases size,
{
    let k = split_point(size) as int;
    if old_size >= size || size < 2 || !(0 < k < size) {
        if old_size != size {
            None
        } else if whole {
            if path.len() == 0 {
                Some((old_root, old_root))
            } else {
                None
            }
        } else {
            if path.len() == 1 {
                Some((path[0], path[0]))
            } else {
                None
            }
        }
    } else if path.len() == 0 || old_size < 1 {
        None
    } else if old_size <= k {
        match roots_from_consistency(old_size, k as nat, path.drop_last(), whole, old_root) {
            Some((old, new)) => Some((old, node_hash(new, path.last()))),
            None => None,
        }
    } else {
        match roots_from_consistency(
            old_size - k,
            (size - k) as nat,
            path.drop_last(),
            false,
            old_root,
        ) {
            Some((old, new)) => Some((node_hash(path.last(), old), node_hash(path.last(), new))),
            None => None,
        }
    }
}

/// Whether a consistency proof shows that the tree with `new_root` over
/// `size` leaves extends the tree with `old_root` over its first `old_size`.
pub open spec fn consistent(
    old_size: int,
    size: nat,
    path: Seq<Seq<u8>>,
    old_root: Seq<u8>,
    new_root: Seq<u8>,
) -> bool {
    1 <= old_size <= size && roots_from_consistency(old_size, size, path, true, old_root) == Some(
        (old_root, new_root),
    )
}

proof fn lemma_consistency_subproof(leaves: Seq<Seq<u8>>, old_size: int, whole: bool, old_root: Seq<u8>)
    requires
        1 <= old_size <= leaves.len(),
        whole ==> old_root == merkle_root(leaves.take(old_size)),
    ensures
        roots_from_consistency(
            old_size,
            leaves.len(),
            consistency_subproof(leaves, old_size, whole),
            whole,
            old_root,
        ) == Some((merkle_root(leaves.take(old_size)), merkle_root(leaves))),
    decreases leaves.len(),
{
    let n = leaves.len();
    if old_size == n {
        assert(leaves.take(old_size) =~= leaves);
    } else {
        lemma_split_point(n);
        let k = split_point(n) as int;
        if old_size <= k {
            let left = leaves.take(k);
            assert(left.take(old_size) =~= leaves.take(old_size));
            lemma_consistency_subproof(left, old_size, whole, old_root);
            let sub = consistency_subproof(left, old_size, whole);
            assert(sub.push(merkle_root(leaves.skip(k))).drop_last() =~= sub);
        } else {
            let right = leaves.skip(k);
            lemma_consistency_subproof(right, old_size - k, false, old_root);
            let sub = consistency_subproof(right, old_size - k, false);
            assert(sub.push(merkle_root(leaves.take(k))).drop_last() =~= sub);
            let old = leaves.take(old_size);
            lemma_split_point_unique(old_size as nat, k as nat);
            assert(old.take(k) =~= leaves.take(k));
            assert(old.skip(k) =~= right.take(old_size - k));
        }
    }
}

/// Every consistency proof verifies: for each prefix of the leaves, the
/// consistency proof leads from the root over the prefix to the root over
/// all leaves.
pub proof fn lemma_consistency_proof_verifies(leaves: Seq<Seq<u8>>, old_size: int)
    requires
        1 <= old_size <= leaves.len(),
    ensures
        consistent(
            old_size,
            leaves.len(),
            consistency_path(leaves, old_size),
            merkle_root(leaves.take(old_size)),
            merkle_root(leaves),
        ),
{
    lemma_consistency_subproof(leaves, old_size, true, merkle_root(leaves.take(old_size)));
}

/// The consistency proof between the first `old_size` leaves of the subtree
/// over the leaves from `lo` up to `hi`, and that subtree.
pub fn subtree_consistency_path(
    leaves: &Vec<[u8; 32]>,
    old_size: usize,
    lo: usize,
    hi: usize,
    whole: bool,
) -> (path: Vec<[u8; 32]>)
    requires
        lo < hi <= leaves@.len(),
        1 <= old_size <= hi - lo,
    ensures
        hash_views(path@) == consistency_subproof(
            hash_views(leaves@).subrange(lo as int, hi as int),
            old_size as int,
            whole,
        ),
    decreases hi - lo,
{
    let ghost range = hash_views(leaves@).subrange(lo as int, hi as int);
    if old_size == hi - lo {
        let mut path: Vec<[u8; 32]> = Vec::new();
        if !whole {
            let root = subtree_root(leaves, lo, hi);
            path.push(root);
            assert(hash_views(path@) =~= seq![root@]);
        } else {
            assert(hash_views(path@) =~= Seq::<Seq<u8>>::empty());
        }
        return path;
    }
    let k = split(hi - lo);
    proof {
        assert(range.take(k as int) =~= hash_views(leaves@).subrange(lo as int, lo + k));
        assert(range.skip(k as int) =~= hash_views(leaves@).subrange(lo + k, hi as int));
    }
    if old_size <= k {
        let mut path = subtree_consistency_path(leaves, old_size, lo, lo + k, whole);
        let ghost before = path@;
        let sibling = subtree_root(leaves, lo + k, hi);
        path.push(sibling);
        assert(hash_views(path@) =~= hash_views(before).push(sibling@));
        path
    } else {
        let mut path = subtree_consistency_path(leaves, old_size - k, lo + k, hi, false);
        let ghost before = path@;
        let sibling = subtree_root(leaves, lo, lo + k);
        path.push(sibling);
        assert(hash_views(path@) =~= hash_views(before).push(sibling@));
        path
    }
}

/// The byte strings of an optional pair of hashes.
pub open spec fn opt_pair_view(pair: Option<([u8; 32], [u8; 32])>) -> Option<(Seq<u8>, Seq<u8>)> {
    match pair {
        Some((a, b)) => Some((a@, b@)),
        None => None,
    }
}

fn roots_from_prefix(
    old_size: usize,
    size: usize,
    path: &[[u8; 32]],
    len: usize,
    whole: bool,
    old_root: &[u8; 32],
) -> (roots: Option<([u8; 32], [u8; 32])>)
    requires
        len <= path@.len(),
    ensures
        opt_pair_view(roots) == roots_from_consistency(
            old_size as int,
            size as nat,
            hash_views(path@.subrange(0, len as int)),
            whole,
            old_root@,
        ),
    decreases size,
{
    let ghost taken = hash_views(path@.subrange(0, len as int));
    if old_size >= size || size < 2 {
        if old_size != size {
            return None;
        }
        if whole {
            if len == 0 {
                return Some((*old_root, *old_root));
            } else {
                return None;
            }
        } else {
            if len == 1 {
                assert(taken[0] == path@[0]@);
                return Some((path[0], path[0]));
            } else {
                return None;
            }
        }
    }
    let k = split(size);
    if len == 0 || old_size < 1 {
        return None;
    }
    proof {
        assert(taken.drop_last() =~= hash_views(path@.subrange(0, len - 1)));
        assert(taken.last() == path@[len - 1]@);
    }
    let sibling = &path[len - 1];
    if old_size <= k {
        match roots_from_prefix(old_size, k, path, len - 1, whole, old_root) {
            Some((old, new)) => Some((old, hash_node(&new, sibling))),
            None => None,
        }
    } else {
        match roots_from_prefix(old_size - k, size - k, path, len - 1, false, old_root) {
            Some((old, new)) => Some((hash_node(sibling, &old), hash_node(sibling, &new))),
            None => None,
        }
    }
}

/// Whether a consistency proof shows that the tree with `new_root` over
/// `size` leaves extends the tree with `old_root` over its first
/// `old_size`.
pub fn verify_consistency(
    old_size: usize,
    size: usize,
    path: &[[u8; 32]],
    old_root: &[u8; 32],
    new_root: &[u8; 32],
) -> (ok: bool)
    ensures
        ok == consistent(old_size as int, size as nat, hash_views(path@), old_root@, new_root@),
{
    if old_size < 1 || old_size > size {
        return false;
    }
    assert(path@.subrange(0, path@.len() as int) =~= path@);
    match roots_from_prefix(old_size, size, path, path.len(), true, old_root) {
        Some((old, new)) => crate::bytes::bytes_eq(old.as_slice(), old_root.as_slice())
            && crate::bytes::bytes_eq(new.as_slice(), new_root.as_slice()),
        None => false,
    }
}

/// A complete subtree on the right edge of the tree: where its leaves
/// start, how many they are, and its root.
#[derive(Debug, Clone, Copy)]
pub struct Peak {
    pub start: usize,
    pub size: usize,
    pub hash: [u8; 32],
}

/// Whether `peaks` are the complete subtrees that `leaves` fall into from
/// left to right: each a power of two in size and at most half the one
/// before, each holding the root over its leaves, together covering all
/// leaves.
pub open spec fn peaks_cover(peaks: Seq<Peak>, leaves: Seq<Seq<u8>>) -> bool {
    &&& peaks.len() == 0 <==> leaves.len() == 0
    &&& peaks.len() > 0 ==> peaks[0].start == 0 && peaks.last().start + peaks.last().size
        == leaves.len()
    &&& forall|j: int|
        0 <= j < peaks.len() ==> is_pow2((#[trigger] peaks[j]).size as nat) && peaks[j].start
            + peaks[j].size <= leaves.len() && peaks[j].hash@ == merkle_root(
            leaves.subrange(peaks[j].start as int, peaks[j].start + peaks[j].size),
        )
    &&& forall|j: int|
        0 <= j < peaks.len() - 1 ==> (#[trigger] peaks[j + 1]).start == peaks[j].start
            + peaks[j].size && 2 * peaks[j + 1].size <= peaks[j].size
}

/// Of two powers of two, the smaller is at most half the larger.
pub proof fn lemma_pow2_gap(a: nat, b: nat)
    requires
        is_pow2(a),
        is_pow2(b),
        a < b,
    ensures
        2 * a <= b,
    decreases a,
{
    if a > 1 {
        lemma_pow2_gap(a / 2, b / 2);
    }
}

/// The root over all leaves, from the complete subtrees they fall into.
pub(crate) fn root_of_peaks(peaks: &Vec<Peak>, Ghost(leaves): Ghost<Seq<Seq<u8>>>) -> (root: [u8; 32])
    requires
        peaks_cover(peaks@, leaves),
        peaks@.len() > 0,
    ensures
        root@ == merkle_root(leaves),
{
    let n = peaks.len();
    let mut j: usize = n - 1;
    let mut acc = peaks[j].hash;
    assert(leaves.subrange(peaks@[j as int].start as int, leaves.len() as int) =~= leaves.subrange(
        peaks@[j as int].start as int,
        peaks@[j as int].start + peaks@[j as int].size,
    ));
    while j > 0
        invariant
            j < n == peaks@.len(),
            peaks_cover(peaks@, leaves),
            acc@ == merkle_root(leaves.subrange(peaks@[j as int].start as int, leaves.len() as int)),
            leaves.len() - peaks@[j as int].start < 2 * peaks@[j as int].size,
            peaks@[j as int].start < leaves.len(),
        decreases j,
    {
        let ghost right = peaks@[j as int];
        j -= 1;
        let left = &peaks[j];
        proof {
            assert(peaks@[j + 1] == right);
            let range = leaves.subrange(left.start as int, leaves.len() as int);
            lemma_split_point_unique(range.len(), left.size as nat);
            assert(range.take(left.size as int) =~= leaves.subrange(
                left.start as int,
                left.start + left.size,
            ));
            assert(range.skip(left.size as int) =~= leaves.subrange(
                right.start as int,
                leaves.len() as int,
            ));
        }
        acc = hash_node(&left.hash, &acc);
    }
    assert(leaves.subrange(0, leaves.len() as int) =~= leaves);
    acc
}

/// Takes one more leaf into the complete subtrees: the leaf is a subtree of
/// its own, and is merged with the subtree before it as long as the two are
/// of one size.
pub(crate) fn push_peak(peaks: &mut Vec<Peak>, leaf: [u8; 32], Ghost(leaves): Ghost<Seq<Seq<u8>>>)
    requires
        peaks_cover(old(peaks)@, leaves),
        leaves.len() < usize::MAX,
    ensures
        peaks_cover(final(peaks)@, leaves.push(leaf@)),
{
    let ghost grown = leaves.push(leaf@);
    let ghost n = leaves.len() as int;
    let mut carry = Peak { start: if peaks.len() == 0 { 0 } else {
        peaks[peaks.len() - 1].start + peaks[peaks.len() - 1].size
    }, size: 1, hash: leaf };
    proof {
        assert(grown.subrange(n, n + 1) =~= seq![leaf@]);
        assert(forall|j: int|
            0 <= j < peaks@.len() ==> grown.subrange(
                (#[trigger] peaks@[j]).start as int,
                peaks@[j].start + peaks@[j].size,
            ) =~= leaves.subrange(peaks@[j].start as int, peaks@[j].start + peaks@[j].size));
    }
    while peaks.len() > 0 && peaks[peaks.len() - 1].size == carry.size
        invariant
            grown == leaves.push(leaf@),
            n == leaves.len(),
            n < usize::MAX,
            is_pow2(carry.size as nat),
            carry.start + carry.size == n + 1,
            carry.hash@ == merkle_root(grown.subrange(carry.start as int, n + 1)),
            peaks@.len() == 0 <==> carry.start == 0,
            peaks@.len() > 0 ==> peaks@[0].start == 0 && peaks@.last().start + peaks@.last().size
                == carry.start && carry.size <= peaks@.last().size,
            forall|j: int|
                0 <= j < peaks@.len() ==> is_pow2((#[trigger] peaks@[j]).size as nat)
                    && peaks@[j].start + peaks@[j].size <= n + 1 && peaks@[j].hash@ == merkle_root(
                    grown.subrange(peaks@[j].start as int, peaks@[j].start + peaks@[j].size),
                ),
            forall|j: int|
                0 <= j < peaks@.len() - 1 ==> (#[trigger] peaks@[j + 1]).start == peaks@[j].start
                    + peaks@[j].size && 2 * peaks@[j + 1].size <= peaks@[j].size,
        decreases peaks@.len(),
    {
        let ghost before = peaks@;
        let last = peaks.pop().unwrap();
        proof {
            assert(last == before[before.len() - 1]);
            assert(forall|j: int| 0 <= j < peaks@.len() ==> peaks@[j] == before[j]);
            let merged = grown.subrange(last.start as int, n + 1);
            lemma_split_point_unique(merged.len(), last.size as nat);
            assert(merged.take(last.size as int) =~= grown.subrange(
                last.start as int,
                last.start + last.size,
            ));
            assert(merged.skip(last.size as int) =~= grown.subrange(carry.start as int, n + 1));
            assert(is_pow2((2 * last.size) as nat)) by {
                assert((2 * last.size) / 2 == last.size);
            }
            if peaks@.len() > 0 {
                assert(before[before.len() - 2] == peaks@.last());
                assert(before[(before.len() - 2) + 1] == last);
            }
        }
        carry = Peak {
            start: last.start,
            size: 2 * last.size,
            hash: hash_node(&last.hash, &carry.hash),
        };
    }
    proof {
        if peaks@.len() > 0 {
            lemma_pow2_gap(carry.size as nat, peaks@.last().size as nat);
        }
    }
    let ghost before = peaks@;
    peaks.push(carry);
    proof {
        assert(forall|j: int| 0 <= j < before.len() ==> peaks@[j] == before[j]);
        assert(peaks@[before.len() as int] == carry);
        assert forall|j: int| 0 <= j < peaks@.len() - 1 implies (#[trigger] peaks@[j + 1]).start
            == peaks@[j].start + peaks@[j].size && 2 * peaks@[j + 1].size <= peaks@[j].size by {
            if j + 1 < before.len() {
                assert(peaks@[j + 1] == before[j + 1]);
            }
        }
    }
}

} // verus!
