//! The bounded cache of derived keys: entries run out at their expiry, and
//! room is made when the cache is full.

use vstd::prelude::*;
use crate::bytemap::ByteMap;
use crate::crypto::kem::array32;
use crate::crypto::secret::Secret;

verus! {

/// A derived key with its expiry.
pub struct CachedKey {
    pub expires_at: u64,
    pub key_material: Secret,
}

/// The model of a `CachedKey`.
pub struct CachedKeyView {
    pub expires_at: u64,
    pub key_material: Seq<u8>,
}

impl View for CachedKey {
    type V = CachedKeyView;

    open spec fn view(&self) -> CachedKeyView {
        CachedKeyView { expires_at: self.expires_at, key_material: self.key_material@ }
    }
}

/// The cache of derived keys. It never leaves the process.
pub struct DerivationCache {
    entries: ByteMap<CachedKey>,
    max_entries: usize,
}

/// The most entries that a cache configured for `max_entries` holds: the
/// entry that was stored last is always kept.
pub open spec fn capacity(max_entries: usize) -> nat {
    if max_entries == 0 {
        1
    } else {
        max_entries as nat
    }
}

/// Whether every entry of `before` that has not run out at the time `now`
/// is in `after`, but for the one under `gone`.
pub open spec fn kept_but(
    before: Map<Seq<u8>, CachedKeyView>,
    after: Map<Seq<u8>, CachedKeyView>,
    gone: Seq<u8>,
    now: u64,
) -> bool {
    forall|k: Seq<u8>|
        k != gone && #[trigger] before.contains_key(k) && before[k].expires_at > now
            ==> after.contains_key(k)
}

/// The keys of the entries that have not run out at the time `now`.
pub open spec fn live_keys(entries: Map<Seq<u8>, CachedKeyView>, now: u64) -> Set<Seq<u8>> {
    Set::new(|k: Seq<u8>| entries.contains_key(k) && entries[k].expires_at > now)
}

/// Whether every entry of `before` that has not run out at the time `now`
/// is in `after`.
pub open spec fn kept_all(
    before: Map<Seq<u8>, CachedKeyView>,
    after: Map<Seq<u8>, CachedKeyView>,
    now: u64,
) -> bool {
    forall|k: Seq<u8>| #[trigger]
        before.contains_key(k) && before[k].expires_at > now ==> after.contains_key(k)
}

/// Whether at most one entry of `before` that has not run out at the time
/// `now` is missing in `after`.
pub open spec fn kept_but_one(
    before: Map<Seq<u8>, CachedKeyView>,
    after: Map<Seq<u8>, CachedKeyView>,
    now: u64,
) -> bool {
    exists|gone: Seq<u8>| #[trigger] kept_but(before, after, gone, now)
}

impl DerivationCache {
    /// The entries of the cache.
    pub closed spec fn entries(&self) -> Map<Seq<u8>, CachedKeyView> {
        Map::new(
            |k: Seq<u8>| self.entries.map().contains_key(k),
            |k: Seq<u8>| self.entries.map()[k]@,
        )
    }

    /// The number of entries.
    pub closed spec fn count(&self) -> nat {
        self.entries.count()
    }

    /// The configured bound.
    pub closed spec fn max_entries(&self) -> usize {
        self.max_entries
    }

    /// The invariant of the cache: it is within its bound, and every key
    /// it holds has 32 bytes.
    pub closed spec fn wf(&self) -> bool {
        &&& self.entries.wf()
        &&& self.entries.count() <= capacity(self.max_entries)
        &&& forall|k: Seq<u8>| #[trigger]
            self.entries.map().contains_key(k) ==> self.entries.map()[k].key_material@.len() == 32
    }

    /// The cache is bounded: it never holds more entries than its
    /// configured bound, and at least the entry that was stored last.
    pub proof fn lemma_bounded(&self)
        requires
            self.wf(),
        ensures
            self.count() <= capacity(self.max_entries()),
    {
    }

    /// What a lookup of `key` at the time `now` gives: the cached key,
    /// where there is one that has not run out.
    pub open spec fn live(&self, key: Seq<u8>, now: u64) -> Option<Seq<u8>> {
        if self.entries().contains_key(key) && self.entries()[key].expires_at > now {
            Some(self.entries()[key].key_material)
        } else {
            None
        }
    }

    /// An empty cache that holds up to `max_entries` entries.
    pub fn new(max_entries: usize) -> (cache: DerivationCache)
        ensures
            cache.wf(),
            cache.count() == 0,
            cache.max_entries() == max_entries,
            cache.entries() == Map::<Seq<u8>, CachedKeyView>::empty(),
    {
        let cache = DerivationCache { entries: ByteMap::new(), max_entries };
        assert(cache.entries() =~= Map::<Seq<u8>, CachedKeyView>::empty());
        cache
    }

    /// The number of entries.
    pub fn len(&self) -> (n: usize)
        requires
            self.wf(),
        ensures
            n == self.count(),
            n <= capacity(self.max_entries()),
    {
        self.entries.len()
    }

    /// Looks `key` up at the time `now`.
    pub fn lookup(&self, key: &[u8], now: u64) -> (dek: Option<[u8; 32]>)
        requires
            self.wf(),
        ensures
            match self.live(key@, now) {
                Some(material) => dek matches Some(d) && d@ == material,
                None => dek is None,
            },
    {
        match self.entries.get(key) {
            Some(entry) => if entry.expires_at > now {
                Some(array32(entry.key_material.as_slice()))
            } else {
                None
            },
            None => None,
        }
    }

    /// Removes every entry that has run out at the time `now`.
    fn drop_expired(&mut self, now: u64)
        requires
            old(self).wf(),
        ensures
            final(self).wf(),
            final(self).max_entries() == old(self).max_entries(),
            final(self).count() <= old(self).count(),
            forall|k: Seq<u8>| #[trigger]
                final(self).entries().contains_key(k) <==> old(self).entries().contains_key(k)
                    && old(self).entries()[k].expires_at > now,
            forall|k: Seq<u8>| #[trigger]
                final(self).entries().contains_key(k) ==> final(self).entries()[k] == old(self).entries()[k],
    {
        let ghost before = self.entries;
        let mut i: usize = 0;
        while i < self.entries.len()
            invariant
                before == old(self).entries,
                before.wf(),
                self.entries.wf(),
                self.max_entries == old(self).max_entries,
                i <= self.entries.count() <= before.count(),
                forall|j: int| 0 <= j < i ==> (#[trigger] self.entries.value(j)).expires_at > now,
                forall|k: Seq<u8>| #[trigger]
                    self.entries.map().contains_key(k) ==> before.map().contains_key(k)
                        && self.entries.map()[k] == before.map()[k],
                forall|k: Seq<u8>| #[trigger]
                    before.map().contains_key(k) && before.map()[k].expires_at > now
                        ==> self.entries.map().contains_key(k),
            decreases self.entries.count() - i,
        {
            if self.entries.value_at(i).expires_at <= now {
                let _ = self.entries.remove_at(i);
            } else {
                i += 1;
            }
        }
        proof {
            self.entries.lemma_keys_have_positions();
            assert forall|k: Seq<u8>| #[trigger]
                self.entries().contains_key(k) implies old(self).entries()[k].expires_at
                > now by {
                let j = self.entries.index_of(k);
                assert(self.entries.value(j).expires_at > now);
            }
        }
    }

    /// Removes one entry, where there is any, and no more.
    fn drop_one(&mut self) -> (gone: Ghost<Seq<u8>>)
        requires
            old(self).wf(),
        ensures
            final(self).wf(),
            final(self).max_entries() == old(self).max_entries(),
            old(self).count() > 0 ==> final(self).count() == old(self).count() - 1,
            old(self).count() == 0 ==> final(self).count() == 0,
            forall|k: Seq<u8>| #[trigger]
                final(self).entries().contains_key(k) ==> old(self).entries().contains_key(k)
                    && final(self).entries()[k] == old(self).entries()[k],
            forall|k: Seq<u8>|
                k != gone@ && #[trigger] old(self).entries().contains_key(k)
                    ==> final(self).entries().contains_key(k),
    {
        if self.entries.len() > 0 {
            let ghost first = self.entries.key(0);
            let _ = self.entries.remove_at(0);
            Ghost(first)
        } else {
            Ghost(Seq::empty())
        }
    }

    /// Puts an entry under `key`, in place of what was there.
    fn put(&mut self, key: Vec<u8>, entry: CachedKey)
        requires
            old(self).wf(),
            entry.key_material@.len() == 32,
            old(self).count() < capacity(old(self).max_entries()) || old(self).entries().contains_key(key@),
        ensures
            final(self).wf(),
            final(self).max_entries() == old(self).max_entries(),
            final(self).entries() == old(self).entries().insert(key@, entry@),
    {
        let ghost before = self.entries;
        self.entries.insert(key, entry);
        proof {
            assert(self.entries() =~= old(self).entries().insert(key@, entry@));
        }
    }

    /// Stores `dek` under `key` until `expires_at`, at the time `now`. A
    /// full cache first drops every entry that has run out, and where it is
    /// still full, one more entry and no more. Whichever entry goes, the
    /// new one is there afterwards, every other entry that is there was
    /// there before, at most one entry that had not run out is missing,
    /// none where those entries left room, and the cache is within its
    /// bound.
    pub fn store(&mut self, key: Vec<u8>, dek: &[u8; 32], expires_at: u64, now: u64)
        requires
            old(self).wf(),
        ensures
            final(self).wf(),
            final(self).max_entries() == old(self).max_entries(),
            final(self).entries().contains_key(key@),
            final(self).entries()[key@] == (CachedKeyView { expires_at, key_material: dek@ }),
            forall|k: Seq<u8>|
                k != key@ && #[trigger] final(self).entries().contains_key(k)
                    ==> old(self).entries().contains_key(k)
                    && final(self).entries()[k] == old(self).entries()[k],
            old(self).count() < old(self).max_entries() ==> forall|k: Seq<u8>| #[trigger]
                old(self).entries().contains_key(k) ==> final(self).entries().contains_key(k),
            old(self).count() >= old(self).max_entries() ==> forall|k: Seq<u8>|
                k != key@ && #[trigger] final(self).entries().contains_key(k) ==> final(self).entries()[k].expires_at > now,
            kept_but_one(old(self).entries(), final(self).entries(), now),
            live_keys(old(self).entries(), now).finite(),
            live_keys(old(self).entries(), now).len() < old(self).max_entries() ==> kept_all(
                old(self).entries(),
                final(self).entries(),
                now,
            ),
    {
        let ghost e0 = self.entries();
        let ghost gone = key@;
        let ghost live = e0;
        let ghost roomy = self.entries.count() < self.max_entries;
        proof {
            self.entries.lemma_count_is_size();
            assert(live_keys(e0, now).subset_of(self.entries.map().dom()));
            vstd::set_lib::lemma_len_subset(live_keys(e0, now), self.entries.map().dom());
        }
        if self.entries.len() >= self.max_entries {
            self.drop_expired(now);
            proof {
                live = self.entries();
                self.entries.lemma_count_is_size();
                assert forall|k: Seq<u8>|
                    self.entries.map().dom().contains(k) <==> live_keys(e0, now).contains(
                        k,
                    ) by {
                    assert(self.entries().contains_key(k) <==> self.entries.map().contains_key(k));
                }
                assert(self.entries.map().dom() =~= live_keys(e0, now));
                roomy = self.entries.count() < self.max_entries;
            }
            if self.entries.len() >= self.max_entries {
                let dropped = self.drop_one();
                proof {
                    gone = dropped@;
                }
            }
        }
        let ghost e1 = self.entries();
        assert(forall|k: Seq<u8>| #[trigger]
            e1.contains_key(k) ==> e0.contains_key(k) && e1[k] == e0[k]);
        assert forall|k: Seq<u8>|
            k != gone && #[trigger] e0.contains_key(k) && e0[k].expires_at > now implies e1.contains_key(
            k,
        ) by {
            assert(live.contains_key(k));
        }
        let entry = CachedKey { expires_at, key_material: Secret::from_slice(dek.as_slice()) };
        self.put(key, entry);
        assert(kept_but(e0, self.entries(), gone, now));
        assert(live_keys(e0, now).len() < old(self).max_entries() ==> roomy);
        assert(roomy ==> kept_all(e0, self.entries(), now)) by {
            if roomy {
                assert forall|k: Seq<u8>| #[trigger]
                    e0.contains_key(k) && e0[k].expires_at > now implies self.entries().contains_key(
                    k,
                ) by {
                    assert(live.contains_key(k));
                    assert(e1.contains_key(k));
                }
            }
        }
    }
}

} // verus!
