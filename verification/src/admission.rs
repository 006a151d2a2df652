//! Admission controls at the request boundary: replay suppression and
//! token-bucket rate limiting.

use vstd::prelude::*;
use crate::bytemap::ByteMap;
use crate::bytes::{str_bytes, to_vec, utf8};
use crate::error::BentengError;

verus! {

/// The default replay window: five minutes, in milliseconds.
pub const REPLAY_WINDOW_MS: u64 = 300_000;

/// Tokens that a bucket of the gateway holds.
pub const RATE_CAPACITY: u32 = 100;

/// Tokens per second that a bucket of the gateway regains.
pub const RATE_REFILL_PER_SEC: u32 = 10;

/// The age of a record at the time `now`; a record from the future has age
/// zero.
pub open spec fn age(now: u64, first_seen: u64) -> int {
    if now >= first_seen {
        now - first_seen
    } else {
        0
    }
}

/// The records of signatures seen, each with the time it was first seen.
pub struct ReplayCache {
    seen: ByteMap<u64>,
    window_ms: u64,
}

impl ReplayCache {
    /// The records: replay key to the time it was first seen.
    pub closed spec fn records(&self) -> Map<Seq<u8>, u64> {
        self.seen.map()
    }

    /// The length of the replay window, in milliseconds.
    pub closed spec fn window_ms(&self) -> u64 {
        self.window_ms
    }

    /// The invariant of the cache.
    pub closed spec fn wf(&self) -> bool {
        self.seen.wf()
    }

    /// The records that are within the window at the time `now`.
    pub open spec fn live(&self, now: u64) -> Map<Seq<u8>, u64> {
        Map::new(
            |k: Seq<u8>|
                self.records().contains_key(k) && age(now, self.records()[k]) < self.window_ms(),
            |k: Seq<u8>| self.records()[k],
        )
    }

    /// Whether `key` was seen within the window before `now`.
    pub open spec fn is_replay(&self, key: Seq<u8>, now: u64) -> bool {
        self.live(now).contains_key(key)
    }

    /// An empty cache with a window of `window_ms` milliseconds.
    pub fn new(window_ms: u64) -> (cache: ReplayCache)
        ensures
            cache.wf(),
            cache.window_ms() == window_ms,
            cache.records() == Map::<Seq<u8>, u64>::empty(),
    {
        ReplayCache { seen: ByteMap::new(), window_ms }
    }

    /// The number of records.
    pub fn len(&self) -> (n: usize)
        requires
            self.wf(),
        ensures
            self.records().dom().finite(),
            n == self.records().dom().len(),
    {
        proof {
            self.seen.lemma_count_is_size();
        }
        self.seen.len()
    }

    /// Drops the records that are older than the window at the time `now`.
    pub fn evict(&mut self, now: u64)
        requires
            old(self).wf(),
        ensures
            final(self).wf(),
            final(self).window_ms() == old(self).window_ms(),
            final(self).records() == old(self).live(now),
    {
        let ghost before = self.seen;
        let mut i: usize = 0;
        while i < self.seen.len()
            invariant
                before == old(self).seen,
                before.wf(),
                self.seen.wf(),
                self.window_ms == old(self).window_ms,
                i <= self.seen.count(),
                forall|j: int|
                    0 <= j < i ==> age(now, #[trigger] self.seen.value(j)) < self.window_ms,
                forall|k: Seq<u8>| #[trigger]
                    self.seen.map().contains_key(k) ==> before.map().contains_key(k)
                        && self.seen.map()[k] == before.map()[k],
                forall|k: Seq<u8>| #[trigger]
                    before.map().contains_key(k) && age(now, before.map()[k]) < self.window_ms
                        ==> self.seen.map().contains_key(k),
            decreases self.seen.count() - i,
        {
            let first_seen = *self.seen.value_at(i);
            let elapsed = if now >= first_seen {
                now - first_seen
            } else {
                0
            };
            if elapsed >= self.window_ms {
                let _ = self.seen.remove_at(i);
            } else {
                i += 1;
            }
        }
        proof {
            self.seen.lemma_keys_have_positions();
            assert forall|k: Seq<u8>| #[trigger] self.seen.map().contains_key(k) implies age(
                now,
                before.map()[k],
            ) < self.window_ms by {
                let j = self.seen.index_of(k);
                assert(age(now, self.seen.value(j)) < self.window_ms);
            }
            assert(self.records() =~= old(self).live(now));
        }
    }

    /// Admits or refuses a replay key at the time `now`: the records older
    /// than the window are dropped; a key that is still on record is a
    /// replay and is refused; any other key is put on record with `now`.
    pub fn check_and_record(&mut self, key: &[u8], now: u64) -> (fresh: bool)
        requires
            old(self).wf(),
        ensures
            final(self).wf(),
            final(self).window_ms() == old(self).window_ms(),
            fresh == !old(self).is_replay(key@, now),
            final(self).records() == if fresh {
                old(self).live(now).insert(key@, now)
            } else {
                old(self).live(now)
            },
    {
        self.evict(now);
        if self.seen.get(key).is_some() {
            false
        } else {
            self.seen.insert(to_vec(key), now);
            true
        }
    }
}

impl ReplayCache {
    /// Admits a replay key at the time `now`, or refuses it as `Replay`.
    pub fn guard(&mut self, key: &[u8], now: u64) -> (res: Result<(), BentengError>)
        requires
            old(self).wf(),
        ensures
            final(self).wf(),
            final(self).window_ms() == old(self).window_ms(),
            res is Ok <==> !old(self).is_replay(key@, now),
            res matches Err(e) ==> e == BentengError::Replay,
            final(self).records() == if res is Ok {
                old(self).live(now).insert(key@, now)
            } else {
                old(self).live(now)
            },
    {
        if self.check_and_record(key, now) {
            Ok(())
        } else {
            Err(BentengError::Replay)
        }
    }
}

/// A key that was admitted is refused while the window lasts, and admitted
/// again once the window has passed.
pub proof fn lemma_replay_window(cache: ReplayCache, key: Seq<u8>, first: u64, later: u64)
    requires
        cache.records().contains_key(key),
        cache.records()[key] == first,
        first <= later,
    ensures
        cache.is_replay(key, later) <==> later - first < cache.window_ms(),
{
}

/// A token bucket. Tokens are counted in thousandths, so that a refill of
/// `refill_per_sec` tokens a second is `refill_per_sec` thousandths a
/// millisecond.
#[derive(Debug, Clone, Copy, PartialEq, Eq, Structural)]
pub struct RateLimitBucket {
    pub tokens_milli: u64,
    pub last_update_ms: u64,
    pub capacity: u32,
    pub refill_per_sec: u32,
}

impl RateLimitBucket {
    /// A full bucket at the time `now_ms`.
    pub open spec fn full(capacity: u32, refill_per_sec: u32, now_ms: u64) -> RateLimitBucket {
        RateLimitBucket {
            tokens_milli: (capacity * 1000) as u64,
            last_update_ms: now_ms,
            capacity,
            refill_per_sec,
        }
    }

    /// The thousandths of tokens in the bucket after the refill up to the
    /// time `now_ms`: what was there and what the elapsed time brings, up to
    /// the capacity. A clock that went back brings nothing.
    pub open spec fn refilled(self, now_ms: u64) -> int {
        let gained = self.tokens_milli + age(now_ms, self.last_update_ms) * self.refill_per_sec;
        if gained <= self.capacity * 1000 {
            gained
        } else {
            self.capacity * 1000
        }
    }

    /// Whether `tokens` tokens can be taken at the time `now_ms`.
    pub open spec fn can_take(self, tokens: u32, now_ms: u64) -> bool {
        self.refilled(now_ms) >= tokens * 1000
    }

    /// The bucket after an attempt to take `tokens` tokens at the time
    /// `now_ms`.
    pub open spec fn after(self, tokens: u32, now_ms: u64) -> RateLimitBucket {
        RateLimitBucket {
            tokens_milli: if self.can_take(tokens, now_ms) {
                (self.refilled(now_ms) - tokens * 1000) as u64
            } else {
                self.refilled(now_ms) as u64
            },
            last_update_ms: now_ms,
            ..self
        }
    }

    /// Whether the bucket holds no more than its capacity.
    pub open spec fn within_capacity(self) -> bool {
        self.tokens_milli <= self.capacity * 1000
    }

    /// A full bucket at the time `now_ms`.
    pub fn new(capacity: u32, refill_per_sec: u32, now_ms: u64) -> (bucket: RateLimitBucket)
        ensures
            bucket == Self::full(capacity, refill_per_sec, now_ms),
            bucket.within_capacity(),
    {
        RateLimitBucket {
            tokens_milli: (capacity as u64) * 1000,
            last_update_ms: now_ms,
            capacity,
            refill_per_sec,
        }
    }

    /// Refills the bucket up to the time `now_ms` and takes `tokens`
    /// tokens from it, where it holds as many.
    pub fn try_consume(&mut self, tokens: u32, now_ms: u64) -> (taken: bool)
        requires
            old(self).within_capacity(),
        ensures
            taken == old(self).can_take(tokens, now_ms),
            *final(self) == old(self).after(tokens, now_ms),
            final(self).within_capacity(),
    {
        let cap_milli: u64 = (self.capacity as u64) * 1000;
        let elapsed: u64 = if now_ms >= self.last_update_ms {
            now_ms - self.last_update_ms
        } else {
            0
        };
        let refilled: u64 = if self.refill_per_sec == 0 {
            assert(elapsed * self.refill_per_sec == 0) by (nonlinear_arith)
                requires
                    self.refill_per_sec == 0,
            ;
            self.tokens_milli
        } else if elapsed >= cap_milli {
            assert(elapsed * self.refill_per_sec >= elapsed) by (nonlinear_arith)
                requires
                    self.refill_per_sec >= 1,
            ;
            cap_milli
        } else {
            assert(elapsed * self.refill_per_sec <= 0x1_0000_0000_0000 * 0x1_0000_0000)
                by (nonlinear_arith)
                requires
                    elapsed <= 0x1_0000_0000_0000,
                    self.refill_per_sec <= 0x1_0000_0000,
            ;
            let gained: u128 = (self.tokens_milli as u128) + (elapsed as u128) * (
            self.refill_per_sec as u128);
            if gained <= cap_milli as u128 {
                gained as u64
            } else {
                cap_milli
            }
        };
        assert(refilled == old(self).refilled(now_ms));
        self.last_update_ms = now_ms;
        let need: u64 = (tokens as u64) * 1000;
        if refilled >= need {
            self.tokens_milli = refilled - need;
            true
        } else {
            self.tokens_milli = refilled;
            false
        }
    }
}

/// The rate buckets, one for each operation, tenant prefix and policy
/// prefix.
pub struct RateLimiter {
    buckets: ByteMap<RateLimitBucket>,
    capacity: u32,
    refill_per_sec: u32,
}

impl RateLimiter {
    /// The buckets, by the UTF-8 bytes of their key.
    pub closed spec fn buckets(&self) -> Map<Seq<u8>, RateLimitBucket> {
        self.buckets.map()
    }

    /// The tokens that a bucket holds.
    pub closed spec fn capacity(&self) -> u32 {
        self.capacity
    }

    /// The tokens per second that a bucket regains.
    pub closed spec fn refill_per_sec(&self) -> u32 {
        self.refill_per_sec
    }

    /// The invariant of the limiter: no bucket holds more than its
    /// capacity.
    pub closed spec fn wf(&self) -> bool {
        &&& self.buckets.wf()
        &&& forall|k: Seq<u8>| #[trigger]
            self.buckets.map().contains_key(k) ==> self.buckets.map()[k].within_capacity()
    }

    /// The bucket under `key` at the time `now_ms`: the one on record, or
    /// a full one for a key that is new.
    pub open spec fn bucket(&self, key: Seq<u8>, now_ms: u64) -> RateLimitBucket {
        if self.buckets().contains_key(key) {
            self.buckets()[key]
        } else {
            RateLimitBucket::full(self.capacity(), self.refill_per_sec(), now_ms)
        }
    }

    /// Whether a request under `key` is admitted at the time `now_ms`.
    pub open spec fn admits(&self, key: Seq<u8>, now_ms: u64) -> bool {
        self.bucket(key, now_ms).can_take(1, now_ms)
    }

    /// A limiter whose buckets hold `capacity` tokens and regain
    /// `refill_per_sec` tokens a second.
    pub fn new(capacity: u32, refill_per_sec: u32) -> (limiter: RateLimiter)
        ensures
            limiter.wf(),
            limiter.capacity() == capacity,
            limiter.refill_per_sec() == refill_per_sec,
            limiter.buckets() == Map::<Seq<u8>, RateLimitBucket>::empty(),
    {
        RateLimiter { buckets: ByteMap::new(), capacity, refill_per_sec }
    }

    /// Admits or refuses one request under `key` at the time `now_ms`: the
    /// bucket of the key, a full one for a new key, is refilled on access
    /// and gives one token where it has one.
    pub fn try_acquire(&mut self, key: &str, now_ms: u64) -> (admitted: bool)
        requires
            old(self).wf(),
        ensures
            final(self).wf(),
            final(self).capacity() == old(self).capacity(),
            final(self).refill_per_sec() == old(self).refill_per_sec(),
            admitted == old(self).admits(utf8(key@), now_ms),
            final(self).buckets() == old(self).buckets().insert(
                utf8(key@),
                old(self).bucket(utf8(key@), now_ms).after(1, now_ms),
            ),
    {
        let key_bytes = str_bytes(key);
        let mut bucket = match self.buckets.get(key_bytes) {
            Some(b) => *b,
            None => RateLimitBucket::new(self.capacity, self.refill_per_sec, now_ms),
        };
        let admitted = bucket.try_consume(1, now_ms);
        self.buckets.insert(to_vec(key_bytes), bucket);
        admitted
    }
}

impl RateLimiter {
    /// Admits one request under `key` at the time `now_ms`, or refuses it
    /// as `RateLimited`.
    pub fn guard(&mut self, key: &str, now_ms: u64) -> (res: Result<(), BentengError>)
        requires
            old(self).wf(),
        ensures
            final(self).wf(),
            final(self).capacity() == old(self).capacity(),
            final(self).refill_per_sec() == old(self).refill_per_sec(),
            res is Ok <==> old(self).admits(utf8(key@), now_ms),
            res matches Err(e) ==> e == BentengError::RateLimited,
            final(self).buckets() == old(self).buckets().insert(
                utf8(key@),
                old(self).bucket(utf8(key@), now_ms).after(1, now_ms),
            ),
    {
        if self.try_acquire(key, now_ms) {
            Ok(())
        } else {
            Err(BentengError::RateLimited)
        }
    }
}

} // verus!
