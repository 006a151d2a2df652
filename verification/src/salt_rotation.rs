//! Salted hashing of address prefixes, with a salt that rotates.

use vstd::prelude::*;
use crate::bytes::{append, str_bytes, to_vec, utf8};
use crate::crypto::hash::{sha256, sha256_digest};
use crate::error::BentengError;
use crate::hex::{hex_chars, hex_encode};

verus! {

/// Milliseconds in an hour.
pub const HOUR_MS: u64 = 3_600_000;

/// The default rotation interval, in hours.
pub const DEFAULT_ROTATION_HOURS: i64 = 24;

/// The byte of a dot.
pub const DOT: u8 = 0x2e;

/// The length of the prefix of `ip` that ends before its `dots`-th dot, or
/// of all of `ip` where it has fewer dots.
pub open spec fn prefix_len(ip: Seq<u8>, dots: nat) -> int
    decreases ip.len(),
{
    if ip.len() == 0 {
        0
    } else if ip[0] == DOT {
        if dots <= 1 {
            0
        } else {
            1 + prefix_len(ip.skip(1), (dots - 1) as nat)
        }
    } else {
        1 + prefix_len(ip.skip(1), dots)
    }
}

/// The network prefix of an address: what stands before its third dot, the
/// first three groups of a dotted quad; all of an address with fewer dots.
pub open spec fn ip_prefix(ip: Seq<u8>) -> Seq<u8> {
    ip.take(prefix_len(ip, 3))
}

/// The prefix ends within the address.
pub proof fn lemma_prefix_len_bounds(ip: Seq<u8>, dots: nat)
    ensures
        0 <= prefix_len(ip, dots) <= ip.len(),
    decreases ip.len(),
{
    if ip.len() > 0 {
        if ip[0] == DOT {
            if dots > 1 {
                lemma_prefix_len_bounds(ip.skip(1), (dots - 1) as nat);
            }
        } else {
            lemma_prefix_len_bounds(ip.skip(1), dots);
        }
    }
}

/// The network prefix of `ip`.
pub fn network_prefix(ip: &str) -> (prefix: Vec<u8>)
    ensures
        prefix@ == ip_prefix(utf8(ip@)),
{
    let bytes = str_bytes(ip);
    let mut i: usize = 0;
    let mut left: u8 = 3;
    proof {
        assert(bytes@.skip(0) =~= bytes@);
        lemma_prefix_len_bounds(bytes@, 3);
    }
    while i < bytes.len()
        invariant
            bytes@ == utf8(ip@),
            i <= bytes@.len(),
            1 <= left <= 3,
            prefix_len(bytes@, 3) == i + prefix_len(bytes@.skip(i as int), left as nat),
        decreases bytes@.len() - i,
    {
        let ghost rest = bytes@.skip(i as int);
        proof {
            assert(rest[0] == bytes@[i as int]);
            assert(rest.skip(1) =~= bytes@.skip(i + 1));
        }
        if bytes[i] == DOT {
            if left == 1 {
                let prefix = to_vec(&bytes[0..i]);
                assert(bytes@.subrange(0, i as int) =~= bytes@.take(i as int));
                return prefix;
            }
            left -= 1;
        }
        i += 1;
    }
    assert(bytes@.skip(i as int).len() == 0);
    let prefix = to_vec(&bytes[0..i]);
    assert(bytes@.subrange(0, i as int) =~= bytes@.take(i as int));
    prefix
}

/// The salted hash of a prefix: SHA-256 of the salt and the prefix, as
/// hexadecimal text.
pub open spec fn salted_hash(salt: Seq<u8>, prefix: Seq<u8>) -> Seq<char> {
    hex_chars(sha256(salt + prefix))
}

/// A salt with its lifetime, in milliseconds since the epoch.
#[derive(Debug, Clone, Copy)]
pub struct Salt {
    pub value: [u8; 32],
    pub created_at: u64,
    pub expires_at: u64,
}

/// The end of a lifetime that starts at `now`, as far as it can be
/// counted.
pub open spec fn lifetime_end(now: u64, interval: u64) -> u64 {
    if now + interval <= u64::MAX {
        (now + interval) as u64
    } else {
        u64::MAX
    }
}

/// The rotation interval of `hours` hours, in milliseconds; none for a
/// number of hours below zero.
pub open spec fn interval_ms(hours: i64) -> u64 {
    if hours <= 0 {
        0
    } else if hours * HOUR_MS <= u64::MAX {
        (hours * HOUR_MS) as u64
    } else {
        u64::MAX
    }
}

impl Salt {
    /// The salt `value`, made at `now` to last for `interval`.
    pub fn starting(value: [u8; 32], now: u64, interval: u64) -> (salt: Salt)
        ensures
            salt.value == value,
            salt.created_at == now,
            salt.expires_at == lifetime_end(now, interval),
    {
        let expires_at = if interval <= u64::MAX - now {
            now + interval
        } else {
            u64::MAX
        };
        Salt { value, created_at: now, expires_at }
    }
}

/// `getrandom::getrandom`: 32 bytes from the operating system's random
/// source, or nothing where the source fails. Nothing is claimed of the
/// bytes.
#[verifier::external_body]
fn getrandom_salt() -> Option<[u8; 32]> {
    let mut value = [0u8; 32];
    getrandom::getrandom(&mut value).ok().map(|_| value)
}

/// A fresh random salt value. Fails with `EntropyUnavailable` only where
/// the operating system's random source fails.
pub fn random_salt() -> (res: Result<[u8; 32], BentengError>)
    ensures
        res matches Err(e) ==> e == BentengError::EntropyUnavailable,
{
    match getrandom_salt() {
        Some(value) => Ok(value),
        None => Err(BentengError::EntropyUnavailable),
    }
}

/// Hashes address prefixes under the current salt, and replaces the salt
/// when it has run out.
pub struct SaltRotator {
    current_salt: Salt,
    rotation_interval_ms: u64,
}

impl SaltRotator {
    /// The current salt.
    pub closed spec fn salt(&self) -> Salt {
        self.current_salt
    }

    /// The rotation interval, in milliseconds.
    pub closed spec fn interval(&self) -> u64 {
        self.rotation_interval_ms
    }

    /// Whether the salt is due for rotation at the time `now`.
    pub open spec fn due(&self, now: u64) -> bool {
        now >= self.salt().expires_at
    }

    /// A rotator with the salt `value`, made at `now`, that rotates every
    /// `rotation_hours` hours.
    pub fn with_salt(value: [u8; 32], now: u64, rotation_hours: i64) -> (rotator: SaltRotator)
        ensures
            rotator.interval() == interval_ms(rotation_hours),
            rotator.salt().value == value,
            rotator.salt().created_at == now,
            rotator.salt().expires_at == lifetime_end(now, interval_ms(rotation_hours)),
    {
        let interval: u64 = if rotation_hours <= 0 {
            0
        } else if (rotation_hours as u64) <= u64::MAX / HOUR_MS {
            (rotation_hours as u64) * HOUR_MS
        } else {
            u64::MAX
        };
        SaltRotator {
            current_salt: Salt::starting(value, now, interval),
            rotation_interval_ms: interval,
        }
    }

    /// A rotator with a fresh random salt, made now, that rotates every
    /// `rotation_hours` hours. Fails with `EntropyUnavailable` only where
    /// the random source fails.
    pub fn new(rotation_hours: i64) -> (res: Result<SaltRotator, BentengError>)
        ensures
            res matches Ok(rotator) ==> rotator.interval() == interval_ms(rotation_hours)
                && rotator.salt().expires_at == lifetime_end(
                rotator.salt().created_at,
                interval_ms(rotation_hours),
            ),
            res matches Err(e) ==> e == BentengError::EntropyUnavailable,
    {
        let value = random_salt()?;
        let now = crate::clock::now_epoch_ms();
        Ok(Self::with_salt(value, now, rotation_hours))
    }

    /// Replaces the salt by `value` at the time `now`, where the current
    /// salt has run out; a salt that still lasts stays.
    pub fn rotate_with(&mut self, value: [u8; 32], now: u64) -> (rotated: bool)
        ensures
            rotated == old(self).due(now),
            final(self).interval() == old(self).interval(),
            !rotated ==> final(self).salt() == old(self).salt(),
            rotated ==> final(self).salt().value == value && final(self).salt().created_at == now
                && final(self).salt().expires_at == lifetime_end(now, old(self).interval()),
    {
        if now >= self.current_salt.expires_at {
            self.current_salt = Salt::starting(value, now, self.rotation_interval_ms);
            true
        } else {
            false
        }
    }

    /// Replaces the salt by a fresh random one at the time `now`, where
    /// the current salt has run out. Where the random source fails, the
    /// salt stays and the failure is `EntropyUnavailable`.
    pub fn rotate_if_due(&mut self, now: u64) -> (res: Result<bool, BentengError>)
        ensures
            final(self).interval() == old(self).interval(),
            res matches Ok(rotated) ==> rotated == old(self).due(now),
            res == Ok::<bool, BentengError>(true) ==> final(self).salt().created_at == now
                && final(self).salt().expires_at == lifetime_end(now, old(self).interval()),
            !old(self).due(now) ==> res == Ok::<bool, BentengError>(false),
            res != Ok::<bool, BentengError>(true) ==> final(self).salt() == old(self).salt(),
            res matches Err(e) ==> e == BentengError::EntropyUnavailable,
    {
        if now < self.current_salt.expires_at {
            return Ok(false);
        }
        let value = random_salt()?;
        Ok(self.rotate_with(value, now))
    }

    /// The salted hash of the network prefix of `ip`. Addresses of one
    /// prefix have one hash under one salt.
    pub fn hash_ip(&self, ip: &str) -> (hash: String)
        ensures
            hash@ == salted_hash(self.salt().value@, ip_prefix(utf8(ip@))),
            hash@.len() == 64,
    {
        let prefix = network_prefix(ip);
        let mut buf = to_vec(self.current_salt.value.as_slice());
        append(&mut buf, prefix.as_slice());
        let digest = sha256_digest(buf.as_slice());
        hex_encode(digest.as_slice())
    }
}

} // verus!
