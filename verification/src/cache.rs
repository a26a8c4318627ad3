//! The cache of answers of version sources: keys, file names and expiry.
//! Reading and writing the files is the caller's part.

use vstd::prelude::*;
use sha2::Digest;
use crate::text::{from_chars, push_str, to_chars};

verus! {

/// The SHA-256 digest of the UTF-8 encoding of `text`, written as 64
/// lower-case hexadecimal digits.
pub uninterp spec fn sha256_hex(text: Seq<char>) -> Seq<char>;

/// Computes `sha2::Sha256::digest` of the bytes of `text` and writes it in
/// hexadecimal. Claimed: the text handed back is the one that `sha256_hex`
/// names; nothing is claimed about its digits.
#[verifier::external_body]
pub(crate) fn digest_hex(text: &str) -> (r: String)
    ensures
        r@ == sha256_hex(text@),
{
    format!("{:x}", sha2::Sha256::digest(text.as_bytes()))
}

/// A cached answer with the time at which it was stored.
#[derive(Debug, Clone, PartialEq, Eq)]
pub struct CacheEntry<T> {
    pub data: T,
    /// Nanoseconds since the epoch.
    pub timestamp: u128,
}

/// Whether an entry stored at `timestamp` is older than `ttl` seconds at
/// `now`, both in nanoseconds since the epoch. An entry from the future is
/// expired.
pub open spec fn expired(timestamp: u128, now: u128, ttl: u64) -> bool {
    now < timestamp || now - timestamp > ttl as int * 1_000_000_000
}

impl<T> CacheEntry<T> {
    /// An entry stored at the time `now`.
    pub fn new(data: T, now: u128) -> (r: Self)
        ensures
            r.data == data,
            r.timestamp == now,
    {
        CacheEntry { data, timestamp: now }
    }

    /// Whether the entry is older than `ttl` seconds at the time `now`.
    pub fn is_expired(&self, now: u128, ttl: u64) -> (r: bool)
        ensures
            r == expired(self.timestamp, now, ttl),
    {
        if now < self.timestamp {
            true
        } else {
            let limit: u128 = (ttl as u128) * 1_000_000_000;
            now - self.timestamp > limit
        }
    }
}

/// Where cached answers lie and how long they stay good.
#[derive(Debug, Clone, PartialEq, Eq)]
pub struct Cache {
    pub cache_dir: String,
    /// Seconds.
    pub ttl: u64,
}

/// The text that the key of an answer is the digest of.
pub open spec fn key_text(source_type: Seq<char>, identifier: Seq<char>, operation: Seq<char>)
    -> Seq<char> {
    source_type + ":"@ + identifier + ":"@ + operation
}

impl Cache {
    /// A cache in the directory `cache_dir` whose answers stay good for one
    /// hour.
    pub fn new(cache_dir: String) -> (r: Self)
        ensures
            r.cache_dir == cache_dir,
            r.ttl == 3600,
    {
        Cache { cache_dir, ttl: 3600 }
    }

    /// The same cache with answers that stay good for `ttl` seconds.
    pub fn with_ttl(self, ttl: u64) -> (r: Self)
        ensures
            r.cache_dir == self.cache_dir,
            r.ttl == ttl,
    {
        Cache { cache_dir: self.cache_dir, ttl }
    }

    /// The key under which the answer of `source_type` for `identifier` to
    /// the question `operation` is stored.
    pub fn cache_key(&self, source_type: &str, identifier: &str, operation: &str) -> (r: String)
        ensures
            r@ == sha256_hex(key_text(source_type@, identifier@, operation@)),
    {
        let mut t = to_chars(source_type);
        push_str(&mut t, ":");
        push_str(&mut t, identifier);
        push_str(&mut t, ":");
        push_str(&mut t, operation);
        digest_hex(from_chars(&t).as_str())
    }

    /// The path of the file that holds the answer with key `key`.
    pub fn cache_path(&self, key: &str) -> (r: String)
        ensures
            r@ == self.cache_dir@ + "/"@ + key@ + ".json"@,
    {
        let mut t = to_chars(self.cache_dir.as_str());
        push_str(&mut t, "/");
        push_str(&mut t, key);
        push_str(&mut t, ".json");
        from_chars(&t)
    }
}

} // verus!
