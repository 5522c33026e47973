//! The record cache: a key-value store from `post:{id}` keys to normalized
//! records with a fixed expiry, last write winning.

use vstd::prelude::*;

use crate::text::str_eq;
use crate::types::{InstaData, InstaDataV};

verus! {

/// The lifetime of a cache entry, in seconds from write time.
pub const CACHE_TTL_SECONDS: u64 = 86400;

/// The cache key of a post.
pub open spec fn spec_cache_key(post_id: Seq<char>) -> Seq<char> {
    "post:"@ + post_id
}

/// Builds the cache key of a post.
pub fn cache_key(post_id: &str) -> (r: String)
    ensures
        r@ == spec_cache_key(post_id@),
{
    let mut out = String::from_str("post:");
    out.append(post_id);
    out
}

/// The record cache. Modelled as a map from key to the stored record and
/// its expiry instant; a later write for the same key wins.
pub struct RecordCache {
    entries: Vec<(String, InstaData, u64)>,
}

/// The map held by a write sequence, later writes overriding earlier ones.
spec fn spec_cache_map(es: Seq<(String, InstaData, u64)>) -> Map<Seq<char>, (InstaDataV, u64)>
    decreases es.len(),
{
    if es.len() == 0 {
        Map::empty()
    } else {
        spec_cache_map(es.drop_last()).insert(es.last().0@, (es.last().1@, es.last().2))
    }
}

impl View for RecordCache {
    type V = Map<Seq<char>, (InstaDataV, u64)>;

    closed spec fn view(&self) -> Map<Seq<char>, (InstaDataV, u64)> {
        spec_cache_map(self.entries@)
    }
}

impl RecordCache {
    /// An empty cache.
    pub fn new() -> (r: Self)
        ensures
            r@ == Map::<Seq<char>, (InstaDataV, u64)>::empty(),
    {
        RecordCache { entries: Vec::new() }
    }

    /// The cached record for a post: its latest write, provided that write
    /// has not expired by `now`.
    pub fn get_cached(&self, post_id: &str, now: u64) -> (r: Option<InstaData>)
        ensures
            match r {
                Some(d) => self@.contains_key(spec_cache_key(post_id@)) && self@[spec_cache_key(
                    post_id@,
                )].1 > now && self@[spec_cache_key(post_id@)].0 == d@,
                None => !self@.contains_key(spec_cache_key(post_id@)) || self@[spec_cache_key(
                    post_id@,
                )].1 <= now,
            },
    {
        let key = cache_key(post_id);
        let ghost k = spec_cache_key(post_id@);
        let n = self.entries.len();
        let mut j = n;
        proof {
            assert(self.entries@.take(n as int) =~= self.entries@);
        }
        while j > 0
            invariant
                j <= n,
                n == self.entries@.len(),
                key@ == k,
                k == spec_cache_key(post_id@),
                self@ == spec_cache_map(self.entries@),
                self@.contains_key(k) <==> spec_cache_map(
                    self.entries@.take(j as int),
                ).contains_key(k),
                self@.contains_key(k) ==> self@[k] == spec_cache_map(
                    self.entries@.take(j as int),
                )[k],
            decreases j,
        {
            j -= 1;
            let ghost upto = self.entries@.take(j + 1);
            proof {
                assert(upto.drop_last() =~= self.entries@.take(j as int));
                assert(upto.last() == self.entries@[j as int]);
                assert(upto.len() == j + 1);
                assert(spec_cache_map(upto) == spec_cache_map(upto.drop_last()).insert(
                    upto.last().0@,
                    (upto.last().1@, upto.last().2),
                ));
            }
            if str_eq(self.entries[j].0.as_str(), key.as_str()) {
                assert(spec_cache_map(upto).contains_key(k));
                assert(spec_cache_map(upto)[k] == (
                    self.entries@[j as int].1@,
                    self.entries@[j as int].2,
                ));
                assert(self@.contains_key(k));
                assert(self@[k] == (self.entries@[j as int].1@, self.entries@[j as int].2));
                if self.entries[j].2 > now {
                    let d = self.entries[j].1.clone();
                    return Some(d);
                }
                return None;
            }
            assert(self.entries@[j as int].0@ != k);
            assert(spec_cache_map(upto).contains_key(k) <==> spec_cache_map(
                self.entries@.take(j as int),
            ).contains_key(k));
        }
        proof {
            assert(self.entries@.take(0) =~= Seq::<(String, InstaData, u64)>::empty());
            assert(!spec_cache_map(Seq::<(String, InstaData, u64)>::empty()).contains_key(k));
        }
        None
    }

    /// Writes the record for a post, to expire a fixed TTL after `now`.
    /// Concurrent or repeated writes are last-writer-wins.
    pub fn set_cached(&mut self, post_id: &str, data: &InstaData, now: u64)
        requires
            now <= u64::MAX - 86400,
        ensures
            final(self)@ == old(self)@.insert(
                spec_cache_key(post_id@),
                (data@, (now + 86400) as u64),
            ),
    {
        let key = cache_key(post_id);
        let copied = data.clone();
        let ghost prev = self.entries@;
        self.entries.push((key, copied, now + CACHE_TTL_SECONDS));
        proof {
            assert(self.entries@.drop_last() =~= prev);
            assert(self.entries@.last() == self.entries@[prev.len() as int]);
        }
    }
}

} // verus!
