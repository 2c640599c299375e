//! The bucket store: one bucket per key, created on first use and never
//! removed.

use crate::engine::Bucket;
use vstd::hash_map::StringHashMap;
use vstd::prelude::*;

verus! {

/// A map from key to bucket. Its one way in is [`Store::with_bucket`], which
/// takes the store exclusively: reading a bucket and writing its successor
/// cannot be separated by another request.
pub struct Store {
    buckets: StringHashMap<Bucket>,
}

impl View for Store {
    type V = Map<Seq<char>, Bucket>;

    closed spec fn view(&self) -> Map<Seq<char>, Bucket> {
        self.buckets@
    }
}

impl Store {
    /// A store without any key.
    pub fn new() -> (s: Store)
        ensures
            s@ == Map::<Seq<char>, Bucket>::empty(),
    {
        Store { buckets: StringHashMap::new() }
    }

    /// The number of keys seen so far.
    pub fn len(&self) -> (n: usize)
        ensures
            n == self@.len(),
    {
        broadcast use vstd::hash_map::group_hash_map_axioms;

        self.buckets.len()
    }

    /// Whether `key` has a bucket.
    pub fn contains(&self, key: &str) -> (b: bool)
        ensures
            b == self@.contains_key(key@),
    {
        self.buckets.contains_key(key)
    }

    /// Hands the bucket of `key`, or `None` for a key not seen before, to
    /// `update`, stores the bucket that `update` returns under `key`, and
    /// returns what else `update` returned. No other key's bucket changes.
    pub fn with_bucket<R, F: FnOnce(Option<Bucket>) -> (Bucket, R)>(
        &mut self,
        key: &str,
        update: F,
    ) -> (out: R)
        requires
            update.requires((old(self)@.get(key@),)),
        ensures
            exists|next: Bucket|
                {
                    &&& #[trigger] update.ensures((old(self)@.get(key@),), (next, out))
                    &&& final(self)@ == old(self)@.insert(key@, next)
                },
    {
        let prior: Option<Bucket> = match self.buckets.get(key) {
            Some(b) => Some(*b),
            None => None,
        };
        let (next, out) = update(prior);
        self.buckets.insert(key.to_owned(), next);
        out
    }
}

} // verus!
