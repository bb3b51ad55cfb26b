//! The counting refinement of the always-occupied tracker: alongside the
//! best pair it holds the number of insertion attempts ever made. The count
//! measures candidates seen, not replacements performed, so it grows by one
//! on every offer, accepted or rejected alike.

use vstd::prelude::*;

verus! {

use core::cmp::Ordering;
use vstd::std_specs::cmp::PartialOrdSpec;

use crate::order::{step_ge, step_gt};

/// Always-occupied tracker that also counts every insertion attempt.
/// It exposes the two greatest-wins relations, strict and non-strict.
#[derive(Debug, Clone, Copy)]
pub struct BestMapNonEmptyCounting<K, V> {
    key: K,
    value: V,
    count: u64,
}

impl<K, V> BestMapNonEmptyCounting<K, V> {
    /// The resident best pair.
    pub closed spec fn spec_pair(&self) -> (K, V) {
        (self.key, self.value)
    }

    /// The number of insertion attempts made so far.
    pub closed spec fn spec_count(&self) -> u64 {
        self.count
    }

    /// A tracker starts occupied with an initial pair; the initial pair is
    /// not an insertion attempt, so the count starts at zero.
    pub fn new(key: K, value: V) -> (r: Self)
        ensures
            r.spec_pair() == (key, value),
            r.spec_count() == 0,
    {
        Self { key, value, count: 0 }
    }

    /// Rebuild a tracker from its structured representation: the resident
    /// pair together with the offer count it had reached.
    pub fn from_parts(key: K, value: V, count: u64) -> (r: Self)
        ensures
            r.spec_pair() == (key, value),
            r.spec_count() == count,
    {
        Self { key, value, count }
    }

    /// The structured representation: the resident pair and the offer count.
    pub fn into_parts(self) -> (r: (K, V, u64))
        ensures
            r == (self.spec_pair().0, self.spec_pair().1, self.spec_count()),
    {
        (self.key, self.value, self.count)
    }

    /// Read-only view of the resident pair.
    pub fn get(&self) -> (r: (&K, &V))
        ensures
            *r.0 == self.spec_pair().0,
            *r.1 == self.spec_pair().1,
    {
        (&self.key, &self.value)
    }

    /// Read-only view of the resident key.
    pub fn key(&self) -> (r: &K)
        ensures
            *r == self.spec_pair().0,
    {
        &self.key
    }

    /// Read-only view of the resident value.
    pub fn value(&self) -> (r: &V)
        ensures
            *r == self.spec_pair().1,
    {
        &self.value
    }

    /// How many insertion attempts were ever made, replacements and
    /// rejections alike.
    pub fn count(&self) -> (r: u64)
        ensures
            r == self.spec_count(),
    {
        self.count
    }

    /// Destructive read: consume the tracker and return the resident pair.
    pub fn into_key_and_value(self) -> (r: (K, V))
        ensures
            r == self.spec_pair(),
    {
        (self.key, self.value)
    }
}

impl<K: PartialOrd, V> BestMapNonEmptyCounting<K, V> {
    /// Offer a candidate under the strictly-greater relation. The count goes
    /// up by one whether or not the candidate replaces the resident pair, so
    /// after `n` offers into a fresh tracker the count is exactly `n`.
    pub fn insert_gt(&mut self, key: K, value: V)
        requires
            old(self).spec_count() < u64::MAX,
        ensures
            final(self).spec_count() == old(self).spec_count() + 1,
            K::obeys_partial_cmp_spec() ==> final(self).spec_pair() == step_gt(
                old(self).spec_pair(),
                (key, value),
            ),
            final(self).spec_pair() == (key, value) || final(self).spec_pair() == old(
                self,
            ).spec_pair(),
    {
        self.count = self.count + 1;
        let verdict = key.partial_cmp(&self.key);
        if matches!(verdict, Some(Ordering::Greater)) {
            self.key = key;
            self.value = value;
        }
    }

    /// Offer a candidate under the greater-or-equal relation. The count goes
    /// up by one whether or not the candidate replaces the resident pair.
    pub fn insert_ge(&mut self, key: K, value: V)
        requires
            old(self).spec_count() < u64::MAX,
        ensures
            final(self).spec_count() == old(self).spec_count() + 1,
            K::obeys_partial_cmp_spec() ==> final(self).spec_pair() == step_ge(
                old(self).spec_pair(),
                (key, value),
            ),
            final(self).spec_pair() == (key, value) || final(self).spec_pair() == old(
                self,
            ).spec_pair(),
    {
        self.count = self.count + 1;
        let verdict = key.partial_cmp(&self.key);
        if matches!(verdict, Some(Ordering::Greater) | Some(Ordering::Equal)) {
            self.key = key;
            self.value = value;
        }
    }
}

/// Two counting trackers with the same resident pair and the same count are
/// the same tracker: rebuilding one from its structured representation
/// (`into_parts`, then `from_parts`) yields an equal tracker.
pub proof fn lemma_counting_parts_round_trip<K, V>(
    t: BestMapNonEmptyCounting<K, V>,
    u: BestMapNonEmptyCounting<K, V>,
)
    requires
        u.spec_pair() == t.spec_pair(),
        u.spec_count() == t.spec_count(),
    ensures
        u == t,
{
}

} // verus!
