//! The always-occupied single-best tracker: exactly one resident (key, value)
//! pair, replaced only by a candidate whose key satisfies the active relation.

use vstd::prelude::*;

verus! {

use core::cmp::Ordering;
use vstd::std_specs::cmp::PartialOrdSpec;

use crate::order::{step_ge, step_gt, step_le, step_lt};

/// Always-occupied tracker holding the best (key, value) pair seen so far.
/// The value carries no ordering semantics; only the key is ever compared.
#[derive(Debug, Clone, Copy)]
pub struct BestMapNonEmpty<K, V> {
    key: K,
    value: V,
}

impl<K, V> View for BestMapNonEmpty<K, V> {
    type V = (K, V);

    closed spec fn view(&self) -> (K, V) {
        (self.key, self.value)
    }
}

impl<K: PartialOrd, V> BestMapNonEmpty<K, V> {
    /// Replace the resident pair iff the candidate key is strictly greater;
    /// ties keep the first-seen pair. An incomparable key rejects.
    pub fn insert_gt(&mut self, key: K, value: V)
        ensures
            K::obeys_partial_cmp_spec() ==> final(self)@ == step_gt(old(self)@, (key, value)),
            final(self)@ == (key, value) || final(self)@ == old(self)@,
    {
        let verdict = key.partial_cmp(&self.key);
        if matches!(verdict, Some(Ordering::Greater)) {
            self.insert(key, value);
        }
    }

    /// Replace the resident pair iff the candidate key is greater or equal;
    /// a tie lets the later candidate win. An incomparable key rejects.
    pub fn insert_ge(&mut self, key: K, value: V)
        ensures
            K::obeys_partial_cmp_spec() ==> final(self)@ == step_ge(old(self)@, (key, value)),
            final(self)@ == (key, value) || final(self)@ == old(self)@,
    {
        let verdict = key.partial_cmp(&self.key);
        if matches!(verdict, Some(Ordering::Greater) | Some(Ordering::Equal)) {
            self.insert(key, value);
        }
    }

    /// Replace the resident pair iff the candidate key is strictly less;
    /// ties keep the first-seen pair. An incomparable key rejects.
    pub fn insert_lt(&mut self, key: K, value: V)
        ensures
            K::obeys_partial_cmp_spec() ==> final(self)@ == step_lt(old(self)@, (key, value)),
            final(self)@ == (key, value) || final(self)@ == old(self)@,
    {
        let verdict = key.partial_cmp(&self.key);
        if matches!(verdict, Some(Ordering::Less)) {
            self.insert(key, value);
        }
    }

    /// Replace the resident pair iff the candidate key is less or equal;
    /// a tie lets the later candidate win. An incomparable key rejects.
    pub fn insert_le(&mut self, key: K, value: V)
        ensures
            K::obeys_partial_cmp_spec() ==> final(self)@ == step_le(old(self)@, (key, value)),
            final(self)@ == (key, value) || final(self)@ == old(self)@,
    {
        let verdict = key.partial_cmp(&self.key);
        if matches!(verdict, Some(Ordering::Less) | Some(Ordering::Equal)) {
            self.insert(key, value);
        }
    }
}

impl<K, V> BestMapNonEmpty<K, V> {
    /// A tracker starts occupied, with an initial pair.
    pub fn new(key: K, value: V) -> (r: Self)
        ensures
            r@ == (key, value),
    {
        Self { key, value }
    }

    fn insert(&mut self, key: K, value: V)
        ensures
            final(self)@ == (key, value),
    {
        self.key = key;
        self.value = value;
    }

    /// Replace the resident pair iff the supplied comparator, handed the
    /// resident key, reports that the candidate compares `Greater` to it.
    pub fn insert_gt_by<F: Fn(&K) -> Ordering>(&mut self, key: K, value: V, cmp: F)
        requires
            call_requires(cmp, (&old(self)@.0,)),
        ensures
            (exists|o: Ordering|
                {
                    &&& #[trigger] call_ensures(cmp, (&old(self)@.0,), o)
                    &&& final(self)@ == (if o == Ordering::Greater {
                        (key, value)
                    } else {
                        old(self)@
                    })
                }),
    {
        let verdict = cmp(&self.key);
        if matches!(verdict, Ordering::Greater) {
            self.insert(key, value);
        }
    }

    /// Replace the resident pair iff the supplied comparator reports that the
    /// candidate compares `Greater` or `Equal` to the resident key.
    pub fn insert_ge_by<F: Fn(&K) -> Ordering>(&mut self, key: K, value: V, cmp: F)
        requires
            call_requires(cmp, (&old(self)@.0,)),
        ensures
            (exists|o: Ordering|
                {
                    &&& #[trigger] call_ensures(cmp, (&old(self)@.0,), o)
                    &&& final(self)@ == (if o != Ordering::Less {
                        (key, value)
                    } else {
                        old(self)@
                    })
                }),
    {
        let verdict = cmp(&self.key);
        if matches!(verdict, Ordering::Greater | Ordering::Equal) {
            self.insert(key, value);
        }
    }

    /// Replace the resident pair iff the supplied comparator reports that the
    /// candidate compares `Less` than the resident key.
    pub fn insert_lt_by<F: Fn(&K) -> Ordering>(&mut self, key: K, value: V, cmp: F)
        requires
            call_requires(cmp, (&old(self)@.0,)),
        ensures
            (exists|o: Ordering|
                {
                    &&& #[trigger] call_ensures(cmp, (&old(self)@.0,), o)
                    &&& final(self)@ == (if o == Ordering::Less {
                        (key, value)
                    } else {
                        old(self)@
                    })
                }),
    {
        let verdict = cmp(&self.key);
        if matches!(verdict, Ordering::Less) {
            self.insert(key, value);
        }
    }

    /// Replace the resident pair iff the supplied comparator reports that the
    /// candidate compares `Less` than or `Equal` to the resident key.
    pub fn insert_le_by<F: Fn(&K) -> Ordering>(&mut self, key: K, value: V, cmp: F)
        requires
            call_requires(cmp, (&old(self)@.0,)),
        ensures
            (exists|o: Ordering|
                {
                    &&& #[trigger] call_ensures(cmp, (&old(self)@.0,), o)
                    &&& final(self)@ == (if o != Ordering::Greater {
                        (key, value)
                    } else {
                        old(self)@
                    })
                }),
    {
        let verdict = cmp(&self.key);
        if matches!(verdict, Ordering::Less | Ordering::Equal) {
            self.insert(key, value);
        }
    }

    /// Read-only view of the resident pair.
    pub fn get(&self) -> (r: (&K, &V))
        ensures
            *r.0 == self@.0,
            *r.1 == self@.1,
    {
        (&self.key, &self.value)
    }

    /// Read-only view of the resident key.
    pub fn key(&self) -> (r: &K)
        ensures
            *r == self@.0,
    {
        &self.key
    }

    /// Read-only view of the resident value.
    pub fn value(&self) -> (r: &V)
        ensures
            *r == self@.1,
    {
        &self.value
    }

    /// Destructive read: consume the tracker and return the resident pair.
    pub fn into_key_and_value(self) -> (r: (K, V))
        ensures
            r == self@,
    {
        (self.key, self.value)
    }

    /// Destructive read: consume the tracker and return the resident key.
    pub fn into_key(self) -> (r: K)
        ensures
            r == self@.0,
    {
        self.key
    }

    /// Destructive read: consume the tracker and return the resident value.
    pub fn into_value(self) -> (r: V)
        ensures
            r == self@.1,
    {
        self.value
    }
}

/// Two trackers with the same view hold the same pair: rebuilding a tracker
/// from its structured representation yields an equal tracker.
pub proof fn lemma_non_empty_view_determines<K, V>(a: BestMapNonEmpty<K, V>, b: BestMapNonEmpty<
    K,
    V,
>)
    requires
        a@ == b@,
    ensures
        a == b,
{
}

} // verus!
