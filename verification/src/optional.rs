//! The optional tracker: an explicit present/absent wrapper around the
//! always-occupied tracker. Absent only before the first insertion; the first
//! insertion always succeeds, and the tracker never reverts to absent.

use vstd::prelude::*;

verus! {

use vstd::std_specs::cmp::PartialOrdSpec;

use crate::non_empty::BestMapNonEmpty;
use crate::order::{opt_step_ge, opt_step_gt, opt_step_le, opt_step_lt};

/// Tracker that may still be empty: `None` until the first candidate
/// arrives, thereafter the resident best pair.
#[derive(Debug, Clone, Copy)]
pub struct BestMap<K, V> {
    non_empty: Option<BestMapNonEmpty<K, V>>,
}

impl<K, V> View for BestMap<K, V> {
    type V = Option<(K, V)>;

    closed spec fn view(&self) -> Option<(K, V)> {
        match self.non_empty {
            None => None,
            Some(t) => Some(t@),
        }
    }
}

impl<K, V> Default for BestMap<K, V> {
    /// The default tracker is absent.
    fn default() -> (r: Self)
        ensures
            r@ is None,
    {
        Self::new()
    }
}

impl<K: PartialOrd, V> BestMap<K, V> {
    /// First insertion always occupies the tracker; afterwards the candidate
    /// replaces the resident pair iff its key is strictly greater.
    pub fn insert_gt(&mut self, key: K, value: V)
        ensures
            old(self)@ is None ==> final(self)@ == Some((key, value)),
            K::obeys_partial_cmp_spec() ==> final(self)@ == opt_step_gt(
                old(self)@,
                (key, value),
            ),
            final(self)@ == Some((key, value)) || final(self)@ == old(self)@,
            final(self)@ is Some,
    {
        match &mut self.non_empty {
            Some(t) => t.insert_gt(key, value),
            None => {
                self.non_empty = Some(BestMapNonEmpty::new(key, value));
            },
        }
    }

    /// First insertion always occupies the tracker; afterwards the candidate
    /// replaces the resident pair iff its key is greater or equal.
    pub fn insert_ge(&mut self, key: K, value: V)
        ensures
            old(self)@ is None ==> final(self)@ == Some((key, value)),
            K::obeys_partial_cmp_spec() ==> final(self)@ == opt_step_ge(
                old(self)@,
                (key, value),
            ),
            final(self)@ == Some((key, value)) || final(self)@ == old(self)@,
            final(self)@ is Some,
    {
        match &mut self.non_empty {
            Some(t) => t.insert_ge(key, value),
            None => {
                self.non_empty = Some(BestMapNonEmpty::new(key, value));
            },
        }
    }

    /// First insertion always occupies the tracker; afterwards the candidate
    /// replaces the resident pair iff its key is strictly less.
    pub fn insert_lt(&mut self, key: K, value: V)
        ensures
            old(self)@ is None ==> final(self)@ == Some((key, value)),
            K::obeys_partial_cmp_spec() ==> final(self)@ == opt_step_lt(
                old(self)@,
                (key, value),
            ),
            final(self)@ == Some((key, value)) || final(self)@ == old(self)@,
            final(self)@ is Some,
    {
        match &mut self.non_empty {
            Some(t) => t.insert_lt(key, value),
            None => {
                self.non_empty = Some(BestMapNonEmpty::new(key, value));
            },
        }
    }

    /// First insertion always occupies the tracker; afterwards the candidate
    /// replaces the resident pair iff its key is less or equal.
    pub fn insert_le(&mut self, key: K, value: V)
        ensures
            old(self)@ is None ==> final(self)@ == Some((key, value)),
            K::obeys_partial_cmp_spec() ==> final(self)@ == opt_step_le(
                old(self)@,
                (key, value),
            ),
            final(self)@ == Some((key, value)) || final(self)@ == old(self)@,
            final(self)@ is Some,
    {
        match &mut self.non_empty {
            Some(t) => t.insert_le(key, value),
            None => {
                self.non_empty = Some(BestMapNonEmpty::new(key, value));
            },
        }
    }
}

impl<K, V> BestMap<K, V> {
    /// A fresh tracker is absent.
    pub fn new() -> (r: Self)
        ensures
            r@ is None,
    {
        Self { non_empty: None }
    }

    /// Rebuild a tracker from its structured representation: an explicit
    /// absent marker, or the resident pair.
    pub fn from_parts(parts: Option<(K, V)>) -> (r: Self)
        ensures
            r@ == parts,
    {
        match parts {
            None => Self { non_empty: None },
            Some((key, value)) => Self { non_empty: Some(BestMapNonEmpty::new(key, value)) },
        }
    }

    /// Read-only view of the resident pair, or `None` when absent.
    pub fn get(&self) -> (r: Option<(&K, &V)>)
        ensures
            self@ is None <==> r is None,
            (self@ matches Some(p) ==> (r matches Some(q) && *q.0 == p.0 && *q.1 == p.1)),
    {
        match &self.non_empty {
            None => None,
            Some(t) => Some(t.get()),
        }
    }

    /// Read-only view of the resident key, or `None` when absent.
    pub fn key(&self) -> (r: Option<&K>)
        ensures
            self@ is None <==> r is None,
            (self@ matches Some(p) ==> (r matches Some(k) && *k == p.0)),
    {
        match &self.non_empty {
            None => None,
            Some(t) => Some(t.key()),
        }
    }

    /// Read-only view of the resident value, or `None` when absent.
    pub fn value(&self) -> (r: Option<&V>)
        ensures
            self@ is None <==> r is None,
            (self@ matches Some(p) ==> (r matches Some(v) && *v == p.1)),
    {
        match &self.non_empty {
            None => None,
            Some(t) => Some(t.value()),
        }
    }

    /// Destructive read: consume the tracker and return the resident pair,
    /// or `None` if the tracker was never populated. This is also the
    /// tracker's structured representation: `from_parts` rebuilds from it.
    pub fn into_key_and_value(self) -> (r: Option<(K, V)>)
        ensures
            r == self@,
    {
        match self.non_empty {
            None => None,
            Some(t) => Some(t.into_key_and_value()),
        }
    }

    /// Destructive read: consume the tracker and return the resident key,
    /// or `None` if the tracker was never populated.
    pub fn into_key(self) -> (r: Option<K>)
        ensures
            self@ is None <==> r is None,
            (self@ matches Some(p) ==> r == Some(p.0)),
    {
        match self.non_empty {
            None => None,
            Some(t) => Some(t.into_key()),
        }
    }

    /// Destructive read: consume the tracker and return the resident value,
    /// or `None` if the tracker was never populated.
    pub fn into_value(self) -> (r: Option<V>)
        ensures
            self@ is None <==> r is None,
            (self@ matches Some(p) ==> r == Some(p.1)),
    {
        match self.non_empty {
            None => None,
            Some(t) => Some(t.into_value()),
        }
    }

    /// True exactly in the absent state: before the first insertion, and
    /// never again after it.
    pub fn is_empty(&self) -> (r: bool)
        ensures
            r <==> self@ is None,
    {
        self.non_empty.is_none()
    }
}

/// Two optional trackers with the same view are the same tracker.
/// Together with the contracts of `into_key_and_value` and `from_parts`,
/// this says that a round trip through the structured representation
/// reproduces an equal tracker, in the absent state as in a populated one.
pub proof fn lemma_parts_round_trip<K, V>(t: BestMap<K, V>, u: BestMap<K, V>)
    requires
        u@ == t@,
    ensures
        u == t,
{
    match (t.non_empty, u.non_empty) {
        (Some(a), Some(b)) => {
            crate::non_empty::lemma_non_empty_view_determines(a, b);
        },
        _ => {},
    }
}

} // verus!
