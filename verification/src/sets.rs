//! Set specializations: the same trackers with the payload fixed to a unit
//! type, exposing only the key-facing subset of the API.

use vstd::prelude::*;

verus! {

use vstd::std_specs::cmp::PartialOrdSpec;

use crate::non_empty::BestMapNonEmpty;
use crate::optional::BestMap;
use crate::order::{step_ge, step_gt, step_le, step_lt};

/// Always-occupied tracker of a single best value, compared directly.
#[derive(Debug, Clone, Copy)]
pub struct BestSetNonEmpty<T>(BestMapNonEmpty<T, ()>);

impl<T> View for BestSetNonEmpty<T> {
    type V = T;

    closed spec fn view(&self) -> T {
        self.0@.0
    }
}

impl<T: PartialOrd> BestSetNonEmpty<T> {
    /// Replace the resident value iff the candidate is strictly greater.
    pub fn insert_gt(&mut self, value: T)
        ensures
            T::obeys_partial_cmp_spec() ==> final(self)@ == step_gt(
                (old(self)@, ()),
                (value, ()),
            ).0,
            final(self)@ == value || final(self)@ == old(self)@,
    {
        self.0.insert_gt(value, ());
    }

    /// Replace the resident value iff the candidate is greater or equal.
    pub fn insert_ge(&mut self, value: T)
        ensures
            T::obeys_partial_cmp_spec() ==> final(self)@ == step_ge(
                (old(self)@, ()),
                (value, ()),
            ).0,
            final(self)@ == value || final(self)@ == old(self)@,
    {
        self.0.insert_ge(value, ());
    }

    /// Replace the resident value iff the candidate is strictly less.
    pub fn insert_lt(&mut self, value: T)
        ensures
            T::obeys_partial_cmp_spec() ==> final(self)@ == step_lt(
                (old(self)@, ()),
                (value, ()),
            ).0,
            final(self)@ == value || final(self)@ == old(self)@,
    {
        self.0.insert_lt(value, ());
    }

    /// Replace the resident value iff the candidate is less or equal.
    pub fn insert_le(&mut self, value: T)
        ensures
            T::obeys_partial_cmp_spec() ==> final(self)@ == step_le(
                (old(self)@, ()),
                (value, ()),
            ).0,
            final(self)@ == value || final(self)@ == old(self)@,
    {
        self.0.insert_le(value, ());
    }
}

impl<T> BestSetNonEmpty<T> {
    /// The tracker starts occupied, with an initial value.
    pub fn new(value: T) -> (r: Self)
        ensures
            r@ == value,
    {
        BestSetNonEmpty(BestMapNonEmpty::new(value, ()))
    }

    /// Read-only view of the resident value.
    pub fn get(&self) -> (r: &T)
        ensures
            *r == self@,
    {
        self.0.key()
    }

    /// Destructive read: consume the tracker and return the resident value.
    pub fn into_value(self) -> (r: T)
        ensures
            r == self@,
    {
        self.0.into_key()
    }
}

/// Optional tracker of a single best value, compared directly: absent until
/// the first insertion.
#[derive(Debug, Clone, Copy)]
pub struct BestSet<T>(BestMap<T, ()>);

impl<T> View for BestSet<T> {
    type V = Option<T>;

    closed spec fn view(&self) -> Option<T> {
        match self.0@ {
            None => None,
            Some(p) => Some(p.0),
        }
    }
}

impl<T> Default for BestSet<T> {
    /// The default tracker is absent.
    fn default() -> (r: Self)
        ensures
            r@ is None,
    {
        Self::new()
    }
}

impl<T: PartialOrd> BestSet<T> {
    /// First insertion always occupies the tracker; afterwards the candidate
    /// replaces the resident value iff it is strictly greater.
    pub fn insert_gt(&mut self, value: T)
        ensures
            old(self)@ is None ==> final(self)@ == Some(value),
            T::obeys_partial_cmp_spec() ==> (old(self)@ matches Some(cur) ==> final(self)@
                == Some(step_gt((cur, ()), (value, ())).0)),
            final(self)@ == Some(value) || final(self)@ == old(self)@,
            final(self)@ is Some,
    {
        self.0.insert_gt(value, ());
    }

    /// First insertion always occupies the tracker; afterwards the candidate
    /// replaces the resident value iff it is greater or equal.
    pub fn insert_ge(&mut self, value: T)
        ensures
            old(self)@ is None ==> final(self)@ == Some(value),
            T::obeys_partial_cmp_spec() ==> (old(self)@ matches Some(cur) ==> final(self)@
                == Some(step_ge((cur, ()), (value, ())).0)),
            final(self)@ == Some(value) || final(self)@ == old(self)@,
            final(self)@ is Some,
    {
        self.0.insert_ge(value, ());
    }

    /// First insertion always occupies the tracker; afterwards the candidate
    /// replaces the resident value iff it is strictly less.
    pub fn insert_lt(&mut self, value: T)
        ensures
            old(self)@ is None ==> final(self)@ == Some(value),
            T::obeys_partial_cmp_spec() ==> (old(self)@ matches Some(cur) ==> final(self)@
                == Some(step_lt((cur, ()), (value, ())).0)),
            final(self)@ == Some(value) || final(self)@ == old(self)@,
            final(self)@ is Some,
    {
        self.0.insert_lt(value, ());
    }

    /// First insertion always occupies the tracker; afterwards the candidate
    /// replaces the resident value iff it is less or equal.
    pub fn insert_le(&mut self, value: T)
        ensures
            old(self)@ is None ==> final(self)@ == Some(value),
            T::obeys_partial_cmp_spec() ==> (old(self)@ matches Some(cur) ==> final(self)@
                == Some(step_le((cur, ()), (value, ())).0)),
            final(self)@ == Some(value) || final(self)@ == old(self)@,
            final(self)@ is Some,
    {
        self.0.insert_le(value, ());
    }
}

impl<T> BestSet<T> {
    /// A fresh tracker is absent.
    pub fn new() -> (r: Self)
        ensures
            r@ is None,
    {
        BestSet(BestMap::new())
    }

    /// Rebuild a tracker from its structured representation: an explicit
    /// absent marker, or the resident value.
    pub fn from_parts(parts: Option<T>) -> (r: Self)
        ensures
            r@ == parts,
    {
        match parts {
            None => Self::new(),
            Some(value) => BestSet(BestMap::from_parts(Some((value, ())))),
        }
    }

    /// Read-only view of the resident value, or `None` when absent.
    pub fn get(&self) -> (r: Option<&T>)
        ensures
            self@ is None <==> r is None,
            (self@ matches Some(v) ==> (r matches Some(q) && *q == v)),
    {
        self.0.key()
    }

    /// Destructive read: consume the tracker and return the resident value,
    /// or `None` if the tracker was never populated.
    pub fn into_value(self) -> (r: Option<T>)
        ensures
            self@ is None <==> r is None,
            (self@ matches Some(v) ==> r == Some(v)),
    {
        self.0.into_key()
    }

    /// True exactly in the absent state: before the first insertion, and
    /// never again after it.
    pub fn is_empty(&self) -> (r: bool)
        ensures
            r <==> self@ is None,
    {
        self.0.is_empty()
    }
}

/// Two always-occupied set trackers with the same view hold the same value:
/// rebuilding one from its structured representation yields an equal tracker.
pub proof fn lemma_set_non_empty_view_determines<T>(a: BestSetNonEmpty<T>, b: BestSetNonEmpty<T>)
    requires
        a@ == b@,
    ensures
        a == b,
{
    assert(a.0@.1 == b.0@.1);
    crate::non_empty::lemma_non_empty_view_determines(a.0, b.0);
}

/// Two optional set trackers with the same view are the same tracker.
/// Together with the contracts of `into_value` and `from_parts`, this says
/// that a round trip through the structured representation reproduces an
/// equal tracker, in the absent state as in a populated one.
pub proof fn lemma_set_parts_round_trip<T>(t: BestSet<T>, u: BestSet<T>)
    requires
        u@ == t@,
    ensures
        u == t,
{
    assert(t.0@ == u.0@) by {
        match (t.0@, u.0@) {
            (Some(p), Some(q)) => {
                assert(p.1 == q.1);
            },
            _ => {},
        }
    }
    crate::optional::lemma_parts_round_trip(t.0, u.0);
}

} // verus!
