//! The tie-retaining tracker: an insertion-ordered sequence of values that
//! are all mutually tied for best. A strictly better candidate replaces the
//! whole tie set; a tied candidate joins it; a worse or incomparable
//! candidate is rejected.

use vstd::prelude::*;

verus! {

use core::cmp::Ordering;
use vstd::std_specs::cmp::PartialOrdSpec;
use vstd::std_specs::iter::IteratorSpec;

/// One greatest-wins insertion step on a tie set: append on empty or on a
/// tie with the representative first element, collapse to the candidate
/// alone when it is strictly greater, and otherwise leave the set unchanged.
pub open spec fn tie_step_gt<T: PartialOrd>(s: Seq<T>, cand: T) -> Seq<T> {
    if s.len() == 0 {
        s.push(cand)
    } else {
        match cand.partial_cmp_spec(&s[0]) {
            Some(Ordering::Equal) => s.push(cand),
            Some(Ordering::Greater) => seq![cand],
            _ => s,
        }
    }
}

/// One least-wins insertion step on a tie set: as `tie_step_gt`, with the
/// candidate collapsing the set when it is strictly less.
pub open spec fn tie_step_lt<T: PartialOrd>(s: Seq<T>, cand: T) -> Seq<T> {
    if s.len() == 0 {
        s.push(cand)
    } else {
        match cand.partial_cmp_spec(&s[0]) {
            Some(Ordering::Equal) => s.push(cand),
            Some(Ordering::Less) => seq![cand],
            _ => s,
        }
    }
}

/// Tracker retaining every value currently tied for best, in arrival order.
#[derive(Debug, Clone)]
pub struct BestMultiSet<T>(Vec<T>);

impl<T> View for BestMultiSet<T> {
    type V = Seq<T>;

    closed spec fn view(&self) -> Seq<T> {
        self.0@
    }
}

impl<T> Default for BestMultiSet<T> {
    /// The default tracker is empty.
    fn default() -> (r: Self)
        ensures
            r@ == Seq::<T>::empty(),
    {
        Self::new()
    }
}

impl<T> BestMultiSet<T> {
    /// A fresh tracker holds no values.
    pub fn new() -> (r: Self)
        ensures
            r@ == Seq::<T>::empty(),
    {
        BestMultiSet(Vec::new())
    }

    /// Rebuild a tracker from its structured representation: the retained
    /// values in arrival order, as a one-shot drain yields them.
    pub fn from_parts(values: Vec<T>) -> (r: Self)
        ensures
            r@ == values@,
    {
        BestMultiSet(values)
    }

    /// Restartable traversal over the current contents, in arrival order.
    pub fn iter(&self) -> (r: core::slice::Iter<'_, T>)
        ensures
            r.remaining() == self@.as_ref(),
    {
        self.0.as_slice().iter()
    }

    /// One-shot drain: remove and return all current contents, in arrival
    /// order, leaving the tracker empty.
    pub fn drain(&mut self) -> (r: Vec<T>)
        ensures
            r@ == old(self)@,
            final(self)@ == Seq::<T>::empty(),
    {
        let mut taken: Vec<T> = Vec::new();
        core::mem::swap(&mut self.0, &mut taken);
        taken
    }

    /// Peek at one element of the tie set (the earliest-arrived one), or
    /// `None` when empty. All retained elements are mutually tied, so the
    /// first is representative of the current best.
    pub fn first(&self) -> (r: Option<&T>)
        ensures
            self@.len() == 0 <==> r is None,
            self@.len() > 0 ==> (r matches Some(v) && *v == self@[0]),
    {
        self.0.as_slice().first()
    }

    /// Discard all current contents.
    pub fn clear(&mut self)
        ensures
            final(self)@ == Seq::<T>::empty(),
    {
        self.0.clear();
    }

    /// True iff the tracker currently holds no values.
    pub fn is_empty(&self) -> (r: bool)
        ensures
            r <==> self@.len() == 0,
    {
        self.0.is_empty()
    }

    fn replace_with_single(&mut self, value: T)
        ensures
            final(self)@ == seq![value],
    {
        self.0.clear();
        self.0.push(value);
    }

    /// Least-wins insertion under a caller-supplied comparator, which
    /// compares the candidate against the tie set's first element: append on
    /// empty or on `Equal`, collapse to the candidate alone on `Less`,
    /// reject on `Greater`.
    pub fn insert_lt_by<F: Fn(&T, &T) -> Ordering>(&mut self, value: T, compare: F)
        requires
            old(self)@.len() > 0 ==> call_requires(compare, (&value, &old(self)@[0])),
        ensures
            old(self)@.len() == 0 ==> final(self)@ == old(self)@.push(value),
            old(self)@.len() > 0 ==> (exists|o: Ordering|
                {
                    &&& #[trigger] call_ensures(compare, (&value, &old(self)@[0]), o)
                    &&& final(self)@ == (match o {
                        Ordering::Equal => old(self)@.push(value),
                        Ordering::Less => seq![value],
                        Ordering::Greater => old(self)@,
                    })
                }),
            final(self)@ == old(self)@.push(value) || final(self)@ == seq![value] || final(self)@
                == old(self)@,
    {
        if self.0.len() == 0 {
            self.0.push(value);
        } else {
            match compare(&value, &self.0[0]) {
                Ordering::Equal => self.0.push(value),
                Ordering::Less => self.replace_with_single(value),
                Ordering::Greater => (),
            }
        }
    }

    /// Greatest-wins insertion under a caller-supplied comparator: append on
    /// empty or on `Equal`, collapse to the candidate alone on `Greater`,
    /// reject on `Less`.
    pub fn insert_gt_by<F: Fn(&T, &T) -> Ordering>(&mut self, value: T, compare: F)
        requires
            old(self)@.len() > 0 ==> call_requires(compare, (&value, &old(self)@[0])),
        ensures
            old(self)@.len() == 0 ==> final(self)@ == old(self)@.push(value),
            old(self)@.len() > 0 ==> (exists|o: Ordering|
                {
                    &&& #[trigger] call_ensures(compare, (&value, &old(self)@[0]), o)
                    &&& final(self)@ == (match o {
                        Ordering::Equal => old(self)@.push(value),
                        Ordering::Greater => seq![value],
                        Ordering::Less => old(self)@,
                    })
                }),
            final(self)@ == old(self)@.push(value) || final(self)@ == seq![value] || final(self)@
                == old(self)@,
    {
        if self.0.len() == 0 {
            self.0.push(value);
        } else {
            match compare(&value, &self.0[0]) {
                Ordering::Equal => self.0.push(value),
                Ordering::Greater => self.replace_with_single(value),
                Ordering::Less => (),
            }
        }
    }
}

impl<T: PartialOrd> BestMultiSet<T> {
    /// Least-wins insertion under the value's own partial order. A candidate
    /// that compares to the first element as incomparable is rejected: it
    /// neither replaces nor joins the tie set.
    pub fn insert_lt(&mut self, value: T)
        ensures
            old(self)@.len() == 0 ==> final(self)@ == old(self)@.push(value),
            T::obeys_partial_cmp_spec() ==> final(self)@ == tie_step_lt(old(self)@, value),
            final(self)@ == old(self)@.push(value) || final(self)@ == seq![value] || final(self)@
                == old(self)@,
    {
        if self.0.len() == 0 {
            self.0.push(value);
        } else {
            match value.partial_cmp(&self.0[0]) {
                Some(Ordering::Equal) => self.0.push(value),
                Some(Ordering::Less) => self.replace_with_single(value),
                _ => (),
            }
        }
    }

    /// Greatest-wins insertion under the value's own partial order. A
    /// candidate that compares to the first element as incomparable is
    /// rejected: it neither replaces nor joins the tie set.
    pub fn insert_gt(&mut self, value: T)
        ensures
            old(self)@.len() == 0 ==> final(self)@ == old(self)@.push(value),
            T::obeys_partial_cmp_spec() ==> final(self)@ == tie_step_gt(old(self)@, value),
            final(self)@ == old(self)@.push(value) || final(self)@ == seq![value] || final(self)@
                == old(self)@,
    {
        if self.0.len() == 0 {
            self.0.push(value);
        } else {
            match value.partial_cmp(&self.0[0]) {
                Some(Ordering::Equal) => self.0.push(value),
                Some(Ordering::Greater) => self.replace_with_single(value),
                _ => (),
            }
        }
    }
}

/// Law: how the size of the tie set moves under a greatest-wins insertion.
/// A strictly dominant candidate collapses the set to exactly one element, a
/// tied candidate grows it by exactly one, and a dominated or incomparable
/// candidate leaves it unchanged.
pub proof fn lemma_tie_set_sizes<T: PartialOrd>(s: Seq<T>, cand: T)
    requires
        s.len() > 0,
    ensures
        cand.partial_cmp_spec(&s[0]) == Some(Ordering::Greater) ==> tie_step_gt(s, cand)
            == seq![cand],
        cand.partial_cmp_spec(&s[0]) == Some(Ordering::Equal) ==> tie_step_gt(s, cand) == s.push(
            cand,
        ),
        !(cand.partial_cmp_spec(&s[0]) matches Some(Ordering::Greater | Ordering::Equal))
            ==> tie_step_gt(s, cand) == s,
{
}

} // verus!
