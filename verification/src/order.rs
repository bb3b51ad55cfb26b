//! The comparison protocol shared by every tracker: a three-valued ordering
//! outcome (with `None` standing for "incomparable" under a partial order)
//! drives every accept/reject decision.

use vstd::prelude::*;

verus! {

use core::cmp::Ordering;
use vstd::laws_cmp::{obeys_cmp, obeys_cmp_ord, obeys_partial_cmp_spec_properties};
use vstd::laws_eq::obeys_eq_spec_properties;
use vstd::std_specs::cmp::{PartialEqSpec, PartialOrdSpec};

/// The strictly-greater relation accepts a candidate exactly when the
/// comparison outcome is `Greater`. An incomparable outcome (`None`) rejects.
pub open spec fn accepts_gt(o: Option<Ordering>) -> bool {
    o == Some(Ordering::Greater)
}

/// The greater-or-equal relation accepts on `Greater` or `Equal`.
/// An incomparable outcome (`None`) rejects.
pub open spec fn accepts_ge(o: Option<Ordering>) -> bool {
    o == Some(Ordering::Greater) || o == Some(Ordering::Equal)
}

/// The strictly-less relation accepts a candidate exactly when the
/// comparison outcome is `Less`. An incomparable outcome (`None`) rejects.
pub open spec fn accepts_lt(o: Option<Ordering>) -> bool {
    o == Some(Ordering::Less)
}

/// The less-or-equal relation accepts on `Less` or `Equal`.
/// An incomparable outcome (`None`) rejects.
pub open spec fn accepts_le(o: Option<Ordering>) -> bool {
    o == Some(Ordering::Less) || o == Some(Ordering::Equal)
}

/// One strictly-greater insertion step: the candidate pair replaces the
/// resident pair exactly when the candidate's key compares `Greater`.
pub open spec fn step_gt<K: PartialOrd, V>(cur: (K, V), cand: (K, V)) -> (K, V) {
    if accepts_gt(cand.0.partial_cmp_spec(&cur.0)) {
        cand
    } else {
        cur
    }
}

/// One greater-or-equal insertion step: the candidate also wins ties.
pub open spec fn step_ge<K: PartialOrd, V>(cur: (K, V), cand: (K, V)) -> (K, V) {
    if accepts_ge(cand.0.partial_cmp_spec(&cur.0)) {
        cand
    } else {
        cur
    }
}

/// One strictly-less insertion step.
pub open spec fn step_lt<K: PartialOrd, V>(cur: (K, V), cand: (K, V)) -> (K, V) {
    if accepts_lt(cand.0.partial_cmp_spec(&cur.0)) {
        cand
    } else {
        cur
    }
}

/// One less-or-equal insertion step.
pub open spec fn step_le<K: PartialOrd, V>(cur: (K, V), cand: (K, V)) -> (K, V) {
    if accepts_le(cand.0.partial_cmp_spec(&cur.0)) {
        cand
    } else {
        cur
    }
}

/// One key compares strictly greater than another.
pub open spec fn key_gt<K: PartialOrd>(a: K, b: K) -> bool {
    a.partial_cmp_spec(&b) == Some(Ordering::Greater)
}

/// Two keys compare equal (a tie).
pub open spec fn key_eq<K: PartialOrd>(a: K, b: K) -> bool {
    a.partial_cmp_spec(&b) == Some(Ordering::Equal)
}

/// No two keys are incomparable: the comparison never returns `None`.
/// Holds for every totally ordered key type.
pub open spec fn totally_comparable<K: PartialOrd>() -> bool {
    forall|a: K, b: K| (#[trigger] a.partial_cmp_spec(&b)) is Some
}

/// The resident pair after a stream of candidates is offered, one at a
/// time, under the strictly-greater relation.
pub open spec fn run_gt<K: PartialOrd, V>(init: (K, V), cands: Seq<(K, V)>) -> (K, V)
    decreases cands.len(),
{
    if cands.len() == 0 {
        init
    } else {
        run_gt(step_gt(init, cands[0]), cands.drop_first())
    }
}

/// The resident pair after a stream of candidates is offered, one at a
/// time, under the greater-or-equal relation.
pub open spec fn run_ge<K: PartialOrd, V>(init: (K, V), cands: Seq<(K, V)>) -> (K, V)
    decreases cands.len(),
{
    if cands.len() == 0 {
        init
    } else {
        run_ge(step_ge(init, cands[0]), cands.drop_first())
    }
}

/// One strictly-greater insertion step on a possibly absent tracker: the
/// first candidate always becomes the occupant; afterwards the step of the
/// always-occupied tracker applies.
pub open spec fn opt_step_gt<K: PartialOrd, V>(cur: Option<(K, V)>, cand: (K, V)) -> Option<
    (K, V),
> {
    match cur {
        None => Some(cand),
        Some(c) => Some(step_gt(c, cand)),
    }
}

/// One greater-or-equal insertion step on a possibly absent tracker.
pub open spec fn opt_step_ge<K: PartialOrd, V>(cur: Option<(K, V)>, cand: (K, V)) -> Option<
    (K, V),
> {
    match cur {
        None => Some(cand),
        Some(c) => Some(step_ge(c, cand)),
    }
}

/// One strictly-less insertion step on a possibly absent tracker.
pub open spec fn opt_step_lt<K: PartialOrd, V>(cur: Option<(K, V)>, cand: (K, V)) -> Option<
    (K, V),
> {
    match cur {
        None => Some(cand),
        Some(c) => Some(step_lt(c, cand)),
    }
}

/// One less-or-equal insertion step on a possibly absent tracker.
pub open spec fn opt_step_le<K: PartialOrd, V>(cur: Option<(K, V)>, cand: (K, V)) -> Option<
    (K, V),
> {
    match cur {
        None => Some(cand),
        Some(c) => Some(step_le(c, cand)),
    }
}

/// The state of a possibly absent tracker after a stream of candidates is
/// offered under the strictly-greater relation.
pub open spec fn opt_run_gt<K: PartialOrd, V>(cur: Option<(K, V)>, cands: Seq<(K, V)>) -> Option<
    (K, V),
>
    decreases cands.len(),
{
    if cands.len() == 0 {
        cur
    } else {
        opt_run_gt(opt_step_gt(cur, cands[0]), cands.drop_first())
    }
}

/// The state of a possibly absent tracker after a stream of candidates is
/// offered under the greater-or-equal relation.
pub open spec fn opt_run_ge<K: PartialOrd, V>(cur: Option<(K, V)>, cands: Seq<(K, V)>) -> Option<
    (K, V),
>
    decreases cands.len(),
{
    if cands.len() == 0 {
        cur
    } else {
        opt_run_ge(opt_step_ge(cur, cands[0]), cands.drop_first())
    }
}

/// The entry at position `j` has a greatest key: no entry's key compares
/// strictly greater than it.
pub open spec fn is_maximal<K: PartialOrd, V>(s: Seq<(K, V)>, j: int) -> bool {
    forall|i: int| 0 <= i < s.len() ==> !(#[trigger] key_gt(s[i].0, s[j].0))
}

/// For a key type whose comparison is a total order in the sense of vstd's
/// ordering laws, every two keys are comparable and the comparison obeys
/// the partial-order laws.
pub proof fn lemma_ord_keys_totally_comparable<K: Ord>()
    requires
        obeys_cmp::<K>(),
    ensures
        totally_comparable::<K>(),
        obeys_partial_cmp_spec_properties::<K>(),
{
    reveal(obeys_cmp_ord);
}

proof fn lemma_gt_irrefl<K: PartialOrd>(a: K)
    requires
        obeys_partial_cmp_spec_properties::<K>(),
    ensures
        !key_gt(a, a),
{
    reveal(obeys_partial_cmp_spec_properties);
}

proof fn lemma_gt_trans<K: PartialOrd>(a: K, b: K, c: K)
    requires
        obeys_partial_cmp_spec_properties::<K>(),
        key_gt(a, b),
        key_gt(b, c),
    ensures
        key_gt(a, c),
{
    reveal(obeys_partial_cmp_spec_properties);
}

proof fn lemma_gt_asym<K: PartialOrd>(a: K, b: K)
    requires
        obeys_partial_cmp_spec_properties::<K>(),
        key_gt(a, b),
    ensures
        !key_gt(b, a),
{
    reveal(obeys_partial_cmp_spec_properties);
}

proof fn lemma_eq_sym<K: PartialOrd>(a: K, b: K)
    requires
        obeys_partial_cmp_spec_properties::<K>(),
        key_eq(a, b),
    ensures
        key_eq(b, a),
{
    reveal(obeys_partial_cmp_spec_properties);
    reveal(obeys_eq_spec_properties);
    assert(a.eq_spec(&b));
    assert(b.eq_spec(&a));
}

proof fn lemma_trichotomy<K: PartialOrd>(a: K, b: K)
    requires
        obeys_partial_cmp_spec_properties::<K>(),
        totally_comparable::<K>(),
    ensures
        key_gt(a, b) || key_gt(b, a) || key_eq(a, b),
{
    reveal(obeys_partial_cmp_spec_properties);
    assert(a.partial_cmp_spec(&b) is Some);
    match a.partial_cmp_spec(&b) {
        Some(Ordering::Less) => {
            assert(key_gt(b, a));
        },
        Some(Ordering::Equal) => {},
        Some(Ordering::Greater) => {},
        None => {},
    }
}

proof fn lemma_eq_compat<K: PartialOrd>(a: K, b: K, c: K)
    requires
        obeys_partial_cmp_spec_properties::<K>(),
        totally_comparable::<K>(),
        key_eq(a, b),
    ensures
        key_gt(c, a) <==> key_gt(c, b),
        key_gt(a, c) <==> key_gt(b, c),
{
    reveal(obeys_partial_cmp_spec_properties);
    reveal(obeys_eq_spec_properties);
    assert(a.eq_spec(&b));
    assert(b.eq_spec(&a));
    if key_gt(c, a) && !key_gt(c, b) {
        lemma_trichotomy(c, b);
        if key_gt(b, c) {
            lemma_gt_trans(b, c, a);
            assert(b.partial_cmp_spec(&a) == Some(Ordering::Equal));
            assert(false);
        } else {
            assert(key_eq(c, b));
            assert(c.eq_spec(&b));
            assert(c.eq_spec(&a));
            assert(false);
        }
    }
    if key_gt(c, b) && !key_gt(c, a) {
        lemma_trichotomy(c, a);
        if key_gt(a, c) {
            lemma_gt_trans(a, c, b);
            assert(false);
        } else {
            assert(key_eq(c, a));
            assert(c.eq_spec(&a));
            assert(c.eq_spec(&b));
            assert(false);
        }
    }
    if key_gt(a, c) && !key_gt(b, c) {
        lemma_trichotomy(b, c);
        if key_gt(c, b) {
            lemma_gt_trans(a, c, b);
            assert(false);
        } else {
            assert(key_eq(b, c));
            assert(b.eq_spec(&c));
            assert(a.eq_spec(&c));
            assert(false);
        }
    }
    if key_gt(b, c) && !key_gt(a, c) {
        lemma_trichotomy(a, c);
        if key_gt(c, a) {
            lemma_gt_trans(b, c, a);
            assert(b.partial_cmp_spec(&a) == Some(Ordering::Equal));
            assert(false);
        } else {
            assert(key_eq(a, c));
            assert(a.eq_spec(&c));
            assert(b.eq_spec(&c));
            assert(false);
        }
    }
}

/// Law: a key comparing `Equal` never satisfies a strict relation, so
/// re-inserting the exact current best pair through `insert_gt` or
/// `insert_lt` leaves a tracker unchanged: the step functions of the strict
/// relations keep the resident pair on a tie.
pub proof fn lemma_strict_rejects_ties<K: PartialOrd, V>(cur: (K, V), cand: (K, V))
    requires
        cand.0.partial_cmp_spec(&cur.0) == Some(Ordering::Equal),
    ensures
        step_gt(cur, cand) == cur,
        step_lt(cur, cand) == cur,
{
}

proof fn lemma_opt_run_gt_occupied<K: PartialOrd, V>(init: (K, V), cands: Seq<(K, V)>)
    ensures
        opt_run_gt(Some(init), cands) == Some(run_gt(init, cands)),
    decreases cands.len(),
{
    if cands.len() > 0 {
        lemma_opt_run_gt_occupied(step_gt(init, cands[0]), cands.drop_first());
    }
}

proof fn lemma_opt_run_ge_occupied<K: PartialOrd, V>(init: (K, V), cands: Seq<(K, V)>)
    ensures
        opt_run_ge(Some(init), cands) == Some(run_ge(init, cands)),
    decreases cands.len(),
{
    if cands.len() > 0 {
        lemma_opt_run_ge_occupied(step_ge(init, cands[0]), cands.drop_first());
    }
}

/// Law: a fresh, absent tracker is occupied by its first candidate and
/// stays occupied forever after; from then on it behaves as the
/// always-occupied tracker seeded with that first candidate, so the laws of
/// `run_gt` and `run_ge` carry over to insertion streams that start empty.
pub proof fn lemma_first_insertion_occupies<K: PartialOrd, V>(cands: Seq<(K, V)>)
    requires
        cands.len() > 0,
    ensures
        opt_run_gt(None, cands) == Some(run_gt(cands[0], cands.drop_first())),
        opt_run_ge(None, cands) == Some(run_ge(cands[0], cands.drop_first())),
{
    lemma_opt_run_gt_occupied(cands[0], cands.drop_first());
    lemma_opt_run_ge_occupied(cands[0], cands.drop_first());
}

/// Law: offering a stream of candidates under the strictly-greater relation
/// leaves as resident the first-seen entry whose key is greatest. Returns
/// the position of the resident among all entries (the initial pair at
/// position 0, then the candidates in arrival order): that entry has a
/// greatest key, it is the resident, and no earlier entry has a greatest
/// key — among equal maxima, the first-seen wins.
pub proof fn lemma_run_gt_first_max<K: PartialOrd, V>(init: (K, V), cands: Seq<(K, V)>) -> (j: int)
    requires
        obeys_partial_cmp_spec_properties::<K>(),
        totally_comparable::<K>(),
    ensures
        0 <= j < (seq![init] + cands).len(),
        is_maximal(seq![init] + cands, j),
        run_gt(init, cands) == (seq![init] + cands)[j],
        forall|i: int| 0 <= i < j ==> !is_maximal(seq![init] + cands, i),
    decreases cands.len(),
{
    let s = seq![init] + cands;
    if cands.len() == 0 {
        lemma_gt_irrefl(init.0);
        assert(is_maximal(s, 0));
        0
    } else {
        let c = cands[0];
        let rest = cands.drop_first();
        assert(cands =~= seq![c] + rest);
        if key_gt(c.0, init.0) {
            assert(run_gt(init, cands) == run_gt(c, rest));
            let jp = lemma_run_gt_first_max(c, rest);
            let sp = seq![c] + rest;
            assert(forall|i: int| 0 <= i < sp.len() ==> s[i + 1] == sp[i]);
            let j = jp + 1;
            let m = sp[jp].0;
            assert(!key_gt(c.0, m));
            assert(!key_gt(init.0, m)) by {
                if key_gt(init.0, m) {
                    lemma_trichotomy(m, c.0);
                    if key_gt(m, c.0) {
                        lemma_gt_trans(init.0, m, c.0);
                        lemma_gt_asym(c.0, init.0);
                    } else {
                        lemma_eq_sym(m, c.0);
                        lemma_eq_compat(c.0, m, init.0);
                        lemma_gt_asym(c.0, init.0);
                    }
                }
            }
            assert(is_maximal(s, j)) by {
                assert forall|i: int| 0 <= i < s.len() implies !(#[trigger] key_gt(
                    s[i].0,
                    s[j].0,
                )) by {
                    if i == 0 {
                        assert(s[0] == init && s[j] == sp[jp]);
                    } else {
                        assert(s[i] == sp[i - 1] && s[j] == sp[jp]);
                        assert(!key_gt(sp[i - 1].0, sp[jp].0));
                    }
                }
            }
            assert forall|i: int| 0 <= i < j implies !is_maximal(s, i) by {
                if i == 0 {
                    assert(key_gt(s[1].0, s[0].0));
                } else {
                    assert(!is_maximal(sp, i - 1));
                    let w = choose|w: int|
                        0 <= w < sp.len() && #[trigger] key_gt(sp[w].0, sp[i - 1].0);
                    assert(0 <= w + 1 < s.len() && key_gt(s[w + 1].0, s[i].0));
                }
            }
            j
        } else {
            assert(step_gt(init, c) == init);
            assert(run_gt(init, cands) == run_gt(init, rest));
            let jpp = lemma_run_gt_first_max(init, rest);
            let spp = seq![init] + rest;
            assert(s[0] == spp[0] && s[0] == init && s[1] == c);
            assert(forall|i: int| 1 <= i < spp.len() ==> s[i + 1] == spp[i]);
            let j = if jpp == 0 {
                0int
            } else {
                jpp + 1
            };
            let r = spp[jpp].0;
            assert(s[j] == spp[jpp]);
            assert(!key_gt(init.0, r));
            assert(!key_gt(c.0, r)) by {
                if key_gt(c.0, r) {
                    lemma_trichotomy(init.0, c.0);
                    if key_gt(init.0, c.0) {
                        lemma_gt_trans(init.0, c.0, r);
                    } else if key_gt(c.0, init.0) {
                    } else {
                        lemma_eq_sym(init.0, c.0);
                        lemma_eq_compat(c.0, init.0, r);
                    }
                }
            }
            assert(is_maximal(s, j)) by {
                assert forall|i: int| 0 <= i < s.len() implies !(#[trigger] key_gt(
                    s[i].0,
                    s[j].0,
                )) by {
                    if i == 0 {
                        assert(s[0] == spp[0]);
                        assert(!key_gt(spp[0].0, spp[jpp].0));
                    } else if i == 1 {
                        assert(s[1] == c);
                    } else {
                        assert(s[i] == spp[i - 1]);
                        assert(!key_gt(spp[i - 1].0, spp[jpp].0));
                    }
                }
            }
            assert forall|i: int| 0 <= i < j implies !is_maximal(s, i) by {
                if i == 0 {
                    assert(jpp >= 1);
                    assert(!is_maximal(spp, 0));
                    let w = choose|w: int|
                        0 <= w < spp.len() && #[trigger] key_gt(spp[w].0, spp[0].0);
                    assert(w >= 1) by {
                        lemma_gt_irrefl(init.0);
                    }
                    assert(0 <= w + 1 < s.len() && key_gt(s[w + 1].0, s[0].0));
                } else if i == 1 {
                    assert(jpp >= 1);
                    assert(!is_maximal(spp, 0));
                    let w = choose|w: int|
                        0 <= w < spp.len() && #[trigger] key_gt(spp[w].0, spp[0].0);
                    assert(w >= 1) by {
                        lemma_gt_irrefl(init.0);
                    }
                    assert(key_gt(spp[w].0, init.0));
                    assert(key_gt(spp[w].0, c.0)) by {
                        lemma_trichotomy(init.0, c.0);
                        if key_gt(init.0, c.0) {
                            lemma_gt_trans(spp[w].0, init.0, c.0);
                        } else {
                            lemma_eq_sym(init.0, c.0);
                            lemma_eq_compat(c.0, init.0, spp[w].0);
                        }
                    }
                    assert(0 <= w + 1 < s.len() && key_gt(s[w + 1].0, s[1].0));
                } else {
                    assert(!is_maximal(spp, i - 1));
                    let w = choose|w: int|
                        0 <= w < spp.len() && #[trigger] key_gt(spp[w].0, spp[i - 1].0);
                    let wm = if w == 0 {
                        0int
                    } else {
                        w + 1
                    };
                    assert(s[wm] == spp[w]);
                    assert(0 <= wm < s.len() && key_gt(s[wm].0, s[i].0));
                }
            }
            j
        }
    }
}

/// Law: offering a stream of candidates under the greater-or-equal relation
/// leaves as resident the last-seen entry whose key is greatest. Returns
/// the position of the resident among all entries (the initial pair at
/// position 0, then the candidates in arrival order): that entry has a
/// greatest key, it is the resident, and no later entry has a greatest key
/// — among equal maxima, the last-seen wins.
pub proof fn lemma_run_ge_last_max<K: PartialOrd, V>(init: (K, V), cands: Seq<(K, V)>) -> (j: int)
    requires
        obeys_partial_cmp_spec_properties::<K>(),
        totally_comparable::<K>(),
    ensures
        0 <= j < (seq![init] + cands).len(),
        is_maximal(seq![init] + cands, j),
        run_ge(init, cands) == (seq![init] + cands)[j],
        forall|i: int| j < i < (seq![init] + cands).len() ==> !is_maximal(seq![init] + cands, i),
    decreases cands.len(),
{
    let s = seq![init] + cands;
    if cands.len() == 0 {
        lemma_gt_irrefl(init.0);
        assert(is_maximal(s, 0));
        0
    } else {
        let c = cands[0];
        let rest = cands.drop_first();
        assert(cands =~= seq![c] + rest);
        if key_gt(c.0, init.0) || key_eq(c.0, init.0) {
            assert(step_ge(init, c) == c);
            assert(run_ge(init, cands) == run_ge(c, rest));
            let jp = lemma_run_ge_last_max(c, rest);
            let sp = seq![c] + rest;
            assert(forall|i: int| 0 <= i < sp.len() ==> s[i + 1] == sp[i]);
            let j = jp + 1;
            let m = sp[jp].0;
            assert(!key_gt(c.0, m));
            assert(!key_gt(init.0, m)) by {
                if key_gt(init.0, m) {
                    if key_eq(c.0, init.0) {
                        lemma_eq_sym(c.0, init.0);
                        lemma_eq_compat(init.0, c.0, m);
                        assert(key_gt(c.0, m));
                    } else {
                        lemma_trichotomy(m, c.0);
                        if key_gt(m, c.0) {
                            lemma_gt_trans(init.0, m, c.0);
                            lemma_gt_asym(c.0, init.0);
                        } else {
                            lemma_eq_sym(m, c.0);
                            lemma_eq_compat(c.0, m, init.0);
                            lemma_gt_asym(c.0, init.0);
                        }
                    }
                }
            }
            assert(is_maximal(s, j)) by {
                assert forall|i: int| 0 <= i < s.len() implies !(#[trigger] key_gt(
                    s[i].0,
                    s[j].0,
                )) by {
                    if i == 0 {
                        assert(s[0] == init && s[j] == sp[jp]);
                    } else {
                        assert(s[i] == sp[i - 1] && s[j] == sp[jp]);
                        assert(!key_gt(sp[i - 1].0, sp[jp].0));
                    }
                }
            }
            assert forall|i: int| j < i < s.len() implies !is_maximal(s, i) by {
                assert(!is_maximal(sp, i - 1));
                let w = choose|w: int| 0 <= w < sp.len() && #[trigger] key_gt(sp[w].0, sp[i - 1].0);
                assert(0 <= w + 1 < s.len() && key_gt(s[w + 1].0, s[i].0));
            }
            j
        } else {
            assert(step_ge(init, c) == init);
            assert(run_ge(init, cands) == run_ge(init, rest));
            assert(key_gt(init.0, c.0)) by {
                lemma_trichotomy(init.0, c.0);
                if key_eq(init.0, c.0) {
                    lemma_eq_sym(init.0, c.0);
                }
            }
            let jpp = lemma_run_ge_last_max(init, rest);
            let spp = seq![init] + rest;
            assert(s[0] == spp[0] && s[0] == init && s[1] == c);
            assert(forall|i: int| 1 <= i < spp.len() ==> s[i + 1] == spp[i]);
            let j = if jpp == 0 {
                0int
            } else {
                jpp + 1
            };
            let r = spp[jpp].0;
            assert(s[j] == spp[jpp]);
            assert(!key_gt(init.0, r));
            assert(!key_gt(c.0, r)) by {
                if key_gt(c.0, r) {
                    lemma_gt_trans(init.0, c.0, r);
                }
            }
            assert(is_maximal(s, j)) by {
                assert forall|i: int| 0 <= i < s.len() implies !(#[trigger] key_gt(
                    s[i].0,
                    s[j].0,
                )) by {
                    if i == 0 {
                        assert(s[0] == spp[0]);
                        assert(!key_gt(spp[0].0, spp[jpp].0));
                    } else if i == 1 {
                        assert(s[1] == c);
                    } else {
                        assert(s[i] == spp[i - 1]);
                        assert(!key_gt(spp[i - 1].0, spp[jpp].0));
                    }
                }
            }
            assert forall|i: int| j < i < s.len() implies !is_maximal(s, i) by {
                if i == 1 {
                    assert(key_gt(s[0].0, s[1].0));
                } else {
                    assert(i >= 2);
                    assert(i - 1 > jpp);
                    assert(!is_maximal(spp, i - 1));
                    let w = choose|w: int|
                        0 <= w < spp.len() && #[trigger] key_gt(spp[w].0, spp[i - 1].0);
                    let wm = if w == 0 {
                        0int
                    } else {
                        w + 1
                    };
                    assert(s[wm] == spp[w]);
                    assert(0 <= wm < s.len() && key_gt(s[wm].0, s[i].0));
                }
            }
            j
        }
    }
}

} // verus!
