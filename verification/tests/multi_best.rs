use std::cmp::Ordering;

use best_tracker::BestMultiSet;

fn contents(t: &BestMultiSet<i32>) -> Vec<i32> {
    t.iter().copied().collect()
}

#[test]
fn scenario_greatest_wins_tie_set_evolution() {
    let mut t: BestMultiSet<i32> = BestMultiSet::new();
    let expected: Vec<Vec<i32>> = vec![
        vec![3],
        vec![5],
        vec![5, 5],
        vec![5, 5],
        vec![7],
        vec![7, 7],
    ];
    for (v, want) in [3, 5, 5, 2, 7, 7].iter().zip(expected.iter()) {
        t.insert_gt(*v);
        assert_eq!(&contents(&t), want);
    }
    assert_eq!(contents(&t), vec![7, 7]);
}

#[test]
fn dominant_tied_and_dominated_candidates() {
    let mut t: BestMultiSet<i32> = BestMultiSet::new();
    t.insert_gt(4);
    t.insert_gt(4);
    t.insert_gt(4);
    assert_eq!(contents(&t), vec![4, 4, 4]);
    // A strictly dominant candidate collapses the tie set to size 1.
    t.insert_gt(9);
    assert_eq!(contents(&t), vec![9]);
    // A tied candidate grows the set by exactly 1.
    t.insert_gt(9);
    assert_eq!(contents(&t), vec![9, 9]);
    // A dominated candidate leaves size and contents unchanged.
    t.insert_gt(1);
    assert_eq!(contents(&t), vec![9, 9]);
}

#[test]
fn least_wins_insertion() {
    let mut t: BestMultiSet<i32> = BestMultiSet::new();
    for v in [6, 2, 2, 8, 2] {
        t.insert_lt(v);
    }
    assert_eq!(contents(&t), vec![2, 2, 2]);
}

#[test]
fn incomparable_is_rejected_not_appended() {
    let mut t: BestMultiSet<f64> = BestMultiSet::new();
    t.insert_gt(1.0);
    t.insert_gt(f64::NAN);
    let got: Vec<f64> = t.iter().copied().collect();
    assert_eq!(got, vec![1.0]);
    t.insert_lt(f64::NAN);
    let got: Vec<f64> = t.iter().copied().collect();
    assert_eq!(got, vec![1.0]);
}

#[test]
fn comparator_driven_insertions() {
    // Keep the longest strings, tying on length.
    let mut t: BestMultiSet<String> = BestMultiSet::new();
    for s in ["bb", "a", "cc", "dddd"] {
        t.insert_gt_by(String::from(s), |cand: &String, first: &String| {
            cand.len().cmp(&first.len())
        });
    }
    let got: Vec<String> = t.iter().cloned().collect();
    assert_eq!(got, vec![String::from("dddd")]);

    // Keep the shortest strings, tying on length.
    let mut t: BestMultiSet<String> = BestMultiSet::new();
    for s in ["bb", "a", "cc", "d"] {
        t.insert_lt_by(String::from(s), |cand: &String, first: &String| {
            cand.len().cmp(&first.len())
        });
    }
    let got: Vec<String> = t.iter().cloned().collect();
    assert_eq!(got, vec![String::from("a"), String::from("d")]);
}

#[test]
fn comparator_equal_on_empty_appends() {
    let mut t: BestMultiSet<i32> = BestMultiSet::new();
    t.insert_gt_by(5, |_c: &i32, _f: &i32| Ordering::Less);
    // The first insertion always succeeds: the comparator is not consulted
    // when the tie set is empty.
    assert_eq!(contents(&t), vec![5]);
}

#[test]
fn first_peeks_an_arbitrary_tied_element() {
    let mut t: BestMultiSet<i32> = BestMultiSet::new();
    assert_eq!(t.first(), None);
    t.insert_gt(2);
    t.insert_gt(2);
    assert_eq!(t.first(), Some(&2));
}

#[test]
fn drain_yields_all_and_leaves_empty() {
    let mut t: BestMultiSet<i32> = BestMultiSet::new();
    t.insert_gt(3);
    t.insert_gt(3);
    t.insert_gt(3);
    let drained: Vec<i32> = t.drain();
    assert_eq!(drained, vec![3, 3, 3]);
    assert!(t.is_empty());
    // A second drain yields nothing.
    let drained_again: Vec<i32> = t.drain();
    assert!(drained_again.is_empty());
}

#[test]
fn drain_then_from_parts_round_trip() {
    let mut t: BestMultiSet<i32> = BestMultiSet::new();
    t.insert_gt(8);
    t.insert_gt(8);
    let parts: Vec<i32> = t.drain();
    let u = BestMultiSet::from_parts(parts);
    assert_eq!(contents(&u), vec![8, 8]);
}

#[test]
fn clear_empties_the_tracker() {
    let mut t: BestMultiSet<i32> = BestMultiSet::new();
    assert!(t.is_empty());
    t.insert_gt(1);
    assert!(!t.is_empty());
    t.clear();
    assert!(t.is_empty());
    assert_eq!(contents(&t), Vec::<i32>::new());
    // Empty -> Holding again on the next insertion, whatever its outcome.
    t.insert_gt(-5);
    assert_eq!(contents(&t), vec![-5]);
}

#[test]
fn iteration_is_restartable() {
    let mut t: BestMultiSet<i32> = BestMultiSet::new();
    t.insert_gt(6);
    t.insert_gt(6);
    assert_eq!(t.iter().count(), 2);
    assert_eq!(t.iter().count(), 2);
    let mut it = t.iter();
    assert_eq!(it.next(), Some(&6));
    assert_eq!(it.next(), Some(&6));
    assert_eq!(it.next(), None);
}

#[test]
fn default_is_empty() {
    let t: BestMultiSet<u64> = BestMultiSet::default();
    assert!(t.is_empty());
}
