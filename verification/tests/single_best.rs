use std::cmp::Ordering;

use best_tracker::{BestMapNonEmpty, BestMapNonEmptyCounting, BestSetNonEmpty};

#[test]
fn non_empty_new_and_accessors() {
    let t = BestMapNonEmpty::new(3i32, "a");
    assert_eq!(t.get(), (&3, &"a"));
    assert_eq!(t.key(), &3);
    assert_eq!(t.value(), &"a");
}

#[test]
fn non_empty_consuming_accessors() {
    let t = BestMapNonEmpty::new(9u64, String::from("x"));
    assert_eq!(t.clone().into_key_and_value(), (9, String::from("x")));
    assert_eq!(t.clone().into_key(), 9);
    assert_eq!(t.into_value(), String::from("x"));
}

#[test]
fn non_empty_insert_gt_replaces_only_on_greater() {
    let mut t = BestMapNonEmpty::new(3i32, "a");
    t.insert_gt(1, "b");
    assert_eq!(t.get(), (&3, &"a"));
    t.insert_gt(5, "c");
    assert_eq!(t.get(), (&5, &"c"));
    t.insert_gt(5, "d");
    assert_eq!(t.get(), (&5, &"c"));
}

#[test]
fn non_empty_reinserting_best_via_strict_is_rejected() {
    let mut t = BestMapNonEmpty::new(7i32, "best");
    t.insert_gt(7, "again");
    assert_eq!(t.get(), (&7, &"best"));
    let mut u = BestMapNonEmpty::new(7i32, "best");
    u.insert_lt(7, "again");
    assert_eq!(u.get(), (&7, &"best"));
}

#[test]
fn non_empty_insert_ge_lets_later_tie_win() {
    let mut t = BestMapNonEmpty::new(5i32, "first");
    t.insert_ge(5, "second");
    assert_eq!(t.get(), (&5, &"second"));
    t.insert_ge(4, "worse");
    assert_eq!(t.get(), (&5, &"second"));
}

#[test]
fn non_empty_insert_lt_and_le() {
    let mut t = BestMapNonEmpty::new(5i32, "a");
    t.insert_lt(6, "b");
    assert_eq!(t.get(), (&5, &"a"));
    t.insert_lt(2, "c");
    assert_eq!(t.get(), (&2, &"c"));
    t.insert_le(2, "d");
    assert_eq!(t.get(), (&2, &"d"));
    t.insert_le(3, "e");
    assert_eq!(t.get(), (&2, &"d"));
}

#[test]
fn non_empty_incomparable_is_rejected() {
    let mut t = BestMapNonEmpty::new(2.0f64, "a");
    t.insert_gt(f64::NAN, "nan");
    assert_eq!(t.get(), (&2.0, &"a"));
    t.insert_le(f64::NAN, "nan");
    assert_eq!(t.get(), (&2.0, &"a"));
}

#[test]
fn non_empty_greatest_wins_over_stream() {
    let mut t = BestMapNonEmpty::new(0u32, 0usize);
    let keys: Vec<u32> = vec![4, 9, 2, 9, 7];
    for (i, k) in keys.iter().enumerate() {
        t.insert_gt(*k, i + 1);
    }
    assert_eq!(t.key(), &9);
    // Strict relation: among equal maxima the first-seen value is retained.
    assert_eq!(t.value(), &2);
    let mut u = BestMapNonEmpty::new(0u32, 0usize);
    for (i, k) in keys.iter().enumerate() {
        u.insert_ge(*k, i + 1);
    }
    assert_eq!(u.key(), &9);
    // Non-strict relation: among equal maxima the last-seen value is retained.
    assert_eq!(u.value(), &4);
}

#[test]
fn non_empty_comparator_generic_inserts() {
    // Track the pair whose textual key is longest, deciding through an
    // external comparator instead of an order on the stored key type.
    let mut t = BestMapNonEmpty::new(String::from("aa"), 1i32);
    let cand = String::from("aaaa");
    let cand_len = cand.len();
    t.insert_gt_by(cand, 2, |resident: &String| cand_len.cmp(&resident.len()));
    assert_eq!(t.key(), "aaaa");
    assert_eq!(t.value(), &2);
    let cand2 = String::from("bbbb");
    let cand2_len = cand2.len();
    t.insert_gt_by(cand2, 3, |resident: &String| cand2_len.cmp(&resident.len()));
    assert_eq!(t.key(), "aaaa");
    t.insert_ge_by(String::from("cccc"), 4, |resident: &String| {
        4usize.cmp(&resident.len())
    });
    assert_eq!(t.key(), "cccc");
    assert_eq!(t.value(), &4);
}

#[test]
fn non_empty_comparator_generic_less_family() {
    let mut t = BestMapNonEmpty::new(10i32, "a");
    t.insert_lt_by(4, "b", |resident: &i32| 4.cmp(resident));
    assert_eq!(t.get(), (&4, &"b"));
    t.insert_lt_by(4, "c", |resident: &i32| 4.cmp(resident));
    assert_eq!(t.get(), (&4, &"b"));
    t.insert_le_by(4, "d", |resident: &i32| 4.cmp(resident));
    assert_eq!(t.get(), (&4, &"d"));
    t.insert_le_by(9, "e", |resident: &i32| 9.cmp(resident));
    assert_eq!(t.get(), (&4, &"d"));
}

#[test]
fn counting_counts_every_offer() {
    let mut t = BestMapNonEmptyCounting::new(0i32, "init");
    assert_eq!(t.count(), 0);
    let keys: Vec<i32> = vec![3, 1, 5, 5, 2];
    for k in keys {
        t.insert_gt(k, "v");
    }
    // Five offers were made, though only two replaced the resident pair.
    assert_eq!(t.count(), 5);
    assert_eq!(t.key(), &5);
}

#[test]
fn counting_ge_variant_and_accessors() {
    let mut t = BestMapNonEmptyCounting::new(2u8, 0u8);
    t.insert_ge(2, 1);
    t.insert_ge(1, 2);
    assert_eq!(t.count(), 2);
    assert_eq!(t.get(), (&2, &1));
    assert_eq!(t.value(), &1);
    assert_eq!(t.into_key_and_value(), (2, 1));
}

#[test]
fn counting_parts_round_trip() {
    let mut t = BestMapNonEmptyCounting::new(1i32, "a");
    t.insert_gt(4, "b");
    t.insert_gt(2, "c");
    let (key, value, count) = t.into_parts();
    assert_eq!((key, value, count), (4, "b", 2));
    let u = BestMapNonEmptyCounting::from_parts(key, value, count);
    assert_eq!(u.get(), (&4, &"b"));
    assert_eq!(u.count(), 2);
}

#[test]
fn set_non_empty_tracks_best_value() {
    let mut s = BestSetNonEmpty::new(4i32);
    s.insert_gt(2);
    assert_eq!(s.get(), &4);
    s.insert_gt(8);
    assert_eq!(s.get(), &8);
    s.insert_ge(8);
    assert_eq!(s.get(), &8);
    s.insert_lt(3);
    assert_eq!(s.get(), &3);
    s.insert_le(3);
    assert_eq!(s.get(), &3);
    assert_eq!(s.into_value(), 3);
}

#[test]
fn comparator_outcomes_drive_replacement() {
    // The acceptance sets: {Greater} for strict-greater, {Greater, Equal}
    // for non-strict, symmetric for the less-than family.
    let mut t = BestMapNonEmpty::new(0i32, 0i32);
    t.insert_gt_by(1, 1, |_resident: &i32| Ordering::Equal);
    assert_eq!(t.get(), (&0, &0));
    t.insert_ge_by(1, 1, |_resident: &i32| Ordering::Equal);
    assert_eq!(t.get(), (&1, &1));
    t.insert_lt_by(2, 2, |_resident: &i32| Ordering::Greater);
    assert_eq!(t.get(), (&1, &1));
    t.insert_le_by(2, 2, |_resident: &i32| Ordering::Less);
    assert_eq!(t.get(), (&2, &2));
}
