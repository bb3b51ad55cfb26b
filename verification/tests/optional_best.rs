use best_tracker::{BestMap, BestSet};

#[test]
fn scenario_strictly_greater_keeps_first_tie() {
    let mut t: BestMap<i32, &str> = BestMap::new();
    t.insert_gt(3, "a");
    t.insert_gt(1, "b");
    t.insert_gt(5, "c");
    t.insert_gt(5, "d");
    // "d" is rejected: 5 is not > 5.
    assert_eq!(t.get(), Some((&5, &"c")));
}

#[test]
fn scenario_greater_or_equal_takes_last_tie() {
    let mut t: BestMap<i32, &str> = BestMap::new();
    t.insert_ge(3, "a");
    t.insert_ge(1, "b");
    t.insert_ge(5, "c");
    t.insert_ge(5, "d");
    // "d" is accepted: 5 >= 5.
    assert_eq!(t.get(), Some((&5, &"d")));
}

#[test]
fn empty_until_first_insertion_then_never_again() {
    let mut t: BestMap<u32, u32> = BestMap::new();
    assert!(t.is_empty());
    t.insert_gt(1, 10);
    assert!(!t.is_empty());
    for k in [0u32, 5, 3, 5] {
        t.insert_gt(k, k);
        assert!(!t.is_empty());
    }
}

#[test]
fn first_insertion_always_succeeds_even_for_least() {
    let mut t: BestMap<i32, &str> = BestMap::new();
    t.insert_gt(i32::MIN, "least");
    assert_eq!(t.get(), Some((&i32::MIN, &"least")));
    let mut u: BestMap<i32, &str> = BestMap::new();
    u.insert_lt(i32::MAX, "greatest");
    assert_eq!(u.get(), Some((&i32::MAX, &"greatest")));
}

#[test]
fn absent_accessors_return_empty_indicators() {
    let t: BestMap<i32, String> = BestMap::new();
    assert_eq!(t.get(), None);
    assert_eq!(t.key(), None);
    assert_eq!(t.value(), None);
    assert_eq!(t.clone().into_key_and_value(), None);
    assert_eq!(t.clone().into_key(), None);
    assert_eq!(t.into_value(), None);
}

#[test]
fn populated_accessors_and_consumers() {
    let mut t: BestMap<u8, String> = BestMap::new();
    t.insert_le(7, String::from("v"));
    assert_eq!(t.key(), Some(&7));
    assert_eq!(t.value(), Some(&String::from("v")));
    assert_eq!(t.clone().into_key(), Some(7));
    assert_eq!(t.clone().into_value(), Some(String::from("v")));
    assert_eq!(t.into_key_and_value(), Some((7, String::from("v"))));
}

#[test]
fn default_is_absent() {
    let t: BestMap<i64, i64> = BestMap::default();
    assert!(t.is_empty());
    let s: BestSet<i64> = BestSet::default();
    assert!(s.is_empty());
}

#[test]
fn less_than_family_on_optional() {
    let mut t: BestMap<i32, &str> = BestMap::new();
    t.insert_lt(4, "a");
    t.insert_lt(6, "b");
    assert_eq!(t.get(), Some((&4, &"a")));
    t.insert_lt(2, "c");
    assert_eq!(t.get(), Some((&2, &"c")));
    t.insert_le(2, "d");
    assert_eq!(t.get(), Some((&2, &"d")));
}

#[test]
fn incomparable_candidate_never_replaces() {
    let mut t: BestMap<f64, &str> = BestMap::new();
    t.insert_gt(1.5, "a");
    t.insert_gt(f64::NAN, "nan");
    assert_eq!(t.key(), Some(&1.5));
    assert_eq!(t.value(), Some(&"a"));
}

#[test]
fn parts_round_trip_reproduces_tracker() {
    // Absent state.
    let t: BestMap<i32, String> = BestMap::new();
    let parts = t.clone().into_key_and_value();
    let u = BestMap::from_parts(parts);
    assert_eq!(t.is_empty(), u.is_empty());
    assert_eq!(u.get(), None);

    // Populated state.
    let mut t: BestMap<i32, String> = BestMap::new();
    t.insert_gt(5, String::from("best"));
    t.insert_gt(3, String::from("worse"));
    let parts = t.clone().into_key_and_value();
    assert_eq!(parts, Some((5, String::from("best"))));
    let u = BestMap::from_parts(parts);
    assert_eq!(u.get(), t.get());
    assert_eq!(u.into_key_and_value(), t.into_key_and_value());
}

#[test]
fn set_parts_round_trip() {
    let absent: BestSet<u16> = BestSet::from_parts(None);
    assert!(absent.is_empty());
    let mut s: BestSet<u16> = BestSet::new();
    s.insert_ge(11);
    let parts = s.into_value();
    let rebuilt = BestSet::from_parts(parts);
    assert_eq!(rebuilt.get(), Some(&11));
}

#[test]
fn set_tracks_best_value_only() {
    let mut s: BestSet<u32> = BestSet::new();
    assert!(s.is_empty());
    assert_eq!(s.get(), None);
    s.insert_gt(3);
    s.insert_gt(1);
    s.insert_gt(9);
    s.insert_gt(9);
    assert!(!s.is_empty());
    assert_eq!(s.get(), Some(&9));
    assert_eq!(s.into_value(), Some(9));
}

#[test]
fn set_less_family_and_empty_consumer() {
    let s: BestSet<u32> = BestSet::new();
    assert_eq!(s.into_value(), None);
    let mut s: BestSet<i8> = BestSet::new();
    s.insert_le(4);
    s.insert_le(4);
    s.insert_lt(-2);
    s.insert_lt(0);
    assert_eq!(s.get(), Some(&-2));
}
