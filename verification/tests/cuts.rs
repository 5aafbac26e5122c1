use awoo::{Behavior, Cut};
use std::cell::Cell;

#[test]
fn cut_over_ordered_bounds_is_made() {
    let behavior = Behavior::from_fn(|t: i64| Some(t));
    let cut = Cut::new(&behavior, 3, 10).expect("3 <= 10");
    assert_eq!(cut.start_t, 3);
    assert_eq!(cut.stop_t, 10);
    assert_eq!(cut.dur(), 7);
}

#[test]
fn cut_may_be_empty() {
    let behavior = Behavior::from_fn(|t: i64| Some(t));
    let cut = Cut::new(&behavior, 4, 4).expect("4 <= 4");
    assert_eq!(cut.dur(), 0);
    assert_eq!(cut.sample(4), None);
    assert!(!cut.contains(&4));
}

#[test]
fn cut_over_reversed_bounds_is_refused() {
    let behavior = Behavior::from_fn(|t: i64| Some(t));
    assert!(Cut::new(&behavior, 10, 3).is_none());
    assert!(Cut::new(&behavior, 1, 0).is_none());
    assert!(Cut::new(&behavior, i64::MAX, i64::MIN).is_none());
}

#[test]
fn cut_refuses_five_to_two() {
    let behavior = Behavior::from_fn(|t: f64| Some(t));
    let cut = Cut::new(&behavior, 5.0, 2.0);
    assert!(cut.is_none());
}

#[test]
fn cut_duration_of_float_bounds() {
    let behavior = Behavior::from_fn(|t: f64| Some(t));
    let cut = Cut::new(&behavior, 0.25, 1.0).expect("0.25 <= 1.0");
    assert_eq!(cut.dur(), 0.75);
    assert!(cut.dur() >= 0.0);
}

#[test]
fn cut_duration_is_never_negative() {
    let behavior = Behavior::from_fn(|t: i64| Some(t));
    for start in -3..=3 {
        for stop in -3..=3 {
            match Cut::new(&behavior, start, stop) {
                Some(cut) => {
                    assert!(start <= stop);
                    assert_eq!(cut.dur(), stop - start);
                    assert!(cut.dur() >= 0);
                }
                None => assert!(stop < start),
            }
        }
    }
}

#[test]
fn cut_samples_its_behavior_inside_only() {
    let behavior = Behavior::from_fn(|t: f64| Some(t * 2.0));
    let cut = Cut::new(&behavior, 0.0, 1.0).expect("0.0 <= 1.0");
    assert_eq!(cut.sample(0.5), Some(1.0));
    assert_eq!(cut.sample(1.0), None);
    assert_eq!(cut.sample(-0.1), None);
}

#[test]
fn cut_includes_its_start_and_excludes_its_stop() {
    let behavior = Behavior::from_fn(|t: i64| Some(t + 100));
    let cut = Cut::new(&behavior, 2, 5).expect("2 <= 5");
    assert_eq!(cut.sample(1), None);
    assert_eq!(cut.sample(2), Some(102));
    assert_eq!(cut.sample(4), Some(104));
    assert_eq!(cut.sample(5), None);
    assert!(cut.contains(&2));
    assert!(cut.contains(&4));
    assert!(!cut.contains(&5));
    assert!(!cut.contains(&1));
}

#[test]
fn cut_does_not_ask_its_behavior_outside() {
    let asked = Cell::new(0u32);
    let behavior = Behavior::from_fn(|t: i64| {
        asked.set(asked.get() + 1);
        Some(t)
    });
    let cut = Cut::new(&behavior, 0, 10).expect("0 <= 10");
    assert_eq!(cut.sample(10), None);
    assert_eq!(cut.sample(-1), None);
    assert_eq!(cut.sample(25), None);
    assert_eq!(asked.get(), 0);
    assert_eq!(cut.sample(9), Some(9));
    assert_eq!(asked.get(), 1);
}

#[test]
fn cut_passes_on_that_its_behavior_has_no_value() {
    let behavior = Behavior::from_fn(|t: i64| if t % 2 == 0 { Some(t) } else { None });
    let cut = Cut::new(&behavior, 0, 10).expect("0 <= 10");
    assert_eq!(cut.sample(4), Some(4));
    assert_eq!(cut.sample(5), None);
}

#[test]
fn cuts_share_a_behavior() {
    let behavior = Behavior::from_fn(|t: i64| Some(t * t));
    let early = Cut::new(&behavior, 0, 5).expect("0 <= 5");
    let late = Cut::new(&behavior, 5, 10).expect("5 <= 10");
    assert_eq!(early.sample(3), Some(9));
    assert_eq!(late.sample(3), None);
    assert_eq!(early.sample(7), None);
    assert_eq!(late.sample(7), Some(49));
}

#[test]
fn behavior_reacts_as_its_function() {
    let offset = 7;
    let behavior = Behavior::from_fn(move |t: i64| if t >= 0 { Some(t + offset) } else { None });
    assert_eq!(behavior.react(0), Some(7));
    assert_eq!(behavior.react(5), Some(12));
    assert_eq!(behavior.react(-1), None);
    assert_eq!(behavior.react(5), Some(12));
}
