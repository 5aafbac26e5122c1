use awoo::{Behavior, Cut, SimpleTimeGenerator, TimeGenerator, Track};

#[test]
fn cut_with_a_bound_that_is_no_number_covers_nothing() {
    let behavior = Behavior::from_fn(|t: f64| Some(t));
    let cut = Cut::new(&behavior, f64::NAN, 1.0).expect("1.0 < NaN is false");
    assert_eq!(cut.sample(0.5), None);
    assert_eq!(cut.sample(f64::NAN), None);
    let cut = Cut::new(&behavior, 0.0, f64::NAN).expect("NaN < 0.0 is false");
    assert_eq!(cut.sample(0.5), None);
}

#[test]
fn cut_is_not_sampled_at_a_time_that_is_no_number() {
    let behavior = Behavior::from_fn(|t: f64| Some(t));
    let cut = Cut::new(&behavior, 0.0, 1.0).expect("0.0 <= 1.0");
    assert_eq!(cut.sample(f64::NAN), None);
    assert!(!cut.contains(&f64::NAN));
}

#[test]
fn cut_over_all_of_time() {
    let behavior = Behavior::from_fn(|t: f64| Some(t + 1.0));
    let cut = Cut::new(&behavior, f64::NEG_INFINITY, f64::INFINITY).expect("-inf <= inf");
    assert_eq!(cut.sample(-1.0e300), Some(-1.0e300 + 1.0));
    assert_eq!(cut.sample(0.0), Some(1.0));
    assert_eq!(cut.sample(f64::INFINITY), None);
    assert_eq!(cut.dur(), f64::INFINITY);
}

#[test]
fn track_in_floats_with_a_gap() {
    let low = Behavior::from_fn(|t: f32| Some(t));
    let high = Behavior::from_fn(|t: f32| Some(t * 100.0));
    let mut track = Track::new();
    track.add_cut(Cut::new(&low, 0.0, 1.0).expect("0.0 <= 1.0"));
    track.add_cut(Cut::new(&high, 2.0, 3.0).expect("2.0 <= 3.0"));
    assert_eq!(track.sample(0.5), Some(0.5));
    assert_eq!(track.sample(1.5), None);
    assert_eq!(track.sample(2.5), Some(250.0));
}

#[test]
fn generator_in_doubles_steps_by_quarters() {
    let mut generator = SimpleTimeGenerator::new(1.0f64, 0.25f64);
    assert_eq!(generator.tick(), 1.0);
    assert_eq!(generator.tick(), 1.25);
    assert_eq!(generator.untick(), 1.5);
    assert_eq!(generator.current(), 1.25);
    generator.change_delta(0.5);
    assert_eq!(generator.tick(), 1.25);
    assert_eq!(generator.current(), 1.75);
    generator.reset();
    assert_eq!(generator.current(), 1.0);
    assert_eq!(generator.delta(), 0.5);
}
