use awoo::time::TimeState;
use awoo::{Behavior, Cut, Scheduler, TimeGenerator, Timeline, Track};

/// A generator written outside the library: it steps through halves.
struct Halves {
    halves: i32,
    step: i32,
}

impl TimeGenerator for Halves {
    type Time = f64;

    fn state(&self) -> TimeState<f64> {
        TimeState {
            current: f64::from(self.halves) / 2.0,
            reset_value: 0.0,
            delta: f64::from(self.step) / 2.0,
        }
    }

    fn current(&self) -> f64 {
        f64::from(self.halves) / 2.0
    }

    fn tick(&mut self) -> f64 {
        let t = self.current();
        self.halves += self.step;
        t
    }

    fn untick(&mut self) -> f64 {
        let t = self.current();
        self.halves -= self.step;
        t
    }

    fn reset(&mut self) {
        self.halves = 0;
    }

    fn set(&mut self, value: f64) {
        self.halves = (value * 2.0) as i32;
    }

    fn change_delta(&mut self, delta: f64) {
        self.step = (delta * 2.0) as i32;
    }
}

#[test]
fn scheduler_plays_by_a_generator_of_its_user() {
    let double = Behavior::from_fn(|t: f64| Some(t * 2.0));
    let mut lane = Track::new();
    lane.add_cut(Cut::new(&double, 0.0, 1.0).expect("0.0 <= 1.0"));
    let mut timeline = Timeline::new();
    timeline.add_track(lane);
    let mut scheduler = Scheduler::new(timeline, Halves { halves: 0, step: 1 });
    assert_eq!(scheduler.advance(), vec![Some(0.0)]);
    assert_eq!(scheduler.advance(), vec![Some(1.0)]);
    assert_eq!(scheduler.advance(), vec![None]);
    assert_eq!(scheduler.rewind(), vec![None]);
    assert_eq!(scheduler.rewind(), vec![None]);
    assert_eq!(scheduler.rewind(), vec![Some(1.0)]);
    scheduler.reset();
    assert_eq!(scheduler.time_generator().current(), 0.0);
}
