//! Animate and schedule code.
//!
//! This crate provides the functionality of running code at given times, in the same way as
//! animation artists create animated movies.
//!
//! # Concepts
//!
//! A [`Behavior`] gives a value at every point of a time domain. A [`Cut`] restricts a behavior
//! to a half-open interval of time, a [`Track`] arranges cuts in one lane, and a [`Timeline`]
//! arranges tracks side by side. A [`TimeGenerator`] says what time it is, and a [`Scheduler`]
//! samples a timeline at the times that its generator hands out.
//!
//! Time is any type with `<` and `<=`; durations and generators also use its `+` and `-`. The
//! module [`domain`] holds the words in which the contracts speak of those operators.

pub mod behavior;
pub mod cut;
pub mod domain;
pub mod scheduler;
pub mod time;
pub mod timeline;
pub mod track;

pub use behavior::Behavior;
pub use cut::Cut;
pub use scheduler::Scheduler;
pub use time::simple::SimpleTimeGenerator;
pub use time::TimeGenerator;
pub use timeline::Timeline;
pub use track::Track;
