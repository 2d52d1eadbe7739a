//! Frame pacing and paint scheduling for a GPU rendered terminal window.
//!
//! The crate holds every decision that is made between two frames: how long
//! to sleep after a frame was presented, what to draw and in which order, how
//! a paint recovers when the texture atlas runs out of space, and when the
//! next animation frame is due.  It performs no input or output itself.  An
//! operation that has to alternate between deciding and acting is a state
//! machine: a function that takes the event that just happened and returns
//! the action to perform next.
//!
//! Durations are `u128` nanoseconds.  Clock readings are `u64` nanoseconds
//! since an arbitrary fixed origin.

pub mod draw;
pub mod frame_pacing;
pub mod frame_timing;
pub mod modal;
pub mod paint;
pub mod paint_pass;
pub mod precise_timer;
pub mod term_window;
pub mod timer_support;
pub mod trace;
