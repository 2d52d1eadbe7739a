//! Inter-frame intervals and jitter, for smoothness diagnostics.

use crate::frame_pacing::target_frame_time;
use vstd::prelude::*;

verus! {

/// Longest interval between two frames that counts.  After a longer pause the
/// window was minimized, the system slept, or something else held rendering
/// up.
pub const MAX_REASONABLE_FRAME_INTERVAL: u128 = 1_000_000_000;

/// What a presented frame adds to the statistics.
#[derive(Debug, Clone, Copy, PartialEq, Eq, Structural)]
pub enum FrameRecord {
    /// The frame has no predecessor to measure from.
    First,
    /// The interval is too long to say anything about smoothness.
    Outlier { interval: u128 },
    /// The interval since the last frame, and how far it is off the target
    /// interval, where a target is set.
    Interval { interval: u128, jitter: Option<u128> },
}

/// Tracks when frames are presented.
#[derive(Debug)]
pub struct FrameTimingTracker {
    last_present_time: Option<u64>,
}

impl View for FrameTimingTracker {
    type V = Option<u64>;

    /// When the last frame was presented.
    closed spec fn view(&self) -> Option<u64> {
        self.last_present_time
    }
}

/// Time from `earlier` to `later`; zero where the clock went backwards.
pub open spec fn time_between(earlier: u64, later: u64) -> u128 {
    if later > earlier {
        (later - earlier) as u128
    } else {
        0
    }
}

/// The distance between two durations.
pub open spec fn deviation(a: u128, b: u128) -> u128 {
    if a >= b {
        (a - b) as u128
    } else {
        (b - a) as u128
    }
}

/// The record of a frame that is presented at `now`, the last one at `last`.
pub open spec fn frame_record(last: Option<u64>, now: u64, target_fps: u64) -> FrameRecord {
    match last {
        None => FrameRecord::First,
        Some(last) => {
            let interval = time_between(last, now);
            if interval > MAX_REASONABLE_FRAME_INTERVAL {
                FrameRecord::Outlier { interval }
            } else if target_fps == 0 {
                FrameRecord::Interval { interval, jitter: None }
            } else {
                let target = crate::frame_pacing::frame_time(
                    crate::frame_pacing::capped_fps(target_fps as int),
                );
                FrameRecord::Interval { interval, jitter: Some(deviation(interval, target as u128)) }
            }
        },
    }
}

/// Time from `earlier` to `later`; zero where the clock went backwards.
pub fn duration_since(later: u64, earlier: u64) -> (nanos: u128)
    ensures
        nanos == time_between(earlier, later),
{
    if later > earlier {
        (later - earlier) as u128
    } else {
        0
    }
}

impl Default for FrameTimingTracker {
    fn default() -> (tracker: Self)
        ensures
            tracker@ is None,
    {
        FrameTimingTracker::new()
    }
}

impl FrameTimingTracker {
    /// A tracker that has seen no frame.
    pub fn new() -> (tracker: Self)
        ensures
            tracker@ is None,
            forall|later: u64, target_fps: u64| #[trigger]
                frame_record(tracker@, later, target_fps) == FrameRecord::First,
    {
        FrameTimingTracker { last_present_time: None }
    }

    /// Forgets the last frame.  Call this when the window is minimized or
    /// hidden, or when the surface is recreated, so that the pause is not
    /// taken for an interval.
    pub fn reset(&mut self)
        ensures
            final(self)@ is None,
            forall|later: u64, target_fps: u64| #[trigger]
                frame_record(final(self)@, later, target_fps) == FrameRecord::First,
    {
        self.last_present_time = None;
    }

    /// Records that a frame was presented at `now`.  Call this after each
    /// frame.
    pub fn record_frame(&mut self, now: u64, target_fps: u64) -> (record: FrameRecord)
        ensures
            record == frame_record(old(self)@, now, target_fps),
            final(self)@ == Some(now),
            // The next frame is measured from this one.
            forall|later: u64, fps: u64|
                now <= later <= now + MAX_REASONABLE_FRAME_INTERVAL ==> (#[trigger] frame_record(
                    final(self)@,
                    later,
                    fps,
                ) matches FrameRecord::Interval { interval, .. } && interval == later - now),
    {
        let record = match self.last_present_time {
            None => FrameRecord::First,
            Some(last) => {
                let interval: u128 = duration_since(now, last);
                if interval > MAX_REASONABLE_FRAME_INTERVAL {
                    FrameRecord::Outlier { interval }
                } else if target_fps > 0 {
                    let target: u128 = target_frame_time(target_fps);
                    let jitter: u128 = if interval >= target {
                        interval - target
                    } else {
                        target - interval
                    };
                    FrameRecord::Interval { interval, jitter: Some(jitter) }
                } else {
                    FrameRecord::Interval { interval, jitter: None }
                }
            },
        };
        self.last_present_time = Some(now);
        record
    }
}

/// The records of frames presented at `times`, one after the other.
pub open spec fn frame_records(last: Option<u64>, times: Seq<u64>, target_fps: u64) -> Seq<
    FrameRecord,
>
    decreases times.len(),
{
    if times.len() == 0 {
        Seq::empty()
    } else {
        frame_records(last, times.drop_last(), target_fps).push(
            frame_record(
                if times.len() == 1 {
                    last
                } else {
                    Some(times[times.len() - 2])
                },
                times.last(),
                target_fps,
            ),
        )
    }
}

/// The sum of the intervals among `records`.
pub open spec fn recorded_time(records: Seq<FrameRecord>) -> int
    decreases records.len(),
{
    if records.len() == 0 {
        0
    } else {
        recorded_time(records.drop_last()) + match records.last() {
            FrameRecord::Interval { interval, .. } => interval as int,
            _ => 0,
        }
    }
}

/// No recorded interval is longer than `MAX_REASONABLE_FRAME_INTERVAL`, and
/// every outlier is.
pub proof fn law_outliers_are_kept_apart(last: Option<u64>, now: u64, target_fps: u64)
    ensures
        match frame_record(last, now, target_fps) {
            FrameRecord::First => last is None,
            FrameRecord::Outlier { interval } => interval > MAX_REASONABLE_FRAME_INTERVAL,
            FrameRecord::Interval { interval, .. } => interval <= MAX_REASONABLE_FRAME_INTERVAL,
        },
{
}

/// A frame that is recorded after a reset gives no interval, however long ago
/// the last one was, and the frame after that is measured from it.
pub proof fn law_reset_starts_over(tracker: FrameTimingTracker, now: u64, target_fps: u64)
    requires
        tracker@ is None,
    ensures
        frame_record(tracker@, now, target_fps) == FrameRecord::First,
        forall|later: u64|
            now <= later <= now + MAX_REASONABLE_FRAME_INTERVAL ==> (#[trigger] frame_record(
                Some(now),
                later,
                target_fps,
            ) matches FrameRecord::Interval { interval, .. } && interval == later - now),
{
}

/// As long as the clock does not go backwards and no pause is an outlier, the
/// recorded intervals add up to the time between the first and the last
/// frame.
pub proof fn law_intervals_add_up(times: Seq<u64>, target_fps: u64)
    requires
        times.len() > 0,
        forall|i: int, j: int| 0 <= i <= j < times.len() ==> times[i] <= times[j],
        forall|i: int|
            0 < i < times.len() ==> #[trigger] times[i] - times[i - 1]
                <= MAX_REASONABLE_FRAME_INTERVAL,
    ensures
        recorded_time(frame_records(None, times, target_fps)) == times.last() - times[0],
    decreases times.len(),
{
    let records = frame_records(None, times, target_fps);
    let before = times.drop_last();
    assert(records.drop_last() =~= frame_records(None, before, target_fps));
    if times.len() == 1 {
        assert(before.len() == 0);
        assert(recorded_time(records.drop_last()) == 0);
    } else {
        assert forall|i: int| 0 < i < before.len() implies #[trigger] before[i] - before[i - 1]
            <= MAX_REASONABLE_FRAME_INTERVAL by {
            assert(times[i] - times[i - 1] <= MAX_REASONABLE_FRAME_INTERVAL);
        }
        law_intervals_add_up(before, target_fps);
        let k = times.len() - 1;
        assert(times[k] - times[k - 1] <= MAX_REASONABLE_FRAME_INTERVAL);
        assert(times[k - 1] <= times[k]);
    }
}

/// The time between two readings is their difference, wherever on the clock
/// they lie, and no time passes on a clock that goes backwards.
pub proof fn law_time_between_is_the_difference(earlier: u64, later: u64, nanos: int)
    requires
        earlier + nanos == later,
        nanos >= 0,
    ensures
        time_between(earlier, later) == nanos,
        time_between(later, earlier) == 0,
{
}

/// A frame is measured from the one before: the interval is the difference of
/// the two times, and it counts unless it is longer than one second.
pub proof fn law_interval_is_measured_from_the_last_frame(
    last: u64,
    now: u64,
    nanos: int,
    target_fps: u64,
)
    requires
        last + nanos == now,
        nanos >= 0,
    ensures
        match frame_record(Some(last), now, target_fps) {
            FrameRecord::First => false,
            FrameRecord::Outlier { interval } => interval == nanos && nanos > 1_000_000_000,
            FrameRecord::Interval { interval, .. } => interval == nanos && nanos <= 1_000_000_000,
        },
        frame_record(Some(now), last, target_fps) matches FrameRecord::Interval { interval, .. }
            && interval == 0,
{
}

/// An interval that counts has a jitter exactly where there is a target, and
/// the interval and the target interval are the jitter apart.
pub proof fn law_jitter_is_the_distance_from_the_target(
    last: Option<u64>,
    now: u64,
    target_fps: u64,
)
    ensures
        frame_record(last, now, target_fps) matches FrameRecord::Interval { interval, jitter } ==> {
            let target = crate::frame_pacing::frame_time(
                if target_fps > 10_000 {
                    10_000
                } else {
                    target_fps as int
                },
            );
            &&& jitter is Some <==> target_fps > 0
            &&& jitter matches Some(jitter) ==> interval == target + jitter || target == interval
                + jitter
        },
{
    if target_fps > 0 {
        crate::frame_pacing::lemma_frame_time_range(
            crate::frame_pacing::capped_fps(target_fps as int),
        );
    }
}

/// When frames are presented later by the same time each, their records are
/// the same.
pub proof fn law_records_do_not_depend_on_the_origin_of_the_clock(
    last: u64,
    now: u64,
    shift: u64,
    target_fps: u64,
)
    requires
        last + shift <= u64::MAX,
        now + shift <= u64::MAX,
    ensures
        frame_record(Some((last + shift) as u64), (now + shift) as u64, target_fps) == frame_record(
            Some(last),
            now,
            target_fps,
        ),
{
}

} // verus!
