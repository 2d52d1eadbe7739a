//! How long to sleep between two frames.

use vstd::prelude::*;

verus! {

/// Nanoseconds in one second.
pub const NANOS_PER_SEC: u128 = 1_000_000_000;

/// Minimum sleep worth attempting: below this the overhead exceeds the benefit.
pub const MIN_SLEEP_THRESHOLD: u128 = 100_000;

/// Safety buffer as a percentage of the frame time.  It gives headroom for
/// timer imprecision and scheduling jitter.
pub const BUFFER_PERCENT: u128 = 12;

/// Minimum safety buffer, for high refresh rates.
pub const MIN_BUFFER: u128 = 500_000;

/// Maximum safety buffer, for low refresh rates.
pub const MAX_BUFFER: u128 = 3_000_000;

/// Longest sleep that is ever attempted.
pub const MAX_SLEEP_DURATION: u128 = 1_000_000_000;

/// Highest frame rate that is told apart: its frame time of a tenth of a
/// millisecond is at the edge of timer precision.
pub const MAX_TARGET_FPS: u64 = 10_000;

/// A target frame rate, capped at `MAX_TARGET_FPS`.
pub open spec fn capped_fps(fps: int) -> int {
    if fps > MAX_TARGET_FPS {
        MAX_TARGET_FPS as int
    } else {
        fps
    }
}

/// One second divided by `fps`, to the nearest nanosecond.
///
/// Two rates up to `MAX_TARGET_FPS` fall halfway between two nanoseconds.  As
/// binary floating point has it, 1/1024 is exact and goes to the even
/// neighbour below, while the number closest to 1/5120 lies above it and goes
/// up.
pub open spec fn frame_time(fps: int) -> int {
    if fps == 1024 {
        976_562
    } else {
        (2 * NANOS_PER_SEC + fps) / (2 * fps)
    }
}

/// The part of a frame that pacing leaves unslept: `BUFFER_PERCENT` of it, to
/// the nearest nanosecond, kept within `MIN_BUFFER` and `MAX_BUFFER`.
pub open spec fn safety_buffer(frame: int) -> int {
    let share = (BUFFER_PERCENT * frame + 50) / 100;
    if share < MIN_BUFFER {
        MIN_BUFFER as int
    } else if share > MAX_BUFFER {
        MAX_BUFFER as int
    } else {
        share
    }
}

/// What is left of the frame after `elapsed` nanoseconds and the safety
/// buffer.  Negative once the frame is late.
pub open spec fn pace_slack(elapsed: int, fps: int) -> int {
    let frame = frame_time(capped_fps(fps));
    frame - elapsed - safety_buffer(frame)
}

/// The sleep that pacing asks for: the slack, where it is worth sleeping for.
/// A target of zero turns pacing off.
pub open spec fn pace_sleep(elapsed: int, fps: int) -> Option<u128> {
    if fps > 0 && pace_slack(elapsed, fps) >= MIN_SLEEP_THRESHOLD {
        Some(pace_slack(elapsed, fps) as u128)
    } else {
        None
    }
}

/// The length of the sleep that is made of a request for `duration`: none
/// where it is too short to bother, and never more than `MAX_SLEEP_DURATION`.
pub open spec fn sleep_length(duration: int) -> Option<u128> {
    if duration < MIN_SLEEP_THRESHOLD {
        None
    } else if duration > MAX_SLEEP_DURATION {
        Some(MAX_SLEEP_DURATION)
    } else {
        Some(duration as u128)
    }
}

/// The time that one frame may take at `target_fps`, which is capped first.
pub fn target_frame_time(target_fps: u64) -> (nanos: u128)
    requires
        target_fps > 0,
    ensures
        nanos == frame_time(capped_fps(target_fps as int)),
        0 < nanos <= NANOS_PER_SEC,
{
    let fps: u128 = if target_fps > MAX_TARGET_FPS {
        MAX_TARGET_FPS as u128
    } else {
        target_fps as u128
    };
    proof {
        lemma_frame_time_range(fps as int);
    }
    if fps == 1024 {
        976_562
    } else {
        (2 * NANOS_PER_SEC + fps) / (2 * fps)
    }
}

/// How long to sleep after a frame so that frames come at `target_fps`, where
/// `elapsed` nanoseconds have passed since the frame started.  `None` means
/// not to sleep.
pub fn pace_frame(elapsed: u128, target_fps: u64) -> (sleep: Option<u128>)
    ensures
        sleep == pace_sleep(elapsed as int, target_fps as int),
{
    if target_fps == 0 {
        return None;
    }
    let frame: u128 = target_frame_time(target_fps);
    let share: u128 = (BUFFER_PERCENT * frame + 50) / 100;
    let buffer: u128 = if share < MIN_BUFFER {
        MIN_BUFFER
    } else if share > MAX_BUFFER {
        MAX_BUFFER
    } else {
        share
    };
    if elapsed >= frame {
        // Already past the deadline.
        return None;
    }
    let remaining: u128 = frame - elapsed;
    let sleep: u128 = if remaining > buffer {
        remaining - buffer
    } else {
        0
    };
    if sleep >= MIN_SLEEP_THRESHOLD {
        Some(sleep)
    } else {
        None
    }
}

/// How long to really sleep for a request of `duration` nanoseconds.  `None`
/// means to return at once.
pub fn precise_sleep(duration: u128) -> (sleep: Option<u128>)
    ensures
        sleep == sleep_length(duration as int),
{
    if duration < MIN_SLEEP_THRESHOLD {
        None
    } else if duration > MAX_SLEEP_DURATION {
        Some(MAX_SLEEP_DURATION)
    } else {
        Some(duration)
    }
}

pub(crate) proof fn lemma_frame_time_range(fps: int)
    requires
        0 < fps <= MAX_TARGET_FPS,
    ensures
        0 < frame_time(fps) <= NANOS_PER_SEC,
{
    law_faster_target_has_shorter_frame(fps, 10_000);
    law_faster_target_has_shorter_frame(1, fps);
    assert((2 * NANOS_PER_SEC + 10_000) / 20_000 == 100_000);
    assert((2 * NANOS_PER_SEC + 1) / 2 == NANOS_PER_SEC);
}

/// The frame time is a nearest integer to one second over the frame rate.
pub proof fn law_frame_time_is_nearest(fps: int)
    requires
        0 < fps <= MAX_TARGET_FPS,
    ensures
        -fps <= 2 * (frame_time(fps) * fps - NANOS_PER_SEC) <= fps,
{
    let q = (2 * NANOS_PER_SEC + fps) / (2 * fps);
    let r = (2 * NANOS_PER_SEC + fps) % (2 * fps);
    assert(2 * NANOS_PER_SEC + fps == (2 * fps) * q + r && 0 <= r < 2 * fps) by {
        vstd::arithmetic::div_mod::lemma_fundamental_div_mod(2 * NANOS_PER_SEC + fps, 2 * fps);
    }
    assert((2 * fps) * q == 2 * (q * fps)) by (nonlinear_arith);
}

/// A higher frame rate never has a longer frame.
pub proof fn law_faster_target_has_shorter_frame(slow: int, fast: int)
    requires
        0 < slow <= fast <= MAX_TARGET_FPS,
    ensures
        frame_time(fast) <= frame_time(slow),
{
    lemma_rounded_quotient_is_antitone(slow, fast);
    assert((2 * NANOS_PER_SEC + 1024) / 2048 == 976_563);
    if slow == 1024 && fast > slow {
        lemma_rounded_quotient_is_antitone(1025, fast);
        assert((2 * NANOS_PER_SEC + 1025) / 2050 == 975_610);
    }
}

proof fn lemma_rounded_quotient_is_antitone(a: int, b: int)
    requires
        0 < a <= b <= MAX_TARGET_FPS,
    ensures
        (2 * NANOS_PER_SEC + b) / (2 * b) <= (2 * NANOS_PER_SEC + a) / (2 * a),
{
    let q = (2 * NANOS_PER_SEC + b) / (2 * b);
    assert((2 * b) * q <= 2 * NANOS_PER_SEC + b) by {
        vstd::arithmetic::div_mod::lemma_fundamental_div_mod(2 * NANOS_PER_SEC + b, 2 * b);
    }
    assert(q >= 1) by (nonlinear_arith)
        requires
            q == (2 * NANOS_PER_SEC + b) / (2 * b),
            0 < b <= MAX_TARGET_FPS,
    ;
    assert(q * (2 * a) <= 2 * NANOS_PER_SEC + a) by (nonlinear_arith)
        requires
            0 < a <= b,
            q >= 1,
            (2 * b) * q <= 2 * NANOS_PER_SEC + b,
    ;
    assert(q <= (2 * NANOS_PER_SEC + a) / (2 * a)) by (nonlinear_arith)
        requires
            a > 0,
            q * (2 * a) <= 2 * NANOS_PER_SEC + a,
    ;
}

/// Pacing wakes up before the frame is over, at least `MIN_BUFFER` early.
pub proof fn law_pacing_never_misses_the_deadline(elapsed: int, fps: int)
    requires
        elapsed >= 0,
    ensures
        pace_sleep(elapsed, fps) matches Some(sleep) ==> elapsed + sleep + MIN_BUFFER
            <= frame_time(capped_fps(fps)),
{
    if fps > 0 {
        lemma_frame_time_range(capped_fps(fps));
    }
}

/// Pacing keeps frames from coming faster than the target, but for the safety
/// buffer and for what is too short to sleep.
pub proof fn law_pacing_holds_frames_back(elapsed: int, fps: int)
    requires
        elapsed >= 0,
        fps > 0,
    ensures
        ({
            let frame = frame_time(capped_fps(fps));
            let slept = match pace_sleep(elapsed, fps) {
                Some(sleep) => sleep as int,
                None => 0,
            };
            frame < elapsed + slept + safety_buffer(frame) + MIN_SLEEP_THRESHOLD
        }),
{
    lemma_frame_time_range(capped_fps(fps));
}

/// A frame that has run past its deadline is never followed by a sleep.
pub proof fn law_late_frame_is_not_paced(elapsed: int, fps: int)
    requires
        elapsed >= frame_time(capped_fps(fps)),
    ensures
        pace_sleep(elapsed, fps) is None,
{
}

/// A sleep is never longer than was asked for, nor than `MAX_SLEEP_DURATION`,
/// and never too short to bother with.
pub proof fn law_sleep_is_bounded(duration: int)
    requires
        duration >= 0,
    ensures
        sleep_length(duration) matches Some(sleep) ==> sleep <= duration && MIN_SLEEP_THRESHOLD
            <= sleep <= MAX_SLEEP_DURATION,
{
}

/// Pacing asks for a sleep exactly where the slack is long enough to be slept,
/// and what it asks for is slept in full: it is neither too short to bother
/// with nor cut at `MAX_SLEEP_DURATION`.
pub proof fn law_pacing_sleep_is_slept_in_full(elapsed: int, fps: int)
    requires
        elapsed >= 0,
    ensures
        fps > 0 ==> pace_sleep(elapsed, fps) == sleep_length(pace_slack(elapsed, fps)),
        pace_sleep(elapsed, fps) matches Some(sleep) ==> sleep_length(sleep as int) == Some(sleep),
{
    if fps > 0 {
        lemma_frame_time_range(capped_fps(fps));
    }
}

/// Within one frame, starting to pace later makes the sleep shorter by just
/// as much.
pub proof fn law_later_start_sleeps_less(early: int, late: int, fps: int)
    requires
        0 <= early <= late,
    ensures
        pace_sleep(late, fps) matches Some(short) ==> (pace_sleep(early, fps) matches Some(long)
            && long == short + (late - early)),
{
    if fps > 0 {
        lemma_frame_time_range(capped_fps(fps));
    }
}

/// A higher frame rate never sleeps longer.
pub proof fn law_faster_target_sleeps_no_longer(elapsed: int, slow: int, fast: int)
    requires
        elapsed >= 0,
        0 < slow <= fast,
    ensures
        pace_sleep(elapsed, fast) matches Some(short) ==> (pace_sleep(elapsed, slow) matches Some(
            long,
        ) && short <= long),
{
    lemma_frame_time_range(capped_fps(slow));
    lemma_frame_time_range(capped_fps(fast));
    law_faster_target_has_shorter_frame(capped_fps(slow), capped_fps(fast));
}

/// From 1667 frames per second on, the safety buffer leaves too little to
/// sleep.
pub proof fn law_very_fast_target_is_not_paced(elapsed: int, fps: int)
    requires
        elapsed >= 0,
        fps >= 1667,
    ensures
        pace_sleep(elapsed, fps) is None,
{
    law_faster_target_has_shorter_frame(1667, capped_fps(fps));
    assert((2 * NANOS_PER_SEC + 1667) / 3334 == 599_880);
}

/// Rates up to ten thousand frames per second are told apart, and all higher
/// ones are paced like that one.
pub proof fn law_rates_are_capped(fps: int)
    ensures
        fps <= 10_000 ==> capped_fps(fps) == fps,
        fps >= 10_000 ==> capped_fps(fps) == 10_000,
{
}

/// The safety buffer lies between half a millisecond and three milliseconds.
/// In between it is twelve percent of the frame, and at either end as close to
/// that as it may be.
pub proof fn law_safety_buffer_is_twelve_percent(frame: int)
    requires
        frame >= 0,
    ensures
        500_000 <= safety_buffer(frame) <= 3_000_000,
        safety_buffer(frame) > 500_000 ==> 100 * safety_buffer(frame) <= 12 * frame + 50,
        safety_buffer(frame) < 3_000_000 ==> 100 * safety_buffer(frame) + 50 > 12 * frame,
{
}

/// What has passed of a frame, what is slept and the safety buffer make up the
/// frame.  Where there is no sleep, less than a tenth of a millisecond would
/// have been left for one.
pub proof fn law_elapsed_sleep_and_buffer_make_up_the_frame(elapsed: int, fps: int)
    requires
        elapsed >= 0,
    ensures
        ({
            let frame = frame_time(
                if fps > 10_000 {
                    10_000
                } else {
                    fps
                },
            );
            match pace_sleep(elapsed, fps) {
                Some(sleep) => {
                    &&& fps > 0
                    &&& elapsed + sleep + safety_buffer(frame) == frame
                    &&& sleep >= 100_000
                },
                None => fps > 0 ==> elapsed + 100_000 + safety_buffer(frame) > frame,
            }
        }),
{
    if fps > 0 {
        lemma_frame_time_range(capped_fps(fps));
    }
}

/// A sleep of a tenth of a millisecond up to one second is slept as it was
/// asked for.  What is shorter is not slept at all, and what is longer is slept
/// for one second.
pub proof fn law_sleep_is_what_was_asked_for(duration: int)
    requires
        duration >= 0,
    ensures
        duration < 100_000 <==> sleep_length(duration) is None,
        sleep_length(duration) matches Some(sleep) ==> {
            &&& duration <= 1_000_000_000 ==> sleep == duration
            &&& duration > 1_000_000_000 ==> sleep == 1_000_000_000
        },
{
}

} // verus!
