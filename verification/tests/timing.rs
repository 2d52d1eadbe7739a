use termwindow_render::frame_timing::{duration_since, FrameRecord, FrameTimingTracker};

const MS: u64 = 1_000_000;

fn interval(record: FrameRecord) -> u128 {
    match record {
        FrameRecord::Interval { interval, .. } => interval,
        _ => 0,
    }
}

#[test]
fn first_frame_has_no_interval() {
    let mut tracker = FrameTimingTracker::new();
    assert_eq!(tracker.record_frame(5 * MS, 60), FrameRecord::First);
    let mut tracker = FrameTimingTracker::default();
    assert_eq!(tracker.record_frame(5 * MS, 60), FrameRecord::First);
}

#[test]
fn interval_and_jitter_at_120_fps() {
    let mut tracker = FrameTimingTracker::new();
    tracker.record_frame(0, 120);
    assert_eq!(
        tracker.record_frame(17_300_000, 120),
        FrameRecord::Interval {
            interval: 17_300_000,
            jitter: Some(8_966_667)
        }
    );
    assert_eq!(
        tracker.record_frame(17_300_000 + 5 * MS, 120),
        FrameRecord::Interval {
            interval: 5_000_000,
            jitter: Some(3_333_333)
        }
    );
    assert_eq!(
        tracker.record_frame(17_300_000 + 5 * MS + 8_333_333, 120),
        FrameRecord::Interval {
            interval: 8_333_333,
            jitter: Some(0)
        }
    );
}

#[test]
fn no_target_no_jitter() {
    let mut tracker = FrameTimingTracker::new();
    tracker.record_frame(0, 0);
    assert_eq!(
        tracker.record_frame(16 * MS, 0),
        FrameRecord::Interval {
            interval: 16_000_000,
            jitter: None
        }
    );
}

#[test]
fn target_is_capped() {
    let mut tracker = FrameTimingTracker::new();
    tracker.record_frame(0, 60);
    assert_eq!(
        tracker.record_frame(MS, 1_000_000),
        FrameRecord::Interval {
            interval: 1_000_000,
            jitter: Some(900_000)
        }
    );
}

#[test]
fn outlier_is_skipped_and_restarts_the_measurement() {
    let mut tracker = FrameTimingTracker::new();
    tracker.record_frame(0, 60);
    assert_eq!(
        tracker.record_frame(1000 * MS, 0),
        FrameRecord::Interval {
            interval: 1_000_000_000,
            jitter: None
        }
    );
    assert_eq!(
        tracker.record_frame(2000 * MS + 1, 60),
        FrameRecord::Outlier {
            interval: 1_000_000_001
        }
    );
    assert_eq!(
        tracker.record_frame(2010 * MS + 1, 0),
        FrameRecord::Interval {
            interval: 10_000_000,
            jitter: None
        }
    );
}

#[test]
fn reset_forgets_the_last_frame() {
    let mut tracker = FrameTimingTracker::new();
    tracker.record_frame(0, 60);
    tracker.reset();
    assert_eq!(tracker.record_frame(16 * MS, 60), FrameRecord::First);
    assert_eq!(interval(tracker.record_frame(20 * MS, 60)), 4_000_000);
}

#[test]
fn clock_that_goes_backwards_gives_zero() {
    let mut tracker = FrameTimingTracker::new();
    tracker.record_frame(10 * MS, 0);
    assert_eq!(
        tracker.record_frame(9 * MS, 0),
        FrameRecord::Interval {
            interval: 0,
            jitter: None
        }
    );
    assert_eq!(duration_since(9, 10), 0);
    assert_eq!(duration_since(10, 9), 1);
}

#[test]
fn intervals_add_up_to_the_elapsed_time() {
    let mut tracker = FrameTimingTracker::new();
    let times = [3 * MS, 17 * MS, 17 * MS, 40 * MS, 900 * MS];
    let mut sum = 0;
    for now in times {
        sum += interval(tracker.record_frame(now, 60));
    }
    assert_eq!(sum, 897_000_000);
}
