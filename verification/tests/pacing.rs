use std::time::Duration;
use termwindow_render::frame_pacing::{pace_frame, precise_sleep, target_frame_time};

/// Pacing computed in floating point.
fn float_pace(elapsed: Duration, target_fps: u64) -> Option<Duration> {
    if target_fps == 0 {
        return None;
    }
    let target = Duration::from_secs_f64(1.0 / target_fps.min(10000) as f64);
    if elapsed >= target {
        return None;
    }
    let buffer = Duration::from_secs_f64(target.as_secs_f64() * 0.12)
        .clamp(Duration::from_micros(500), Duration::from_millis(3));
    let sleep = (target - elapsed).saturating_sub(buffer);
    if sleep >= Duration::from_micros(100) {
        Some(sleep)
    } else {
        None
    }
}

#[test]
fn frame_time_agrees_with_floating_point() {
    for fps in 1u64..=10_000 {
        let expected = Duration::from_secs_f64(1.0 / fps as f64).as_nanos();
        assert_eq!(target_frame_time(fps), expected, "at {} fps", fps);
    }
}

#[test]
fn frame_time_of_common_rates() {
    assert_eq!(target_frame_time(1), 1_000_000_000);
    assert_eq!(target_frame_time(30), 33_333_333);
    assert_eq!(target_frame_time(60), 16_666_667);
    assert_eq!(target_frame_time(120), 8_333_333);
    assert_eq!(target_frame_time(144), 6_944_444);
    assert_eq!(target_frame_time(240), 4_166_667);
    assert_eq!(target_frame_time(10_000), 100_000);
}

#[test]
fn frame_time_of_halfway_rates() {
    assert_eq!(target_frame_time(1024), 976_562);
    assert_eq!(target_frame_time(5120), 195_313);
}

#[test]
fn frame_time_is_capped() {
    assert_eq!(target_frame_time(10_001), 100_000);
    assert_eq!(target_frame_time(u64::MAX), 100_000);
}

#[test]
fn pacing_agrees_with_floating_point() {
    for fps in 0u64..=2_000 {
        for percent in [0u128, 1, 10, 37, 50, 80, 86, 87, 88, 89, 99, 100, 150] {
            let frame = if fps == 0 { 1_000_000 } else { target_frame_time(fps) };
            for offset in [0u128, 1, 7] {
                let elapsed = frame * percent / 100 + offset;
                let expected = float_pace(Duration::from_nanos(elapsed as u64), fps);
                assert_eq!(
                    pace_frame(elapsed, fps),
                    expected.map(|d| d.as_nanos()),
                    "{} ns at {} fps",
                    elapsed,
                    fps
                );
            }
        }
    }
}

#[test]
fn pacing_at_sixty_frames_per_second() {
    // 12 % of 16,666,667 ns is 2,000,000 ns.
    assert_eq!(pace_frame(0, 60), Some(14_666_667));
    assert_eq!(pace_frame(4_666_667, 60), Some(10_000_000));
    assert_eq!(pace_frame(14_566_666, 60), Some(100_001));
    assert_eq!(pace_frame(14_566_667, 60), Some(100_000));
    assert_eq!(pace_frame(14_566_668, 60), None);
    assert_eq!(pace_frame(16_666_667, 60), None);
    assert_eq!(pace_frame(u128::MAX, 60), None);
}

#[test]
fn buffer_is_bounded() {
    // 12 % of a second is more than the largest buffer.
    assert_eq!(pace_frame(0, 1), Some(997_000_000));
    // 12 % of 1 ms is less than the smallest buffer.
    assert_eq!(pace_frame(0, 1000), Some(500_000));
}

#[test]
fn shortest_sleep_is_still_slept() {
    // 1 ms less 400 us less the buffer of 500 us is just the threshold.
    assert_eq!(pace_frame(400_000, 1000), Some(100_000));
    assert_eq!(pace_frame(400_001, 1000), None);
}

#[test]
fn no_target_means_no_pacing() {
    assert_eq!(pace_frame(0, 0), None);
    assert_eq!(pace_frame(1_000_000, 0), None);
}

#[test]
fn pacing_stops_at_very_high_rates() {
    assert_eq!(pace_frame(0, 1666), Some(100_240));
    assert_eq!(pace_frame(0, 1667), None);
    assert_eq!(pace_frame(0, u64::MAX), None);
}

#[test]
fn pacing_leaves_the_smallest_buffer_before_the_deadline() {
    for fps in [1u64, 24, 30, 60, 75, 120, 144, 165, 240, 360, 1000] {
        for elapsed in [0u128, 1_000, 1_000_000, 2_500_000] {
            if let Some(sleep) = pace_frame(elapsed, fps) {
                assert!(elapsed + sleep + 500_000 <= target_frame_time(fps));
                assert_eq!(precise_sleep(sleep), Some(sleep));
            }
        }
    }
}

#[test]
fn later_and_faster_sleeps_less() {
    assert_eq!(pace_frame(1_000_000, 60), Some(13_666_667));
    assert_eq!(pace_frame(1_000_000, 120), Some(6_333_333));
    assert_eq!(pace_frame(2_000_000, 120), Some(5_333_333));
}

#[test]
fn precise_sleep_skips_and_caps() {
    assert_eq!(precise_sleep(0), None);
    assert_eq!(precise_sleep(99_999), None);
    assert_eq!(precise_sleep(100_000), Some(100_000));
    assert_eq!(precise_sleep(1_000_000_000), Some(1_000_000_000));
    assert_eq!(precise_sleep(1_000_000_001), Some(1_000_000_000));
    assert_eq!(precise_sleep(u128::MAX), Some(1_000_000_000));
}

#[test]
fn pacing_holds_frames_back() {
    // At 60 frames per second the buffer is 2 ms.
    for elapsed in [0u128, 5_000_000, 14_500_000, 14_566_667, 16_000_000, 20_000_000] {
        let slept = pace_frame(elapsed, 60).unwrap_or(0);
        assert!(elapsed + slept + 2_000_000 + 100_000 > 16_666_667);
    }
}
