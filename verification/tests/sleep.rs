use termwindow_render::precise_timer::{
    relative_due_time, windows_precise_sleep, HighResTimerSupport, SleepAction, SleepEvent, Sleeper,
};
use termwindow_render::timer_support::{
    get_high_res_support, SupportAction, SupportCache, SupportEvent,
};

fn feed(sleeper: &mut Sleeper, events: &[SleepEvent]) -> Vec<SleepAction> {
    events
        .iter()
        .map(|event| windows_precise_sleep(sleeper, *event).unwrap())
        .collect()
}

#[test]
fn due_time_is_relative_and_in_units_of_100_ns() {
    assert_eq!(relative_due_time(0), 0);
    assert_eq!(relative_due_time(99), 0);
    assert_eq!(relative_due_time(100), -1);
    assert_eq!(relative_due_time(14_666_667), -146_666);
    assert_eq!(relative_due_time(1_000_000_000), -10_000_000);
    assert_eq!(relative_due_time(i64::MAX as u128), -92_233_720_368_547_758);
    assert_eq!(relative_due_time(u128::MAX), -92_233_720_368_547_758);
}

fn ask(cache: &mut SupportCache, events: &[SupportEvent]) -> Vec<SupportAction> {
    events
        .iter()
        .map(|event| get_high_res_support(cache, *event).unwrap())
        .collect()
}

#[test]
fn support_follows_from_the_trial() {
    let mut cache = SupportCache::new();
    assert_eq!(
        ask(
            &mut cache,
            &[SupportEvent::Begin, SupportEvent::Tried(true), SupportEvent::Done]
        ),
        vec![
            SupportAction::TryTimer,
            SupportAction::CloseTimer,
            SupportAction::Return(HighResTimerSupport::Available),
        ]
    );
    let mut cache = SupportCache::new();
    assert_eq!(
        ask(&mut cache, &[SupportEvent::Begin, SupportEvent::Tried(false)]),
        vec![
            SupportAction::TryTimer,
            SupportAction::Return(HighResTimerSupport::NotAvailable),
        ]
    );
}

#[test]
fn support_is_tried_once() {
    for (created, support) in [
        (true, HighResTimerSupport::Available),
        (false, HighResTimerSupport::NotAvailable),
    ] {
        let mut cache = SupportCache::new();
        ask(&mut cache, &[SupportEvent::Begin, SupportEvent::Tried(created)]);
        if created {
            ask(&mut cache, &[SupportEvent::Done]);
        }
        for _ in 0..3 {
            assert_eq!(
                ask(&mut cache, &[SupportEvent::Begin]),
                vec![SupportAction::Return(support)]
            );
            // No trial is under way that could change the answer.
            assert_eq!(get_high_res_support(&mut cache, SupportEvent::Tried(!created)), None);
        }
    }
}

#[test]
fn unexpected_support_event_changes_nothing() {
    let mut cache = SupportCache::new();
    assert_eq!(get_high_res_support(&mut cache, SupportEvent::Done), None);
    assert_eq!(cache, SupportCache::new());
    ask(&mut cache, &[SupportEvent::Begin]);
    assert_eq!(get_high_res_support(&mut cache, SupportEvent::Begin), None);
    assert_eq!(
        ask(&mut cache, &[SupportEvent::Tried(false)]),
        vec![SupportAction::Return(HighResTimerSupport::NotAvailable)]
    );
}

#[test]
fn working_timer_does_the_whole_sleep() {
    let mut sleeper = Sleeper::new();
    let actions = feed(
        &mut sleeper,
        &[
            SleepEvent::Begin { duration: 5_000_000 },
            SleepEvent::Support(HighResTimerSupport::Available),
            SleepEvent::TimerCreated(true),
            SleepEvent::TimerSet(true),
            SleepEvent::Done,
        ],
    );
    assert_eq!(
        actions,
        vec![
            SleepAction::QuerySupport,
            SleepAction::CreateTimer,
            SleepAction::SetTimer { due_time: -50_000 },
            SleepAction::WaitTimer,
            SleepAction::Return,
        ]
    );
    assert!(sleeper.timer_cached());

    // The timer is kept.
    let actions = feed(
        &mut sleeper,
        &[
            SleepEvent::Begin { duration: 1_000_000 },
            SleepEvent::Support(HighResTimerSupport::Available),
            SleepEvent::TimerSet(true),
            SleepEvent::Done,
        ],
    );
    assert_eq!(
        actions,
        vec![
            SleepAction::QuerySupport,
            SleepAction::SetTimer { due_time: -10_000 },
            SleepAction::WaitTimer,
            SleepAction::Return,
        ]
    );
}

#[test]
fn fallback_sleeps_and_spins_until_the_deadline() {
    let mut sleeper = Sleeper::new();
    let actions = feed(
        &mut sleeper,
        &[
            SleepEvent::Begin { duration: 5_000_000 },
            SleepEvent::Support(HighResTimerSupport::NotAvailable),
            SleepEvent::Clock(1_000),
            SleepEvent::Done,
            SleepEvent::Done,
            SleepEvent::Done,
            SleepEvent::Clock(4_000_000),
            SleepEvent::Clock(4_000_100),
            SleepEvent::Clock(4_000_200),
            SleepEvent::Done,
            SleepEvent::Clock(5_001_000),
        ],
    );
    assert_eq!(
        actions,
        vec![
            SleepAction::QuerySupport,
            SleepAction::ReadClock,
            SleepAction::RaiseResolution,
            SleepAction::CoarseSleep { duration: 3_000_000 },
            SleepAction::RestoreResolution,
            SleepAction::ReadClock,
            SleepAction::ReadClock,
            SleepAction::ReadClock,
            SleepAction::Spin,
            SleepAction::ReadClock,
            SleepAction::Return,
        ]
    );
    assert_eq!(sleeper, Sleeper::new());
}

#[test]
fn short_sleep_only_spins() {
    let mut sleeper = Sleeper::new();
    let actions = feed(
        &mut sleeper,
        &[
            SleepEvent::Begin { duration: 2_000_000 },
            SleepEvent::Support(HighResTimerSupport::NotAvailable),
            SleepEvent::Clock(0),
            SleepEvent::Clock(10),
            SleepEvent::Clock(1_999_999),
            SleepEvent::Clock(1_999_999),
        ],
    );
    assert_eq!(actions[2], SleepAction::ReadClock);
    assert_eq!(actions[5], SleepAction::Spin);
}

#[test]
fn spin_is_given_up_after_three_milliseconds() {
    let mut sleeper = Sleeper::new();
    let actions = feed(
        &mut sleeper,
        &[
            SleepEvent::Begin { duration: 100_000_000 },
            SleepEvent::Support(HighResTimerSupport::NotAvailable),
            SleepEvent::Clock(0),
            SleepEvent::Done,
            SleepEvent::Done,
            SleepEvent::Done,
            // The coarse sleep was far too short.
            SleepEvent::Clock(1_000_000),
            SleepEvent::Clock(4_000_000),
            SleepEvent::Clock(4_000_000),
            SleepEvent::Done,
            SleepEvent::Clock(4_000_001),
            SleepEvent::Clock(4_000_001),
        ],
    );
    assert_eq!(actions[3], SleepAction::CoarseSleep { duration: 98_000_000 });
    assert_eq!(actions[8], SleepAction::Spin);
    assert_eq!(actions[11], SleepAction::Return);
}

#[test]
fn timer_failures_fall_back() {
    let mut sleeper = Sleeper::new();
    let actions = feed(
        &mut sleeper,
        &[
            SleepEvent::Begin { duration: 5_000_000 },
            SleepEvent::Support(HighResTimerSupport::Available),
            SleepEvent::TimerCreated(false),
        ],
    );
    assert_eq!(actions[2], SleepAction::ReadClock);
    assert!(!sleeper.timer_cached());

    let mut sleeper = Sleeper::new();
    feed(
        &mut sleeper,
        &[
            SleepEvent::Begin { duration: 5_000_000 },
            SleepEvent::Support(HighResTimerSupport::Available),
            SleepEvent::TimerCreated(true),
            SleepEvent::TimerSet(true),
            SleepEvent::Done,
        ],
    );
    let actions = feed(
        &mut sleeper,
        &[
            SleepEvent::Begin { duration: 5_000_000 },
            SleepEvent::Support(HighResTimerSupport::Available),
            SleepEvent::TimerSet(false),
        ],
    );
    assert_eq!(actions[2], SleepAction::ReadClock);
    assert!(sleeper.timer_cached());
}

#[test]
fn unexpected_sleep_event_changes_nothing() {
    let mut sleeper = Sleeper::new();
    assert_eq!(windows_precise_sleep(&mut sleeper, SleepEvent::Done), None);
    assert_eq!(sleeper, Sleeper::new());
    windows_precise_sleep(&mut sleeper, SleepEvent::Begin { duration: 1 });
    let mut other = Sleeper::new();
    windows_precise_sleep(&mut other, SleepEvent::Begin { duration: 1 });
    assert_eq!(windows_precise_sleep(&mut sleeper, SleepEvent::Begin { duration: 2 }), None);
    assert_eq!(sleeper, other);
}
