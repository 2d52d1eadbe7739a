//! Precise sleeping on Windows.
//!
//! The best way to sleep is a high-resolution waitable timer, which has no
//! effect on the rest of the system.  Where the system has none, or the timer
//! fails, a coarse sleep with the system timer resolution raised is followed
//! by a bounded spin.

use crate::frame_timing::duration_since;
use vstd::prelude::*;

verus! {

/// The tail of a sleep that is spun rather than slept.
pub const SPIN_THRESHOLD: u128 = 2_000_000;

/// Longest time to spin, so that a fault cannot burn the processor.
pub const MAX_SPIN_TIME: u128 = 3_000_000;

/// The longest duration there is: `u64::MAX` seconds and 999,999,999
/// nanoseconds.
pub const MAX_DURATION: u128 = 18_446_744_073_709_551_615_999_999_999;

/// Whether the system has high-resolution waitable timers.
#[derive(Debug, Clone, Copy, PartialEq, Eq, Structural)]
pub enum HighResTimerSupport {
    Available,
    NotAvailable,
}

/// What to do next in order to sleep.
#[derive(Debug, Clone, Copy, PartialEq, Eq, Structural)]
pub enum SleepAction {
    /// Find out whether there are high-resolution timers.
    QuerySupport,
    /// Create a high-resolution timer and keep it for this thread.
    CreateTimer,
    /// Set the timer of this thread to a due time in units of 100
    /// nanoseconds, where negative means relative.
    SetTimer { due_time: i64 },
    /// Wait for the timer of this thread.
    WaitTimer,
    /// Read the clock.
    ReadClock,
    /// Raise the timer resolution of the system.
    RaiseResolution,
    /// Sleep as precisely as the system does with its timer resolution raised.
    CoarseSleep { duration: u128 },
    /// Take back `RaiseResolution`.
    RestoreResolution,
    /// Execute one spin-loop hint.
    Spin,
    /// The sleep is over.
    Return,
}

/// What came of a `SleepAction`, or the request to sleep.
#[derive(Debug, Clone, Copy, PartialEq, Eq, Structural)]
pub enum SleepEvent {
    /// A sleep of `duration` is asked for.
    Begin { duration: u128 },
    /// The answer to `QuerySupport`.
    Support(HighResTimerSupport),
    /// Whether `CreateTimer` gave a timer.
    TimerCreated(bool),
    /// Whether `SetTimer` succeeded.
    TimerSet(bool),
    /// The answer to `ReadClock`.
    Clock(u64),
    /// `WaitTimer`, `RaiseResolution`, `CoarseSleep`, `RestoreResolution` or
    /// `Spin` is over.
    Done,
}

/// Where a sleep stands: the action that is under way.
#[derive(Debug, Clone, Copy, PartialEq, Eq, Structural)]
pub enum SleepPhase {
    /// No sleep is under way.
    Idle,
    QueryingSupport { duration: u128 },
    CreatingTimer { duration: u128 },
    SettingTimer { duration: u128 },
    WaitingTimer,
    /// Reading the clock that the deadline counts from.
    StartingFallback { duration: u128 },
    RaisingResolution { deadline: u128, duration: u128 },
    CoarseSleeping { deadline: u128 },
    RestoringResolution { deadline: u128 },
    /// Reading the clock that the spin time counts from.
    StartingSpin { deadline: u128 },
    /// Reading the clock to see whether the deadline has come.
    CheckingDeadline { deadline: u128, spin_start: u64 },
    /// Reading the clock to see whether the spin has lasted too long.
    CheckingSpinTime { deadline: u128, spin_start: u64 },
    Spinning { deadline: u128, spin_start: u64 },
}

/// How a thread sleeps, and what it keeps from one sleep to the next.
#[derive(Debug, Clone, Copy, PartialEq, Eq, Structural)]
pub struct SleepState {
    /// Whether this thread keeps a high-resolution timer.
    pub timer_cached: bool,
    pub phase: SleepPhase,
}

/// The sleeper of one thread.
#[derive(Debug, PartialEq, Eq)]
pub struct Sleeper {
    state: SleepState,
}

impl View for Sleeper {
    type V = SleepState;

    closed spec fn view(&self) -> SleepState {
        self.state
    }
}

impl SleepPhase {
    /// A duration that is carried along is one that there can be, and there is
    /// a coarse sleep only where the duration is longer than the spin
    /// threshold.
    pub open spec fn wf(self) -> bool {
        match self {
            SleepPhase::QueryingSupport { duration } => duration <= MAX_DURATION,
            SleepPhase::CreatingTimer { duration } => duration <= MAX_DURATION,
            SleepPhase::SettingTimer { duration } => duration <= MAX_DURATION,
            SleepPhase::StartingFallback { duration } => duration <= MAX_DURATION,
            SleepPhase::RaisingResolution { duration, .. } => SPIN_THRESHOLD < duration
                <= MAX_DURATION,
            _ => true,
        }
    }
}

impl SleepEvent {
    pub open spec fn wf(self) -> bool {
        self matches SleepEvent::Begin { duration } ==> duration <= MAX_DURATION
    }
}

/// A relative due time for a waitable timer: minus the duration, cut at
/// `i64::MAX` nanoseconds, in whole units of 100 nanoseconds.
pub open spec fn due_time_spec(duration: int) -> int {
    -(if duration > i64::MAX {
        i64::MAX as int
    } else {
        duration
    } / 100)
}

/// The next phase and the action to perform, or `None` where the phase does
/// not wait for the event.
pub open spec fn sleep_next(state: SleepState, event: SleepEvent) -> Option<
    (SleepState, SleepAction),
> {
    let go = |phase: SleepPhase, action: SleepAction|
        Some((SleepState { timer_cached: state.timer_cached, phase }, action));
    match (state.phase, event) {
        (SleepPhase::Idle, SleepEvent::Begin { duration }) => go(
            SleepPhase::QueryingSupport { duration },
            SleepAction::QuerySupport,
        ),
        (SleepPhase::QueryingSupport { duration }, SleepEvent::Support(support)) => if support
            == HighResTimerSupport::NotAvailable {
            go(SleepPhase::StartingFallback { duration }, SleepAction::ReadClock)
        } else if state.timer_cached {
            go(
                SleepPhase::SettingTimer { duration },
                SleepAction::SetTimer { due_time: due_time_spec(duration as int) as i64 },
            )
        } else {
            go(SleepPhase::CreatingTimer { duration }, SleepAction::CreateTimer)
        },
        (SleepPhase::CreatingTimer { duration }, SleepEvent::TimerCreated(created)) => if created {
            Some(
                (
                    SleepState { timer_cached: true, phase: SleepPhase::SettingTimer { duration } },
                    SleepAction::SetTimer { due_time: due_time_spec(duration as int) as i64 },
                ),
            )
        } else {
            go(SleepPhase::StartingFallback { duration }, SleepAction::ReadClock)
        },
        (SleepPhase::SettingTimer { duration }, SleepEvent::TimerSet(set)) => if set {
            go(SleepPhase::WaitingTimer, SleepAction::WaitTimer)
        } else {
            go(SleepPhase::StartingFallback { duration }, SleepAction::ReadClock)
        },
        (SleepPhase::WaitingTimer, SleepEvent::Done) => go(SleepPhase::Idle, SleepAction::Return),
        (SleepPhase::StartingFallback { duration }, SleepEvent::Clock(now)) => {
            let deadline = (now + duration) as u128;
            if duration > SPIN_THRESHOLD {
                go(
                    SleepPhase::RaisingResolution { deadline, duration },
                    SleepAction::RaiseResolution,
                )
            } else {
                go(SleepPhase::StartingSpin { deadline }, SleepAction::ReadClock)
            }
        },
        (SleepPhase::RaisingResolution { deadline, duration }, SleepEvent::Done) => go(
            SleepPhase::CoarseSleeping { deadline },
            SleepAction::CoarseSleep { duration: (duration - SPIN_THRESHOLD) as u128 },
        ),
        (SleepPhase::CoarseSleeping { deadline }, SleepEvent::Done) => go(
            SleepPhase::RestoringResolution { deadline },
            SleepAction::RestoreResolution,
        ),
        (SleepPhase::RestoringResolution { deadline }, SleepEvent::Done) => go(
            SleepPhase::StartingSpin { deadline },
            SleepAction::ReadClock,
        ),
        (SleepPhase::StartingSpin { deadline }, SleepEvent::Clock(spin_start)) => go(
            SleepPhase::CheckingDeadline { deadline, spin_start },
            SleepAction::ReadClock,
        ),
        (SleepPhase::CheckingDeadline { deadline, spin_start }, SleepEvent::Clock(now)) => if now
            < deadline {
            go(SleepPhase::CheckingSpinTime { deadline, spin_start }, SleepAction::ReadClock)
        } else {
            go(SleepPhase::Idle, SleepAction::Return)
        },
        (SleepPhase::CheckingSpinTime { deadline, spin_start }, SleepEvent::Clock(now)) =>
        if crate::frame_timing::time_between(spin_start, now) > MAX_SPIN_TIME {
            go(SleepPhase::Idle, SleepAction::Return)
        } else {
            go(SleepPhase::Spinning { deadline, spin_start }, SleepAction::Spin)
        },
        (SleepPhase::Spinning { deadline, spin_start }, SleepEvent::Done) => go(
            SleepPhase::CheckingDeadline { deadline, spin_start },
            SleepAction::ReadClock,
        ),
        _ => None,
    }
}

/// The due time to set a waitable timer to in order to sleep for `duration`.
pub fn relative_due_time(duration: u128) -> (due_time: i64)
    ensures
        due_time == due_time_spec(duration as int),
        -92_233_720_368_547_758 <= due_time <= 0,
{
    let limit: u128 = i64::MAX as u128;
    let nanos: u128 = if duration > limit {
        limit
    } else {
        duration
    };
    let units: u128 = nanos / 100;
    -(units as i64)
}

impl Sleeper {
    #[verifier::type_invariant]
    closed spec fn inv(self) -> bool {
        self.state.phase.wf()
    }

    /// A thread that has not slept yet.
    pub fn new() -> (sleeper: Self)
        ensures
            sleeper@ == (SleepState { timer_cached: false, phase: SleepPhase::Idle }),
    {
        Sleeper { state: SleepState { timer_cached: false, phase: SleepPhase::Idle } }
    }

    /// Whether this thread keeps a high-resolution timer.
    pub fn timer_cached(&self) -> (cached: bool)
        ensures
            cached == self@.timer_cached,
    {
        self.state.timer_cached
    }
}

impl SleepState {
    fn go(&mut self, phase: SleepPhase, action: SleepAction) -> (result: Option<SleepAction>)
        ensures
            final(self).timer_cached == old(self).timer_cached,
            final(self).phase == phase,
            result == Some(action),
    {
        self.phase = phase;
        Some(action)
    }

    fn step(&mut self, event: SleepEvent) -> (action: Option<SleepAction>)
        requires
            old(self).phase.wf(),
            event.wf(),
        ensures
            final(self).phase.wf(),
            match sleep_next(*old(self), event) {
                Some((next, act)) => *final(self) == next && action == Some(act),
                None => *final(self) == *old(self) && action is None,
            },
    {
        match (self.phase, event) {
            (SleepPhase::Idle, SleepEvent::Begin { duration }) => {
                self.go(SleepPhase::QueryingSupport { duration }, SleepAction::QuerySupport)
            },
            (SleepPhase::QueryingSupport { duration }, SleepEvent::Support(support)) => {
                match support {
                    HighResTimerSupport::NotAvailable => self.go(
                        SleepPhase::StartingFallback { duration },
                        SleepAction::ReadClock,
                    ),
                    HighResTimerSupport::Available => if self.timer_cached {
                        let due_time: i64 = relative_due_time(duration);
                        self.go(
                            SleepPhase::SettingTimer { duration },
                            SleepAction::SetTimer { due_time },
                        )
                    } else {
                        // The timer of this thread is created on first use.
                        self.go(SleepPhase::CreatingTimer { duration }, SleepAction::CreateTimer)
                    },
                }
            },
            (SleepPhase::CreatingTimer { duration }, SleepEvent::TimerCreated(created)) => {
                if created {
                    self.timer_cached = true;
                    let due_time: i64 = relative_due_time(duration);
                    self.go(
                        SleepPhase::SettingTimer { duration },
                        SleepAction::SetTimer { due_time },
                    )
                } else {
                    self.go(SleepPhase::StartingFallback { duration }, SleepAction::ReadClock)
                }
            },
            (SleepPhase::SettingTimer { duration }, SleepEvent::TimerSet(set)) => {
                if set {
                    self.go(SleepPhase::WaitingTimer, SleepAction::WaitTimer)
                } else {
                    self.go(SleepPhase::StartingFallback { duration }, SleepAction::ReadClock)
                }
            },
            (SleepPhase::WaitingTimer, SleepEvent::Done) => {
                self.go(SleepPhase::Idle, SleepAction::Return)
            },
            (SleepPhase::StartingFallback { duration }, SleepEvent::Clock(now)) => {
                let deadline: u128 = now as u128 + duration;
                if duration > SPIN_THRESHOLD {
                    self.go(
                        SleepPhase::RaisingResolution { deadline, duration },
                        SleepAction::RaiseResolution,
                    )
                } else {
                    self.go(SleepPhase::StartingSpin { deadline }, SleepAction::ReadClock)
                }
            },
            (SleepPhase::RaisingResolution { deadline, duration }, SleepEvent::Done) => {
                self.go(
                    SleepPhase::CoarseSleeping { deadline },
                    SleepAction::CoarseSleep { duration: duration - SPIN_THRESHOLD },
                )
            },
            (SleepPhase::CoarseSleeping { deadline }, SleepEvent::Done) => {
                // The resolution is raised only while it is needed.
                self.go(
                    SleepPhase::RestoringResolution { deadline },
                    SleepAction::RestoreResolution,
                )
            },
            (SleepPhase::RestoringResolution { deadline }, SleepEvent::Done) => {
                self.go(SleepPhase::StartingSpin { deadline }, SleepAction::ReadClock)
            },
            (SleepPhase::StartingSpin { deadline }, SleepEvent::Clock(spin_start)) => {
                self.go(
                    SleepPhase::CheckingDeadline { deadline, spin_start },
                    SleepAction::ReadClock,
                )
            },
            (SleepPhase::CheckingDeadline { deadline, spin_start }, SleepEvent::Clock(now)) => {
                if (now as u128) < deadline {
                    self.go(
                        SleepPhase::CheckingSpinTime { deadline, spin_start },
                        SleepAction::ReadClock,
                    )
                } else {
                    self.go(SleepPhase::Idle, SleepAction::Return)
                }
            },
            (SleepPhase::CheckingSpinTime { deadline, spin_start }, SleepEvent::Clock(now)) => {
                if duration_since(now, spin_start) > MAX_SPIN_TIME {
                    // Something is wrong: do not burn the processor for ever.
                    self.go(SleepPhase::Idle, SleepAction::Return)
                } else {
                    self.go(SleepPhase::Spinning { deadline, spin_start }, SleepAction::Spin)
                }
            },
            (SleepPhase::Spinning { deadline, spin_start }, SleepEvent::Done) => {
                self.go(
                    SleepPhase::CheckingDeadline { deadline, spin_start },
                    SleepAction::ReadClock,
                )
            },
            _ => None,
        }
    }
}

/// Takes the next step of a sleep.  `None`, with nothing changed, means that
/// the event is not one that the sleep waits for.
pub fn windows_precise_sleep(sleeper: &mut Sleeper, event: SleepEvent) -> (action: Option<
    SleepAction,
>)
    requires
        event.wf(),
    ensures
        match sleep_next(old(sleeper)@, event) {
            Some((next, act)) => final(sleeper)@ == next && action == Some(act),
            None => final(sleeper)@ == old(sleeper)@ && action is None,
        },
{
    proof {
        use_type_invariant(&*sleeper);
    }
    let mut state = sleeper.state;
    let action = state.step(event);
    sleeper.state = state;
    action
}

/// The steps of a sleep, for runs.
pub open spec fn sleep_steps() -> spec_fn(SleepState, SleepEvent) -> Option<
    (SleepState, SleepAction),
> {
    |state: SleepState, event: SleepEvent| sleep_next(state, event)
}

/// The clock readings among `events`.
pub open spec fn clock_readings(events: Seq<SleepEvent>) -> Seq<u64>
    decreases events.len(),
{
    if events.len() == 0 {
        Seq::empty()
    } else {
        let before = clock_readings(events.drop_last());
        match events.last() {
            SleepEvent::Clock(now) => before.push(now),
            _ => before,
        }
    }
}

/// The events of one sleep: a request, and then what came of each action.
pub open spec fn one_sleep(events: Seq<SleepEvent>, duration: u128) -> bool {
    &&& events.len() > 0
    &&& events[0] == SleepEvent::Begin { duration }
    &&& forall|i: int| 0 < i < events.len() ==> !(#[trigger] events[i] is Begin)
}

/// Where the time of a sleep is up: by the clock, at `duration` after its
/// first reading, or, as a spin counts from the second reading, when that has
/// lasted for more than `MAX_SPIN_TIME`.
pub open spec fn time_is_up(events: Seq<SleepEvent>, duration: u128) -> bool {
    let clock = clock_readings(events);
    &&& clock.len() > 2
    &&& events.last() == SleepEvent::Clock(clock.last())
    &&& {
        ||| clock.last() >= clock[0] + duration
        ||| crate::frame_timing::time_between(clock[1], clock.last()) > MAX_SPIN_TIME
    }
}

/// What holds all through a sleep.
spec fn sleep_invariant(
    state: SleepState,
    events: Seq<SleepEvent>,
    actions: Seq<SleepAction>,
    duration: u128,
) -> bool {
    let clock = clock_readings(events);
    match state.phase {
        SleepPhase::Idle => {
            &&& actions.last() == SleepAction::Return
            &&& {
                ||| actions.len() >= 2 && actions[actions.len() - 2] == SleepAction::WaitTimer
                ||| time_is_up(events, duration)
            }
        },
        SleepPhase::QueryingSupport { duration: d } => d == duration && clock.len() == 0,
        SleepPhase::CreatingTimer { duration: d } => d == duration && clock.len() == 0,
        SleepPhase::SettingTimer { duration: d } => d == duration && clock.len() == 0,
        SleepPhase::WaitingTimer => actions.last() == SleepAction::WaitTimer,
        SleepPhase::StartingFallback { duration: d } => d == duration && clock.len() == 0,
        SleepPhase::RaisingResolution { deadline, duration: d } => d == duration && clock.len()
            == 1 && deadline == clock[0] + duration,
        SleepPhase::CoarseSleeping { deadline } => clock.len() == 1 && deadline == clock[0]
            + duration,
        SleepPhase::RestoringResolution { deadline } => clock.len() == 1 && deadline == clock[0]
            + duration,
        SleepPhase::StartingSpin { deadline } => clock.len() == 1 && deadline == clock[0]
            + duration,
        SleepPhase::CheckingDeadline { deadline, spin_start } => clock.len() >= 2 && deadline
            == clock[0] + duration && spin_start == clock[1],
        SleepPhase::CheckingSpinTime { deadline, spin_start } => clock.len() >= 2 && deadline
            == clock[0] + duration && spin_start == clock[1],
        SleepPhase::Spinning { deadline, spin_start } => clock.len() >= 2 && deadline == clock[0]
            + duration && spin_start == clock[1],
    }
}

proof fn lemma_sleep_invariant(start: SleepState, events: Seq<SleepEvent>, duration: u128)
    requires
        start.phase == SleepPhase::Idle,
        one_sleep(events, duration),
        duration <= MAX_DURATION,
    ensures
        crate::trace::run(sleep_steps(), start, events) matches Some((end, actions))
            ==> sleep_invariant(end, events, actions, duration),
    decreases events.len(),
{
    let before = events.drop_last();
    if events.len() == 1 {
        assert(before.len() == 0);
        assert(clock_readings(before).len() == 0);
        assert(crate::trace::run(sleep_steps(), start, before) == Some(
            (start, Seq::<SleepAction>::empty()),
        ));
    } else {
        assert(one_sleep(before, duration));
        lemma_sleep_invariant(start, before, duration);
        assert(!(events[events.len() - 1] is Begin));
        crate::trace::lemma_run_len(sleep_steps(), start, before);
    }
}

/// A sleep is over only when the high-resolution timer was waited for, when
/// the deadline has come, or when the spin has lasted too long.
pub proof fn law_sleep_ends_when_time_is_up(
    start: SleepState,
    events: Seq<SleepEvent>,
    duration: u128,
    end: SleepState,
    actions: Seq<SleepAction>,
)
    requires
        start.phase == SleepPhase::Idle,
        one_sleep(events, duration),
        duration <= MAX_DURATION,
        crate::trace::run(sleep_steps(), start, events) == Some((end, actions)),
        actions.last() == SleepAction::Return,
    ensures
        end.phase == SleepPhase::Idle,
        ({
            ||| actions.len() >= 2 && actions[actions.len() - 2] == SleepAction::WaitTimer
            ||| time_is_up(events, duration)
        }),
{
    lemma_sleep_invariant(start, events, duration);
    crate::trace::lemma_run_len(sleep_steps(), start, events);
}

/// The events of a sleep whose timer works, where the thread keeps one already
/// and where it does not.
pub open spec fn timer_sleep_events(cached: bool, duration: u128) -> Seq<SleepEvent> {
    let asked = seq![
        SleepEvent::Begin { duration },
        SleepEvent::Support(HighResTimerSupport::Available),
    ];
    let ready = if cached {
        asked
    } else {
        asked.push(SleepEvent::TimerCreated(true))
    };
    ready.push(SleepEvent::TimerSet(true)).push(SleepEvent::Done)
}

/// The actions of a sleep whose timer works.
pub open spec fn timer_sleep_actions(cached: bool, duration: u128) -> Seq<SleepAction> {
    let asked = seq![SleepAction::QuerySupport];
    let ready = if cached {
        asked
    } else {
        asked.push(SleepAction::CreateTimer)
    };
    ready + seq![
        SleepAction::SetTimer { due_time: due_time_spec(duration as int) as i64 },
        SleepAction::WaitTimer,
        SleepAction::Return,
    ]
}

/// A high-resolution timer that works does the whole sleep: the clock is not
/// read, nothing is spun, and the timer resolution of the system is left
/// alone.
pub proof fn law_working_timer_does_the_whole_sleep(start: SleepState, duration: u128)
    requires
        start.phase == SleepPhase::Idle,
    ensures
        crate::trace::run(
            sleep_steps(),
            start,
            timer_sleep_events(start.timer_cached, duration),
        ) == Some(
            (
                SleepState { timer_cached: true, phase: SleepPhase::Idle },
                timer_sleep_actions(start.timer_cached, duration),
            ),
        ),
{
    let none = Seq::<SleepEvent>::empty();
    let support = SleepEvent::Support(HighResTimerSupport::Available);
    let begun = none.push(SleepEvent::Begin { duration });
    let known = begun.push(support);
    let ready = if start.timer_cached {
        known
    } else {
        known.push(SleepEvent::TimerCreated(true))
    };
    let set = ready.push(SleepEvent::TimerSet(true));
    let done = set.push(SleepEvent::Done);
    crate::trace::lemma_run_push(sleep_steps(), start, none, SleepEvent::Begin { duration });
    crate::trace::lemma_run_push(sleep_steps(), start, begun, support);
    crate::trace::lemma_run_push(sleep_steps(), start, known, SleepEvent::TimerCreated(true));
    crate::trace::lemma_run_push(sleep_steps(), start, ready, SleepEvent::TimerSet(true));
    crate::trace::lemma_run_push(sleep_steps(), start, set, SleepEvent::Done);
    assert(timer_sleep_events(start.timer_cached, duration) =~= done);
    let (_, actions) = crate::trace::run(sleep_steps(), start, done).unwrap();
    assert(actions =~= timer_sleep_actions(start.timer_cached, duration));
}

/// A thread that keeps a timer keeps it for good and never creates another.
pub proof fn law_timer_is_created_once(start: SleepState, events: Seq<SleepEvent>)
    requires
        start.timer_cached,
    ensures
        crate::trace::run(sleep_steps(), start, events) matches Some((end, actions))
            ==> end.timer_cached && !actions.contains(SleepAction::CreateTimer),
    decreases events.len(),
{
    if events.len() > 0 {
        law_timer_is_created_once(start, events.drop_last());
        if let Some((end, actions)) = crate::trace::run(sleep_steps(), start, events) {
            let before = crate::trace::run(sleep_steps(), start, events.drop_last()).unwrap().1;
            assert forall|i: int| 0 <= i < actions.len() implies actions[i]
                != SleepAction::CreateTimer by {
                if i < before.len() {
                    assert(before.contains(before[i]));
                }
            }
        }
    }
}

/// The coarse sleep and the spin threshold together make up the duration, and
/// there is a coarse sleep only where the duration is longer than the
/// threshold.
pub proof fn law_coarse_sleep_leaves_the_spin_threshold(
    start: SleepState,
    events: Seq<SleepEvent>,
    duration: u128,
    end: SleepState,
    actions: Seq<SleepAction>,
    i: int,
)
    requires
        start.phase == SleepPhase::Idle,
        one_sleep(events, duration),
        duration <= MAX_DURATION,
        crate::trace::run(sleep_steps(), start, events) == Some((end, actions)),
        0 <= i < actions.len(),
    ensures
        actions[i] matches SleepAction::CoarseSleep { duration: coarse } ==> coarse > 0 && coarse
            + SPIN_THRESHOLD == duration,
    decreases events.len(),
{
    crate::trace::lemma_run_len(sleep_steps(), start, events);
    let before = events.drop_last();
    if events.len() > 1 {
        assert(one_sleep(before, duration));
        lemma_sleep_invariant(start, before, duration);
        lemma_phases_are_wf(start, before);
        let (middle, earlier) = crate::trace::run(sleep_steps(), start, before).unwrap();
        if i < earlier.len() {
            law_coarse_sleep_leaves_the_spin_threshold(
                start,
                before,
                duration,
                middle,
                earlier,
                i,
            );
        }
    }
}

/// Steps lead from a phase that can be to one that can be.
proof fn lemma_phases_are_wf(start: SleepState, events: Seq<SleepEvent>)
    requires
        start.phase.wf(),
        forall|i: int| 0 <= i < events.len() ==> (#[trigger] events[i]).wf(),
    ensures
        crate::trace::run(sleep_steps(), start, events) matches Some((end, _)) ==> end.phase.wf(),
    decreases events.len(),
{
    if events.len() > 0 {
        lemma_phases_are_wf(start, events.drop_last());
        assert(events[events.len() - 1].wf());
    }
}

/// That the timer resolution of the system is raised for one coarse sleep each
/// time, and restored right after.
spec fn resolution_invariant(phase: SleepPhase, actions: Seq<SleepAction>) -> bool {
    let n = actions.len();
    &&& phase is RaisingResolution ==> n > 0 && actions[n - 1] == SleepAction::RaiseResolution
    &&& phase is CoarseSleeping ==> n > 1 && actions[n - 1] is CoarseSleep && actions[n - 2]
        == SleepAction::RaiseResolution
    &&& forall|i: int|
        0 <= i < n && #[trigger] actions[i] == SleepAction::RaiseResolution ==> {
            ||| i + 2 < n && actions[i + 1] is CoarseSleep && actions[i + 2]
                == SleepAction::RestoreResolution
            ||| i + 2 == n && phase is CoarseSleeping
            ||| i + 1 == n && phase is RaisingResolution
        }
    &&& forall|i: int|
        0 <= i < n && (#[trigger] actions[i]) is CoarseSleep ==> i > 0 && actions[i - 1]
            == SleepAction::RaiseResolution
}

proof fn lemma_resolution_invariant(start: SleepState, events: Seq<SleepEvent>)
    requires
        start.phase == SleepPhase::Idle,
    ensures
        crate::trace::run(sleep_steps(), start, events) matches Some((end, actions))
            ==> resolution_invariant(end.phase, actions),
    decreases events.len(),
{
    if events.len() > 0 {
        let before = events.drop_last();
        lemma_resolution_invariant(start, before);
        if let Some((state, earlier)) = crate::trace::run(sleep_steps(), start, before) {
            if let Some((end, action)) = sleep_next(state, events.last()) {
                let actions = earlier.push(action);
                let n = actions.len();
                assert forall|i: int|
                    0 <= i < n && #[trigger] actions[i] == SleepAction::RaiseResolution implies {
                    ||| i + 2 < n && actions[i + 1] is CoarseSleep && actions[i + 2]
                        == SleepAction::RestoreResolution
                    ||| i + 2 == n && end.phase is CoarseSleeping
                    ||| i + 1 == n && end.phase is RaisingResolution
                } by {
                    if i < earlier.len() {
                        assert(earlier[i] == SleepAction::RaiseResolution);
                    }
                }
                assert forall|i: int|
                    0 <= i < n && (#[trigger] actions[i]) is CoarseSleep implies i > 0
                    && actions[i - 1] == SleepAction::RaiseResolution by {
                    if i < earlier.len() {
                        assert(earlier[i] is CoarseSleep);
                    }
                }
            }
        }
    }
}

/// The timer resolution of the system is raised only for a coarse sleep, and
/// by the time that a sleep is over it has been restored.
pub proof fn law_timer_resolution_is_restored(
    start: SleepState,
    events: Seq<SleepEvent>,
    end: SleepState,
    actions: Seq<SleepAction>,
    i: int,
)
    requires
        start.phase == SleepPhase::Idle,
        crate::trace::run(sleep_steps(), start, events) == Some((end, actions)),
        0 <= i < actions.len(),
    ensures
        actions[i] is CoarseSleep ==> i > 0 && actions[i - 1] == SleepAction::RaiseResolution,
        actions[i] == SleepAction::RaiseResolution && end.phase == SleepPhase::Idle ==> {
            &&& i + 2 < actions.len()
            &&& actions[i + 1] is CoarseSleep
            &&& actions[i + 2] == SleepAction::RestoreResolution
        },
{
    lemma_resolution_invariant(start, events);
}

/// No spin starts once the spinning has lasted for `MAX_SPIN_TIME`.
pub proof fn law_spin_time_is_bounded(state: SleepState, event: SleepEvent)
    ensures
        sleep_next(state, event) matches Some((_, SleepAction::Spin)) ==> (state.phase matches
            SleepPhase::CheckingSpinTime { spin_start, .. } && event matches SleepEvent::Clock(now)
            && crate::frame_timing::time_between(spin_start, now) <= MAX_SPIN_TIME),
{
}

/// While the deadline is checked, a reading at or after the first one plus the
/// duration ends the sleep, and an earlier one does not.
pub proof fn law_sleep_is_over_when_the_deadline_has_come(
    start: SleepState,
    events: Seq<SleepEvent>,
    duration: u128,
    end: SleepState,
    actions: Seq<SleepAction>,
    now: u64,
)
    requires
        start.phase == SleepPhase::Idle,
        one_sleep(events, duration),
        duration <= MAX_DURATION,
        crate::trace::run(sleep_steps(), start, events) == Some((end, actions)),
        end.phase is CheckingDeadline,
    ensures
        clock_readings(events).len() >= 2,
        sleep_next(end, SleepEvent::Clock(now)) matches Some((next, action)) && {
            let deadline = clock_readings(events)[0] + duration;
            &&& now >= deadline ==> action == SleepAction::Return && next.phase == SleepPhase::Idle
            &&& now < deadline ==> action == SleepAction::ReadClock
                && next.phase is CheckingSpinTime
        },
{
    lemma_sleep_invariant(start, events, duration);
}

/// While the spin time is checked, a reading more than three milliseconds after
/// the second one ends the sleep, and at any other one it spins on.
pub proof fn law_sleep_spins_for_three_milliseconds_at_most(
    start: SleepState,
    events: Seq<SleepEvent>,
    duration: u128,
    end: SleepState,
    actions: Seq<SleepAction>,
    now: u64,
)
    requires
        start.phase == SleepPhase::Idle,
        one_sleep(events, duration),
        duration <= MAX_DURATION,
        crate::trace::run(sleep_steps(), start, events) == Some((end, actions)),
        end.phase is CheckingSpinTime,
    ensures
        clock_readings(events).len() >= 2,
        sleep_next(end, SleepEvent::Clock(now)) matches Some((next, action)) && {
            let limit = clock_readings(events)[1] + 3_000_000;
            &&& now > limit ==> action == SleepAction::Return && next.phase == SleepPhase::Idle
            &&& now <= limit ==> action == SleepAction::Spin
        },
{
    lemma_sleep_invariant(start, events, duration);
}

/// One round of spinning: before the deadline and within the spin time it comes
/// back to where it was.
pub proof fn law_spinning_goes_round(
    state: SleepState,
    deadline: u128,
    spin_start: u64,
    first: u64,
    second: u64,
)
    requires
        state.phase == (SleepPhase::CheckingDeadline { deadline, spin_start }),
        first < deadline,
        second <= spin_start + 3_000_000,
    ensures
        crate::trace::run(
            sleep_steps(),
            state,
            seq![SleepEvent::Clock(first), SleepEvent::Clock(second), SleepEvent::Done],
        ) == Some(
            (state, seq![SleepAction::ReadClock, SleepAction::Spin, SleepAction::ReadClock]),
        ),
{
    let e0 = Seq::<SleepEvent>::empty();
    let e1 = e0.push(SleepEvent::Clock(first));
    let e2 = e1.push(SleepEvent::Clock(second));
    crate::trace::lemma_run_push(sleep_steps(), state, e0, SleepEvent::Clock(first));
    crate::trace::lemma_run_push(sleep_steps(), state, e1, SleepEvent::Clock(second));
    crate::trace::lemma_run_push(sleep_steps(), state, e2, SleepEvent::Done);
    let events = seq![SleepEvent::Clock(first), SleepEvent::Clock(second), SleepEvent::Done];
    assert(events =~= e2.push(SleepEvent::Done));
    assert(crate::trace::run(sleep_steps(), state, events).unwrap().1 =~= seq![
        SleepAction::ReadClock,
        SleepAction::Spin,
        SleepAction::ReadClock,
    ]);
}

/// How the high-resolution timer can be of no use for a sleep.
pub enum TimerTrouble {
    /// The system has none.
    NoSupport,
    /// The one for this thread could not be created.
    NotCreated,
    /// It could not be set.
    NotSet,
}

/// The events of a sleep up to where the timer is of no use.
pub open spec fn trouble_events(trouble: TimerTrouble, cached: bool, duration: u128) -> Seq<
    SleepEvent,
> {
    let begin = SleepEvent::Begin { duration };
    let available = SleepEvent::Support(HighResTimerSupport::Available);
    match trouble {
        TimerTrouble::NoSupport => seq![
            begin,
            SleepEvent::Support(HighResTimerSupport::NotAvailable),
        ],
        TimerTrouble::NotCreated => seq![begin, available, SleepEvent::TimerCreated(false)],
        TimerTrouble::NotSet => if cached {
            seq![begin, available, SleepEvent::TimerSet(false)]
        } else {
            seq![begin, available, SleepEvent::TimerCreated(true), SleepEvent::TimerSet(false)]
        },
    }
}

/// The actions of a sleep up to where the timer is of no use, and the clock is
/// read instead.
pub open spec fn trouble_actions(trouble: TimerTrouble, cached: bool, duration: u128) -> Seq<
    SleepAction,
> {
    let set = SleepAction::SetTimer { due_time: due_time_spec(duration as int) as i64 };
    match trouble {
        TimerTrouble::NoSupport => seq![SleepAction::QuerySupport, SleepAction::ReadClock],
        TimerTrouble::NotCreated => seq![
            SleepAction::QuerySupport,
            SleepAction::CreateTimer,
            SleepAction::ReadClock,
        ],
        TimerTrouble::NotSet => if cached {
            seq![SleepAction::QuerySupport, set, SleepAction::ReadClock]
        } else {
            seq![SleepAction::QuerySupport, SleepAction::CreateTimer, set, SleepAction::ReadClock]
        },
    }
}

/// Whatever is wrong with the timer, the whole sleep is made up for without
/// it.  A timer that was created is kept even so.
pub proof fn law_timer_trouble_falls_back(start: SleepState, trouble: TimerTrouble, duration: u128)
    requires
        start.phase == SleepPhase::Idle,
        trouble is NotCreated ==> !start.timer_cached,
    ensures
        crate::trace::run(
            sleep_steps(),
            start,
            trouble_events(trouble, start.timer_cached, duration),
        ) == Some(
            (
                SleepState {
                    timer_cached: start.timer_cached || trouble is NotSet,
                    phase: SleepPhase::StartingFallback { duration },
                },
                trouble_actions(trouble, start.timer_cached, duration),
            ),
        ),
{
    let next = sleep_steps();
    let cached = start.timer_cached;
    let begin = SleepEvent::Begin { duration };
    let available = SleepEvent::Support(HighResTimerSupport::Available);
    let missing = SleepEvent::Support(HighResTimerSupport::NotAvailable);
    let events = trouble_events(trouble, cached, duration);
    let e0 = Seq::<SleepEvent>::empty();
    let e1 = e0.push(begin);
    let e2 = e1.push(available);
    let e3 = e2.push(SleepEvent::TimerCreated(true));
    crate::trace::lemma_run_push(next, start, e0, begin);
    crate::trace::lemma_run_push(next, start, e1, available);
    match trouble {
        TimerTrouble::NoSupport => {
            crate::trace::lemma_run_push(next, start, e1, missing);
            assert(events =~= e1.push(missing));
        },
        TimerTrouble::NotCreated => {
            crate::trace::lemma_run_push(next, start, e2, SleepEvent::TimerCreated(false));
            assert(events =~= e2.push(SleepEvent::TimerCreated(false)));
        },
        TimerTrouble::NotSet => {
            if cached {
                crate::trace::lemma_run_push(next, start, e2, SleepEvent::TimerSet(false));
                assert(events =~= e2.push(SleepEvent::TimerSet(false)));
            } else {
                crate::trace::lemma_run_push(next, start, e2, SleepEvent::TimerCreated(true));
                crate::trace::lemma_run_push(next, start, e3, SleepEvent::TimerSet(false));
                assert(events =~= e3.push(SleepEvent::TimerSet(false)));
            }
        },
    }
    assert(crate::trace::run(next, start, events).unwrap().1 =~= trouble_actions(
        trouble,
        cached,
        duration,
    ));
}

/// The events of a fallback up to the spin: a reading, the coarse sleep where
/// there is one, and another reading.
pub open spec fn fallback_events(duration: u128, begun: u64, spinning: u64) -> Seq<SleepEvent> {
    if duration > 2_000_000 {
        seq![
            SleepEvent::Clock(begun),
            SleepEvent::Done,
            SleepEvent::Done,
            SleepEvent::Done,
            SleepEvent::Clock(spinning),
        ]
    } else {
        seq![SleepEvent::Clock(begun), SleepEvent::Clock(spinning)]
    }
}

/// Without the timer a sleep lasts until `duration` after the first reading.
/// All but the last two milliseconds of it are slept, with the timer resolution
/// of the system raised, and the rest is spun.
pub proof fn law_fallback_sleeps_and_then_spins(
    state: SleepState,
    duration: u128,
    begun: u64,
    spinning: u64,
)
    requires
        state.phase == (SleepPhase::StartingFallback { duration }),
        duration <= MAX_DURATION,
    ensures
        crate::trace::run(
            sleep_steps(),
            state,
            fallback_events(duration, begun, spinning),
        ) matches Some((end, actions)) && {
            &&& end.timer_cached == state.timer_cached
            &&& end.phase matches SleepPhase::CheckingDeadline { deadline, spin_start } && deadline
                == begun + duration && spin_start == spinning
            &&& if duration > 2_000_000 {
                &&& actions.len() == 5
                &&& actions[0] == SleepAction::RaiseResolution
                &&& actions[1] matches SleepAction::CoarseSleep { duration: coarse } && coarse
                    + 2_000_000 == duration
                &&& actions[2] == SleepAction::RestoreResolution
                &&& actions[3] == SleepAction::ReadClock
                &&& actions[4] == SleepAction::ReadClock
            } else {
                actions == seq![SleepAction::ReadClock, SleepAction::ReadClock]
            }
        },
{
    let next = sleep_steps();
    let events = fallback_events(duration, begun, spinning);
    let e0 = Seq::<SleepEvent>::empty();
    let e1 = e0.push(SleepEvent::Clock(begun));
    crate::trace::lemma_run_push(next, state, e0, SleepEvent::Clock(begun));
    if duration > 2_000_000 {
        let e2 = e1.push(SleepEvent::Done);
        let e3 = e2.push(SleepEvent::Done);
        let e4 = e3.push(SleepEvent::Done);
        crate::trace::lemma_run_push(next, state, e1, SleepEvent::Done);
        crate::trace::lemma_run_push(next, state, e2, SleepEvent::Done);
        crate::trace::lemma_run_push(next, state, e3, SleepEvent::Done);
        crate::trace::lemma_run_push(next, state, e4, SleepEvent::Clock(spinning));
        assert(events =~= e4.push(SleepEvent::Clock(spinning)));
    } else {
        crate::trace::lemma_run_push(next, state, e1, SleepEvent::Clock(spinning));
        assert(events =~= e1.push(SleepEvent::Clock(spinning)));
    }
}

/// A due time is relative, and is the duration in whole units of 100
/// nanoseconds.  From `i64::MAX` nanoseconds on it does not grow any more.
pub proof fn law_due_time_is_the_duration(duration: int)
    requires
        duration >= 0,
    ensures
        duration <= i64::MAX ==> 0 <= duration + 100 * due_time_spec(duration) < 100,
        duration > i64::MAX ==> due_time_spec(duration) == due_time_spec(i64::MAX as int),
{
}

/// A thread keeps a timer from when one was created for it, and from nothing
/// else.  One is created where there is support and none is kept yet.
pub proof fn law_timer_is_kept_once_created(state: SleepState, event: SleepEvent)
    ensures
        sleep_next(state, event) matches Some((next, action)) ==> {
            &&& next.timer_cached <==> state.timer_cached || event == SleepEvent::TimerCreated(true)
            &&& action == SleepAction::CreateTimer <==> event == SleepEvent::Support(
                HighResTimerSupport::Available,
            ) && !state.timer_cached
        },
{
}

/// Whether an event is what can come of an action.
pub open spec fn answers(action: SleepAction, event: SleepEvent) -> bool {
    match action {
        SleepAction::QuerySupport => event is Support,
        SleepAction::CreateTimer => event is TimerCreated,
        SleepAction::SetTimer { .. } => event is TimerSet,
        SleepAction::ReadClock => event is Clock,
        SleepAction::Return => event is Begin,
        _ => event is Done,
    }
}

/// After each action a sleep waits for what can come of it, and for nothing
/// else.
pub proof fn law_sleep_waits_for_what_comes_of_its_action(
    state: SleepState,
    event: SleepEvent,
    later: SleepEvent,
)
    ensures
        sleep_next(state, event) matches Some((next, action)) ==> (sleep_next(next, later) is Some
            <==> answers(action, later)),
{
}

} // verus!
