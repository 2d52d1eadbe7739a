//! Whether the system has high-resolution waitable timers.
//!
//! This is found out once for the whole process, by creating such a timer and
//! closing it again.  The answer is kept for every later question.

use crate::precise_timer::HighResTimerSupport;
use vstd::prelude::*;

verus! {

/// What to do next in order to answer.
#[derive(Debug, Clone, Copy, PartialEq, Eq, Structural)]
pub enum SupportAction {
    /// Try to create a high-resolution timer.
    TryTimer,
    /// Close the timer that was created, which was only a trial.
    CloseTimer,
    /// This is the answer.
    Return(HighResTimerSupport),
}

/// What came of a `SupportAction`, or the question.
#[derive(Debug, Clone, Copy, PartialEq, Eq, Structural)]
pub enum SupportEvent {
    /// The question.
    Begin,
    /// Whether `TryTimer` gave a timer.
    Tried(bool),
    /// `CloseTimer` is over.
    Done,
}

/// What the process knows.
#[derive(Debug, Clone, Copy, PartialEq, Eq, Structural)]
pub enum SupportState {
    /// Nothing: the question has not come up yet.
    Unknown,
    /// The trial is under way.
    Trying,
    /// The trial gave a timer, which is being closed.
    Closing,
    /// The answer.
    Known(HighResTimerSupport),
}

/// What the process keeps of the trial.
#[derive(Debug, PartialEq, Eq)]
pub struct SupportCache {
    state: SupportState,
}

impl View for SupportCache {
    type V = SupportState;

    closed spec fn view(&self) -> SupportState {
        self.state
    }
}

/// What a trial says: there is support where it gave a timer.
pub open spec fn support_of(timer_created: bool) -> HighResTimerSupport {
    if timer_created {
        HighResTimerSupport::Available
    } else {
        HighResTimerSupport::NotAvailable
    }
}

/// What is known next and the action to perform, or `None` where the event is
/// not waited for.
pub open spec fn support_next(state: SupportState, event: SupportEvent) -> Option<
    (SupportState, SupportAction),
> {
    match (state, event) {
        (SupportState::Unknown, SupportEvent::Begin) => Some(
            (SupportState::Trying, SupportAction::TryTimer),
        ),
        (SupportState::Known(support), SupportEvent::Begin) => Some(
            (state, SupportAction::Return(support)),
        ),
        (SupportState::Trying, SupportEvent::Tried(true)) => Some(
            (SupportState::Closing, SupportAction::CloseTimer),
        ),
        (SupportState::Trying, SupportEvent::Tried(false)) => Some(
            (SupportState::Known(support_of(false)), SupportAction::Return(support_of(false))),
        ),
        (SupportState::Closing, SupportEvent::Done) => Some(
            (SupportState::Known(support_of(true)), SupportAction::Return(support_of(true))),
        ),
        _ => None,
    }
}

impl SupportCache {
    /// A process in which the question has not come up yet.
    pub fn new() -> (cache: Self)
        ensures
            cache@ == SupportState::Unknown,
    {
        SupportCache { state: SupportState::Unknown }
    }
}

/// Takes the next step towards the answer.  `None`, with nothing changed,
/// means that the event is not waited for.
pub fn get_high_res_support(cache: &mut SupportCache, event: SupportEvent) -> (action: Option<
    SupportAction,
>)
    ensures
        match support_next(old(cache)@, event) {
            Some((next, act)) => final(cache)@ == next && action == Some(act),
            None => final(cache)@ == old(cache)@ && action is None,
        },
{
    match (cache.state, event) {
        (SupportState::Unknown, SupportEvent::Begin) => {
            cache.state = SupportState::Trying;
            Some(SupportAction::TryTimer)
        },
        (SupportState::Known(support), SupportEvent::Begin) => Some(SupportAction::Return(support)),
        (SupportState::Trying, SupportEvent::Tried(created)) => {
            if created {
                cache.state = SupportState::Closing;
                Some(SupportAction::CloseTimer)
            } else {
                cache.state = SupportState::Known(HighResTimerSupport::NotAvailable);
                Some(SupportAction::Return(HighResTimerSupport::NotAvailable))
            }
        },
        (SupportState::Closing, SupportEvent::Done) => {
            cache.state = SupportState::Known(HighResTimerSupport::Available);
            Some(SupportAction::Return(HighResTimerSupport::Available))
        },
        _ => None,
    }
}

/// The steps towards answers, for runs.
pub open spec fn support_steps() -> spec_fn(SupportState, SupportEvent) -> Option<
    (SupportState, SupportAction),
> {
    |state: SupportState, event: SupportEvent| support_next(state, event)
}

/// The events of the first question: the question, the trial and, where that
/// gave a timer, its closing.
pub open spec fn first_question(timer_created: bool) -> Seq<SupportEvent> {
    if timer_created {
        seq![SupportEvent::Begin, SupportEvent::Tried(true), SupportEvent::Done]
    } else {
        seq![SupportEvent::Begin, SupportEvent::Tried(false)]
    }
}

/// The first question leads to one trial.  The answer is that there is support
/// exactly where the trial gave a timer.  That timer is closed before the
/// answer is given, and the answer is kept.
pub proof fn law_first_question_makes_a_trial(timer_created: bool)
    ensures
        crate::trace::run(
            support_steps(),
            SupportState::Unknown,
            first_question(timer_created),
        ) == Some(
            (
                SupportState::Known(support_of(timer_created)),
                if timer_created {
                    seq![
                        SupportAction::TryTimer,
                        SupportAction::CloseTimer,
                        SupportAction::Return(support_of(true)),
                    ]
                } else {
                    seq![SupportAction::TryTimer, SupportAction::Return(support_of(false))]
                },
            ),
        ),
{
    let next = support_steps();
    let start = SupportState::Unknown;
    let none = Seq::<SupportEvent>::empty();
    let asked = none.push(SupportEvent::Begin);
    let tried = asked.push(SupportEvent::Tried(timer_created));
    crate::trace::lemma_run_push(next, start, none, SupportEvent::Begin);
    crate::trace::lemma_run_push(next, start, asked, SupportEvent::Tried(timer_created));
    crate::trace::lemma_run_push(next, start, tried, SupportEvent::Done);
    if timer_created {
        assert(first_question(true) =~= tried.push(SupportEvent::Done));
        assert(crate::trace::run(next, start, tried.push(SupportEvent::Done)).unwrap().1 =~= seq![
            SupportAction::TryTimer,
            SupportAction::CloseTimer,
            SupportAction::Return(support_of(true)),
        ]);
    } else {
        assert(first_question(false) =~= tried);
        assert(crate::trace::run(next, start, tried).unwrap().1 =~= seq![
            SupportAction::TryTimer,
            SupportAction::Return(support_of(false)),
        ]);
    }
}

/// Once there is an answer it stands for good: every later question is
/// answered by it at once, and no further trial is made.
pub proof fn law_answer_is_kept(
    support: HighResTimerSupport,
    events: Seq<SupportEvent>,
    end: SupportState,
    actions: Seq<SupportAction>,
)
    requires
        crate::trace::run(support_steps(), SupportState::Known(support), events) == Some(
            (end, actions),
        ),
    ensures
        end == SupportState::Known(support),
        actions == Seq::new(events.len(), |i: int| SupportAction::Return(support)),
    decreases events.len(),
{
    if events.len() > 0 {
        let (middle, before) = crate::trace::run(
            support_steps(),
            SupportState::Known(support),
            events.drop_last(),
        ).unwrap();
        law_answer_is_kept(support, events.drop_last(), middle, before);
    }
    assert(actions =~= Seq::new(events.len(), |i: int| SupportAction::Return(support)));
}

/// Whatever happens in a process, the trial is made at the first question and
/// never again, and any two answers are the same.
pub proof fn law_one_trial_for_all_questions(
    events: Seq<SupportEvent>,
    end: SupportState,
    actions: Seq<SupportAction>,
    i: int,
    j: int,
)
    requires
        crate::trace::run(support_steps(), SupportState::Unknown, events) == Some((end, actions)),
        0 <= i < actions.len(),
        0 <= j < actions.len(),
    ensures
        actions[i] == SupportAction::TryTimer <==> i == 0,
        actions[i] is Return && actions[j] is Return ==> actions[i] == actions[j],
{
    lemma_answers_are_what_is_known(events);
}

/// Every answer so far is the one that is known, and only the first action is
/// a trial.
proof fn lemma_answers_are_what_is_known(events: Seq<SupportEvent>)
    ensures
        crate::trace::run(support_steps(), SupportState::Unknown, events) matches Some(
            (end, actions),
        ) ==> {
            &&& end == SupportState::Unknown <==> actions.len() == 0
            &&& forall|i: int|
                0 <= i < actions.len() ==> (#[trigger] actions[i] == SupportAction::TryTimer <==> i
                    == 0)
            &&& forall|i: int|
                0 <= i < actions.len() && (#[trigger] actions[i]) is Return ==> (end matches
                    SupportState::Known(support) && actions[i] == SupportAction::Return(support))
        },
    decreases events.len(),
{
    if events.len() > 0 {
        lemma_answers_are_what_is_known(events.drop_last());
    }
}

/// There is support exactly where the trial gave a timer, and the timer is
/// closed before that is said.
pub proof fn law_support_is_what_the_trial_shows(timer_created: bool)
    ensures
        support_next(SupportState::Trying, SupportEvent::Tried(timer_created)) matches Some(
            (next, action),
        ) && if timer_created {
            &&& action == SupportAction::CloseTimer
            &&& support_next(next, SupportEvent::Done) matches Some((_, answer)) && answer
                == SupportAction::Return(HighResTimerSupport::Available)
        } else {
            action == SupportAction::Return(HighResTimerSupport::NotAvailable)
        },
{
}

/// Whether an event is what can come of an action.
pub open spec fn answers(action: SupportAction, event: SupportEvent) -> bool {
    match action {
        SupportAction::TryTimer => event is Tried,
        SupportAction::CloseTimer => event is Done,
        SupportAction::Return(_) => event is Begin,
    }
}

/// After each action what can come of it is waited for, and nothing else.
pub proof fn law_support_waits_for_what_comes_of_its_action(
    state: SupportState,
    event: SupportEvent,
    later: SupportEvent,
)
    ensures
        support_next(state, event) matches Some((next, action)) ==> (support_next(next, later)
            is Some <==> answers(action, later)),
{
}

} // verus!
