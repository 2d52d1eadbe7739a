//! Runs of a state machine: the actions that a sequence of events leads to.
//! And plans, which are actions strung together part by part.

use vstd::prelude::*;

verus! {

/// Feeds `events` to a machine that starts in `start`.  Gives the state it
/// ends in and the actions it asked for, one per event, or `None` where it
/// does not wait for some event.
pub open spec fn run<S, E, A>(
    next: spec_fn(S, E) -> Option<(S, A)>,
    start: S,
    events: Seq<E>,
) -> Option<(S, Seq<A>)>
    decreases events.len(),
{
    if events.len() == 0 {
        Some((start, Seq::empty()))
    } else {
        match run(next, start, events.drop_last()) {
            None => None,
            Some((state, actions)) => match next(state, events.last()) {
                None => None,
                Some((state, action)) => Some((state, actions.push(action))),
            },
        }
    }
}

/// One more event takes one more step.
pub proof fn lemma_run_push<S, E, A>(
    next: spec_fn(S, E) -> Option<(S, A)>,
    start: S,
    events: Seq<E>,
    event: E,
)
    ensures
        run(next, start, events.push(event)) == (match run(next, start, events) {
            None => None,
            Some((state, actions)) => match next(state, event) {
                None => None,
                Some((state, action)) => Some((state, actions.push(action))),
            },
        }),
{
    assert(events.push(event).drop_last() =~= events);
}

/// A run over two stretches of events is a run over the first and then one
/// over the second.
pub proof fn lemma_run_concat<S, E, A>(
    next: spec_fn(S, E) -> Option<(S, A)>,
    start: S,
    first: Seq<E>,
    second: Seq<E>,
)
    ensures
        run(next, start, first + second) == (match run(next, start, first) {
            None => None,
            Some((middle, before)) => match run(next, middle, second) {
                None => None,
                Some((end, after)) => Some((end, before + after)),
            },
        }),
    decreases second.len(),
{
    if second.len() == 0 {
        assert(first + second =~= first);
        if let Some((_, before)) = run(next, start, first) {
            assert(before + Seq::<A>::empty() =~= before);
        }
    } else {
        lemma_run_concat(next, start, first, second.drop_last());
        assert((first + second).drop_last() =~= first + second.drop_last());
        if let Some((middle, before)) = run(next, start, first) {
            if let Some((end, after)) = run(next, middle, second.drop_last()) {
                if let Some((_, action)) = next(end, second.last()) {
                    assert((before + after).push(action) =~= before + after.push(action));
                }
            }
        }
    }
}

/// A run asks for one action per event.
pub proof fn lemma_run_len<S, E, A>(
    next: spec_fn(S, E) -> Option<(S, A)>,
    start: S,
    events: Seq<E>,
)
    ensures
        run(next, start, events) matches Some((_, actions)) ==> actions.len() == events.len(),
    decreases events.len(),
{
    if events.len() > 0 {
        lemma_run_len(next, start, events.drop_last());
    }
}

/// The first `n` parts, one after the other.
pub open spec fn concat_parts<A>(n: nat, part: spec_fn(int) -> Seq<A>) -> Seq<A>
    decreases n,
{
    if n == 0 {
        Seq::empty()
    } else {
        concat_parts((n - 1) as nat, part) + part(n - 1)
    }
}

/// `n` times the same event.
pub open spec fn repeated<E>(event: E, n: nat) -> Seq<E> {
    Seq::new(n, |i: int| event)
}

/// What is strung together comes out of some part, and every part is in it.
pub proof fn lemma_concat_parts_contains<A>(n: nat, part: spec_fn(int) -> Seq<A>, action: A)
    ensures
        concat_parts(n, part).contains(action) <==> exists|i: int|
            0 <= i < n && (#[trigger] part(i)).contains(action),
    decreases n,
{
    if n > 0 {
        let before = concat_parts((n - 1) as nat, part);
        let whole = concat_parts(n, part);
        let last = part(n - 1);
        lemma_concat_parts_contains((n - 1) as nat, part, action);
        if before.contains(action) {
            let i = choose|i: int| 0 <= i < before.len() && before[i] == action;
            assert(whole[i] == action);
        }
        if last.contains(action) {
            let i = choose|i: int| 0 <= i < last.len() && last[i] == action;
            assert(whole[before.len() + i] == action);
        }
        if whole.contains(action) {
            let i = choose|i: int| 0 <= i < whole.len() && whole[i] == action;
            if i < before.len() {
                assert(before[i] == action);
            } else {
                assert(last[i - before.len()] == action);
            }
        }
    }
}

} // verus!
