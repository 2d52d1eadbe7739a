//! Painting the modal on top of everything else.

use vstd::prelude::*;

verus! {

/// What to do next in order to paint the modal.
#[derive(Debug, Clone, Copy, PartialEq, Eq, Structural)]
pub enum ModalAction {
    /// Compute the elements of the modal, where there is one.
    ComputeElements,
    /// Render an element.
    RenderElement { element: usize },
    /// The modal is painted, or was given up.
    Return { ok: bool },
}

/// What came of a `ModalAction`, or the request to paint.
#[derive(Debug)]
pub enum ModalEvent {
    /// The modal is to be painted.
    Begin,
    /// The interface items of each element of the modal; `None` without a
    /// modal.
    Computed(Option<Vec<Vec<u64>>>),
    /// `RenderElement` succeeded.
    Done,
    /// The action failed.
    Failed,
}

/// Where the modal stands: the action that is under way.
#[derive(Debug, Clone, Copy, PartialEq, Eq, Structural)]
pub enum ModalPhase {
    /// Nothing is being painted.
    Idle,
    ComputingElements,
    RenderingElement { element: usize },
}

/// The modal that is being painted.
#[derive(Debug)]
pub struct ModalState {
    phase: ModalPhase,
    elements: Vec<Vec<u64>>,
}

/// The modal and the interface items of the window, as contracts see them.
#[verifier::ext_equal]
pub struct ModalView {
    pub phase: ModalPhase,
    pub elements: Seq<Vec<u64>>,
    pub ui_items: Seq<u64>,
}

impl ModalView {
    /// Nothing has been painted.
    pub open spec fn initial() -> ModalView {
        ModalView { phase: ModalPhase::Idle, elements: Seq::empty(), ui_items: Seq::empty() }
    }

    /// An element that is being rendered is one of the modal.
    pub open spec fn wf(self) -> bool {
        self.phase matches ModalPhase::RenderingElement { element } ==> element
            < self.elements.len()
    }

    /// The same in another phase.
    pub open spec fn at(self, phase: ModalPhase) -> ModalView {
        ModalView { phase, ..self }
    }
}

/// Goes to `element`, or returns where that was the last one.
pub open spec fn element_next(state: ModalView, element: int) -> (ModalView, ModalAction) {
    if element < state.elements.len() {
        (
            state.at(ModalPhase::RenderingElement { element: element as usize }),
            ModalAction::RenderElement { element: element as usize },
        )
    } else {
        (state.at(ModalPhase::Idle), ModalAction::Return { ok: true })
    }
}

/// The next state and the action to perform, or `None` where the phase does
/// not wait for the event.  An element that was rendered adds its interface
/// items to those of the window.
pub open spec fn modal_next(state: ModalView, event: ModalEvent) -> Option<
    (ModalView, ModalAction),
> {
    match (state.phase, event) {
        (ModalPhase::Idle, ModalEvent::Begin) => Some(
            (state.at(ModalPhase::ComputingElements), ModalAction::ComputeElements),
        ),
        (ModalPhase::ComputingElements, ModalEvent::Computed(Some(elements))) => Some(
            element_next(ModalView { elements: elements@, ..state }, 0),
        ),
        (ModalPhase::ComputingElements, ModalEvent::Computed(None)) => Some(
            (state.at(ModalPhase::Idle), ModalAction::Return { ok: true }),
        ),
        (ModalPhase::RenderingElement { element }, ModalEvent::Done) => Some(
            element_next(
                ModalView {
                    ui_items: state.ui_items + state.elements[element as int]@,
                    ..state
                },
                element + 1,
            ),
        ),
        (ModalPhase::ComputingElements, ModalEvent::Failed) => Some(
            (state.at(ModalPhase::Idle), ModalAction::Return { ok: false }),
        ),
        (ModalPhase::RenderingElement { .. }, ModalEvent::Failed) => Some(
            (state.at(ModalPhase::Idle), ModalAction::Return { ok: false }),
        ),
        _ => None,
    }
}

impl View for ModalState {
    type V = (ModalPhase, Seq<Vec<u64>>);

    closed spec fn view(&self) -> (ModalPhase, Seq<Vec<u64>>) {
        (self.phase, self.elements@)
    }
}

impl ModalState {
    /// The modal in a window with the given interface items.
    pub open spec fn view_with(self, ui_items: Seq<u64>) -> ModalView {
        ModalView { phase: self@.0, elements: self@.1, ui_items }
    }

    #[verifier::type_invariant]
    spec fn inv(self) -> bool {
        self.view_with(Seq::empty()).wf()
    }

    /// Nothing is being painted.
    pub fn new() -> (state: Self)
        ensures
            state.view_with(Seq::empty()) == ModalView::initial(),
    {
        ModalState { phase: ModalPhase::Idle, elements: Vec::new() }
    }

    fn go(&mut self, phase: ModalPhase, action: ModalAction) -> (result: Option<ModalAction>)
        requires
            old(self).view_with(Seq::empty()).at(phase).wf(),
        ensures
            final(self).phase == phase,
            final(self).elements@ == old(self).elements@,
            result == Some(action),
    {
        self.phase = phase;
        Some(action)
    }

    fn go_to_element(&mut self, element: usize) -> (result: Option<ModalAction>)
        ensures
            final(self).elements@ == old(self).elements@,
            if element < old(self).elements@.len() {
                &&& final(self).phase == ModalPhase::RenderingElement { element }
                &&& result == Some(ModalAction::RenderElement { element })
            } else {
                &&& final(self).phase == ModalPhase::Idle
                &&& result == Some(ModalAction::Return { ok: true })
            },
    {
        if element < self.elements.len() {
            self.go(
                ModalPhase::RenderingElement { element },
                ModalAction::RenderElement { element },
            )
        } else {
            self.go(ModalPhase::Idle, ModalAction::Return { ok: true })
        }
    }

    /// Takes the next step of painting the modal.  `None`, with nothing
    /// changed, means that the event is not one that the modal waits for.
    pub fn step(&mut self, ui_items: &mut Vec<u64>, event: ModalEvent) -> (action: Option<
        ModalAction,
    >)
        ensures
            match modal_next(old(self).view_with(old(ui_items)@), event) {
                Some((next, act)) => final(self).view_with(final(ui_items)@) == next && action
                    == Some(act),
                None => final(self).view_with(final(ui_items)@) == old(self).view_with(
                    old(ui_items)@,
                ) && action is None,
            },
    {
        proof {
            use_type_invariant(&*self);
        }
        match (self.phase, event) {
            (ModalPhase::Idle, ModalEvent::Begin) => {
                self.go(ModalPhase::ComputingElements, ModalAction::ComputeElements)
            },
            (ModalPhase::ComputingElements, ModalEvent::Computed(Some(elements))) => {
                self.elements = elements;
                self.go_to_element(0)
            },
            (ModalPhase::ComputingElements, ModalEvent::Computed(None)) => {
                self.go(ModalPhase::Idle, ModalAction::Return { ok: true })
            },
            (ModalPhase::RenderingElement { element }, ModalEvent::Done) => {
                assert(element < self.elements.len());
                append_items(ui_items, &self.elements[element]);
                self.go_to_element(element + 1)
            },
            (ModalPhase::ComputingElements, ModalEvent::Failed) => {
                self.go(ModalPhase::Idle, ModalAction::Return { ok: false })
            },
            (ModalPhase::RenderingElement { .. }, ModalEvent::Failed) => {
                self.go(ModalPhase::Idle, ModalAction::Return { ok: false })
            },
            _ => None,
        }
    }
}

/// Adds `items` to the interface items of the window.
fn append_items(ui_items: &mut Vec<u64>, items: &Vec<u64>)
    ensures
        final(ui_items)@ == old(ui_items)@ + items@,
{
    let mut i: usize = 0;
    assert(items@.take(0) =~= Seq::<u64>::empty());
    while i < items.len()
        invariant
            i <= items.len(),
            ui_items@ == old(ui_items)@ + items@.take(i as int),
        decreases items.len() - i,
    {
        ui_items.push(items[i]);
        assert(items@.take(i + 1) =~= items@.take(i as int).push(items@[i as int]));
        i = i + 1;
    }
    assert(items@.take(i as int) =~= items@);
}

/// The steps of painting the modal, for runs.
pub open spec fn modal_steps() -> spec_fn(ModalView, ModalEvent) -> Option<
    (ModalView, ModalAction),
> {
    |state: ModalView, event: ModalEvent| modal_next(state, event)
}

/// The interface items of the first `n` elements, one element after the other.
pub open spec fn items_of(elements: Seq<Vec<u64>>, n: nat) -> Seq<u64> {
    crate::trace::concat_parts(n, |i: int| elements[i]@)
}

/// The modal in which `n` elements have been rendered.
pub open spec fn with_rendered(state: ModalView, n: nat) -> ModalView {
    ModalView { ui_items: state.ui_items + items_of(state.elements, n), ..state }
}

proof fn lemma_elements_are_rendered(base: ModalView, n: nat)
    requires
        n <= base.elements.len() <= usize::MAX,
    ensures
        crate::trace::run(
            modal_steps(),
            element_next(base, 0).0,
            crate::trace::repeated(ModalEvent::Done, n),
        ) == Some(
            (
                element_next(with_rendered(base, n), n as int).0,
                Seq::new(n, |i: int| element_next(base, i + 1).1),
            ),
        ),
    decreases n,
{
    let first = element_next(base, 0).0;
    let events = crate::trace::repeated(ModalEvent::Done, n);
    let actions = Seq::new(n, |i: int| element_next(base, i + 1).1);
    if n == 0 {
        assert(events.len() == 0);
        assert(actions =~= Seq::<ModalAction>::empty());
        assert(with_rendered(base, 0) =~= base);
    } else {
        let m = (n - 1) as nat;
        let earlier = crate::trace::repeated(ModalEvent::Done, m);
        let before = Seq::new(m, |i: int| element_next(base, i + 1).1);
        lemma_elements_are_rendered(base, m);
        crate::trace::lemma_run_push(modal_steps(), first, earlier, ModalEvent::Done);
        assert(events =~= earlier.push(ModalEvent::Done));
        let state = element_next(with_rendered(base, m), m as int).0;
        assert(state.phase == ModalPhase::RenderingElement { element: m as usize });
        assert(state.ui_items + base.elements[m as int]@ =~= with_rendered(base, n).ui_items);
        assert(modal_next(state, ModalEvent::Done) == Some(
            element_next(with_rendered(base, n), n as int),
        ));
        assert(actions =~= before.push(element_next(base, n as int).1));
    }
}

/// The events of a modal with `elements`, `n` of which are rendered.
pub open spec fn rendering_events(elements: Vec<Vec<u64>>, n: nat) -> Seq<ModalEvent> {
    seq![ModalEvent::Begin, ModalEvent::Computed(Some(elements))] + crate::trace::repeated(
        ModalEvent::Done,
        n,
    )
}

proof fn lemma_rendering(start: ModalView, elements: Vec<Vec<u64>>, n: nat)
    requires
        start.phase == ModalPhase::Idle,
        n <= elements@.len() <= usize::MAX,
    ensures
        ({
            let base = ModalView { elements: elements@, ..start };
            let (end, action) = element_next(with_rendered(base, n), n as int);
            crate::trace::run(modal_steps(), start, rendering_events(elements, n)) == Some(
                (
                    end,
                    seq![ModalAction::ComputeElements] + Seq::new(
                        n,
                        |i: int| ModalAction::RenderElement { element: i as usize },
                    ) + seq![action],
                ),
            )
        }),
{
    let base = ModalView { elements: elements@, ..start };
    let (first, action) = element_next(base, 0);
    let none = Seq::<ModalEvent>::empty();
    let begun = none.push(ModalEvent::Begin);
    let computed = begun.push(ModalEvent::Computed(Some(elements)));
    let rest = crate::trace::repeated(ModalEvent::Done, n);
    crate::trace::lemma_run_push(modal_steps(), start, none, ModalEvent::Begin);
    crate::trace::lemma_run_push(
        modal_steps(),
        start,
        begun,
        ModalEvent::Computed(Some(elements)),
    );
    let before = Seq::<ModalAction>::empty().push(ModalAction::ComputeElements).push(action);
    assert(crate::trace::run(modal_steps(), start, computed) == Some((first, before)));
    lemma_elements_are_rendered(base, n);
    crate::trace::lemma_run_concat(modal_steps(), start, computed, rest);
    assert(rendering_events(elements, n) =~= computed + rest);
    let after = Seq::new(n, |i: int| element_next(base, i + 1).1);
    let last = element_next(with_rendered(base, n), n as int).1;
    let whole = seq![ModalAction::ComputeElements] + Seq::new(
        n,
        |i: int| ModalAction::RenderElement { element: i as usize },
    ) + seq![last];
    assert(before + after =~= whole) by {
        assert forall|i: int| 0 <= i < 2 + n implies (before + after)[i] == whole[i] by {
            if i >= 2 {
                assert((before + after)[i] == element_next(base, i - 1).1);
            }
        }
    }
}

/// As long as nothing fails, all elements of a modal are rendered in order,
/// and the interface items of all of them are added in the same order.
pub proof fn law_modal_adds_the_items_of_all_elements(start: ModalView, elements: Vec<Vec<u64>>)
    requires
        start.phase == ModalPhase::Idle,
        elements@.len() <= usize::MAX,
    ensures
        crate::trace::run(
            modal_steps(),
            start,
            rendering_events(elements, elements@.len()),
        ) == Some(
            (
                ModalView {
                    phase: ModalPhase::Idle,
                    elements: elements@,
                    ui_items: start.ui_items + items_of(elements@, elements@.len()),
                },
                seq![ModalAction::ComputeElements] + Seq::new(
                    elements@.len(),
                    |i: int| ModalAction::RenderElement { element: i as usize },
                ) + seq![ModalAction::Return { ok: true }],
            ),
        ),
{
    lemma_rendering(start, elements, elements@.len());
}

/// An element that cannot be rendered ends the modal, which keeps the
/// interface items of the elements before it and adds none of its own.
pub proof fn law_failed_element_adds_no_items(start: ModalView, elements: Vec<Vec<u64>>, n: nat)
    requires
        start.phase == ModalPhase::Idle,
        n < elements@.len() <= usize::MAX,
    ensures
        crate::trace::run(
            modal_steps(),
            start,
            rendering_events(elements, n).push(ModalEvent::Failed),
        ) matches Some((end, actions)) && {
            &&& end.phase == ModalPhase::Idle
            &&& end.ui_items == start.ui_items + items_of(elements@, n)
            &&& actions.last() == (ModalAction::Return { ok: false })
        },
{
    lemma_rendering(start, elements, n);
    crate::trace::lemma_run_push(
        modal_steps(),
        start,
        rendering_events(elements, n),
        ModalEvent::Failed,
    );
}

/// A window without a modal is left as it is.
pub proof fn law_no_modal_no_change(start: ModalView)
    requires
        start.phase == ModalPhase::Idle,
    ensures
        crate::trace::run(
            modal_steps(),
            start,
            seq![ModalEvent::Begin, ModalEvent::Computed(None)],
        ) == Some(
            (start, seq![ModalAction::ComputeElements, ModalAction::Return { ok: true }]),
        ),
{
    let none = Seq::<ModalEvent>::empty();
    let begun = none.push(ModalEvent::Begin);
    crate::trace::lemma_run_push(modal_steps(), start, none, ModalEvent::Begin);
    crate::trace::lemma_run_push(modal_steps(), start, begun, ModalEvent::Computed(None));
    assert(seq![ModalEvent::Begin, ModalEvent::Computed(None)] =~= begun.push(
        ModalEvent::Computed(None),
    ));
}

/// A modal whose elements cannot be computed is given up, and adds nothing.
pub proof fn law_failed_computation_adds_no_items(start: ModalView)
    requires
        start.phase == ModalPhase::Idle,
    ensures
        crate::trace::run(
            modal_steps(),
            start,
            seq![ModalEvent::Begin, ModalEvent::Failed],
        ) == Some(
            (start, seq![ModalAction::ComputeElements, ModalAction::Return { ok: false }]),
        ),
{
    let none = Seq::<ModalEvent>::empty();
    let begun = none.push(ModalEvent::Begin);
    crate::trace::lemma_run_push(modal_steps(), start, none, ModalEvent::Begin);
    crate::trace::lemma_run_push(modal_steps(), start, begun, ModalEvent::Failed);
    assert(seq![ModalEvent::Begin, ModalEvent::Failed] =~= begun.push(ModalEvent::Failed));
}

/// The interface items of the window only ever grow, and they do so only when
/// an element was rendered, by the items of that element.
pub proof fn law_rendered_element_adds_its_items(state: ModalView, event: ModalEvent)
    ensures
        modal_next(state, event) matches Some((next, _)) ==> {
            let added = next.ui_items.skip(state.ui_items.len() as int);
            &&& state.ui_items.len() <= next.ui_items.len()
            &&& next.ui_items.take(state.ui_items.len() as int) == state.ui_items
            &&& match state.phase {
                ModalPhase::RenderingElement { element } if event is Done => added
                    == state.elements[element as int]@,
                _ => added.len() == 0,
            }
        },
{
    if let Some((next, _)) = modal_next(state, event) {
        let before = state.ui_items;
        assert(next.ui_items.take(before.len() as int) =~= before);
        if let ModalPhase::RenderingElement { element } = state.phase {
            if event is Done {
                assert(next.ui_items.skip(before.len() as int)
                    =~= state.elements[element as int]@);
            }
        }
    }
}

/// Whether an event is what can come of an action.
pub open spec fn answers(action: ModalAction, event: ModalEvent) -> bool {
    match action {
        ModalAction::ComputeElements => event is Computed || event is Failed,
        ModalAction::RenderElement { .. } => event is Done || event is Failed,
        ModalAction::Return { .. } => event is Begin,
    }
}

/// After each action the modal waits for what can come of it, and for nothing
/// else.
pub proof fn law_modal_waits_for_what_comes_of_its_action(
    state: ModalView,
    event: ModalEvent,
    later: ModalEvent,
)
    ensures
        modal_next(state, event) matches Some((next, action)) ==> (modal_next(next, later) is Some
            <==> answers(action, later)),
{
}

} // verus!
