use vstd::prelude::*;

use crate::scripting::Action;

verus! {

/// Every state of the pet's finite state machine.
#[derive(Debug, Clone, Copy, PartialEq, Eq, Structural)]
pub enum PetState {
    /// Default idle state; the idle animation loops.
    Idle,
    /// A play command was received; waiting for the language model.
    Acting,
    /// Playing a generated script along the timeline.
    Scripted,
}

/// Inputs that drive the state machine.
#[derive(Debug, Clone)]
pub enum FsmInput {
    InjectTimeline,
    LlmError,
    Click,
    Drag,
    TimelineFinished,
}

/// The transition table: the state reached from `s` on input `i`.
/// Pairs not listed leave the state unchanged.
pub open spec fn next_state(s: PetState, i: FsmInput) -> PetState {
    match (s, i) {
        (PetState::Idle, FsmInput::InjectTimeline) => PetState::Scripted,
        (PetState::Idle, FsmInput::Click) => PetState::Acting,
        (PetState::Acting, FsmInput::InjectTimeline) => PetState::Scripted,
        (PetState::Acting, FsmInput::LlmError) => PetState::Idle,
        (PetState::Scripted, FsmInput::TimelineFinished) => PetState::Idle,
        _ => s,
    }
}

pub struct StateMachine {
    state: PetState,
}

impl View for StateMachine {
    type V = PetState;

    closed spec fn view(&self) -> PetState {
        self.state
    }
}

impl StateMachine {
    pub fn new() -> (fsm: Self)
        ensures
            fsm@ == PetState::Idle,
    {
        StateMachine { state: PetState::Idle }
    }

    pub fn state(&self) -> (s: PetState)
        ensures
            s == self@,
    {
        self.state
    }

    /// Applies one input by the transition table and returns the new state.
    /// `Drag` never changes the state.
    pub fn apply(&mut self, input: FsmInput) -> (next: PetState)
        ensures
            next == next_state(old(self)@, input),
            final(self)@ == next,
    {
        let next = match (self.state, input) {
            (PetState::Idle, FsmInput::InjectTimeline) => PetState::Scripted,
            (PetState::Idle, FsmInput::Click) => PetState::Acting,
            (PetState::Acting, FsmInput::InjectTimeline) => PetState::Scripted,
            (PetState::Acting, FsmInput::LlmError) => PetState::Idle,
            (PetState::Scripted, FsmInput::TimelineFinished) => PetState::Idle,
            (state, _) => state,
        };
        self.state = next;
        next
    }

    /// The action the animation engine should show by default in the
    /// current state: the idle action in every state (a timeline overrides
    /// it while scripted).
    pub fn default_action(&self) -> (a: Action)
        ensures
            a == Action::Idle,
    {
        match self.state {
            PetState::Idle => Action::Idle,
            PetState::Acting => Action::Idle,
            PetState::Scripted => Action::Idle,
        }
    }
}

impl Default for StateMachine {
    fn default() -> (fsm: Self)
        ensures
            fsm@ == PetState::Idle,
    {
        Self::new()
    }
}

/// The documented cycle: a click makes an idle pet wait for the model
/// (Acting); a loaded script makes an idle or waiting pet play it
/// (Scripted); a model error returns a waiting pet to idle; the end of the
/// timeline returns a scripted pet to idle.
pub proof fn lemma_documented_transitions()
    ensures
        next_state(PetState::Idle, FsmInput::Click) == PetState::Acting,
        next_state(PetState::Idle, FsmInput::InjectTimeline) == PetState::Scripted,
        next_state(PetState::Acting, FsmInput::InjectTimeline) == PetState::Scripted,
        next_state(PetState::Acting, FsmInput::LlmError) == PetState::Idle,
        next_state(PetState::Scripted, FsmInput::TimelineFinished) == PetState::Idle,
{
}

/// `Drag` leaves every state unchanged.
pub proof fn lemma_drag_keeps_state(s: PetState)
    ensures
        next_state(s, FsmInput::Drag) == s,
{
}

/// The scripted state is entered only on `InjectTimeline`, from idle or acting.
pub proof fn lemma_scripted_entered_only_by_injection(s: PetState, i: FsmInput)
    requires
        s != PetState::Scripted,
        next_state(s, i) == PetState::Scripted,
    ensures
        i is InjectTimeline,
{
}

/// The acting state is entered only by a click while idle.
pub proof fn lemma_acting_entered_only_by_click(s: PetState, i: FsmInput)
    requires
        s != PetState::Acting,
        next_state(s, i) == PetState::Acting,
    ensures
        s == PetState::Idle,
        i is Click,
{
}

/// The idle state is re-entered only on a model error while acting, or when
/// the timeline finishes while scripted.
pub proof fn lemma_idle_reentered_only_on_error_or_finish(s: PetState, i: FsmInput)
    requires
        s != PetState::Idle,
        next_state(s, i) == PetState::Idle,
    ensures
        (s == PetState::Acting && i is LlmError) || (s == PetState::Scripted && i is TimelineFinished),
{
}

/// A click while scripted, or any input outside the table, is ignored.
pub proof fn lemma_scripted_ignores_all_but_finish(i: FsmInput)
    requires
        !(i is TimelineFinished),
    ensures
        next_state(PetState::Scripted, i) == PetState::Scripted,
{
}

} // verus!
