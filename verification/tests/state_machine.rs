use pet_theatre::scripting::Action;
use pet_theatre::state_machine::{FsmInput, PetState, StateMachine};

#[test]
fn idle_inject_timeline_goes_to_scripted() {
    let mut fsm = StateMachine::new();
    assert_eq!(fsm.apply(FsmInput::InjectTimeline), PetState::Scripted);
}

#[test]
fn idle_click_goes_to_acting() {
    let mut fsm = StateMachine::new();
    assert_eq!(fsm.apply(FsmInput::Click), PetState::Acting);
}

#[test]
fn acting_inject_timeline_goes_to_scripted() {
    let mut fsm = StateMachine::new();
    fsm.apply(FsmInput::Click);
    assert_eq!(fsm.apply(FsmInput::InjectTimeline), PetState::Scripted);
}

#[test]
fn acting_llm_error_returns_to_idle() {
    let mut fsm = StateMachine::new();
    fsm.apply(FsmInput::Click);
    assert_eq!(fsm.apply(FsmInput::LlmError), PetState::Idle);
}

#[test]
fn scripted_timeline_finished_returns_to_idle() {
    let mut fsm = StateMachine::new();
    fsm.apply(FsmInput::InjectTimeline);
    assert_eq!(fsm.apply(FsmInput::TimelineFinished), PetState::Idle);
}

#[test]
fn drag_does_not_change_state_from_any_state() {
    for initial_input in [None, Some(FsmInput::Click), Some(FsmInput::InjectTimeline)] {
        let mut fsm = StateMachine::new();
        if let Some(input) = initial_input {
            fsm.apply(input);
        }
        let before = fsm.state();
        fsm.apply(FsmInput::Drag);
        assert_eq!(fsm.state(), before);
    }
}

#[test]
fn ignored_input_leaves_state_unchanged() {
    let mut fsm = StateMachine::new();
    fsm.apply(FsmInput::InjectTimeline);
    assert_eq!(fsm.state(), PetState::Scripted);
    fsm.apply(FsmInput::Click);
    assert_eq!(fsm.state(), PetState::Scripted);
}

#[test]
fn new_and_default_start_idle() {
    assert_eq!(StateMachine::new().state(), PetState::Idle);
    assert_eq!(StateMachine::default().state(), PetState::Idle);
}

#[test]
fn default_action_is_idle_in_every_state() {
    let mut fsm = StateMachine::new();
    assert_eq!(fsm.default_action(), Action::Idle);
    fsm.apply(FsmInput::Click);
    assert_eq!(fsm.state(), PetState::Acting);
    assert_eq!(fsm.default_action(), Action::Idle);
    fsm.apply(FsmInput::InjectTimeline);
    assert_eq!(fsm.state(), PetState::Scripted);
    assert_eq!(fsm.default_action(), Action::Idle);
}

#[test]
fn idle_ignores_error_and_finish() {
    let mut fsm = StateMachine::new();
    assert_eq!(fsm.apply(FsmInput::LlmError), PetState::Idle);
    assert_eq!(fsm.apply(FsmInput::TimelineFinished), PetState::Idle);
}

#[test]
fn acting_ignores_click_and_finish() {
    let mut fsm = StateMachine::new();
    fsm.apply(FsmInput::Click);
    assert_eq!(fsm.apply(FsmInput::Click), PetState::Acting);
    assert_eq!(fsm.apply(FsmInput::TimelineFinished), PetState::Acting);
}

#[test]
fn scripted_ignores_error_and_new_script() {
    let mut fsm = StateMachine::new();
    fsm.apply(FsmInput::InjectTimeline);
    assert_eq!(fsm.apply(FsmInput::LlmError), PetState::Scripted);
    assert_eq!(fsm.apply(FsmInput::InjectTimeline), PetState::Scripted);
}

#[test]
fn full_cycle_idle_acting_scripted_idle() {
    let mut fsm = StateMachine::new();
    assert_eq!(fsm.apply(FsmInput::Click), PetState::Acting);
    assert_eq!(fsm.apply(FsmInput::InjectTimeline), PetState::Scripted);
    assert_eq!(fsm.apply(FsmInput::TimelineFinished), PetState::Idle);
}
