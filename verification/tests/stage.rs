use std::sync::Arc;
use std::time::Duration;

use pet_theatre::animation::{Animation, AnimationTable, Animator};
use pet_theatre::ipc::AppMessage;
use pet_theatre::scripting::{Action, TimelineEvent};
use pet_theatre::stage::Stage;
use pet_theatre::state_machine::PetState;
use pet_theatre::texture::{RgbaFrame, Texture};

fn texture() -> Texture {
    Arc::new(RgbaFrame::from_raw(80, 64, vec![0u8; 80 * 64 * 4]).unwrap())
}

fn stage() -> Stage {
    let mut table = AnimationTable::new();
    for a in [Action::Idle, Action::Walk, Action::Jump, Action::Sleep] {
        table.insert(a, Animation { frames: vec![texture(), texture()], frame_duration: Duration::from_millis(100), looped: true });
    }
    Stage::new(Animator::new(table))
}

fn event(ms: u64, action: Action) -> TimelineEvent {
    TimelineEvent { timestamp_ms: ms, actor_id: "pet1".into(), action }
}

#[test]
fn script_plays_then_pet_returns_to_idle() {
    let mut s = stage();
    s.advance(Duration::from_millis(16));
    assert!(s.receive(AppMessage::InjectTimeline(vec![event(100, Action::Walk), event(300, Action::Sleep)])));
    assert_eq!(s.state(), PetState::Scripted);
    s.advance(Duration::from_millis(50));
    assert_eq!(s.current_action(), Action::Idle);
    s.advance(Duration::from_millis(100));
    assert_eq!(s.current_action(), Action::Walk);
    assert_eq!(s.state(), PetState::Scripted);
    s.advance(Duration::from_millis(200));
    assert!(s.timeline_finished());
    assert_eq!(s.state(), PetState::Idle);
    // the last action is shown in the step that dispatches it
    assert_eq!(s.current_action(), Action::Sleep);
    s.advance(Duration::from_millis(16));
    assert_eq!(s.state(), PetState::Idle);
    assert_eq!(s.current_action(), Action::Idle);
}

#[test]
fn script_finishing_on_its_first_step_returns_to_idle() {
    let mut s = stage();
    s.advance(Duration::from_millis(16));
    assert!(s.receive(AppMessage::InjectTimeline(vec![event(0, Action::Jump)])));
    s.advance(Duration::from_millis(16));
    assert!(s.timeline_finished());
    assert_eq!(s.state(), PetState::Idle);
    assert_eq!(s.current_action(), Action::Jump);
    s.advance(Duration::from_millis(16));
    assert_eq!(s.current_action(), Action::Idle);
}

#[test]
fn empty_script_returns_to_idle() {
    let mut s = stage();
    s.advance(Duration::from_millis(16));
    assert!(s.receive(AppMessage::InjectTimeline(vec![])));
    assert_eq!(s.state(), PetState::Scripted);
    s.advance(Duration::from_millis(16));
    assert_eq!(s.state(), PetState::Idle);
    assert_eq!(s.current_action(), Action::Idle);
}

#[test]
fn second_script_after_a_finished_one_also_ends() {
    let mut s = stage();
    s.receive(AppMessage::InjectTimeline(vec![event(10, Action::Walk)]));
    s.advance(Duration::from_millis(20));
    assert_eq!(s.state(), PetState::Idle);
    s.advance(Duration::from_millis(20));
    s.receive(AppMessage::InjectTimeline(vec![event(0, Action::Jump), event(0, Action::Sleep)]));
    s.advance(Duration::from_millis(1));
    assert_eq!(s.state(), PetState::Idle);
    assert_eq!(s.current_action(), Action::Sleep);
    s.advance(Duration::from_millis(1));
    assert_eq!(s.current_action(), Action::Idle);
}

#[test]
fn model_error_returns_acting_pet_to_idle() {
    let mut s = stage();
    s.pointer_pressed();
    assert!(s.pointer_released());
    assert_eq!(s.state(), PetState::Acting);
    assert!(s.receive(AppMessage::LlmError("offline".into())));
    assert_eq!(s.state(), PetState::Idle);
}

#[test]
fn shutdown_stops_the_loop() {
    let mut s = stage();
    assert!(!s.receive(AppMessage::Shutdown));
    assert_eq!(s.state(), PetState::Idle);
}

#[test]
fn drag_is_not_a_click() {
    let mut s = stage();
    s.pointer_pressed();
    assert!(s.tracking_pointer());
    assert!(!s.pointer_moved(false));
    assert!(s.pointer_moved(true));
    assert!(!s.tracking_pointer());
    assert!(!s.pointer_moved(true));
    assert!(!s.pointer_released());
    assert_eq!(s.state(), PetState::Idle);
}

#[test]
fn release_without_press_is_not_a_click() {
    let mut s = stage();
    assert!(!s.pointer_released());
    assert!(!s.tracking_pointer());
    assert!(!s.pointer_moved(true));
    assert_eq!(s.state(), PetState::Idle);
}

#[test]
fn frame_comes_from_current_action() {
    let mut s = stage();
    assert!(s.frame(Duration::from_millis(16)).is_ok());
    s.receive(AppMessage::InjectTimeline(vec![event(10, Action::Attack), event(5000, Action::Idle)]));
    s.advance(Duration::from_millis(16));
    s.advance(Duration::from_millis(16));
    assert_eq!(s.current_action(), Action::Attack);
    assert!(s.frame(Duration::from_millis(16)).is_err());
}
