use std::sync::Arc;
use std::time::Duration;

use pet_theatre::animation::{Animation, AnimationTable, Animator, EffectPlayer};
use pet_theatre::scripting::{Action, EngineError};
use pet_theatre::texture::{RgbaFrame, Texture};

fn make_texture() -> Texture {
    Arc::new(RgbaFrame::from_raw(32, 32, vec![0u8; 32 * 32 * 4]).unwrap())
}

fn make_animator(frame_count: usize, duration_ms: u64, looped: bool) -> Animator {
    let frames = (0..frame_count).map(|_| make_texture()).collect();
    let anim = Animation {
        frames,
        frame_duration: Duration::from_millis(duration_ms),
        looped,
    };
    let mut map = AnimationTable::new();
    map.insert(Action::Idle, anim);
    Animator::new(map)
}

fn distinct_frames(n: usize) -> Vec<Texture> {
    (0..n).map(|_| make_texture()).collect()
}

fn animator_with(frames: &[Texture], duration_ms: u64, looped: bool) -> Animator {
    let anim = Animation {
        frames: frames.to_vec(),
        frame_duration: Duration::from_millis(duration_ms),
        looped,
    };
    let mut map = AnimationTable::new();
    map.insert(Action::Idle, anim);
    Animator::new(map)
}

#[test]
fn returns_first_frame_at_zero_elapsed() {
    let mut a = make_animator(4, 200, true);
    let f0 = a.update(Duration::ZERO).unwrap();
    let _ = f0;
}

#[test]
fn advances_frame_at_boundary() {
    let mut a = make_animator(4, 200, true);
    let _ = a.update(Duration::from_millis(200)).unwrap();
    let _ = a.update(Duration::from_millis(200)).unwrap();
}

#[test]
fn looped_animation_wraps() {
    let mut a = make_animator(4, 200, true);
    let _ = a.update(Duration::from_millis(800)).unwrap();
}

#[test]
fn non_looped_animation_clamps_to_last_frame() {
    let mut a = make_animator(4, 200, false);
    let _ = a.update(Duration::from_millis(9999)).unwrap();
}

#[test]
fn set_action_resets_elapsed() {
    let frames = vec![make_texture()];
    let idle = Animation { frames: frames.clone(), frame_duration: Duration::from_millis(200), looped: true };
    let walk = Animation { frames, frame_duration: Duration::from_millis(100), looped: true };
    let mut map = AnimationTable::new();
    map.insert(Action::Idle, idle);
    map.insert(Action::Walk, walk);
    let mut a = Animator::new(map);

    let _ = a.update(Duration::from_millis(500)).unwrap();
    a.set_action(Action::Walk);
    assert_eq!(a.elapsed(), Duration::ZERO);
}

#[test]
fn set_action_same_action_is_noop() {
    let mut a = make_animator(4, 200, true);
    let _ = a.update(Duration::from_millis(150)).unwrap();
    let elapsed_before = a.elapsed();
    a.set_action(Action::Idle);
    assert_eq!(a.elapsed(), elapsed_before);
}

#[test]
fn missing_action_returns_error() {
    let mut a = make_animator(1, 100, true);
    a.set_action(Action::Walk);
    let result = a.update(Duration::ZERO);
    assert!(matches!(result, Err(EngineError::MissingAnimation(Action::Walk))));
}

#[test]
fn frame_index_follows_elapsed_time() {
    let frames = distinct_frames(4);
    let mut a = animator_with(&frames, 200, true);
    assert!(Arc::ptr_eq(a.update(Duration::ZERO).unwrap(), &frames[0]));
    assert!(Arc::ptr_eq(a.update(Duration::from_millis(199)).unwrap(), &frames[0]));
    assert!(Arc::ptr_eq(a.update(Duration::from_millis(1)).unwrap(), &frames[1]));
    assert!(Arc::ptr_eq(a.update(Duration::from_millis(599)).unwrap(), &frames[3]));
    assert!(Arc::ptr_eq(a.update(Duration::from_millis(1)).unwrap(), &frames[0]));
}

#[test]
fn one_shot_holds_last_frame() {
    let frames = distinct_frames(3);
    let mut a = animator_with(&frames, 100, false);
    assert!(Arc::ptr_eq(a.update(Duration::from_millis(150)).unwrap(), &frames[1]));
    assert!(Arc::ptr_eq(a.update(Duration::from_millis(10_000)).unwrap(), &frames[2]));
}

#[test]
fn zero_frame_duration_counts_as_one_millisecond() {
    let frames = distinct_frames(5);
    let mut a = animator_with(&frames, 0, true);
    assert!(Arc::ptr_eq(a.update(Duration::from_millis(3)).unwrap(), &frames[3]));
}

#[test]
fn sub_millisecond_time_accumulates() {
    let frames = distinct_frames(2);
    let mut a = animator_with(&frames, 1, true);
    assert!(Arc::ptr_eq(a.update(Duration::from_micros(600)).unwrap(), &frames[0]));
    assert!(Arc::ptr_eq(a.update(Duration::from_micros(600)).unwrap(), &frames[1]));
}

#[test]
fn table_insert_get_and_replace() {
    let mut t = AnimationTable::new();
    assert!(!t.contains_key(Action::Jump));
    let first = Animation { frames: distinct_frames(1), frame_duration: Duration::from_millis(10), looped: true };
    let second = Animation { frames: distinct_frames(2), frame_duration: Duration::from_millis(20), looped: false };
    assert!(t.insert(Action::Jump, first).is_none());
    assert!(t.contains_key(Action::Jump));
    assert!(!t.contains_key(Action::Walk));
    let prev = t.insert(Action::Jump, second).unwrap();
    assert_eq!(prev.frames.len(), 1);
    let got = t.get(Action::Jump).unwrap();
    assert_eq!(got.frames.len(), 2);
    assert!(!got.looped);
    assert!(t.get(Action::Idle).is_none());
}

#[test]
fn animator_starts_on_idle() {
    let mut a = make_animator(2, 100, true);
    assert_eq!(a.current_action(), Action::Idle);
    a.set_action(Action::Sleep);
    assert_eq!(a.current_action(), Action::Sleep);
}

#[test]
fn effect_one_shot_ends_then_stays_ended() {
    let frames = distinct_frames(3);
    let anim = Animation { frames: frames.clone(), frame_duration: Duration::from_millis(100), looped: false };
    let mut e = EffectPlayer::new(anim);
    assert!(Arc::ptr_eq(e.update(Duration::ZERO).unwrap(), &frames[0]));
    assert!(Arc::ptr_eq(e.update(Duration::from_millis(250)).unwrap(), &frames[2]));
    assert!(e.update(Duration::from_millis(50)).is_none());
    assert!(e.update(Duration::ZERO).is_none());
}

#[test]
fn effect_looped_never_ends() {
    let frames = distinct_frames(2);
    let anim = Animation { frames: frames.clone(), frame_duration: Duration::from_millis(100), looped: true };
    let mut e = EffectPlayer::new(anim);
    assert!(Arc::ptr_eq(e.update(Duration::from_millis(10_050)).unwrap(), &frames[0]));
    assert!(Arc::ptr_eq(e.update(Duration::from_millis(100)).unwrap(), &frames[1]));
}

#[test]
fn effect_with_no_frames_ends_at_once() {
    let anim = Animation { frames: Vec::new(), frame_duration: Duration::from_millis(100), looped: false };
    let mut e = EffectPlayer::new(anim);
    assert!(e.update(Duration::ZERO).is_none());
}

#[test]
fn clock_advances_even_when_animation_is_missing() {
    let mut a = make_animator(1, 100, true);
    a.set_action(Action::Walk);
    assert!(a.update(Duration::from_millis(70)).is_err());
    assert_eq!(a.elapsed(), Duration::from_millis(70));
    assert!(!a.can_update(&Duration::MAX));
    assert!(a.can_update(&Duration::from_millis(1)));
}

#[test]
fn empty_animation_cannot_be_updated() {
    let anim = Animation { frames: Vec::new(), frame_duration: Duration::from_millis(100), looped: true };
    let mut map = AnimationTable::new();
    map.insert(Action::Idle, anim);
    let a = Animator::new(map);
    assert!(!a.can_update(&Duration::ZERO));
}

#[test]
fn animation_new_sets_frame_length() {
    let anim = Animation::new(distinct_frames(2), 250, false);
    assert_eq!(anim.frame_duration, Duration::from_millis(250));
    assert_eq!(anim.frames.len(), 2);
    assert!(!anim.looped);
}

#[test]
fn idle_animation_is_required() {
    let mut t = AnimationTable::new();
    t.insert(Action::Walk, Animation::new(distinct_frames(1), 100, true));
    match t.require_idle() {
        Err(EngineError::ConfigInvalid(msg)) => assert_eq!(msg, "Config must contain 'idle' action"),
        _ => panic!("expected ConfigInvalid"),
    }
    t.insert(Action::Idle, Animation::new(distinct_frames(1), 100, true));
    assert!(t.require_idle().is_ok());
}

#[test]
fn effect_update_precondition_is_testable() {
    let looped_empty = EffectPlayer::new(Animation::new(Vec::new(), 100, true));
    assert!(!looped_empty.can_update(&Duration::ZERO));
    let mut one_shot = EffectPlayer::new(Animation::new(distinct_frames(1), 100, false));
    assert!(one_shot.can_update(&Duration::MAX));
    assert!(one_shot.update(Duration::from_millis(10)).is_some());
    assert!(!one_shot.can_update(&Duration::MAX));
    assert!(one_shot.update(Duration::from_millis(100)).is_none());
    assert!(one_shot.can_update(&Duration::MAX));
}

#[test]
fn effect_run_follows_total_elapsed_time() {
    let frames = distinct_frames(3);
    let mut e = EffectPlayer::new(Animation::new(frames.clone(), 100, false));
    // totals 40, 140, 290 ms: frames 0, 1, 2; then 300 ms: ended
    assert!(Arc::ptr_eq(e.update(Duration::from_millis(40)).unwrap(), &frames[0]));
    assert!(Arc::ptr_eq(e.update(Duration::from_millis(100)).unwrap(), &frames[1]));
    assert!(Arc::ptr_eq(e.update(Duration::from_millis(150)).unwrap(), &frames[2]));
    assert!(e.update(Duration::from_millis(10)).is_none());
    assert!(e.update(Duration::ZERO).is_none());
}
