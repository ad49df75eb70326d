use std::time::Duration;

use pet_theatre::scripting::{Action, TimelineEvent};
use pet_theatre::timeline::Timeline;

fn event(ms: u64, action: Action) -> TimelineEvent {
    TimelineEvent { timestamp_ms: ms, actor_id: "pet1".into(), action }
}

#[test]
fn events_dispatched_at_correct_timestamp() {
    let mut t = Timeline::new();
    t.push_events(vec![event(0, Action::Idle), event(500, Action::Walk), event(1000, Action::Sleep)]);

    let due = t.tick(Duration::from_millis(0));
    assert_eq!(due.len(), 1);
    assert_eq!(due[0].action, Action::Idle);

    let due = t.tick(Duration::from_millis(500));
    assert_eq!(due.len(), 1);
    assert_eq!(due[0].action, Action::Walk);

    let due = t.tick(Duration::from_millis(500));
    assert_eq!(due.len(), 1);
    assert_eq!(due[0].action, Action::Sleep);

    assert!(t.finished);
}

#[test]
fn out_of_order_events_are_sorted_on_push() {
    let mut t = Timeline::new();
    t.push_events(vec![event(1000, Action::Sleep), event(200, Action::Walk), event(500, Action::Jump)]);

    let due = t.tick(Duration::from_millis(300));
    assert_eq!(due.len(), 1);
    assert_eq!(due[0].timestamp_ms, 200);
}

#[test]
fn multiple_events_in_same_tick_all_dispatched() {
    let mut t = Timeline::new();
    t.push_events(vec![event(0, Action::Idle), event(0, Action::Walk)]);

    let due = t.tick(Duration::ZERO);
    assert_eq!(due.len(), 2);
}

#[test]
fn finished_is_set_after_last_event() {
    let mut t = Timeline::new();
    t.push_events(vec![event(100, Action::Idle)]);
    assert!(!t.finished);

    t.tick(Duration::from_millis(200));
    assert!(t.finished);
}

#[test]
fn empty_timeline_does_not_panic() {
    let mut t = Timeline::new();
    t.push_events(vec![]);
    let due = t.tick(Duration::from_millis(1000));
    assert!(due.is_empty());
    assert!(t.finished);
}

#[test]
fn push_events_resets_previous_playback() {
    let mut t = Timeline::new();
    t.push_events(vec![event(0, Action::Idle), event(500, Action::Walk)]);
    t.tick(Duration::from_millis(1000));
    assert!(t.finished);

    t.push_events(vec![event(0, Action::Jump)]);
    assert!(!t.finished);
    let due = t.tick(Duration::ZERO);
    assert_eq!(due.len(), 1);
    assert_eq!(due[0].action, Action::Jump);
}

#[test]
fn equal_timestamps_keep_script_order() {
    let mut t = Timeline::new();
    t.push_events(vec![
        event(300, Action::Angry),
        event(100, Action::Walk),
        event(300, Action::Attack),
        event(100, Action::Jump),
        event(300, Action::Happy),
    ]);
    let due = t.tick(Duration::from_millis(300));
    let got: Vec<Action> = due.iter().map(|e| e.action).collect();
    assert_eq!(got, vec![Action::Walk, Action::Jump, Action::Angry, Action::Attack, Action::Happy]);
    assert!(t.finished);
}

#[test]
fn each_event_is_dispatched_once_in_order() {
    let mut t = Timeline::new();
    t.push_events(vec![event(250, Action::Jump), event(50, Action::Walk), event(900, Action::Sleep)]);
    let mut seen = Vec::new();
    for _ in 0..10 {
        for e in t.tick(Duration::from_millis(100)) {
            seen.push(e.timestamp_ms);
        }
    }
    assert_eq!(seen, vec![50, 250, 900]);
}

#[test]
fn finished_timeline_returns_nothing() {
    let mut t = Timeline::new();
    assert!(t.finished);
    assert!(t.is_empty());
    assert!(t.tick(Duration::from_millis(10)).is_empty());
    t.push_events(vec![event(0, Action::Walk)]);
    assert!(!t.is_empty());
    assert_eq!(t.tick(Duration::ZERO).len(), 1);
    assert!(t.tick(Duration::from_millis(10)).is_empty());
    assert!(t.is_finished());
}

#[test]
fn sub_millisecond_ticks_do_not_advance_the_clock() {
    let mut t = Timeline::new();
    t.push_events(vec![event(1, Action::Walk)]);
    for _ in 0..5 {
        assert!(t.tick(Duration::from_micros(900)).is_empty());
    }
    assert_eq!(t.tick(Duration::from_millis(1)).len(), 1);
}

#[test]
fn default_timeline_is_finished_and_empty() {
    let t = Timeline::default();
    assert!(t.finished);
    assert!(t.is_empty());
}

#[test]
fn sorted_script_is_kept_in_its_order() {
    let mut t = Timeline::new();
    t.push_events(vec![
        event(0, Action::Walk),
        event(0, Action::Jump),
        event(10, Action::Sleep),
        event(10, Action::Idle),
    ]);
    let got: Vec<Action> = t.tick(Duration::from_millis(10)).iter().map(|e| e.action).collect();
    assert_eq!(got, vec![Action::Walk, Action::Jump, Action::Sleep, Action::Idle]);
}

#[test]
fn script_plays_out_over_many_ticks() {
    let script = vec![
        event(700, Action::Sleep),
        event(0, Action::Idle),
        event(300, Action::Walk),
        event(300, Action::Jump),
        event(650, Action::Happy),
    ];
    let mut t = Timeline::new();
    t.push_events(script.clone());
    let mut seen = Vec::new();
    for _ in 0..6 {
        for e in t.tick(Duration::from_millis(100)) {
            seen.push((e.timestamp_ms, e.action));
        }
        assert!(!t.is_empty());
    }
    assert!(!t.finished);
    for e in t.tick(Duration::from_millis(100)) {
        seen.push((e.timestamp_ms, e.action));
    }
    assert!(t.finished);
    assert!(!t.is_empty());
    assert_eq!(
        seen,
        vec![(0, Action::Idle), (300, Action::Walk), (300, Action::Jump), (650, Action::Happy), (700, Action::Sleep)]
    );
}
