use pet_theatre::config::{configured_action, frame_file_name};
use pet_theatre::scripting::{Action, TimelineEvent};

#[test]
fn valid_action_strings_parse_correctly() {
    assert_eq!(Action::from_str_or_fallback("idle"), Action::Idle);
    assert_eq!(Action::from_str_or_fallback("walk"), Action::Walk);
    assert_eq!(Action::from_str_or_fallback("jump"), Action::Jump);
    assert_eq!(Action::from_str_or_fallback("attack"), Action::Attack);
    assert_eq!(Action::from_str_or_fallback("sleep"), Action::Sleep);
    assert_eq!(Action::from_str_or_fallback("happy"), Action::Happy);
    assert_eq!(Action::from_str_or_fallback("angry"), Action::Angry);
}

#[test]
fn unknown_action_string_falls_back_to_idle() {
    assert_eq!(Action::from_str_or_fallback("fly"), Action::Idle);
    assert_eq!(Action::from_str_or_fallback("dance"), Action::Idle);
    assert_eq!(Action::from_str_or_fallback(""), Action::Idle);
    assert_eq!(Action::from_str_or_fallback("Walk"), Action::Idle);
    assert_eq!(Action::from_str_or_fallback("walk "), Action::Idle);
}

#[test]
fn default_action_is_idle() {
    assert_eq!(Action::default(), Action::Idle);
}

#[test]
fn script_entry_resolves_action_name() {
    let e = TimelineEvent::from_script_entry(1000, "pet1".to_string(), "jump");
    assert_eq!(e.timestamp_ms, 1000);
    assert_eq!(e.actor_id, "pet1");
    assert_eq!(e.action, Action::Jump);
    let e = TimelineEvent::from_script_entry(0, "pet1".to_string(), "dance");
    assert_eq!(e.action, Action::Idle);
}

#[test]
fn config_keys_outside_the_whitelist_are_skipped() {
    assert_eq!(configured_action("idle"), Some(Action::Idle));
    assert_eq!(configured_action("walk"), Some(Action::Walk));
    assert_eq!(configured_action("angry"), Some(Action::Angry));
    assert_eq!(configured_action("shockwave"), None);
    assert_eq!(configured_action("IDLE"), None);
}

#[test]
fn frame_files_are_numbered_with_three_digits() {
    assert_eq!(frame_file_name(1), "001.png");
    assert_eq!(frame_file_name(12), "012.png");
    assert_eq!(frame_file_name(123), "123.png");
    assert_eq!(frame_file_name(1000), "1000.png");
    assert_eq!(frame_file_name(0), "000.png");
    assert_eq!(frame_file_name(usize::MAX), format!("{}.png", usize::MAX));
}
