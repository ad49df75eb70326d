use pet_theatre::ipc::{encode_message, message_length, message_text, AppMessage, PIPE_NAME};
use pet_theatre::llm::{is_shutdown_request, MockLlmClient};

#[test]
fn message_is_length_prefixed_little_endian() {
    let framed = encode_message("hello").unwrap();
    assert_eq!(framed, vec![5, 0, 0, 0, b'h', b'e', b'l', b'l', b'o']);
}

#[test]
fn message_length_counts_utf8_bytes() {
    let framed = encode_message("猫咪").unwrap();
    assert_eq!(&framed[..4], &[6, 0, 0, 0]);
    assert_eq!(framed.len(), 10);
}

#[test]
fn empty_message_has_zero_header() {
    assert_eq!(encode_message("").unwrap(), vec![0, 0, 0, 0]);
}

#[test]
fn header_decodes_little_endian() {
    assert_eq!(message_length([5, 0, 0, 0]), 5);
    assert_eq!(message_length([0, 1, 0, 0]), 256);
    assert_eq!(message_length([0x78, 0x56, 0x34, 0x12]), 0x1234_5678);
    assert_eq!(message_length([255, 255, 255, 255]), u32::MAX);
}

#[test]
fn message_round_trips() {
    let body = "{\"prompt\": \"走两步然后睡觉\"}";
    let framed = encode_message(body).unwrap();
    let n = message_length([framed[0], framed[1], framed[2], framed[3]]) as usize;
    assert_eq!(n, framed.len() - 4);
    assert_eq!(message_text(framed[4..].to_vec()).unwrap(), body);
}

#[test]
fn invalid_utf8_body_is_rejected() {
    assert!(message_text(vec![0xff, 0xfe]).is_none());
    assert!(message_text(vec![0xe7, 0x8c]).is_none());
    assert_eq!(message_text(vec![b'o', b'k']).unwrap(), "ok");
}

#[test]
fn shutdown_prompt_is_recognised() {
    assert!(is_shutdown_request("__shutdown__"));
    assert!(!is_shutdown_request("walk around then sleep"));
    assert!(!is_shutdown_request("__shutdown__ "));
    assert_eq!(PIPE_NAME, r"\\.\pipe\ai-pet-ipc");
}

#[test]
fn mock_client_answers_with_preset_script() {
    let mock = MockLlmClient { preset_response: "{\"events\": []}".to_string() };
    assert_eq!(mock.scripted_reply("anything"), "{\"events\": []}");
    assert_eq!(mock.scripted_reply(""), "{\"events\": []}");
}

#[test]
fn messages_carry_their_payload() {
    let m = AppMessage::LlmError("offline".to_string());
    assert!(matches!(m, AppMessage::LlmError(ref s) if s == "offline"));
    assert!(matches!(AppMessage::Shutdown, AppMessage::Shutdown));
}
