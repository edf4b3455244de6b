use matrix_frontend::message::{
    MembershipAction, MessageContent, MessageError, MessageKind, MessageRow, MessageState, SystemMessage,
};
use matrix_frontend::raw_event::{is_hidden_message_type, read_json_fields};
use matrix_frontend::spans::RichTextSpan;

fn s(x: &str) -> String {
    x.to_string()
}

fn stored(msg_type: &str, raw: &str) -> MessageRow {
    MessageRow {
        event_id: s("$e"),
        room_id: s("!r:x"),
        sender: s("@a:x"),
        msg_type: s(msg_type),
        raw_json: s(raw),
        timestamp: 7,
        state: MessageState::Sent,
        last_edited_id: None,
    }
}

#[test]
fn text_message_from_raw_json() {
    let raw = r#"{"type":"m.room.message","event_id":"$e","sender":"@a:x","origin_server_ts":1,"content":{"msgtype":"m.text","body":"hi"}}"#;
    let m = stored("m.room.message", raw).to_ui_message().ok().unwrap();
    match m.kind {
        MessageKind::UserMessage(u) => match u.content {
            MessageContent::Text { spans } => {
                assert_eq!(spans.len(), 1);
                assert!(matches!(&spans[0], RichTextSpan::Plain(t) if t == "hi"));
            }
            _ => panic!("expected text"),
        },
        _ => panic!("expected a user message"),
    }
}

#[test]
fn reaction_from_raw_json() {
    let raw = r#"{"type":"m.reaction","event_id":"$r","sender":"@a:x","origin_server_ts":1,"content":{"m.relates_to":{"rel_type":"m.annotation","event_id":"$t","key":"👍"}}}"#;
    let m = stored("m.reaction", raw).to_ui_message().ok().unwrap();
    assert!(matches!(m.kind, MessageKind::SystemMessage(SystemMessage::MessageReacted { ref event_id, ref reaction })
        if event_id == "$t" && reaction == "👍"));
}

#[test]
fn member_join_and_hidden_state_from_raw_json() {
    let raw = r#"{"type":"m.room.member","state_key":"@b:x","event_id":"$m","sender":"@b:x","origin_server_ts":1,"content":{"membership":"join"}}"#;
    let m = stored("m.room.member", raw).to_ui_message().ok().unwrap();
    assert!(matches!(m.kind, MessageKind::SystemMessage(SystemMessage::MembershipChange(MembershipAction::Joined))));
    let raw = r#"{"type":"m.space.child","state_key":"!c:x","event_id":"$s","sender":"@a:x","origin_server_ts":1,"content":{"via":["x"]}}"#;
    assert!(stored("m.space.child", raw).to_ui_message().err() == Some(MessageError::Silent));
}

#[test]
fn call_membership_from_raw_json() {
    let joined = r#"{"type":"org.matrix.msc3401.call.member","state_key":"_@a:x_D","event_id":"$c","sender":"@a:x","origin_server_ts":1,"content":{"m.call.intent":"video","application":"m.call"}}"#;
    let m = stored("org.matrix.msc3401.call.member", joined).to_ui_message().ok().unwrap();
    assert!(matches!(m.kind, MessageKind::SystemMessage(SystemMessage::CallJoined { ref intent }) if intent == "video"));
    let left = r#"{"type":"org.matrix.msc3401.call.member","state_key":"_@a:x_D","event_id":"$c","sender":"@a:x","origin_server_ts":1,"content":{}}"#;
    let m = stored("org.matrix.msc3401.call.member", left).to_ui_message().ok().unwrap();
    assert!(matches!(m.kind, MessageKind::SystemMessage(SystemMessage::CallLeft)));
}

#[test]
fn unreadable_and_unknown_events() {
    assert!(stored("m.room.message", "not json").to_ui_message().err() == Some(MessageError::InvalidEvent));
    let raw = r#"{"type":"com.example.thing","event_id":"$x","sender":"@a:x","origin_server_ts":1,"content":{"a":1}}"#;
    assert!(matches!(stored("com.example.thing", raw).to_ui_message().err(), Some(MessageError::UnsupportedEventType(_))));
}

#[test]
fn json_fields_of_an_encrypted_image() {
    let raw = r#"{"content":{"file":{"key":{"k":"KEY"},"iv":"IV","hashes":{"sha256":"H"}},"m.call.intent":"audio"}}"#;
    let j = read_json_fields(raw).unwrap();
    assert!(!j.is_empty_object);
    let c = j.content.unwrap();
    assert!(!c.is_empty_object);
    let f = c.file.unwrap();
    assert_eq!(f.key, Some(s("KEY")));
    assert_eq!(f.iv, Some(s("IV")));
    assert_eq!(f.sha256, Some(s("H")));
    assert_eq!(c.call_intent, Some(s("audio")));
    assert!(read_json_fields("{}").unwrap().is_empty_object);
    assert!(read_json_fields("[1").is_none());
    assert!(read_json_fields("{\"content\":{}}").unwrap().content.unwrap().is_empty_object);
}

#[test]
fn hidden_message_types() {
    assert!(is_hidden_message_type("m.call.invite"));
    assert!(is_hidden_message_type("m.key.verification.done"));
    assert!(is_hidden_message_type("org.matrix.msc4075.rtc.notification"));
    assert!(!is_hidden_message_type("m.call.reject"));
    assert!(!is_hidden_message_type("m.room.message"));
}
