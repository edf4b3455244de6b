use matrix_frontend::message::{
    MessageContent, MessageError, MessageKind, MessageRelation, MessageRow, MessageState, MsgType,
    RawEventContent, RawEventJson, RoomMessageContent, StateContent, SystemMessage, TimelineEvent,
    Membership, MembershipAction,
};
use matrix_frontend::spans::{extract_mxid, parse_html_to_spans, parse_plain_text_to_spans, RichTextSpan};
use matrix_frontend::storage::queries::{group_space_links, profiles_by_user, resolve_room_name};
use matrix_frontend::storage::rows::{MemberRow, MembershipState, SafeStuff};
use matrix_frontend::storage::sync_plan::{new_joined_rooms, plan_safe_stuff, SyncStatement};
use matrix_frontend::timeline::{apply_timeline_diff, apply_timeline_diffs, group_headers, TimelineDiff, TimelineEntry};

fn s(x: &str) -> String {
    x.to_string()
}

fn plain(span: &RichTextSpan) -> Option<&str> {
    match span {
        RichTextSpan::Plain(t) => Some(t.as_str()),
        _ => None,
    }
}

#[test]
fn mxid_from_links() {
    assert_eq!(extract_mxid("https://matrix.to/#/@bob:x.org"), "@bob:x.org");
    assert_eq!(extract_mxid("matrix:u/bob"), "matrix:u/bob");
}

#[test]
fn html_walk() {
    let spans = parse_html_to_spans(
        "<b>hi</b> <a href=\"https://matrix.to/#/@bob:x\">Bob</a><br>end <a href=\"https://e.org\">e</a>",
        "fallback",
    );
    assert_eq!(spans.len(), 6);
    assert_eq!(plain(&spans[0]), Some("hi"));
    assert_eq!(plain(&spans[1]), Some(" "));
    assert!(matches!(&spans[2], RichTextSpan::UserMention { user_id, display_name } if user_id == "@bob:x" && display_name == "Bob"));
    assert_eq!(plain(&spans[3]), Some("\n"));
    assert_eq!(plain(&spans[4]), Some("end "));
    assert!(matches!(&spans[5], RichTextSpan::Link { url, text: None } if url == "https://e.org"));
    let spans = parse_html_to_spans("<a href=\"https://matrix.to/#/#room:x\">#room</a>", "f");
    assert!(matches!(spans[0], RichTextSpan::RoomMention));
    let spans = parse_html_to_spans("", "fallback");
    assert_eq!(spans.len(), 1);
    assert_eq!(plain(&spans[0]), Some("fallback"));
}

#[test]
fn plain_text_links() {
    let spans = parse_plain_text_to_spans("see https://example.com now");
    assert_eq!(spans.len(), 3);
    assert_eq!(plain(&spans[0]), Some("see "));
    assert!(matches!(&spans[1], RichTextSpan::Link { url, .. } if url == "https://example.com"));
    assert_eq!(plain(&spans[2]), Some(" now"));
    let spans = parse_plain_text_to_spans("");
    assert_eq!(spans.len(), 1);
    assert_eq!(plain(&spans[0]), Some(""));
    let spans = parse_plain_text_to_spans("no links");
    assert_eq!(plain(&spans[0]), Some("no links"));
}

#[test]
fn timeline_diffs() {
    let mut v = vec![1, 2, 3];
    apply_timeline_diff(&mut v, TimelineDiff::PushFront { value: 0 });
    apply_timeline_diff(&mut v, TimelineDiff::Insert { index: 9, value: 7 });
    apply_timeline_diff(&mut v, TimelineDiff::Remove { index: 1 });
    assert_eq!(v, vec![0, 2, 3]);
    apply_timeline_diffs(
        &mut v,
        vec![
            TimelineDiff::Update { index: 0, value: 5 },
            TimelineDiff::PushBack { value: 9 },
            TimelineDiff::Truncate { length: 3 },
            TimelineDiff::PopFront,
        ],
    );
    assert_eq!(v, vec![2, 3]);
    apply_timeline_diff(&mut v, TimelineDiff::Reset { values: vec![4] });
    assert_eq!(v, vec![4]);
    apply_timeline_diff(&mut v, TimelineDiff::Clear);
    apply_timeline_diff(&mut v, TimelineDiff::PopBack);
    assert!(v.is_empty());
}

#[test]
fn headers_group_close_messages() {
    let entries = vec![
        TimelineEntry::DateDivider,
        TimelineEntry::Message { sender: s("@a"), timestamp: 100, replies: false },
        TimelineEntry::Message { sender: s("@a"), timestamp: 200, replies: false },
        TimelineEntry::Message { sender: s("@a"), timestamp: 500, replies: false },
        TimelineEntry::Message { sender: s("@b"), timestamp: 510, replies: false },
        TimelineEntry::Message { sender: s("@b"), timestamp: 520, replies: true },
        TimelineEntry::OtherEvent,
    ];
    let out = group_headers(&entries);
    assert_eq!(
        out,
        vec![(6, false), (5, true), (4, true), (3, true), (2, false), (1, true), (0, false)]
    );
}

#[test]
fn room_names() {
    let id = s("!r:x");
    assert_eq!(resolve_room_name(None, None, &id), None);
    assert_eq!(resolve_room_name(Some((Some(s("Ops")), false)), None, &id), Some(s("Ops")));
    assert_eq!(resolve_room_name(Some((Some(s("Ops")), true)), Some(Some(s("Bob"))), &id), Some(s("Bob")));
    assert_eq!(resolve_room_name(Some((None, true)), Some(None), &id), Some(s("!r:x")));
    assert_eq!(resolve_room_name(Some((None, false)), None, &id), Some(s("!r:x")));
    assert_eq!(resolve_room_name(Some((Some(s("Ops")), true)), None, &id), Some(s("!r:x")));
}

#[test]
fn profiles_keep_last_row() {
    let row = |u: &str, n: &str| MemberRow {
        room_id: s("!r"),
        user_id: s(u),
        display_name: Some(s(n)),
        avatar_url: None,
        membership: MembershipState::Join,
    };
    let out = profiles_by_user(vec![row("@a", "A"), row("@b", "B"), row("@a", "A2")]);
    assert_eq!(out.len(), 2);
    let a = out.iter().find(|p| p.user_id == "@a").unwrap();
    assert_eq!(a.display_name.as_deref(), Some("A2"));
    assert_eq!(MembershipState::from_sql_name("ban").sql_name(), "ban");
    assert!(matches!(MembershipState::from_sql_name("??"), MembershipState::Unknown));
    let plan = plan_safe_stuff(SafeStuff { memberships: vec![row("@c", "C")] });
    assert!(matches!(&plan[0], SyncStatement::UpsertMember(m) if m.user_id == "@c"));
    assert_eq!(SafeStuff::new().memberships.len(), 0);
}

#[test]
fn space_links_group_by_parent() {
    let (spaces, children) = group_space_links(vec![
        (s("!s1"), s("!a")),
        (s("!s2"), s("!b")),
        (s("!s1"), s("!c")),
        (s("!s2"), s("!a")),
    ]);
    assert_eq!(spaces, vec![(s("!s1"), vec![s("!a"), s("!c")]), (s("!s2"), vec![s("!b"), s("!a")])]);
    assert_eq!(children, vec![s("!a"), s("!b"), s("!c")]);
    assert_eq!(new_joined_rooms(&vec![s("!a"), s("!b")], &vec![true, false]), vec![s("!b")]);
}

fn row(state: MessageState, msg_type: &str, edited: bool) -> MessageRow {
    MessageRow {
        event_id: s("$e"),
        room_id: s("!r"),
        sender: s("@a"),
        msg_type: s(msg_type),
        raw_json: s("{}"),
        timestamp: 42,
        state,
        last_edited_id: if edited { Some(s("$edit")) } else { None },
    }
}

fn json() -> RawEventJson {
    RawEventJson {
        is_empty_object: false,
        content: Some(RawEventContent { is_empty_object: false, file: None, call_intent: None }),
    }
}

#[test]
fn messages_become_ui_messages() {
    let event = TimelineEvent::RoomMessage {
        original: Some(RoomMessageContent {
            relation: MessageRelation::Reply { event_id: s("$parent") },
            msgtype: MsgType::Text { body: s("hello"), formatted: None },
        }),
    };
    let ui = row(MessageState::Sent, "m.room.message", true).try_into_ui_message(Some(json()), Some(event)).ok().unwrap();
    assert_eq!(ui.event_id, "$e");
    assert_eq!(ui.timestamp, 42);
    match ui.kind {
        MessageKind::UserMessage(m) => {
            assert_eq!(m.replies_to.as_deref(), Some("$parent"));
            assert!(m.is_edited);
            match m.content {
                MessageContent::Text { spans } => assert_eq!(plain(&spans[0]), Some("hello")),
                _ => panic!("text expected"),
            }
        },
        _ => panic!("user message expected"),
    }
}

#[test]
fn message_errors() {
    let r = row(MessageState::Sent, "m.room.message", false).try_into_ui_message(None, None);
    assert!(matches!(r, Err(MessageError::InvalidEvent)));
    let r = row(MessageState::Unknown, "m.room.message", false).try_into_ui_message(Some(json()), None);
    assert!(matches!(r, Err(MessageError::Silent)));
    let deleted = row(MessageState::Deleted, "m.room.message", false).try_into_ui_message(Some(json()), None);
    assert!(matches!(deleted, Ok(ref m) if m.state == MessageState::Deleted));
    let no_content = RawEventJson { is_empty_object: false, content: None };
    let r = row(MessageState::Sent, "m.room.message", false).try_into_ui_message(Some(no_content), None);
    assert!(matches!(r, Err(MessageError::MissingContent)));
    let other = TimelineEvent::RoomMessage {
        original: Some(RoomMessageContent {
            relation: MessageRelation::NoRelation,
            msgtype: MsgType::Other { description: s("m.location") },
        }),
    };
    let r = row(MessageState::Sent, "m.room.message", false).try_into_ui_message(Some(json()), Some(other));
    assert!(matches!(r, Err(MessageError::UnsupportedMessageType(ref d)) if d == "m.location"));
}

#[test]
fn membership_events() {
    let leave = TimelineEvent::State {
        state_key: s("@b"),
        sender: s("@a"),
        content: Some(StateContent::Member { membership: Membership::Leave, reason: Some(s("spam")) }),
    };
    let ui = row(MessageState::Sent, "m.room.member", false).try_into_ui_message(Some(json()), Some(leave)).ok().unwrap();
    assert!(matches!(
        ui.kind,
        MessageKind::SystemMessage(SystemMessage::MembershipChange(MembershipAction::Kicked { ref target_id, .. })) if target_id == "@b"
    ));
    let own_leave = TimelineEvent::State {
        state_key: s("@a"),
        sender: s("@a"),
        content: Some(StateContent::Member { membership: Membership::Leave, reason: None }),
    };
    let ui = row(MessageState::Sent, "m.room.member", false).try_into_ui_message(Some(json()), Some(own_leave)).ok().unwrap();
    assert!(matches!(ui.kind, MessageKind::SystemMessage(SystemMessage::MembershipChange(MembershipAction::Left))));
    assert_eq!(MessageState::from_name("sending").to_name(), "sending");
}
