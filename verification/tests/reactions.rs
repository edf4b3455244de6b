use matrix_frontend::message::{MessageRow, MessageState};
use matrix_frontend::storage::reactions::{group_message_reactions, MessageReactionRow};

fn s(x: &str) -> String {
    x.to_string()
}

fn message(id: &str, body: &str) -> MessageRow {
    MessageRow {
        event_id: s(id),
        room_id: s("!room"),
        sender: s("@alice"),
        msg_type: s("m.room.message"),
        raw_json: s(body),
        timestamp: 7,
        state: MessageState::Sent,
        last_edited_id: None,
    }
}

fn joined(id: &str, body: &str, reaction: Option<(&str, &str, &str)>) -> MessageReactionRow {
    match reaction {
        Some((user, event, key)) => MessageReactionRow {
            message: message(id, body),
            reactor_id: Some(s(user)),
            reaction_event_id: Some(s(event)),
            reaction_key: Some(s(key)),
        },
        None => MessageReactionRow {
            message: message(id, body),
            reactor_id: None,
            reaction_event_id: None,
            reaction_key: None,
        },
    }
}

#[test]
fn messages_grouped_with_reactions() {
    let rows = vec![
        joined("$a", "first", Some(("@bob", "$r1", "👍"))),
        joined("$b", "other", None),
        joined("$a", "later copy", Some(("@carol", "$r2", "👍"))),
        joined("$a", "first", Some(("@bob", "$r1", "👍"))),
        joined("$a", "first", Some(("@bob", "$r3", "🎉"))),
        MessageReactionRow {
            message: message("$b", "other"),
            reactor_id: Some(s("@dave")),
            reaction_event_id: None,
            reaction_key: Some(s("👍")),
        },
    ];
    let out = group_message_reactions(rows);
    assert_eq!(out.len(), 2);
    assert_eq!(out[0].message.event_id, "$a");
    assert_eq!(out[0].message.raw_json, "first");
    assert_eq!(out[1].message.event_id, "$b");
    assert!(out[1].reactions.is_empty());
    let groups = &out[0].reactions;
    assert_eq!(groups.len(), 2);
    assert_eq!(groups[0].key, "👍");
    let thumbs: Vec<(String, String)> = groups[0]
        .reactors
        .iter()
        .map(|r| (r.user_id.clone(), r.event_id.clone()))
        .collect();
    assert_eq!(thumbs, vec![(s("@bob"), s("$r1")), (s("@carol"), s("$r2"))]);
    assert_eq!(groups[1].key, "🎉");
    assert_eq!(groups[1].reactors.len(), 1);
    assert_eq!(groups[1].reactors[0].event_id, "$r3");
}

#[test]
fn no_rows_no_messages() {
    assert!(group_message_reactions(vec![]).is_empty());
}
