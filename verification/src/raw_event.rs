//! Reading a stored event's raw JSON: the fields the conversion reads
//! directly, and the event as the Matrix event types describe it, with the
//! event types that are never shown told apart by name.

use vstd::prelude::*;
use crate::chars::str_eq;
use crate::display::system::strings_view;
use crate::message::{
    bodies_fit, conversion_error, shown_message, FormattedBody, Membership, MessageError, MessageRelation,
    MessageRow, MsgType, RawEventContent, RawEventJson, RawFileKeys, RoomMessageContent, StateContent,
    TimelineEvent, UiMessage,
};
use crate::outside::{
    json_at, opt_chars, read_avatar, read_event_description, read_event_head, read_image, read_image_size, read_member,
    read_msg_kind, read_reaction, read_redaction, read_relation, read_room_name, read_state_description,
    read_text, read_topic, read_verification, ruma_avatar, ruma_event_description, ruma_head, ruma_image, ruma_image_size,
    ruma_member, ruma_msg_kind, ruma_reaction, ruma_redaction, ruma_relation, ruma_room_name,
    ruma_state_description, ruma_text, ruma_topic, ruma_verification, serde_json_pointer,
};

verus! {

broadcast use vstd::string::group_string_axioms;

/// A JSON value, as far as the conversion reads it.
pub enum JsonNode {
    /// An object, by its keys.
    Object(Vec<String>),
    Text(String),
    Other,
}

pub enum JsonNodeView {
    Object(Seq<Seq<char>>),
    Text(Seq<char>),
    Other,
}

pub open spec fn json_node_view(n: JsonNode) -> JsonNodeView {
    match n {
        JsonNode::Object(keys) => JsonNodeView::Object(strings_view(keys@)),
        JsonNode::Text(t) => JsonNodeView::Text(t@),
        JsonNode::Other => JsonNodeView::Other,
    }
}

/// The relation of a room message, as the event types read it.
pub enum RelationKind {
    NoRelation,
    Reply(String),
    Replacement,
    Other,
}

pub enum RelationKindView {
    NoRelation,
    Reply(Seq<char>),
    Replacement,
    Other,
}

pub open spec fn relation_view(r: RelationKind) -> RelationKindView {
    match r {
        RelationKind::NoRelation => RelationKindView::NoRelation,
        RelationKind::Reply(id) => RelationKindView::Reply(id@),
        RelationKind::Replacement => RelationKindView::Replacement,
        RelationKind::Other => RelationKindView::Other,
    }
}

/// The kind of a message type, another kind with its description.
pub enum MsgKind {
    Text,
    Image,
    VerificationRequest,
    Other(String),
}

pub enum MsgKindView {
    Text,
    Image,
    VerificationRequest,
    Other(Seq<char>),
}

pub open spec fn msg_kind_view(k: MsgKind) -> MsgKindView {
    match k {
        MsgKind::Text => MsgKindView::Text,
        MsgKind::Image => MsgKindView::Image,
        MsgKind::VerificationRequest => MsgKindView::VerificationRequest,
        MsgKind::Other(d) => MsgKindView::Other(d@),
    }
}

pub enum MembershipView {
    Ban,
    Invite,
    Join,
    Leave,
    Other(Seq<char>),
}

pub open spec fn membership_view(m: Membership) -> MembershipView {
    match m {
        Membership::Ban => MembershipView::Ban,
        Membership::Invite => MembershipView::Invite,
        Membership::Join => MembershipView::Join,
        Membership::Leave => MembershipView::Leave,
        Membership::Other { name } => MembershipView::Other(name@),
    }
}

// ---- The fields read from the JSON ----

/// The text at a pointer, when a string stands there.
pub open spec fn json_text(raw: Seq<char>, pointer: Seq<char>) -> Option<Seq<char>> {
    match serde_json_pointer(raw, pointer) {
        Some(Some(JsonNodeView::Text(t))) => Some(t),
        _ => None,
    }
}

/// Whether an empty object stands at a pointer.
pub open spec fn json_empty_object(raw: Seq<char>, pointer: Seq<char>) -> bool {
    match serde_json_pointer(raw, pointer) {
        Some(Some(JsonNodeView::Object(keys))) => keys.len() == 0,
        _ => false,
    }
}

/// Whether anything stands at a pointer.
pub open spec fn json_present(raw: Seq<char>, pointer: Seq<char>) -> bool {
    serde_json_pointer(raw, pointer) matches Some(Some(_))
}

/// The fields of the raw JSON: `None` when the text is not JSON; whether
/// the event and its `content` are empty objects; the key material under
/// `content.file`; and `content["m.call.intent"]`.
pub open spec fn json_fields_match(j: Option<RawEventJson>, raw: Seq<char>) -> bool {
    match serde_json_pointer(raw, ""@) {
        None => j is None,
        Some(_) => match j {
            None => false,
            Some(f) => {
                &&& f.is_empty_object == json_empty_object(raw, ""@)
                &&& match f.content {
                    None => !json_present(raw, "/content"@),
                    Some(c) => {
                        &&& json_present(raw, "/content"@)
                        &&& c.is_empty_object == json_empty_object(raw, "/content"@)
                        &&& opt_chars(c.call_intent) == json_text(raw, "/content/m.call.intent"@)
                        &&& match c.file {
                            None => !json_present(raw, "/content/file"@),
                            Some(k) => {
                                &&& json_present(raw, "/content/file"@)
                                &&& opt_chars(k.key) == json_text(raw, "/content/file/key/k"@)
                                &&& opt_chars(k.iv) == json_text(raw, "/content/file/iv"@)
                                &&& opt_chars(k.sha256) == json_text(raw, "/content/file/hashes/sha256"@)
                            },
                        }
                    },
                }
            },
        },
    }
}

fn text_at(raw: &str, pointer: &str) -> (t: Option<String>)
    ensures
        opt_chars(t) == json_text(raw@, pointer@),
{
    match json_at(raw, pointer) {
        Some(Some(JsonNode::Text(t))) => Some(t),
        _ => None,
    }
}

fn empty_object_at(raw: &str, pointer: &str) -> (b: bool)
    ensures
        b == json_empty_object(raw@, pointer@),
{
    match json_at(raw, pointer) {
        Some(Some(JsonNode::Object(keys))) => keys.len() == 0,
        _ => false,
    }
}

fn present_at(raw: &str, pointer: &str) -> (b: bool)
    ensures
        b == json_present(raw@, pointer@),
{
    match json_at(raw, pointer) {
        Some(Some(_)) => true,
        _ => false,
    }
}

/// Reads the fields of an event's raw JSON that the conversion uses.
pub fn read_json_fields(raw: &str) -> (j: Option<RawEventJson>)
    ensures
        json_fields_match(j, raw@),
{
    match json_at(raw, "") {
        None => None,
        Some(_) => {
            let is_empty_object = empty_object_at(raw, "");
            let content = if present_at(raw, "/content") {
                let file = if present_at(raw, "/content/file") {
                    Some(RawFileKeys {
                        key: text_at(raw, "/content/file/key/k"),
                        iv: text_at(raw, "/content/file/iv"),
                        sha256: text_at(raw, "/content/file/hashes/sha256"),
                    })
                } else {
                    None
                };
                Some(RawEventContent {
                    is_empty_object: empty_object_at(raw, "/content"),
                    file,
                    call_intent: text_at(raw, "/content/m.call.intent"),
                })
            } else {
                None
            };
            Some(RawEventJson { is_empty_object, content })
        },
    }
}

// ---- The event read by the Matrix event types ----

/// Call signalling and key verification events: never shown. The call
/// notifications and declines are listed under their unstable names too.
pub open spec fn hidden_message_type(t: Seq<char>) -> bool {
    ||| t == "m.call.invite"@
    ||| t == "m.call.answer"@
    ||| t == "m.call.select_answer"@
    ||| t == "m.call.negotiate"@
    ||| t == "m.call.candidates"@
    ||| t == "m.call.hangup"@
    ||| t == "m.call.sdp_stream_metadata_changed"@
    ||| t == "org.matrix.call.sdp_stream_metadata_changed"@
    ||| t == "m.call.notify"@
    ||| t == "org.matrix.msc4075.call.notify"@
    ||| t == "m.rtc.notification"@
    ||| t == "org.matrix.msc4075.rtc.notification"@
    ||| t == "m.rtc.decline"@
    ||| t == "org.matrix.msc4310.rtc.decline"@
    ||| t == "m.key.verification.ready"@
    ||| t == "m.key.verification.start"@
    ||| t == "m.key.verification.cancel"@
    ||| t == "m.key.verification.accept"@
    ||| t == "m.key.verification.key"@
    ||| t == "m.key.verification.mac"@
    ||| t == "m.key.verification.done"@
}

/// Space links, encryption, power levels and canonical aliases: stored,
/// never shown.
pub open spec fn hidden_state_type(t: Seq<char>) -> bool {
    ||| t == "m.space.child"@
    ||| t == "m.room.encryption"@
    ||| t == "m.space.parent"@
    ||| t == "m.room.power_levels"@
    ||| t == "m.room.canonical_alias"@
}

/// A call membership, under its stable and its unstable name.
pub open spec fn call_member_type(t: Seq<char>) -> bool {
    t == "m.call.member"@ || t == "org.matrix.msc3401.call.member"@
}

pub fn is_hidden_message_type(t: &str) -> (b: bool)
    ensures
        b == hidden_message_type(t@),
{
    str_eq(t, "m.call.invite") || str_eq(t, "m.call.answer") || str_eq(t, "m.call.select_answer") || str_eq(
        t,
        "m.call.negotiate",
    ) || str_eq(t, "m.call.candidates") || str_eq(t, "m.call.hangup") || str_eq(
        t,
        "m.call.sdp_stream_metadata_changed",
    ) || str_eq(t, "org.matrix.call.sdp_stream_metadata_changed") || str_eq(t, "m.call.notify") || str_eq(
        t,
        "org.matrix.msc4075.call.notify",
    ) || str_eq(t, "m.rtc.notification") || str_eq(t, "org.matrix.msc4075.rtc.notification") || str_eq(
        t,
        "m.rtc.decline",
    ) || str_eq(t, "org.matrix.msc4310.rtc.decline") || str_eq(t, "m.key.verification.ready") || str_eq(
        t,
        "m.key.verification.start",
    ) || str_eq(t, "m.key.verification.cancel") || str_eq(t, "m.key.verification.accept") || str_eq(
        t,
        "m.key.verification.key",
    ) || str_eq(t, "m.key.verification.mac") || str_eq(t, "m.key.verification.done")
}

pub fn is_hidden_state_type(t: &str) -> (b: bool)
    ensures
        b == hidden_state_type(t@),
{
    str_eq(t, "m.space.child") || str_eq(t, "m.room.encryption") || str_eq(t, "m.space.parent") || str_eq(
        t,
        "m.room.power_levels",
    ) || str_eq(t, "m.room.canonical_alias")
}

pub fn is_call_member_type(t: &str) -> (b: bool)
    ensures
        b == call_member_type(t@),
{
    str_eq(t, "m.call.member") || str_eq(t, "org.matrix.msc3401.call.member")
}

pub open spec fn formatted_view(f: Option<FormattedBody>) -> Option<(bool, Seq<char>)> {
    match f {
        Some(b) => Some((b.is_html, b.body@)),
        None => None,
    }
}

/// Whether the message type (of the content, or of the replacement's new
/// content) can be read, and `m` is what it reads as.
pub open spec fn msgtype_matches(m: MsgType, raw: Seq<char>, new_content: bool) -> bool {
    match ruma_msg_kind(raw, new_content) {
        Some(MsgKindView::Text) => match ruma_text(raw, new_content) {
            Some((b, f)) => m matches MsgType::Text { body, formatted } && body@ == b && formatted_view(formatted) == f,
            None => false,
        },
        Some(MsgKindView::Image) => match (ruma_image(raw, new_content), ruma_image_size(raw, new_content)) {
            (Some((n, u)), Some((w, h))) => m matches MsgType::Image { filename, width, height, url } && filename@
                == n && width == w && height == h && url@ == u,
            _ => false,
        },
        Some(MsgKindView::VerificationRequest) => match ruma_verification(raw, new_content) {
            Some((ms, t)) => m matches MsgType::VerificationRequest { methods, to } && strings_view(methods@) == ms
                && to@ == t,
            None => false,
        },
        Some(MsgKindView::Other(d)) => m matches MsgType::Other { description } && description@ == d,
        None => false,
    }
}

/// Whether the message type can be read at all.
pub open spec fn msgtype_readable(raw: Seq<char>, new_content: bool) -> bool {
    match ruma_msg_kind(raw, new_content) {
        Some(MsgKindView::Text) => ruma_text(raw, new_content) is Some,
        Some(MsgKindView::Image) => ruma_image(raw, new_content) is Some && ruma_image_size(raw, new_content) is Some,
        Some(MsgKindView::VerificationRequest) => ruma_verification(raw, new_content) is Some,
        Some(MsgKindView::Other(_)) => true,
        None => false,
    }
}

fn read_msgtype(raw: &str, new_content: bool) -> (m: Option<MsgType>)
    ensures
        match m {
            Some(t) => msgtype_readable(raw@, new_content) && msgtype_matches(t, raw@, new_content)
                && (t matches MsgType::Text { body, .. } ==> vstd::utf8::encode_utf8(body@).len() <= usize::MAX),
            None => !msgtype_readable(raw@, new_content),
        },
{
    match read_msg_kind(raw, new_content) {
        None => None,
        Some(MsgKind::Text) => match read_text(raw, new_content) {
            Some((body, f)) => {
                let formatted = match f {
                    Some((is_html, b)) => Some(FormattedBody { is_html, body: b }),
                    None => None,
                };
                Some(MsgType::Text { body, formatted })
            },
            None => None,
        },
        Some(MsgKind::Image) => match (read_image(raw, new_content), read_image_size(raw, new_content)) {
            (Some((filename, url)), Some((width, height))) => Some(MsgType::Image { filename, width, height, url }),
            _ => None,
        },
        Some(MsgKind::VerificationRequest) => match read_verification(raw, new_content) {
            Some((methods, to)) => Some(MsgType::VerificationRequest { methods, to }),
            None => None,
        },
        Some(MsgKind::Other(description)) => Some(MsgType::Other { description }),
    }
}

/// Whether an unredacted room message can be read, and `c` is what it
/// reads as.
pub open spec fn room_message_matches(c: RoomMessageContent, raw: Seq<char>) -> bool {
    &&& msgtype_matches(c.msgtype, raw, false)
    &&& match ruma_relation(raw) {
        Some(RelationKindView::NoRelation) => c.relation is NoRelation,
        Some(RelationKindView::Reply(id)) => c.relation matches MessageRelation::Reply { event_id } && event_id@ == id,
        Some(RelationKindView::Replacement) => c.relation matches MessageRelation::Replacement { new_content }
            && msgtype_matches(new_content, raw, true),
        Some(RelationKindView::Other) => c.relation is Other,
        None => false,
    }
}

pub open spec fn room_message_readable(raw: Seq<char>) -> bool {
    &&& msgtype_readable(raw, false)
    &&& match ruma_relation(raw) {
        Some(RelationKindView::Replacement) => msgtype_readable(raw, true),
        Some(_) => true,
        None => false,
    }
}

/// Whether the content of an unredacted state event of type `t` can be
/// read, and `c` is what it reads as.
pub open spec fn state_content_matches(c: StateContent, raw: Seq<char>, t: Seq<char>) -> bool {
    if t == "m.room.member"@ {
        match ruma_member(raw) {
            Some((m, r)) => c matches StateContent::Member { membership, reason } && membership_view(membership) == m
                && opt_chars(reason) == r,
            None => false,
        }
    } else if call_member_type(t) {
        c is CallMember
    } else if t == "m.room.avatar"@ {
        match ruma_avatar(raw) {
            Some(u) => c matches StateContent::RoomAvatar { url } && opt_chars(url) == u,
            None => false,
        }
    } else if t == "m.room.topic"@ {
        match ruma_topic(raw) {
            Some(x) => c matches StateContent::RoomTopic { topic } && topic@ == x,
            None => false,
        }
    } else if t == "m.room.name"@ {
        match ruma_room_name(raw) {
            Some(x) => c matches StateContent::RoomName { name } && name@ == x,
            None => false,
        }
    } else if t == "m.room.create"@ {
        c is RoomCreate
    } else if hidden_state_type(t) {
        c is Hidden
    } else {
        match ruma_state_description(raw) {
            Some(d) => c matches StateContent::Other { description } && description@ == d,
            None => false,
        }
    }
}

pub open spec fn state_content_readable(raw: Seq<char>, t: Seq<char>) -> bool {
    if t == "m.room.member"@ {
        ruma_member(raw) is Some
    } else if call_member_type(t) {
        true
    } else if t == "m.room.avatar"@ {
        ruma_avatar(raw) is Some
    } else if t == "m.room.topic"@ {
        ruma_topic(raw) is Some
    } else if t == "m.room.name"@ {
        ruma_room_name(raw) is Some
    } else if t == "m.room.create"@ || hidden_state_type(t) {
        true
    } else {
        ruma_state_description(raw) is Some
    }
}

/// Whether the event read from the raw text is `e`: `None` when the event
/// types cannot read it. A message-like event is a room message, a
/// reaction, a redaction, an event that is never shown, or another event
/// with its description; a state event carries its key, its sender and,
/// unless redacted, its content.
pub open spec fn event_matches(e: Option<TimelineEvent>, raw: Seq<char>) -> bool {
    match ruma_head(raw) {
        None => e is None,
        Some((t, redacted, None)) => if t == "m.room.message"@ {
            if redacted {
                e == Some(TimelineEvent::RoomMessage { original: None })
            } else if room_message_readable(raw) {
                e matches Some(TimelineEvent::RoomMessage { original: Some(c) }) && room_message_matches(c, raw)
            } else {
                e is None
            }
        } else if t == "m.reaction"@ {
            match ruma_reaction(raw) {
                Some((i, k)) => e matches Some(TimelineEvent::Reaction { annotation: Some((ei, ek)) }) && ei@ == i && ek@
                    == k,
                None => e == Some(TimelineEvent::Reaction { annotation: None }),
            }
        } else if t == "m.room.redaction"@ {
            match ruma_redaction(raw) {
                Some((i, r)) => e matches Some(TimelineEvent::Redaction { redaction: Some((ei, er)) }) && opt_chars(ei)
                    == i && opt_chars(er) == r,
                None => e == Some(TimelineEvent::Redaction { redaction: None }),
            }
        } else if hidden_message_type(t) {
            e == Some(TimelineEvent::HiddenMessageLike)
        } else {
            match ruma_event_description(raw) {
                Some(d) => e matches Some(TimelineEvent::OtherMessageLike { description }) && description@ == d,
                None => e is None,
            }
        },
        Some((t, redacted, Some((k, s)))) => if redacted {
            e matches Some(TimelineEvent::State { state_key, sender, content: None }) && state_key@ == k && sender@ == s
        } else if state_content_readable(raw, t) {
            e matches Some(TimelineEvent::State { state_key, sender, content: Some(c) }) && state_key@ == k && sender@
                == s && state_content_matches(c, raw, t)
        } else {
            e is None
        },
    }
}

fn read_state_content(raw: &str, t: &str) -> (c: Option<StateContent>)
    ensures
        match c {
            Some(x) => state_content_readable(raw@, t@) && state_content_matches(x, raw@, t@),
            None => !state_content_readable(raw@, t@),
        },
{
    proof {
        reveal_strlit("m.room.member");
        reveal_strlit("m.room.avatar");
        reveal_strlit("m.room.topic");
        reveal_strlit("m.room.name");
        reveal_strlit("m.room.create");
    }
    if str_eq(t, "m.room.member") {
        match read_member(raw) {
            Some((membership, reason)) => Some(StateContent::Member { membership, reason }),
            None => None,
        }
    } else if is_call_member_type(t) {
        Some(StateContent::CallMember)
    } else if str_eq(t, "m.room.avatar") {
        match read_avatar(raw) {
            Some(url) => Some(StateContent::RoomAvatar { url }),
            None => None,
        }
    } else if str_eq(t, "m.room.topic") {
        match read_topic(raw) {
            Some(topic) => Some(StateContent::RoomTopic { topic }),
            None => None,
        }
    } else if str_eq(t, "m.room.name") {
        match read_room_name(raw) {
            Some(name) => Some(StateContent::RoomName { name }),
            None => None,
        }
    } else if str_eq(t, "m.room.create") {
        Some(StateContent::RoomCreate)
    } else if is_hidden_state_type(t) {
        Some(StateContent::Hidden)
    } else {
        match read_state_description(raw) {
            Some(description) => Some(StateContent::Other { description }),
            None => None,
        }
    }
}

/// Reads a stored event with the Matrix event types.
pub fn read_event(raw: &str) -> (e: Option<TimelineEvent>)
    ensures
        event_matches(e, raw@),
        bodies_fit(e),
{
    let (t, redacted, state) = match read_event_head(raw) {
        None => return None,
        Some(h) => h,
    };
    match state {
        None => {
            if str_eq(t.as_str(), "m.room.message") {
                if redacted {
                    return Some(TimelineEvent::RoomMessage { original: None });
                }
                let relation = match read_relation(raw) {
                    None => return None,
                    Some(r) => r,
                };
                let msgtype = match read_msgtype(raw, false) {
                    None => return None,
                    Some(m) => m,
                };
                let relation = match relation {
                    RelationKind::NoRelation => MessageRelation::NoRelation,
                    RelationKind::Reply(event_id) => MessageRelation::Reply { event_id },
                    RelationKind::Replacement => match read_msgtype(raw, true) {
                        None => return None,
                        Some(new_content) => MessageRelation::Replacement { new_content },
                    },
                    RelationKind::Other => MessageRelation::Other,
                };
                Some(TimelineEvent::RoomMessage { original: Some(RoomMessageContent { relation, msgtype }) })
            } else if str_eq(t.as_str(), "m.reaction") {
                Some(TimelineEvent::Reaction { annotation: read_reaction(raw) })
            } else if str_eq(t.as_str(), "m.room.redaction") {
                Some(TimelineEvent::Redaction { redaction: read_redaction(raw) })
            } else if is_hidden_message_type(t.as_str()) {
                Some(TimelineEvent::HiddenMessageLike)
            } else {
                match read_event_description(raw) {
                    None => None,
                    Some(description) => Some(TimelineEvent::OtherMessageLike { description }),
                }
            }
        },
        Some((state_key, sender)) => {
            if redacted {
                return Some(TimelineEvent::State { state_key, sender, content: None });
            }
            match read_state_content(raw, t.as_str()) {
                None => None,
                Some(c) => Some(TimelineEvent::State { state_key, sender, content: Some(c) }),
            }
        },
    }
}

impl MessageRow {
    /// Converts a stored row into the message the timeline shows, reading
    /// its raw JSON: the message is the one for the fields and the event
    /// that the JSON reads as, or the reason there is none.
    pub fn to_ui_message(self) -> (r: Result<UiMessage, MessageError>)
        ensures
            exists|j: Option<RawEventJson>, e: Option<TimelineEvent>|
                #![trigger json_fields_match(j, self.raw_json@), event_matches(e, self.raw_json@)]
                {
                    &&& json_fields_match(j, self.raw_json@)
                    &&& event_matches(e, self.raw_json@)
                    &&& (r is Err <==> conversion_error(self, j, e) is Some)
                    &&& (r matches Err(x) ==> conversion_error(self, j, e) == Some(x))
                    &&& (r matches Ok(m) ==> j matches Some(jj) && shown_message(self, jj, e, m))
                },
    {
        let ghost row = self;
        let j = read_json_fields(self.raw_json.as_str());
        let e = read_event(self.raw_json.as_str());
        let ghost jg = j;
        let ghost eg = e;
        let r = self.try_into_ui_message(j, e);
        assert(json_fields_match(jg, row.raw_json@) && event_matches(eg, row.raw_json@));
        r
    }
}

} // verus!
