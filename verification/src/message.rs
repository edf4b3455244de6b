//! Turning a stored message row into the message the timeline shows.

use vstd::prelude::*;
use crate::chars::str_eq;
use crate::spans::{
    html_spans_of, parse_html_to_spans, parse_plain_text_to_spans, plain_pieces, span_piece,
    spans_view, RichTextSpan, SpanView,
};
use crate::outside::{linkify_url_links, scraper_fragment_walk};
use vstd::string::StringSliceAdditionalSpecFns;

verus! {

broadcast use vstd::string::group_string_axioms;

/// The delivery state of a stored message.
#[derive(PartialEq, Eq, Structural)]
pub enum MessageState {
    Sending,
    Sent,
    Failed,
    Deleted,
    Unknown,
}

/// The state stored for a state name; names this library does not know map
/// to `Unknown`.
pub open spec fn state_of_name(name: Seq<char>) -> MessageState {
    if name == "sending"@ {
        MessageState::Sending
    } else if name == "sent"@ {
        MessageState::Sent
    } else if name == "failed"@ {
        MessageState::Failed
    } else if name == "deleted"@ {
        MessageState::Deleted
    } else {
        MessageState::Unknown
    }
}

pub open spec fn name_of_state(s: MessageState) -> Seq<char> {
    match s {
        MessageState::Sending => "sending"@,
        MessageState::Sent => "sent"@,
        MessageState::Failed => "failed"@,
        MessageState::Deleted => "deleted"@,
        MessageState::Unknown => "unknown"@,
    }
}

impl MessageState {
    /// Reads a state from the name stored in the database.
    pub fn from_name(name: &str) -> (s: MessageState)
        ensures
            s == state_of_name(name@),
    {
        if str_eq(name, "sending") {
            MessageState::Sending
        } else if str_eq(name, "sent") {
            MessageState::Sent
        } else if str_eq(name, "failed") {
            MessageState::Failed
        } else if str_eq(name, "deleted") {
            MessageState::Deleted
        } else {
            MessageState::Unknown
        }
    }

    /// The name under which the state is stored.
    pub fn to_name(&self) -> (name: &'static str)
        ensures
            name@ == name_of_state(*self),
    {
        match self {
            MessageState::Sending => "sending",
            MessageState::Sent => "sent",
            MessageState::Failed => "failed",
            MessageState::Deleted => "deleted",
            MessageState::Unknown => "unknown",
        }
    }
}

/// A message as stored in the `messages` table.
pub struct MessageRow {
    pub event_id: String,
    pub room_id: String,
    pub sender: String,
    pub msg_type: String,
    pub raw_json: String,
    pub timestamp: u64,
    pub state: MessageState,
    pub last_edited_id: Option<String>,
}

/// The key material of an encrypted attachment, as found in the raw event.
pub struct RawFileKeys {
    pub key: Option<String>,
    pub iv: Option<String>,
    pub sha256: Option<String>,
}

/// What the raw JSON of an event holds, as far as the conversion reads it.
pub struct RawEventJson {
    /// The whole event is the empty JSON object.
    pub is_empty_object: bool,
    /// The event's `content`, if it has one.
    pub content: Option<RawEventContent>,
}

pub struct RawEventContent {
    pub is_empty_object: bool,
    /// `content.file`, when present.
    pub file: Option<RawFileKeys>,
    /// `content["m.call.intent"]`, when it is a string.
    pub call_intent: Option<String>,
}

/// The formatted body of a text message.
pub struct FormattedBody {
    pub is_html: bool,
    pub body: String,
}

/// The message types the conversion tells apart.
pub enum MsgType {
    Text { body: String, formatted: Option<FormattedBody> },
    Image { filename: String, width: Option<u64>, height: Option<u64>, url: String },
    VerificationRequest { methods: Vec<String>, to: String },
    Other { description: String },
}

pub enum MessageRelation {
    NoRelation,
    Reply { event_id: String },
    Replacement { new_content: MsgType },
    Other,
}

pub struct RoomMessageContent {
    pub relation: MessageRelation,
    pub msgtype: MsgType,
}

pub enum Membership {
    Ban,
    Invite,
    Join,
    Leave,
    Other { name: String },
}

pub enum StateContent {
    Member { membership: Membership, reason: Option<String> },
    CallMember,
    RoomAvatar { url: Option<String> },
    RoomTopic { topic: String },
    RoomName { name: String },
    RoomCreate,
    /// Space links, encryption, power levels and aliases: stored, never shown.
    Hidden,
    Other { description: String },
}

/// A timeline event as the Matrix event types describe it, reduced to what
/// the conversion reads. `None` in the first field of a message-like
/// event marks a redacted event.
pub enum TimelineEvent {
    RoomMessage { original: Option<RoomMessageContent> },
    Reaction { annotation: Option<(String, String)> },
    Redaction { redaction: Option<(Option<String>, Option<String>)> },
    /// Call signalling and key verification events: never shown.
    HiddenMessageLike,
    OtherMessageLike { description: String },
    State { state_key: String, sender: String, content: Option<StateContent> },
}

pub struct EncryptedFileInfo {
    pub key: String,
    pub iv: String,
    pub hash: String,
}

pub enum MessageContent {
    Text { spans: Vec<RichTextSpan> },
    Image {
        name: String,
        width: Option<u32>,
        height: Option<u32>,
        url: String,
        encryption_info: Option<EncryptedFileInfo>,
    },
    Deleted,
}

pub struct UserMessage {
    pub content: MessageContent,
    pub replies_to: Option<String>,
    pub is_edited: bool,
}

pub enum MembershipAction {
    Banned { target_id: String, reason: Option<String> },
    Invited(String),
    Joined,
    Left,
    Kicked { target_id: String, reason: Option<String> },
}

pub enum SystemMessage {
    Unknown,
    VerificationRequest { methods: Vec<String>, from_user_id: String },
    MessageReacted { event_id: String, reaction: String },
    MessageRedacted { event_id: String, reason: Option<String> },
    MembershipChange(MembershipAction),
    CallLeft,
    CallJoined { intent: String },
    RoomAvatarChange { new_avatar_url: Option<String> },
    TopicChange { new_topic: String },
    RoomNameChange { new_name: String },
    RoomCreated { creator_id: String },
}

pub enum MessageKind {
    UserMessage(UserMessage),
    SystemMessage(SystemMessage),
}

/// A message ready for the timeline.
pub struct UiMessage {
    pub event_id: String,
    pub room_id: String,
    pub state: MessageState,
    pub timestamp: u64,
    pub sender_id: String,
    pub kind: MessageKind,
}

/// Why a row could not be shown.
#[derive(PartialEq, Eq)]
pub enum MessageError {
    /// The stored JSON or event could not be read.
    InvalidEvent,
    /// The row is deliberately not shown.
    Silent,
    MissingContent,
    UnsupportedMessageType(String),
    UnsupportedEventType(String),
    UnsupportedMembership(String),
    UnsupportedStateEvent(String),
}

pub open spec fn chars_or_empty(o: Option<String>) -> Seq<char> {
    match o {
        Some(s) => s@,
        None => Seq::empty(),
    }
}

/// A size as the interface stores it: sizes beyond `u32` become zero.
pub open spec fn size_as_u32(v: Option<u64>) -> Option<u32> {
    match v {
        Some(x) => Some(if x <= u32::MAX { x as u32 } else { 0u32 }),
        None => None,
    }
}

pub open spec fn file_info_matches(file: Option<RawFileKeys>, info: Option<EncryptedFileInfo>) -> bool {
    match (file, info) {
        (None, None) => true,
        (Some(f), Some(i)) => {
            &&& i.key@ == chars_or_empty(f.key)
            &&& i.iv@ == chars_or_empty(f.iv)
            &&& i.hash@ == chars_or_empty(f.sha256)
        },
        _ => false,
    }
}

/// The spans of a text message: from the HTML body when the formatted body
/// is HTML, from the plain body otherwise.
pub open spec fn text_spans_match(body: String, formatted: Option<FormattedBody>, spans: Seq<RichTextSpan>) -> bool {
    match formatted {
        Some(f) if f.is_html => spans_view(spans) == html_spans_of(scraper_fragment_walk(f.body@), body@),
        _ => {
            &&& spans_view(spans).map_values(|s: SpanView| span_piece(s)) == plain_pieces(
                vstd::utf8::encode_utf8(body@),
                linkify_url_links(body@),
            )
            &&& forall|k: int| 0 <= k < spans.len() ==> match #[trigger] spans[k] {
                RichTextSpan::Plain(_) => true,
                RichTextSpan::Link { text, .. } => text is None,
                _ => false,
            }
        },
    }
}

/// The content shown for a message of type `mt`. An image's shown width is
/// taken from the height in its image info, and its shown height from the
/// width there.
pub open spec fn content_matches(mt: MsgType, file: Option<RawFileKeys>, c: MessageContent) -> bool {
    match mt {
        MsgType::Text { body, formatted } => match c {
            MessageContent::Text { spans } => text_spans_match(body, formatted, spans@),
            _ => false,
        },
        MsgType::Image { filename, width, height, url } => match c {
            MessageContent::Image { name, width: w, height: h, url: u, encryption_info } => {
                &&& name == filename
                &&& w == size_as_u32(height)
                &&& h == size_as_u32(width)
                &&& u == url
                &&& file_info_matches(file, encryption_info)
            },
            _ => false,
        },
        _ => false,
    }
}

/// The message type whose content is shown: the replacement's, for an edit.
pub open spec fn shown_msgtype(c: RoomMessageContent) -> MsgType {
    match c.relation {
        MessageRelation::Replacement { new_content } => new_content,
        _ => c.msgtype,
    }
}

pub open spec fn reply_target(c: RoomMessageContent) -> Option<String> {
    match c.relation {
        MessageRelation::Reply { event_id } => Some(event_id),
        _ => None,
    }
}

pub open spec fn file_of(json: RawEventJson) -> Option<RawFileKeys> {
    match json.content {
        Some(c) => c.file,
        None => None,
    }
}

/// The system message a state event becomes, or the reason it is not shown.
pub open spec fn state_outcome(row: MessageRow, json: RawEventJson, state_key: String, sender: String, content: StateContent) -> Result<SystemMessage, MessageError> {
    match content {
        StateContent::Member { membership, reason } => match membership {
            Membership::Ban => Ok(SystemMessage::MembershipChange(MembershipAction::Banned { target_id: state_key, reason })),
            Membership::Invite => Ok(SystemMessage::MembershipChange(MembershipAction::Invited(state_key))),
            Membership::Join => Ok(SystemMessage::MembershipChange(MembershipAction::Joined)),
            Membership::Leave => if state_key@ == row.sender@ {
                Ok(SystemMessage::MembershipChange(MembershipAction::Left))
            } else {
                Ok(SystemMessage::MembershipChange(MembershipAction::Kicked { target_id: state_key, reason }))
            },
            Membership::Other { name } => Err(MessageError::UnsupportedMembership(name)),
        },
        StateContent::CallMember => Ok(SystemMessage::CallLeft),
        StateContent::RoomAvatar { url } => Ok(SystemMessage::RoomAvatarChange { new_avatar_url: url }),
        StateContent::RoomTopic { topic } => Ok(SystemMessage::TopicChange { new_topic: topic }),
        StateContent::RoomName { name } => Ok(SystemMessage::RoomNameChange { new_name: name }),
        StateContent::RoomCreate => Ok(SystemMessage::RoomCreated { creator_id: sender }),
        StateContent::Hidden => Err(MessageError::Silent),
        StateContent::Other { description } => if row.msg_type@ == "org.matrix.room.preview_urls"@ {
            Err(MessageError::Silent)
        } else {
            Err(MessageError::UnsupportedStateEvent(description))
        },
    }
}

/// The error a row's conversion ends in, if it ends in one.
pub open spec fn conversion_error(row: MessageRow, json: Option<RawEventJson>, event: Option<TimelineEvent>) -> Option<MessageError> {
    match json {
        None => Some(MessageError::InvalidEvent),
        Some(j) => if row.state == MessageState::Deleted {
            if row.msg_type@ == "m.room.message"@ && !j.is_empty_object {
                None
            } else {
                Some(MessageError::Silent)
            }
        } else if row.state == MessageState::Unknown {
            Some(MessageError::Silent)
        } else if j.content is None {
            Some(MessageError::MissingContent)
        } else {
            match event {
                None => Some(MessageError::InvalidEvent),
                Some(e) => match e {
                    TimelineEvent::RoomMessage { original } => match original {
                        Some(c) => match shown_msgtype(c) {
                            MsgType::Other { description } => Some(MessageError::UnsupportedMessageType(description)),
                            _ => None,
                        },
                        None => None,
                    },
                    TimelineEvent::Reaction { annotation } => if annotation is Some {
                        None
                    } else {
                        Some(MessageError::Silent)
                    },
                    TimelineEvent::Redaction { redaction } => match redaction {
                        Some((Some(_), _)) => None,
                        _ => Some(MessageError::Silent),
                    },
                    TimelineEvent::HiddenMessageLike => Some(MessageError::Silent),
                    TimelineEvent::OtherMessageLike { description } => Some(MessageError::UnsupportedEventType(description)),
                    TimelineEvent::State { state_key, sender, content } => match content {
                        None => Some(MessageError::Silent),
                        Some(c) => match state_outcome(row, j, state_key, sender, c) {
                            Ok(_) => None,
                            Err(err) => Some(err),
                        },
                    },
                },
            }
        },
    }
}

/// What a converted message shows, beyond the fields copied from the row.
pub open spec fn kind_matches(row: MessageRow, json: RawEventJson, event: TimelineEvent, kind: MessageKind) -> bool {
    let edited = row.last_edited_id is Some;
    match event {
        TimelineEvent::RoomMessage { original } => match original {
            Some(c) => match shown_msgtype(c) {
                MsgType::VerificationRequest { methods, to } => kind == MessageKind::SystemMessage(
                    SystemMessage::VerificationRequest { methods, from_user_id: to },
                ),
                mt => match kind {
                    MessageKind::UserMessage(um) => {
                        &&& content_matches(mt, file_of(json), um.content)
                        &&& um.replies_to == reply_target(c)
                        &&& um.is_edited == edited
                    },
                    _ => false,
                },
            },
            None => match kind {
                MessageKind::UserMessage(um) => um.content is Deleted && um.replies_to is None && um.is_edited == edited,
                _ => false,
            },
        },
        TimelineEvent::Reaction { annotation } => match annotation {
            Some((event_id, key)) => kind == MessageKind::SystemMessage(SystemMessage::MessageReacted { event_id, reaction: key }),
            None => false,
        },
        TimelineEvent::Redaction { redaction } => match redaction {
            Some((Some(id), reason)) => kind == MessageKind::SystemMessage(SystemMessage::MessageRedacted { event_id: id, reason }),
            _ => false,
        },
        TimelineEvent::State { state_key, sender, content } => match content {
            Some(StateContent::CallMember) => match kind {
                MessageKind::SystemMessage(m) => match json.content {
                    Some(rc) => if rc.is_empty_object {
                        m == SystemMessage::CallLeft
                    } else {
                        match m {
                            SystemMessage::CallJoined { intent } => intent@ == match rc.call_intent {
                                Some(i) => i@,
                                None => "audio"@,
                            },
                            _ => false,
                        }
                    },
                    None => false,
                },
                _ => false,
            },
            Some(c) => match state_outcome(row, json, state_key, sender, c) {
                Ok(m) => kind == MessageKind::SystemMessage(m),
                Err(_) => false,
            },
            None => false,
        },
        _ => false,
    }
}

/// The message a row converts to, when it converts.
pub open spec fn shown_message(row: MessageRow, json: RawEventJson, event: Option<TimelineEvent>, m: UiMessage) -> bool {
    &&& m.event_id == row.event_id
    &&& m.room_id == row.room_id
    &&& m.timestamp == row.timestamp
    &&& m.sender_id == row.sender
    &&& if row.state == MessageState::Deleted {
        &&& m.state == MessageState::Deleted
        &&& m.kind matches MessageKind::UserMessage(um)
        &&& um.content is Deleted
        &&& um.replies_to is None
        &&& !um.is_edited
    } else {
        &&& m.state == row.state
        &&& event matches Some(e)
        &&& kind_matches(row, json, e, m.kind)
    }
}

/// What a membership event of a row that is neither deleted nor of unknown
/// state, and whose raw event has content, is shown as: a ban bans the
/// member named by the state key, with the reason given; an invite invites
/// that member; a join shows a join; a leave shows the row's sender leaving
/// when the state key is the sender, and otherwise a kick of the member
/// named by the state key, with the reason. Each of these converts; any
/// other membership is refused as unsupported.
pub proof fn law_membership_events(
    row: MessageRow,
    json: RawEventJson,
    state_key: String,
    sender: String,
    membership: Membership,
    reason: Option<String>,
    m: UiMessage,
)
    requires
        row.state != MessageState::Deleted,
        row.state != MessageState::Unknown,
        json.content is Some,
    ensures
        ({
            let e = TimelineEvent::State {
                state_key,
                sender,
                content: Some(StateContent::Member { membership, reason }),
            };
            &&& (membership is Other) == (conversion_error(row, Some(json), Some(e)) is Some)
            &&& membership matches Membership::Other { name } ==> conversion_error(row, Some(json), Some(e)) == Some(
                MessageError::UnsupportedMembership(name),
            )
            &&& shown_message(row, json, Some(e), m) ==> match membership {
                Membership::Ban => m.kind == MessageKind::SystemMessage(
                    SystemMessage::MembershipChange(MembershipAction::Banned { target_id: state_key, reason }),
                ),
                Membership::Invite => m.kind == MessageKind::SystemMessage(
                    SystemMessage::MembershipChange(MembershipAction::Invited(state_key)),
                ),
                Membership::Join => m.kind == MessageKind::SystemMessage(
                    SystemMessage::MembershipChange(MembershipAction::Joined),
                ),
                Membership::Leave => if state_key@ == row.sender@ {
                    m.kind == MessageKind::SystemMessage(SystemMessage::MembershipChange(MembershipAction::Left))
                } else {
                    m.kind == MessageKind::SystemMessage(
                        SystemMessage::MembershipChange(MembershipAction::Kicked { target_id: state_key, reason }),
                    )
                },
                Membership::Other { .. } => true,
            }
        }),
{
}

/// What the other state events of a row that is neither deleted nor of
/// unknown state, and whose raw event has content, are shown as: a call
/// member event whose content is empty shows a call being left, and
/// otherwise a call being joined with the content's intent (audio when it
/// names none); an avatar, topic or name change shows the new value; a room
/// creation names the event's sender as creator. Hidden state events are
/// not shown, and any other state event is refused as unsupported, except
/// in a row of URL preview settings, which is not shown.
pub proof fn law_state_events(
    row: MessageRow,
    json: RawEventJson,
    state_key: String,
    sender: String,
    content: StateContent,
    m: UiMessage,
)
    requires
        row.state != MessageState::Deleted,
        row.state != MessageState::Unknown,
        json.content is Some,
        !(content is Member),
    ensures
        ({
            let e = TimelineEvent::State { state_key, sender, content: Some(content) };
            let err = conversion_error(row, Some(json), Some(e));
            &&& match content {
                StateContent::Hidden => err == Some(MessageError::Silent),
                StateContent::Other { description } => err == if row.msg_type@ == "org.matrix.room.preview_urls"@ {
                    Some(MessageError::Silent)
                } else {
                    Some(MessageError::UnsupportedStateEvent(description))
                },
                _ => err is None,
            }
            &&& shown_message(row, json, Some(e), m) ==> match content {
                StateContent::CallMember => if json.content->0.is_empty_object {
                    m.kind == MessageKind::SystemMessage(SystemMessage::CallLeft)
                } else {
                    m.kind matches MessageKind::SystemMessage(SystemMessage::CallJoined { intent })
                        && intent@ == match json.content->0.call_intent {
                        Some(i) => i@,
                        None => "audio"@,
                    }
                },
                StateContent::RoomAvatar { url } => m.kind == MessageKind::SystemMessage(
                    SystemMessage::RoomAvatarChange { new_avatar_url: url },
                ),
                StateContent::RoomTopic { topic } => m.kind == MessageKind::SystemMessage(
                    SystemMessage::TopicChange { new_topic: topic },
                ),
                StateContent::RoomName { name } => m.kind == MessageKind::SystemMessage(
                    SystemMessage::RoomNameChange { new_name: name },
                ),
                StateContent::RoomCreate => m.kind == MessageKind::SystemMessage(
                    SystemMessage::RoomCreated { creator_id: sender },
                ),
                _ => true,
            }
        }),
{
}

/// The plain bodies that a conversion may cut into spans fit in memory.
pub open spec fn bodies_fit(event: Option<TimelineEvent>) -> bool {
    match event {
        Some(TimelineEvent::RoomMessage { original: Some(c) }) => match shown_msgtype(c) {
            MsgType::Text { body, .. } => vstd::utf8::encode_utf8(body@).len() <= usize::MAX,
            _ => true,
        },
        _ => true,
    }
}

impl UserMessage {
    pub fn new() -> (m: UserMessage)
        ensures
            m.replies_to is None,
            !m.is_edited,
            m.content matches MessageContent::Text { spans } && spans@.len() == 0,
    {
        UserMessage { content: MessageContent::Text { spans: Vec::new() }, replies_to: None, is_edited: false }
    }

    pub fn deleted() -> (m: UserMessage)
        ensures
            m.replies_to is None,
            !m.is_edited,
            m.content is Deleted,
    {
        UserMessage { content: MessageContent::Deleted, replies_to: None, is_edited: false }
    }
}

impl UiMessage {
    /// The placeholder for a message that was deleted.
    pub fn deleted(event_id: String, room_id: String, timestamp: u64, sender_id: String) -> (m: UiMessage)
        ensures
            m.event_id == event_id,
            m.room_id == room_id,
            m.timestamp == timestamp,
            m.sender_id == sender_id,
            m.state == MessageState::Deleted,
            m.kind matches MessageKind::UserMessage(um) && um.content is Deleted && um.replies_to is None
                && !um.is_edited,
    {
        UiMessage {
            event_id,
            room_id,
            state: MessageState::Deleted,
            timestamp,
            sender_id,
            kind: MessageKind::UserMessage(UserMessage::deleted()),
        }
    }
}

fn size_to_u32(v: Option<u64>) -> (r: Option<u32>)
    ensures
        r == size_as_u32(v),
{
    match v {
        Some(x) => Some(if x <= 0xffff_ffffu64 { x as u32 } else { 0u32 }),
        None => None,
    }
}

fn or_empty(o: Option<String>) -> (s: String)
    ensures
        s@ == chars_or_empty(o),
{
    match o {
        Some(s) => s,
        None => String::new(),
    }
}

fn text_spans(body: String, formatted: Option<FormattedBody>) -> (spans: Vec<RichTextSpan>)
    requires
        vstd::utf8::encode_utf8(body@).len() <= usize::MAX,
    ensures
        text_spans_match(body, formatted, spans@),
{
    match formatted {
        Some(f) => {
            if f.is_html {
                parse_html_to_spans(f.body.as_str(), body.as_str())
            } else {
                parse_plain_text_to_spans(body.as_str())
            }
        },
        None => parse_plain_text_to_spans(body.as_str()),
    }
}

impl MessageRow {
    /// Converts a stored row into the message the timeline shows. `json` is
    /// what the row's raw JSON holds (`None` when it is not JSON) and
    /// `event` the row's event as the Matrix event types read it (`None`
    /// when they cannot).
    pub fn try_into_ui_message(self, json: Option<RawEventJson>, event: Option<TimelineEvent>) -> (r: Result<UiMessage, MessageError>)
        requires
            bodies_fit(event),
        ensures
            r is Err <==> conversion_error(self, json, event) is Some,
            r matches Err(e) ==> conversion_error(self, json, event) == Some(e),
            r matches Ok(m) ==> json matches Some(j) && shown_message(self, j, event, m),
    {
        let ghost row = self;
        let ghost ev0 = event;
        let j = match json {
            None => return Err(MessageError::InvalidEvent),
            Some(j) => j,
        };
        let ghost j0 = j;
        if self.state == MessageState::Deleted {
            if str_eq(self.msg_type.as_str(), "m.room.message") && !j.is_empty_object {
                return Ok(UiMessage::deleted(self.event_id, self.room_id, self.timestamp, self.sender));
            } else {
                return Err(MessageError::Silent);
            }
        } else if self.state == MessageState::Unknown {
            return Err(MessageError::Silent);
        }
        let raw_content = match j.content {
            None => return Err(MessageError::MissingContent),
            Some(c) => c,
        };
        let e = match event {
            None => return Err(MessageError::InvalidEvent),
            Some(e) => e,
        };
        let edited = self.last_edited_id.is_some();
        let kind = match e {
            TimelineEvent::RoomMessage { original } => match original {
                Some(c) => {
                    let mut um = UserMessage::new();
                    let ghost c0 = c;
                    let RoomMessageContent { relation, msgtype } = c;
                    let shown = match relation {
                        MessageRelation::Replacement { new_content } => new_content,
                        MessageRelation::Reply { event_id } => {
                            um.replies_to = Some(event_id);
                            msgtype
                        },
                        _ => msgtype,
                    };
                    assert(shown == shown_msgtype(c0));
                    assert(um.replies_to == reply_target(c0));
                    match shown {
                        MsgType::Text { body, formatted } => {
                            um.content = MessageContent::Text { spans: text_spans(body, formatted) };
                        },
                        MsgType::Image { filename, width, height, url } => {
                            let encryption_info = match raw_content.file {
                                Some(f) => Some(EncryptedFileInfo {
                                    key: or_empty(f.key),
                                    iv: or_empty(f.iv),
                                    hash: or_empty(f.sha256),
                                }),
                                None => None,
                            };
                            um.content = MessageContent::Image {
                                name: filename,
                                width: size_to_u32(height),
                                height: size_to_u32(width),
                                url,
                                encryption_info,
                            };
                        },
                        MsgType::VerificationRequest { methods, to } => {
                            return Ok(UiMessage {
                                event_id: self.event_id,
                                room_id: self.room_id,
                                state: self.state,
                                timestamp: self.timestamp,
                                sender_id: self.sender,
                                kind: MessageKind::SystemMessage(
                                    SystemMessage::VerificationRequest { methods, from_user_id: to },
                                ),
                            });
                        },
                        MsgType::Other { description } => {
                            return Err(MessageError::UnsupportedMessageType(description));
                        },
                    }
                    um.is_edited = edited;
                    MessageKind::UserMessage(um)
                },
                None => {
                    let mut um = UserMessage::deleted();
                    um.is_edited = edited;
                    MessageKind::UserMessage(um)
                },
            },
            TimelineEvent::Reaction { annotation } => match annotation {
                Some((event_id, key)) => MessageKind::SystemMessage(
                    SystemMessage::MessageReacted { event_id, reaction: key },
                ),
                None => return Err(MessageError::Silent),
            },
            TimelineEvent::Redaction { redaction } => match redaction {
                Some((Some(id), reason)) => MessageKind::SystemMessage(
                    SystemMessage::MessageRedacted { event_id: id, reason },
                ),
                _ => return Err(MessageError::Silent),
            },
            TimelineEvent::HiddenMessageLike => return Err(MessageError::Silent),
            TimelineEvent::OtherMessageLike { description } => {
                return Err(MessageError::UnsupportedEventType(description));
            },
            TimelineEvent::State { state_key, sender, content } => {
                let c = match content {
                    None => return Err(MessageError::Silent),
                    Some(c) => c,
                };
                let m = match c {
                    StateContent::Member { membership, reason } => match membership {
                        Membership::Ban => SystemMessage::MembershipChange(
                            MembershipAction::Banned { target_id: state_key, reason },
                        ),
                        Membership::Invite => SystemMessage::MembershipChange(
                            MembershipAction::Invited(state_key),
                        ),
                        Membership::Join => SystemMessage::MembershipChange(MembershipAction::Joined),
                        Membership::Leave => {
                            if state_key == self.sender {
                                SystemMessage::MembershipChange(MembershipAction::Left)
                            } else {
                                SystemMessage::MembershipChange(
                                    MembershipAction::Kicked { target_id: state_key, reason },
                                )
                            }
                        },
                        Membership::Other { name } => {
                            return Err(MessageError::UnsupportedMembership(name));
                        },
                    },
                    StateContent::CallMember => {
                        if raw_content.is_empty_object {
                            SystemMessage::CallLeft
                        } else {
                            let intent = match raw_content.call_intent {
                                Some(i) => i,
                                None => String::from_str("audio"),
                            };
                            SystemMessage::CallJoined { intent }
                        }
                    },
                    StateContent::RoomAvatar { url } => SystemMessage::RoomAvatarChange { new_avatar_url: url },
                    StateContent::RoomTopic { topic } => SystemMessage::TopicChange { new_topic: topic },
                    StateContent::RoomName { name } => SystemMessage::RoomNameChange { new_name: name },
                    StateContent::RoomCreate => SystemMessage::RoomCreated { creator_id: sender },
                    StateContent::Hidden => return Err(MessageError::Silent),
                    StateContent::Other { description } => {
                        if str_eq(self.msg_type.as_str(), "org.matrix.room.preview_urls") {
                            return Err(MessageError::Silent);
                        } else {
                            return Err(MessageError::UnsupportedStateEvent(description));
                        }
                    },
                };
                MessageKind::SystemMessage(m)
            },
        };
        Ok(UiMessage {
            event_id: self.event_id,
            room_id: self.room_id,
            state: self.state,
            timestamp: self.timestamp,
            sender_id: self.sender,
            kind,
        })
    }
}

/// Storing a message's state and reading it back gives the same state.
pub proof fn law_state_round_trip(s: MessageState)
    ensures
        state_of_name(name_of_state(s)) == s,
{
    reveal_strlit("sending");
    reveal_strlit("sent");
    reveal_strlit("failed");
    reveal_strlit("deleted");
    reveal_strlit("unknown");
    assert("sending"@.len() == 7 && "sent"@.len() == 4 && "failed"@.len() == 6 && "deleted"@.len() == 7
        && "unknown"@.len() == 7);
    assert("sending"@ != "deleted"@) by {
        assert("sending"@[0] != "deleted"@[0]);
    }
    assert("unknown"@ != "sending"@) by {
        assert("unknown"@[0] != "sending"@[0]);
    }
    assert("unknown"@ != "deleted"@) by {
        assert("unknown"@[0] != "deleted"@[0]);
    }
}

} // verus!
