//! The calls this library makes into other crates and into the parts of std
//! that vstd leaves unspecified. Every item here is trusted: its contract is
//! believed, not proved, and says no more than the called code shows.

use vstd::prelude::*;
use vstd::utf8::*;
use vstd::string::StringSliceAdditionalSpecFns;
use crate::spans::HtmlToken;
use crate::raw_event::{
    json_node_view, membership_view, msg_kind_view, relation_view, JsonNode, JsonNodeView, MembershipView,
    MsgKind, MsgKindView, RelationKind, RelationKindView,
};
use crate::message::Membership;
use crate::display::system::strings_view;
use crate::composer::caret::utf16_decode;
use ruma::events::{AnyStateEventContent, AnySyncMessageLikeEvent, AnySyncTimelineEvent};
use ruma::events::room::message::{MessageFormat, MessageType, Relation};
use ruma::events::room::MediaSource;
use chrono::{Datelike, TimeZone};
use std::fmt::Write;

verus! {

broadcast use vstd::string::group_string_axioms;

/// The byte ranges of the URLs that `linkify` finds in a text.
pub uninterp spec fn linkify_url_links(text: Seq<char>) -> Seq<(usize, usize)>;

/// Byte ranges that lie in order inside `b`, each starting no earlier than
/// the previous one ends, with both ends on character boundaries.
pub open spec fn ranges_in_order(b: Seq<u8>, links: Seq<(usize, usize)>) -> bool {
    &&& forall|k: int|
        0 <= k < links.len() ==> {
            &&& (#[trigger] links[k]).0 <= links[k].1 <= b.len()
            &&& is_char_boundary(b, links[k].0 as int)
            &&& is_char_boundary(b, links[k].1 as int)
        }
    &&& forall|k: int| 0 < k < links.len() ==> links[k - 1].1 <= (#[trigger] links[k]).0
}

/// Calls `linkify::LinkFinder::links` with only URL links enabled and
/// returns each link's `start()` and `end()`.
///
/// The result is named, not described. What the contract adds is what the
/// crate's `Links` iterator shows: each link is a slice `text[start..end]`,
/// and the next search starts at the previous link's end
/// (`&self.text[self.rewind..]`), so the ranges are in order, do not
/// overlap, stay within the text and fall on character boundaries.
#[verifier::external_body]
pub fn find_url_links(text: &str) -> (links: Vec<(usize, usize)>)
    ensures
        links@ == linkify_url_links(text@),
        ranges_in_order(text.spec_bytes(), links@),
{
    let mut finder = linkify::LinkFinder::new();
    finder.kinds(&[linkify::LinkKind::Url]);
    finder.links(text).map(|link| (link.start(), link.end())).collect()
}

/// The byte ranges of the matches that `regex` finds for a pattern in a
/// text.
pub uninterp spec fn regex_find_ranges(pattern: Seq<char>, text: Seq<char>) -> Seq<(usize, usize)>;

/// Compiles `pattern` with `regex::Regex::new` and returns the `start()`
/// and `end()` of each match of `find_iter` on the text; a pattern that
/// does not compile finds nothing.
///
/// The result is named, not described. What the contract adds is what the
/// crate documents: `find_iter` yields successive non-overlapping matches,
/// each with `start() <= end()`, and every offset falls on a character
/// boundary of the text, so that slicing with it never panics.
#[verifier::external_body]
pub fn find_matches(pattern: &str, text: &str) -> (ranges: Vec<(usize, usize)>)
    ensures
        ranges@ == regex_find_ranges(pattern@, text@),
        ranges_in_order(text.spec_bytes(), ranges@),
{
    match regex::Regex::new(pattern) {
        Ok(re) => re.find_iter(text).map(|m| (m.start(), m.end())).collect(),
        Err(_) => Vec::new(),
    }
}

/// The node that `serde_json` finds in a text at a JSON pointer: `None`
/// when the text is not JSON, `Some(None)` when nothing is at the pointer.
pub uninterp spec fn serde_json_pointer(raw: Seq<char>, pointer: Seq<char>) -> Option<Option<JsonNodeView>>;

/// Parses the text with `serde_json::from_str` into a `serde_json::Value`
/// and looks the pointer up with `Value::pointer`; an object is handed out
/// as its keys, a string as its text, anything else as `Other`. The node
/// is named, not described.
#[verifier::external_body]
pub fn json_at(raw: &str, pointer: &str) -> (node: Option<Option<JsonNode>>)
    ensures
        match node {
            None => serde_json_pointer(raw@, pointer@) is None,
            Some(None) => serde_json_pointer(raw@, pointer@) == Some(None::<JsonNodeView>),
            Some(Some(n)) => serde_json_pointer(raw@, pointer@) == Some(Some(json_node_view(n))),
        },
{
    match serde_json::from_str::<serde_json::Value>(raw) {
        Err(_) => None,
        Ok(value) => match value.pointer(pointer) {
            None => Some(None),
            Some(serde_json::Value::Object(m)) => Some(Some(JsonNode::Object(m.keys().cloned().collect()))),
            Some(serde_json::Value::String(t)) => Some(Some(JsonNode::Text(t.clone()))),
            Some(_) => Some(Some(JsonNode::Other)),
        },
    }
}

/// The frame of an event as `ruma` reads the text: its type, whether it
/// was redacted, and for a state event its state key and sender.
pub uninterp spec fn ruma_head(raw: Seq<char>) -> Option<(Seq<char>, bool, Option<(Seq<char>, Seq<char>)>)>;

/// Parses the text with `serde_json::from_str` into
/// `ruma::events::AnySyncTimelineEvent` and hands out its `event_type()`,
/// `is_redacted()`, and for a state event its `state_key()` and
/// `sender()`. A text that does not parse gives `None`. Named, not
/// described.
#[verifier::external_body]
pub fn read_event_head(raw: &str) -> (head: Option<(String, bool, Option<(String, String)>)>)
    ensures
        match head {
            None => ruma_head(raw@) is None,
            Some((t, r, None)) => ruma_head(raw@) == Some((t@, r, None::<(Seq<char>, Seq<char>)>)),
            Some((t, r, Some((k, s)))) => ruma_head(raw@) == Some((t@, r, Some((k@, s@)))),
        },
{
    match serde_json::from_str::<AnySyncTimelineEvent>(raw) {
        Err(_) => None,
        Ok(AnySyncTimelineEvent::MessageLike(e)) => Some((e.event_type().to_string(), e.is_redacted(), None)),
        Ok(AnySyncTimelineEvent::State(e)) => Some((
            e.event_type().to_string(),
            e.is_redacted(),
            Some((e.state_key().to_string(), e.sender().to_string())),
        )),
    }
}

/// The relation of a room message that `ruma` reads, when the text is an
/// unredacted room message.
pub uninterp spec fn ruma_relation(raw: Seq<char>) -> Option<RelationKindView>;

/// Parses the text as an `AnySyncTimelineEvent` and, for an unredacted
/// `RoomMessage`, tells its `relates_to` apart: none, a reply (with the
/// replied event's id), a replacement, or another relation. Named, not
/// described.
#[verifier::external_body]
pub fn read_relation(raw: &str) -> (rel: Option<RelationKind>)
    ensures
        match rel {
            None => ruma_relation(raw@) is None,
            Some(k) => ruma_relation(raw@) == Some(relation_view(k)),
        },
{
    let Ok(AnySyncTimelineEvent::MessageLike(AnySyncMessageLikeEvent::RoomMessage(e))) = serde_json::from_str(raw) else { return None };
    Some(match &e.as_original()?.content.relates_to {
        None => RelationKind::NoRelation,
        Some(Relation::Reply(r)) => RelationKind::Reply(r.in_reply_to.event_id.to_string()),
        Some(Relation::Replacement(_)) => RelationKind::Replacement,
        Some(_) => RelationKind::Other,
    })
}

/// The kind of the message type of an unredacted room message that `ruma`
/// reads: of its content, or with `new_content` of its replacement's new
/// content.
pub uninterp spec fn ruma_msg_kind(raw: Seq<char>, new_content: bool) -> Option<MsgKindView>;

/// Parses the text as an `AnySyncTimelineEvent`, takes the unredacted
/// `RoomMessage`'s `msgtype` (or, with `new_content`, the `msgtype` of its
/// `Replacement`'s `new_content`) and tells text, image and verification
/// request apart; any other type comes with its `Debug` text. Named, not
/// described.
#[verifier::external_body]
pub fn read_msg_kind(raw: &str, new_content: bool) -> (kind: Option<MsgKind>)
    ensures
        match kind {
            None => ruma_msg_kind(raw@, new_content) is None,
            Some(k) => ruma_msg_kind(raw@, new_content) == Some(msg_kind_view(k)),
        },
{
    let Ok(AnySyncTimelineEvent::MessageLike(AnySyncMessageLikeEvent::RoomMessage(e))) = serde_json::from_str(raw) else { return None };
    let c = e.as_original()?.content.clone();
    let m = match (new_content, c.relates_to) {
        (false, _) => c.msgtype,
        (true, Some(Relation::Replacement(r))) => r.new_content.msgtype,
        _ => return None,
    };
    Some(match m {
        MessageType::Text(_) => MsgKind::Text,
        MessageType::Image(_) => MsgKind::Image,
        MessageType::VerificationRequest(_) => MsgKind::VerificationRequest,
        other => MsgKind::Other(format!("{:?}", other)),
    })
}

/// The body and formatted body of a text message type, chosen as for
/// `ruma_msg_kind`; the flag tells an HTML format.
pub uninterp spec fn ruma_text(raw: Seq<char>, new_content: bool) -> Option<(Seq<char>, Option<(bool, Seq<char>)>)>;

/// Reads the message type as `read_msg_kind` does and, for a text, hands
/// out its `body` and its `formatted` body with whether its `format` is
/// HTML. Named, not described; like every `String`, the body's UTF-8
/// bytes fit in `usize`.
#[verifier::external_body]
pub fn read_text(raw: &str, new_content: bool) -> (text: Option<(String, Option<(bool, String)>)>)
    ensures
        match text {
            None => ruma_text(raw@, new_content) is None,
            Some((b, None)) => ruma_text(raw@, new_content) == Some((b@, None::<(bool, Seq<char>)>))
                && encode_utf8(b@).len() <= usize::MAX,
            Some((b, Some((h, f)))) => ruma_text(raw@, new_content) == Some((b@, Some((h, f@))))
                && encode_utf8(b@).len() <= usize::MAX,
        },
{
    let Ok(AnySyncTimelineEvent::MessageLike(AnySyncMessageLikeEvent::RoomMessage(e))) = serde_json::from_str(raw) else { return None };
    let c = e.as_original()?.content.clone();
    let m = match (new_content, c.relates_to) {
        (false, _) => c.msgtype,
        (true, Some(Relation::Replacement(r))) => r.new_content.msgtype,
        _ => return None,
    };
    let MessageType::Text(t) = m else { return None };
    Some((t.body, t.formatted.map(|f| (matches!(f.format, MessageFormat::Html), f.body))))
}

/// The file name and URL of an image message type, chosen as for
/// `ruma_msg_kind`.
pub uninterp spec fn ruma_image(raw: Seq<char>, new_content: bool) -> Option<(Seq<char>, Seq<char>)>;

/// Reads the message type as `read_msg_kind` does and, for an image, hands
/// out its `filename()` and the URL of its `source`, plain or encrypted.
/// Named, not described.
#[verifier::external_body]
pub fn read_image(raw: &str, new_content: bool) -> (image: Option<(String, String)>)
    ensures
        match image {
            None => ruma_image(raw@, new_content) is None,
            Some((n, u)) => ruma_image(raw@, new_content) == Some((n@, u@)),
        },
{
    let Ok(AnySyncTimelineEvent::MessageLike(AnySyncMessageLikeEvent::RoomMessage(e))) = serde_json::from_str(raw) else { return None };
    let c = e.as_original()?.content.clone();
    let m = match (new_content, c.relates_to) {
        (false, _) => c.msgtype,
        (true, Some(Relation::Replacement(r))) => r.new_content.msgtype,
        _ => return None,
    };
    let MessageType::Image(i) = m else { return None };
    let url = match &i.source { MediaSource::Plain(u) => u.to_string(), MediaSource::Encrypted(f) => f.url.to_string() };
    Some((i.filename().to_string(), url))
}

/// The width and height that the `info` of an image message type gives,
/// chosen as for `ruma_msg_kind`.
pub uninterp spec fn ruma_image_size(raw: Seq<char>, new_content: bool) -> Option<(Option<u64>, Option<u64>)>;

/// Reads the message type as `read_msg_kind` does and, for an image, hands
/// out the `width` and `height` of its `info`. Named, not described.
#[verifier::external_body]
pub fn read_image_size(raw: &str, new_content: bool) -> (size: Option<(Option<u64>, Option<u64>)>)
    ensures
        size == ruma_image_size(raw@, new_content),
{
    let Ok(AnySyncTimelineEvent::MessageLike(AnySyncMessageLikeEvent::RoomMessage(e))) = serde_json::from_str(raw) else { return None };
    let c = e.as_original()?.content.clone();
    let m = match (new_content, c.relates_to) {
        (false, _) => c.msgtype,
        (true, Some(Relation::Replacement(r))) => r.new_content.msgtype,
        _ => return None,
    };
    let MessageType::Image(i) = m else { return None };
    let info = i.info.as_deref();
    Some((info.and_then(|x| x.width).map(u64::from), info.and_then(|x| x.height).map(u64::from)))
}

/// The methods and addressee of a verification request message type,
/// chosen as for `ruma_msg_kind`.
pub uninterp spec fn ruma_verification(raw: Seq<char>, new_content: bool) -> Option<(Seq<Seq<char>>, Seq<char>)>;

/// Reads the message type as `read_msg_kind` does and, for a verification
/// request, hands out its `methods` as text and its `to`. Named, not
/// described.
#[verifier::external_body]
pub fn read_verification(raw: &str, new_content: bool) -> (request: Option<(Vec<String>, String)>)
    ensures
        match request {
            None => ruma_verification(raw@, new_content) is None,
            Some((m, t)) => ruma_verification(raw@, new_content) == Some((strings_view(m@), t@)),
        },
{
    let Ok(AnySyncTimelineEvent::MessageLike(AnySyncMessageLikeEvent::RoomMessage(e))) = serde_json::from_str(raw) else { return None };
    let c = e.as_original()?.content.clone();
    let m = match (new_content, c.relates_to) {
        (false, _) => c.msgtype,
        (true, Some(Relation::Replacement(r))) => r.new_content.msgtype,
        _ => return None,
    };
    let MessageType::VerificationRequest(v) = m else { return None };
    Some((v.methods.iter().map(|x| x.to_string()).collect(), v.to.to_string()))
}

/// The annotated event and key of an unredacted reaction that `ruma` reads.
pub uninterp spec fn ruma_reaction(raw: Seq<char>) -> Option<(Seq<char>, Seq<char>)>;

/// Parses the text as an `AnySyncTimelineEvent` and, for an unredacted
/// `Reaction`, hands out its annotation's `event_id` and `key`. Named, not
/// described.
#[verifier::external_body]
pub fn read_reaction(raw: &str) -> (annotation: Option<(String, String)>)
    ensures
        match annotation {
            None => ruma_reaction(raw@) is None,
            Some((i, k)) => ruma_reaction(raw@) == Some((i@, k@)),
        },
{
    let Ok(AnySyncTimelineEvent::MessageLike(AnySyncMessageLikeEvent::Reaction(e))) = serde_json::from_str(raw) else { return None };
    e.as_original().map(|o| (o.content.relates_to.event_id.to_string(), o.content.relates_to.key.clone()))
}

/// The redacted event and reason of an unredacted redaction that `ruma`
/// reads.
pub uninterp spec fn ruma_redaction(raw: Seq<char>) -> Option<(Option<Seq<char>>, Option<Seq<char>>)>;

/// Parses the text as an `AnySyncTimelineEvent` and, for an unredacted
/// `RoomRedaction`, hands out its content's `redacts` and `reason`. Named,
/// not described.
#[verifier::external_body]
pub fn read_redaction(raw: &str) -> (redaction: Option<(Option<String>, Option<String>)>)
    ensures
        match redaction {
            None => ruma_redaction(raw@) is None,
            Some((i, r)) => ruma_redaction(raw@) == Some((opt_chars(i), opt_chars(r))),
        },
{
    let Ok(AnySyncTimelineEvent::MessageLike(AnySyncMessageLikeEvent::RoomRedaction(e))) = serde_json::from_str(raw) else { return None };
    e.as_original().map(|o| (o.content.redacts.as_ref().map(|i| i.to_string()), o.content.reason.clone()))
}

pub open spec fn opt_chars(o: Option<String>) -> Option<Seq<char>> {
    match o {
        Some(s) => Some(s@),
        None => None,
    }
}

/// The membership and reason of an unredacted member event that `ruma`
/// reads.
pub uninterp spec fn ruma_member(raw: Seq<char>) -> Option<(MembershipView, Option<Seq<char>>)>;

/// Parses the text as an `AnySyncTimelineEvent` and, for a state event
/// whose `original_content()` is `RoomMember`, tells its `membership`
/// apart (another membership with its `Debug` text) and hands out its
/// `reason`. Named, not described.
#[verifier::external_body]
pub fn read_member(raw: &str) -> (member: Option<(Membership, Option<String>)>)
    ensures
        match member {
            None => ruma_member(raw@) is None,
            Some((m, r)) => ruma_member(raw@) == Some((membership_view(m), opt_chars(r))),
        },
{
    let Ok(AnySyncTimelineEvent::State(e)) = serde_json::from_str(raw) else { return None };
    let Some(AnyStateEventContent::RoomMember(c)) = e.original_content() else { return None };
    let m = match c.membership {
        ruma::events::room::member::MembershipState::Ban => Membership::Ban,
        ruma::events::room::member::MembershipState::Invite => Membership::Invite,
        ruma::events::room::member::MembershipState::Join => Membership::Join,
        ruma::events::room::member::MembershipState::Leave => Membership::Leave,
        other => Membership::Other { name: format!("{:?}", other) },
    };
    Some((m, c.reason))
}

/// The avatar URL of an unredacted room avatar event that `ruma` reads.
pub uninterp spec fn ruma_avatar(raw: Seq<char>) -> Option<Option<Seq<char>>>;

/// Parses the text as an `AnySyncTimelineEvent` and, for a state event
/// whose `original_content()` is `RoomAvatar`, hands out its `url`. Named,
/// not described.
#[verifier::external_body]
pub fn read_avatar(raw: &str) -> (url: Option<Option<String>>)
    ensures
        match url {
            None => ruma_avatar(raw@) is None,
            Some(u) => ruma_avatar(raw@) == Some(opt_chars(u)),
        },
{
    let Ok(AnySyncTimelineEvent::State(e)) = serde_json::from_str(raw) else { return None };
    let Some(AnyStateEventContent::RoomAvatar(c)) = e.original_content() else { return None };
    Some(c.url.map(|u| u.to_string()))
}

/// The topic of an unredacted room topic event that `ruma` reads.
pub uninterp spec fn ruma_topic(raw: Seq<char>) -> Option<Seq<char>>;

/// Parses the text as an `AnySyncTimelineEvent` and, for a state event
/// whose `original_content()` is `RoomTopic`, hands out its `topic`.
/// Named, not described.
#[verifier::external_body]
pub fn read_topic(raw: &str) -> (topic: Option<String>)
    ensures
        opt_chars(topic) == ruma_topic(raw@),
{
    let Ok(AnySyncTimelineEvent::State(e)) = serde_json::from_str(raw) else { return None };
    let Some(AnyStateEventContent::RoomTopic(c)) = e.original_content() else { return None };
    Some(c.topic)
}

/// The name of an unredacted room name event that `ruma` reads.
pub uninterp spec fn ruma_room_name(raw: Seq<char>) -> Option<Seq<char>>;

/// Parses the text as an `AnySyncTimelineEvent` and, for a state event
/// whose `original_content()` is `RoomName`, hands out its `name`. Named,
/// not described.
#[verifier::external_body]
pub fn read_room_name(raw: &str) -> (name: Option<String>)
    ensures
        opt_chars(name) == ruma_room_name(raw@),
{
    let Ok(AnySyncTimelineEvent::State(e)) = serde_json::from_str(raw) else { return None };
    let Some(AnyStateEventContent::RoomName(c)) = e.original_content() else { return None };
    Some(c.name)
}

/// The `Debug` text of the content of an unredacted state event that
/// `ruma` reads.
pub uninterp spec fn ruma_state_description(raw: Seq<char>) -> Option<Seq<char>>;

/// Parses the text as an `AnySyncTimelineEvent` and, for a state event,
/// writes its `original_content()` with `Debug`. Named, not described.
#[verifier::external_body]
pub fn read_state_description(raw: &str) -> (text: Option<String>)
    ensures
        opt_chars(text) == ruma_state_description(raw@),
{
    let Ok(AnySyncTimelineEvent::State(e)) = serde_json::from_str(raw) else { return None };
    e.original_content().map(|c| format!("{:?}", c))
}

/// The `Debug` text of a message-like event that `ruma` reads.
pub uninterp spec fn ruma_event_description(raw: Seq<char>) -> Option<Seq<char>>;

/// Parses the text as an `AnySyncTimelineEvent` and, for a message-like
/// event, writes it with `Debug`. Named, not described.
#[verifier::external_body]
pub fn read_event_description(raw: &str) -> (text: Option<String>)
    ensures
        opt_chars(text) == ruma_event_description(raw@),
{
    let Ok(AnySyncTimelineEvent::MessageLike(e)) = serde_json::from_str(raw) else { return None };
    Some(format!("{:?}", e))
}

/// The depth-first walk over the tree that `scraper` builds from an HTML
/// fragment.
pub uninterp spec fn scraper_fragment_walk(html: Seq<char>) -> Seq<HtmlToken>;

/// Parses an HTML fragment with `scraper::Html::parse_fragment` and lists
/// the edges of `ego_tree`'s `traverse` from the tree's root, one token per
/// edge: entering a text node (with its text), entering an element (with
/// its name and `href` attribute), entering any other node, or leaving a
/// node. Nothing is claimed of the tokens beyond their name.
#[verifier::external_body]
pub fn parse_html_fragment(html: &str) -> (tokens: Vec<HtmlToken>)
    ensures
        tokens@ == scraper_fragment_walk(html@),
{
    let doc = scraper::Html::parse_fragment(html);
    let edges = doc.tree.root().traverse();
    edges.map(|edge| match edge {
        ego_tree::iter::Edge::Open(node) => match node.value() {
            scraper::Node::Text(t) => HtmlToken::OpenText(t.text.to_string()),
            scraper::Node::Element(e) => HtmlToken::OpenElement {
                name: e.name().to_string(),
                href: e.attr("href").map(|h| h.to_string()),
            },
            _ => HtmlToken::OpenOther,
        },
        ego_tree::iter::Edge::Close(_) => HtmlToken::Close,
    }).collect()
}

/// The largest timestamp, in seconds from the epoch, whose date `chrono`
/// represents: the last second of 31 December 262142, `NaiveDate::MAX`.
/// Its negation lies inside the earliest date `chrono` represents too.
pub const TIMESTAMP_BOUND: i64 = 8_210_266_876_799;

/// The day of the local calendar, counted from 1 January of year 1 as day
/// one, on which an instant falls at a fixed UTC offset.
pub open spec fn local_day(ts: int, offset: int) -> int {
    (ts + offset) / 86_400 + 719_163
}

/// Calls `chrono`: `FixedOffset::east_opt(offset)`, `timestamp_opt(ts, 0)`
/// and `date_naive().num_days_from_ce()`. The offset is within a day, so
/// `east_opt` gives `Some`; the timestamp and the local time are within
/// `chrono`'s range, so `timestamp_opt` gives a single time and
/// `date_naive` does not panic. `from_timestamp` counts days as
/// `secs.div_euclid(86_400) + UNIX_EPOCH_DAY` (719 163), and the local
/// date is the date of the timestamp shifted by the offset.
#[verifier::external_body]
pub fn local_day_number(ts: i64, offset: i32) -> (day: i32)
    requires
        -86_400 < offset < 86_400,
        -TIMESTAMP_BOUND <= ts <= TIMESTAMP_BOUND,
        -TIMESTAMP_BOUND <= ts + offset <= TIMESTAMP_BOUND,
    ensures
        day == local_day(ts as int, offset as int),
{
    let zone = chrono::FixedOffset::east_opt(offset).unwrap();
    zone.timestamp_opt(ts, 0).unwrap().date_naive().num_days_from_ce()
}

/// What `chrono` writes for an instant at a fixed UTC offset with a
/// `strftime` pattern, or `None` where the pattern holds an item that
/// `chrono` cannot format.
pub uninterp spec fn chrono_strftime(ts: i64, offset: i32, pattern: Seq<char>) -> Option<Seq<char>>;

/// Formats the instant with `DateTime::format(pattern)` after the same
/// steps as `local_day_number`, writing it into a string; an error of the
/// formatter gives `None`. The text is named, not described.
#[verifier::external_body]
pub fn format_local(ts: i64, offset: i32, pattern: &str) -> (text: Option<String>)
    requires
        -86_400 < offset < 86_400,
        -TIMESTAMP_BOUND <= ts <= TIMESTAMP_BOUND,
        -TIMESTAMP_BOUND <= ts + offset <= TIMESTAMP_BOUND,
    ensures
        match text {
            Some(t) => chrono_strftime(ts, offset, pattern@) == Some(t@),
            None => chrono_strftime(ts, offset, pattern@) is None,
        },
{
    let zone = chrono::FixedOffset::east_opt(offset).unwrap();
    let moment = zone.timestamp_opt(ts, 0).unwrap();
    let mut out = String::new();
    match write!(out, "{}", moment.format(pattern)) {
        Ok(()) => Some(out),
        Err(_) => None,
    }
}

/// What `str::to_lowercase` makes of a string.
pub uninterp spec fn std_lowercase(s: Seq<char>) -> Seq<char>;

/// Calls `str::to_lowercase`. The lowercase text is named, not described;
/// like every `String`, its UTF-8 bytes fit in `usize`.
#[verifier::external_body]
pub fn lowercase(s: &str) -> (lower: String)
    ensures
        lower@ == std_lowercase(s@),
        encode_utf8(lower@).len() <= usize::MAX,
{
    s.to_lowercase()
}

/// The score that `nucleo_matcher` gives the best fuzzy match of `needle`
/// in `haystack`, if there is one.
pub uninterp spec fn nucleo_fuzzy_score(haystack: Seq<char>, needle: Seq<char>) -> Option<u16>;

/// Calls `nucleo_matcher::Matcher::fuzzy_match` with `Config::DEFAULT` on
/// both strings as `Utf32Str`. The matcher asserts that the haystack's
/// length in characters fits in `u32`, which its length in bytes bounds.
/// The score is named, not described.
#[verifier::external_body]
pub fn fuzzy_score(haystack: &str, needle: &str) -> (score: Option<u16>)
    requires
        encode_utf8(haystack@).len() <= u32::MAX,
    ensures
        score == nucleo_fuzzy_score(haystack@, needle@),
{
    let mut matcher = nucleo_matcher::Matcher::new(nucleo_matcher::Config::DEFAULT);
    let mut haystack_buf = Vec::new();
    let mut needle_buf = Vec::new();
    matcher.fuzzy_match(
        nucleo_matcher::Utf32Str::new(haystack, &mut haystack_buf),
        nucleo_matcher::Utf32Str::new(needle, &mut needle_buf),
    )
}

/// Calls `String::from_utf16`, its error becoming `None`: the text is the
/// UTF-16 decoding of the code units, and `None` comes exactly where they
/// hold an unpaired surrogate.
#[verifier::external_body]
pub fn string_from_utf16(units: &Vec<u16>) -> (text: Option<String>)
    ensures
        match text {
            Some(t) => utf16_decode(units@) == Some(t@),
            None => utf16_decode(units@) is None,
        },
{
    match String::from_utf16(units) {
        Ok(t) => Some(t),
        Err(_) => None,
    }
}

/// The character positions that `nucleo_matcher` reports for the best
/// fuzzy match of `needle` in `haystack`.
pub uninterp spec fn nucleo_fuzzy_indices(haystack: Seq<char>, needle: Seq<char>) -> Seq<u32>;

/// Calls `nucleo_matcher::Matcher::fuzzy_indices` with `Config::DEFAULT`
/// into an empty vector, and returns what it appended; the score is
/// dropped. The matcher asserts the same bound on the haystack as
/// `fuzzy_match`. The positions are named, not described.
#[verifier::external_body]
pub fn fuzzy_indices(haystack: &str, needle: &str) -> (indices: Vec<u32>)
    requires
        encode_utf8(haystack@).len() <= u32::MAX,
    ensures
        indices@ == nucleo_fuzzy_indices(haystack@, needle@),
{
    let mut matcher = nucleo_matcher::Matcher::new(nucleo_matcher::Config::DEFAULT);
    let mut haystack_buf = Vec::new();
    let mut needle_buf = Vec::new();
    let mut indices = Vec::new();
    let _ = matcher.fuzzy_indices(
        nucleo_matcher::Utf32Str::new(haystack, &mut haystack_buf),
        nucleo_matcher::Utf32Str::new(needle, &mut needle_buf),
        &mut indices,
    );
    indices
}

/// Calls `uuid::Uuid::new_v4()` and writes it with `to_string`. The id is
/// random, so nothing but its form is claimed: the hyphenated form of a
/// UUID has thirty-six characters.
#[verifier::external_body]
pub fn new_random_id() -> (id: String)
    ensures
        id@.len() == 36,
{
    uuid::Uuid::new_v4().to_string()
}

/// What `str::to_uppercase` makes of a string.
pub uninterp spec fn std_uppercase(s: Seq<char>) -> Seq<char>;

/// Calls `str::to_uppercase`. The uppercase text is named, not described.
#[verifier::external_body]
pub fn uppercase(s: &str) -> (upper: String)
    ensures
        upper@ == std_uppercase(s@),
{
    s.to_uppercase()
}

/// Calls `emojis::iter()` and lists, for each emoji, its `name()`, its
/// `shortcodes()`, its text `as_str()` and the position of its `group()`
/// among the crate's nine groups. The table is the crate's own data, so
/// nothing is claimed of its entries but that a group position is below
/// nine; the table itself is not empty.
#[verifier::external_body]
pub fn emoji_table() -> (table: Vec<(String, Vec<String>, String, usize)>)
    ensures
        table@.len() > 0,
        forall|i: int| 0 <= i < table@.len() ==> #[trigger] table@[i].3 < 9,
{
    emojis::iter().map(|e| {
        let codes = e.shortcodes().map(|c| c.to_string()).collect();
        (e.name().to_string(), codes, e.as_str().to_string(), e.group() as usize)
    }).collect()
}

} // verus!
