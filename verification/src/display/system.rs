//! The one-line notices that the timeline shows for state and call events.

use vstd::prelude::*;

verus! {

broadcast use vstd::string::group_string_axioms;

/// How a member's membership changed.
pub enum MembershipChange {
    NoChange,
    Banned,
    Joined,
    Invited,
    Left,
    Kicked,
    Error,
    InvitationAccepted,
    InvitationRejected,
    InvitationRevoked,
    KickedAndBanned,
    KnockAccepted,
    KnockDenied,
    KnockRetracted,
    Knocked,
    NotImplemented,
    Unbanned,
}

/// The kind of call a call notification announces.
pub enum CallIntent {
    Audio,
    Video,
    Custom,
}

/// A state or call event of the timeline, with what its notice shows.
pub enum SystemMessage {
    MembershipChange { user_id: String, change: Option<MembershipChange> },
    CallInvite,
    CallMember,
    PolicyRuleRoom,
    PolicyRuleServer,
    PolicyRuleUser,
    /// A profile change, with the description the timeline carries for it.
    ProfileChange { user_id: String, text: String },
    Redacted,
    RoomAvatar,
    RoomCanonicalAlias { alias: Option<String> },
    RoomCreate { additional_creators: Vec<String>, room_type: Option<String> },
    RoomEncryption { algorithm: String },
    RoomGuestAccess { guest_access: String },
    RoomHistoryVisibility { visibility: String },
    /// A change of the join rule, with the rule's display name.
    RoomJoinRules { join_rule: String },
    RoomName { name: String },
    RoomPinnedEvents { pinned_events: Vec<String> },
    RoomPowerLevels,
    RoomServerAcl,
    RoomThirdPartyInvite { display_name: String },
    RoomTombstone { body: String, replacement_room: String },
    RoomTopic { topic: String },
    RtcNotification { call_intent: Option<CallIntent>, declined_by: Vec<String> },
    SpaceChild { via: Vec<String>, order: Option<String>, suggested: bool },
    SpaceParent { via: Vec<String>, canonical: bool },
    Unknown,
    BeaconInfo,
    MemberHints,
    RoomImagePack,
}

/// What the notice of a system message consists of.
pub struct SystemLine {
    /// The user whose avatar and name open the line.
    pub subject: String,
    /// Whether a join arrow stands before the subject.
    pub joined_arrow: bool,
    /// The text after the subject.
    pub text: String,
    /// The event that the line's "a message" link jumps to.
    pub jump_target: Option<String>,
    /// The users listed after the text, as having declined a call.
    pub declined_by: Vec<String>,
}

/// The strings joined with `sep` between neighbours.
pub open spec fn join(parts: Seq<Seq<char>>, sep: Seq<char>) -> Seq<char>
    decreases parts.len(),
{
    if parts.len() == 0 {
        Seq::empty()
    } else if parts.len() == 1 {
        parts[0]
    } else {
        join(parts.drop_last(), sep) + sep + parts.last()
    }
}

/// A list of strings as plain character sequences.
pub open spec fn strings_view(v: Seq<String>) -> Seq<Seq<char>> {
    v.map_values(|s: String| s@)
}

pub open spec fn membership_text(change: Option<MembershipChange>) -> Seq<char> {
    match change {
        None => "changed membership"@,
        Some(c) => match c {
            MembershipChange::NoChange => "had no membership change"@,
            MembershipChange::Banned => "was banned"@,
            MembershipChange::Joined => "joined the room"@,
            MembershipChange::Invited => "was invited"@,
            MembershipChange::Left => "left the room"@,
            MembershipChange::Kicked => "was kicked"@,
            MembershipChange::Error => "had a membership change"@,
            MembershipChange::InvitationAccepted => "accepted the invitation"@,
            MembershipChange::InvitationRejected => "rejected the invitation"@,
            MembershipChange::InvitationRevoked => "had their invitation revoked"@,
            MembershipChange::KickedAndBanned => "was kicked and banned"@,
            MembershipChange::KnockAccepted => "accepted the knock"@,
            MembershipChange::KnockDenied => "denied the knock"@,
            MembershipChange::KnockRetracted => "retracted the knock"@,
            MembershipChange::Knocked => "knocked on the door"@,
            MembershipChange::NotImplemented => "had a membership change"@,
            MembershipChange::Unbanned => "was unbanned"@,
        },
    }
}

pub open spec fn via_text(via: Seq<Seq<char>>) -> Seq<char> {
    if via.len() == 0 {
        Seq::empty()
    } else {
        " via "@ + join(via, ", "@)
    }
}

pub open spec fn call_intent_text(intent: Option<CallIntent>) -> Seq<char> {
    match intent {
        None => "started a call"@,
        Some(CallIntent::Video) => "started a video call"@,
        Some(_) => "started an audio call"@,
    }
}

/// The text of the notice after its subject. A call notification reads
/// "started " followed by the call's own text, which starts with "started"
/// too ("started started a call").
pub open spec fn system_text(msg: SystemMessage) -> Seq<char> {
    match msg {
        SystemMessage::MembershipChange { change, .. } => membership_text(change),
        SystemMessage::CallInvite => "started a call"@,
        SystemMessage::CallMember => "joined a call"@,
        SystemMessage::PolicyRuleRoom => "changed the room's policy"@,
        SystemMessage::PolicyRuleServer => "changed the server's policy"@,
        SystemMessage::PolicyRuleUser => "changed their policy"@,
        SystemMessage::ProfileChange { text, .. } => text@,
        SystemMessage::Redacted => "had a message redacted"@,
        SystemMessage::RoomAvatar => "changed the room avatar"@,
        SystemMessage::RoomCanonicalAlias { alias } => match alias {
            Some(a) => "changed the room alias"@ + " to "@ + a@,
            None => "changed the room alias"@,
        },
        SystemMessage::RoomCreate { additional_creators, room_type } => {
            let type_text = match room_type {
                None => "the room"@,
                Some(t) => "the room ("@ + t@ + ")"@,
            };
            let additional = if additional_creators.len() == 0 {
                Seq::empty()
            } else {
                " with "@ + join(strings_view(additional_creators@), " ,"@)
            };
            "created "@ + type_text + additional
        },
        SystemMessage::RoomEncryption { algorithm } => "enabled encryption with "@ + algorithm@,
        SystemMessage::RoomGuestAccess { guest_access } => "changed guest access to: "@ + guest_access@,
        SystemMessage::RoomHistoryVisibility { visibility } => "changed history visibility to: "@
            + visibility@,
        SystemMessage::RoomJoinRules { join_rule } => "changed join rules to: "@ + join_rule@,
        SystemMessage::RoomName { name } => "changed the room name to: "@ + name@,
        SystemMessage::RoomPinnedEvents { pinned_events } => if pinned_events.len() == 0 {
            "changed pinned events"@
        } else {
            "pinned "@ + "a message"@ + " to this room. See all "@ + "pinned messages"@ + "."@
        },
        SystemMessage::RoomPowerLevels => "changed the room power levels"@,
        SystemMessage::RoomServerAcl => "changed the room server ACL"@,
        SystemMessage::RoomThirdPartyInvite { display_name } => "invited "@ + display_name@
            + " to the room"@,
        SystemMessage::RoomTombstone { body, replacement_room } => "closed the room. Reason: "@
            + body@ + ". Replacement room: "@ + replacement_room@,
        SystemMessage::RoomTopic { topic } => "changed the room topic to: "@ + topic@,
        SystemMessage::RtcNotification { call_intent, declined_by } => "started "@
            + call_intent_text(call_intent) + if declined_by.len() == 0 {
            Seq::empty()
        } else {
            " which was declined by"@
        },
        SystemMessage::SpaceChild { via, order, suggested } => "added this room as a child of a space"@
            + via_text(strings_view(via@)) + match order {
            Some(o) => " with order "@ + o@,
            None => Seq::empty(),
        } + if suggested {
            " (suggested)"@
        } else {
            Seq::empty()
        },
        SystemMessage::SpaceParent { via, canonical } => "added this room as a parent of a space"@
            + via_text(strings_view(via@)) + if canonical {
            " (canonical)"@
        } else {
            Seq::empty()
        },
        SystemMessage::Unknown => "performed an unknown system action"@,
        SystemMessage::BeaconInfo => "shared a live location"@,
        SystemMessage::MemberHints => "updated their member hints"@,
        SystemMessage::RoomImagePack => "updated the room's image pack"@,
    }
}

/// The user the notice is about: the member whose membership or profile
/// changed, otherwise the event's sender.
pub open spec fn system_subject(sender: Seq<char>, msg: SystemMessage) -> Seq<char> {
    match msg {
        SystemMessage::MembershipChange { user_id, .. } => user_id@,
        SystemMessage::ProfileChange { user_id, .. } => user_id@,
        _ => sender,
    }
}

/// Joins the strings with `sep` between neighbours.
pub fn join_strings(parts: &Vec<String>, sep: &str) -> (s: String)
    ensures
        s@ == join(strings_view(parts@), sep@),
{
    let mut out = String::new();
    let mut i: usize = 0;
    while i < parts.len()
        invariant
            i <= parts@.len(),
            out@ == join(strings_view(parts@).take(i as int), sep@),
        decreases parts.len() - i,
    {
        let ghost before = strings_view(parts@).take(i as int);
        if i > 0 {
            out.append(sep);
        }
        out.append(parts[i].as_str());
        proof {
            let now = strings_view(parts@).take(i + 1);
            assert(now.drop_last() =~= before);
            assert(now.last() == parts@[i as int]@);
            if i == 0 {
                assert(now.len() == 1);
            }
        }
        i = i + 1;
    }
    assert(strings_view(parts@).take(parts@.len() as int) =~= strings_view(parts@));
    out
}

/// Copies the first `n` strings.
pub fn prefix_strings(v: &Vec<String>, n: usize) -> (out: Vec<String>)
    requires
        n <= v@.len(),
    ensures
        strings_view(out@) == strings_view(v@).take(n as int),
{
    let mut out: Vec<String> = Vec::new();
    let mut i: usize = 0;
    while i < n
        invariant
            n <= v@.len(),
            i <= n,
            strings_view(out@) == strings_view(v@).take(i as int),
        decreases n - i,
    {
        let c = v[i].clone();
        assert(c@ == v@[i as int]@);
        let ghost prev = out@;
        out.push(c);
        assert(strings_view(prev).len() == i);
        assert forall|k: int| 0 <= k < i + 1 implies #[trigger] strings_view(out@)[k] == strings_view(v@).take(i + 1)[k] by {
            if k < i {
                assert(out@[k] == prev[k]);
                assert(strings_view(prev)[k] == strings_view(v@).take(i as int)[k]);
            }
        }
        assert(strings_view(out@) =~= strings_view(v@).take(i + 1));
        i = i + 1;
    }
    out
}

/// Copies the strings.
pub fn clone_strings(v: &Vec<String>) -> (out: Vec<String>)
    ensures
        strings_view(out@) == strings_view(v@),
{
    let out = prefix_strings(v, v.len());
    assert(strings_view(v@).take(v@.len() as int) =~= strings_view(v@));
    out
}

fn membership_string(change: &Option<MembershipChange>) -> (s: String)
    ensures
        s@ == membership_text(*change),
{
    match change {
        None => String::from_str("changed membership"),
        Some(c) => match c {
            MembershipChange::NoChange => String::from_str("had no membership change"),
            MembershipChange::Banned => String::from_str("was banned"),
            MembershipChange::Joined => String::from_str("joined the room"),
            MembershipChange::Invited => String::from_str("was invited"),
            MembershipChange::Left => String::from_str("left the room"),
            MembershipChange::Kicked => String::from_str("was kicked"),
            MembershipChange::Error => String::from_str("had a membership change"),
            MembershipChange::InvitationAccepted => String::from_str("accepted the invitation"),
            MembershipChange::InvitationRejected => String::from_str("rejected the invitation"),
            MembershipChange::InvitationRevoked => String::from_str("had their invitation revoked"),
            MembershipChange::KickedAndBanned => String::from_str("was kicked and banned"),
            MembershipChange::KnockAccepted => String::from_str("accepted the knock"),
            MembershipChange::KnockDenied => String::from_str("denied the knock"),
            MembershipChange::KnockRetracted => String::from_str("retracted the knock"),
            MembershipChange::Knocked => String::from_str("knocked on the door"),
            MembershipChange::NotImplemented => String::from_str("had a membership change"),
            MembershipChange::Unbanned => String::from_str("was unbanned"),
        },
    }
}

fn via_string(via: &Vec<String>) -> (s: String)
    ensures
        s@ == via_text(strings_view(via@)),
{
    if via.len() == 0 {
        String::new()
    } else {
        let mut s = String::from_str(" via ");
        let joined = join_strings(via, ", ");
        s.append(joined.as_str());
        s
    }
}

/// Prefixes `head` to `tail`.
fn concat2(head: &str, tail: &str) -> (s: String)
    ensures
        s@ == head@ + tail@,
{
    let mut s = String::from_str(head);
    s.append(tail);
    s
}

fn system_string(msg: &SystemMessage) -> (s: String)
    ensures
        s@ == system_text(*msg),
{
    match msg {
        SystemMessage::MembershipChange { change, .. } => membership_string(change),
        SystemMessage::CallInvite => String::from_str("started a call"),
        SystemMessage::CallMember => String::from_str("joined a call"),
        SystemMessage::PolicyRuleRoom => String::from_str("changed the room's policy"),
        SystemMessage::PolicyRuleServer => String::from_str("changed the server's policy"),
        SystemMessage::PolicyRuleUser => String::from_str("changed their policy"),
        SystemMessage::ProfileChange { text, .. } => text.clone(),
        SystemMessage::Redacted => String::from_str("had a message redacted"),
        SystemMessage::RoomAvatar => String::from_str("changed the room avatar"),
        SystemMessage::RoomCanonicalAlias { alias } => {
            let mut s = String::from_str("changed the room alias");
            match alias {
                Some(a) => {
                    s.append(" to ");
                    s.append(a.as_str());
                },
                None => {},
            }
            s
        },
        SystemMessage::RoomCreate { additional_creators, room_type } => {
            let mut s = String::from_str("created ");
            match room_type {
                Some(t) => {
                    let mut type_text = String::from_str("the room (");
                    type_text.append(t.as_str());
                    type_text.append(")");
                    s.append(type_text.as_str());
                },
                None => s.append("the room"),
            }
            if additional_creators.len() > 0 {
                s.append(" with ");
                let joined = join_strings(additional_creators, " ,");
                s.append(joined.as_str());
            }
            s
        },
        SystemMessage::RoomEncryption { algorithm } => concat2("enabled encryption with ", algorithm.as_str()),
        SystemMessage::RoomGuestAccess { guest_access } => concat2("changed guest access to: ", guest_access.as_str()),
        SystemMessage::RoomHistoryVisibility { visibility } => concat2("changed history visibility to: ", visibility.as_str()),
        SystemMessage::RoomJoinRules { join_rule } => concat2("changed join rules to: ", join_rule.as_str()),
        SystemMessage::RoomName { name } => concat2("changed the room name to: ", name.as_str()),
        SystemMessage::RoomPinnedEvents { pinned_events } => {
            if pinned_events.len() == 0 {
                String::from_str("changed pinned events")
            } else {
                let mut s = String::from_str("pinned ");
                s.append("a message");
                s.append(" to this room. See all ");
                s.append("pinned messages");
                s.append(".");
                s
            }
        },
        SystemMessage::RoomPowerLevels => String::from_str("changed the room power levels"),
        SystemMessage::RoomServerAcl => String::from_str("changed the room server ACL"),
        SystemMessage::RoomThirdPartyInvite { display_name } => {
            let mut s = concat2("invited ", display_name.as_str());
            s.append(" to the room");
            s
        },
        SystemMessage::RoomTombstone { body, replacement_room } => {
            let mut s = concat2("closed the room. Reason: ", body.as_str());
            s.append(". Replacement room: ");
            s.append(replacement_room.as_str());
            s
        },
        SystemMessage::RoomTopic { topic } => concat2("changed the room topic to: ", topic.as_str()),
        SystemMessage::RtcNotification { call_intent, declined_by } => {
            let mut s = String::from_str("started ");
            match call_intent {
                None => s.append("started a call"),
                Some(CallIntent::Video) => s.append("started a video call"),
                Some(_) => s.append("started an audio call"),
            }
            if declined_by.len() > 0 {
                s.append(" which was declined by");
            }
            s
        },
        SystemMessage::SpaceChild { via, order, suggested } => {
            let mut s = String::from_str("added this room as a child of a space");
            let v = via_string(via);
            s.append(v.as_str());
            match order {
                Some(o) => {
                    s.append(" with order ");
                    s.append(o.as_str());
                },
                None => {},
            }
            if *suggested {
                s.append(" (suggested)");
            }
            s
        },
        SystemMessage::SpaceParent { via, canonical } => {
            let mut s = String::from_str("added this room as a parent of a space");
            let v = via_string(via);
            s.append(v.as_str());
            if *canonical {
                s.append(" (canonical)");
            }
            s
        },
        SystemMessage::Unknown => String::from_str("performed an unknown system action"),
        SystemMessage::BeaconInfo => String::from_str("shared a live location"),
        SystemMessage::MemberHints => String::from_str("updated their member hints"),
        SystemMessage::RoomImagePack => String::from_str("updated the room's image pack"),
    }
}

/// The event a pinned-events notice links to: the last one pinned.
pub open spec fn system_jump_target(msg: SystemMessage) -> Option<Seq<char>> {
    match msg {
        SystemMessage::RoomPinnedEvents { pinned_events } => if pinned_events.len() == 0 {
            None
        } else {
            Some(pinned_events@.last()@)
        },
        _ => None,
    }
}

/// The users a call notification names as having declined.
pub open spec fn system_declined(msg: SystemMessage) -> Seq<Seq<char>> {
    match msg {
        SystemMessage::RtcNotification { declined_by, .. } => strings_view(declined_by@),
        _ => Seq::empty(),
    }
}

/// Lays out the notice of a system message sent by `sender`: whose avatar
/// and name open it, whether a join arrow precedes them, the text, the
/// pinned event the text links to, and the users who declined a call.
pub fn system_line(sender: &String, msg: &SystemMessage) -> (line: SystemLine)
    ensures
        line.subject@ == system_subject(sender@, *msg),
        line.joined_arrow == (*msg matches SystemMessage::MembershipChange {
            change: Some(MembershipChange::Joined),
            ..
        }),
        line.text@ == system_text(*msg),
        match line.jump_target {
            Some(t) => system_jump_target(*msg) == Some(t@),
            None => system_jump_target(*msg) is None,
        },
        strings_view(line.declined_by@) == system_declined(*msg),
{
    let subject = match msg {
        SystemMessage::MembershipChange { user_id, .. } => user_id.clone(),
        SystemMessage::ProfileChange { user_id, .. } => user_id.clone(),
        _ => sender.clone(),
    };
    let joined_arrow = match msg {
        SystemMessage::MembershipChange { change: Some(MembershipChange::Joined), .. } => true,
        _ => false,
    };
    let jump_target = match msg {
        SystemMessage::RoomPinnedEvents { pinned_events } => {
            if pinned_events.len() == 0 {
                None
            } else {
                Some(pinned_events[pinned_events.len() - 1].clone())
            }
        },
        _ => None,
    };
    let declined_by = match msg {
        SystemMessage::RtcNotification { declined_by, .. } => clone_strings(declined_by),
        _ => {
            let v: Vec<String> = Vec::new();
            assert(strings_view(v@) =~= Seq::<Seq<char>>::empty());
            v
        },
    };
    SystemLine { subject, joined_arrow, text: system_string(msg), jump_target, declined_by }
}

} // verus!
