//! The rows of the local database tables.

use vstd::prelude::*;
use crate::chars::str_eq;

verus! {

broadcast use vstd::string::group_string_axioms;

/// A cached media item, identified by its `mxc://` URI.
pub struct Media {
    pub identifier: String,
    pub content: Vec<u8>,
}

/// A member's membership in a room.
#[derive(PartialEq, Eq, Structural)]
pub enum MembershipState {
    Join,
    Invite,
    Leave,
    Ban,
    Unknown,
}

/// The membership read from a stored name; names other than the four the
/// table allows read as `Unknown`.
pub open spec fn membership_of_name(name: Seq<char>) -> MembershipState {
    if name == "join"@ {
        MembershipState::Join
    } else if name == "invite"@ {
        MembershipState::Invite
    } else if name == "leave"@ {
        MembershipState::Leave
    } else if name == "ban"@ {
        MembershipState::Ban
    } else {
        MembershipState::Unknown
    }
}

/// The name stored for a membership; `Unknown` is stored as `leave`.
pub open spec fn name_of_membership(m: MembershipState) -> Seq<char> {
    match m {
        MembershipState::Join => "join"@,
        MembershipState::Invite => "invite"@,
        MembershipState::Leave => "leave"@,
        MembershipState::Ban => "ban"@,
        MembershipState::Unknown => "leave"@,
    }
}

impl MembershipState {
    /// Reads a membership from the column value.
    pub fn from_sql_name(name: &str) -> (m: MembershipState)
        ensures
            m == membership_of_name(name@),
    {
        if str_eq(name, "join") {
            MembershipState::Join
        } else if str_eq(name, "invite") {
            MembershipState::Invite
        } else if str_eq(name, "leave") {
            MembershipState::Leave
        } else if str_eq(name, "ban") {
            MembershipState::Ban
        } else {
            MembershipState::Unknown
        }
    }

    /// The column value stored for a membership.
    pub fn sql_name(&self) -> (name: &'static str)
        ensures
            name@ == name_of_membership(*self),
    {
        match self {
            MembershipState::Join => "join",
            MembershipState::Invite => "invite",
            MembershipState::Leave => "leave",
            MembershipState::Ban => "ban",
            MembershipState::Unknown => "leave",
        }
    }
}

/// A room member as stored in the `members` table.
pub struct MemberRow {
    pub room_id: String,
    pub user_id: String,
    pub display_name: Option<String>,
    pub avatar_url: Option<String>,
    pub membership: MembershipState,
}

/// A reaction as stored in the `reactions` table (the message-extra
/// schema).
pub struct ReactionRow {
    pub event_id: String,
    pub room_id: String,
    pub target_event_id: String,
    pub sender_id: String,
    pub reaction: String,
    pub timestamp: u64,
}

/// A reaction in the schema keyed by reaction key.
pub struct KeyedReactionRow {
    pub event_id: String,
    pub room_id: String,
    pub target_event_id: String,
    pub sender_id: String,
    pub reaction_key: String,
    pub timestamp: u64,
}

/// An edit of a message, as stored in the `message_edits` table.
pub struct MessageEditRow {
    pub event_id: String,
    pub target_event_id: String,
    pub new_json: String,
    pub timestamp: u64,
}

/// A read receipt as stored in the `read_receipts` table.
pub struct ReadReceiptRow {
    pub room_id: String,
    pub user_id: String,
    pub receipt_type: String,
    pub event_id: String,
    pub ts: i64,
}

/// The state of a room that a sync may update; absent fields keep their
/// stored value.
pub struct RoomRow {
    pub name: Option<String>,
    pub topic: Option<String>,
    pub avatar_url: Option<String>,
    pub algorithm: Option<String>,
    pub join_rule: Option<String>,
    pub history_visibility: Option<String>,
    pub guest_access: Option<String>,
    pub power_levels: Option<String>,
    pub room_type: Option<String>,
    pub prev_batch: Option<String>,
    pub highlight_count: Option<u32>,
    pub notification_count: Option<u32>,
    pub alias: Option<String>,
}

/// An alias of a room.
pub struct RoomAliasRow {
    pub room_id: String,
    pub alias: String,
    pub is_canonical: bool,
}

/// A link from a space to one of its children; `is_deleted` marks a link
/// that was removed.
pub struct SpaceChildRow {
    pub parent_room_id: String,
    pub child_room_id: String,
    pub order_str: Option<String>,
    pub is_deleted: bool,
}

/// A link from a room to a space it claims as parent.
pub struct SpaceParentRow {
    pub child_room_id: String,
    pub parent_room_id: String,
    pub is_canonical: bool,
    pub is_deleted: bool,
}

/// Memberships learnt outside a sync, to be written in one go.
pub struct SafeStuff {
    pub memberships: Vec<MemberRow>,
}

impl SafeStuff {
    pub fn new() -> (s: SafeStuff)
        ensures
            s.memberships@.len() == 0,
    {
        SafeStuff { memberships: Vec::new() }
    }
}

impl RoomRow {
    /// A room update that changes nothing.
    pub fn empty() -> (r: RoomRow)
        ensures
            r.name is None && r.topic is None && r.avatar_url is None && r.algorithm is None
                && r.join_rule is None && r.history_visibility is None && r.guest_access is None
                && r.power_levels is None && r.room_type is None && r.prev_batch is None
                && r.highlight_count is None && r.notification_count is None && r.alias is None,
    {
        RoomRow {
            name: None,
            topic: None,
            avatar_url: None,
            algorithm: None,
            join_rule: None,
            history_visibility: None,
            guest_access: None,
            power_levels: None,
            room_type: None,
            prev_batch: None,
            highlight_count: None,
            notification_count: None,
            alias: None,
        }
    }
}

/// Storing a known membership and reading it back gives the same
/// membership; an unknown one reads back as `Leave`.
pub proof fn law_membership_round_trip(m: MembershipState)
    ensures
        m != MembershipState::Unknown ==> membership_of_name(name_of_membership(m)) == m,
        m == MembershipState::Unknown ==> membership_of_name(name_of_membership(m))
            == MembershipState::Leave,
{
    reveal_strlit("join");
    reveal_strlit("invite");
    reveal_strlit("leave");
    reveal_strlit("ban");
    assert("join"@.len() == 4 && "invite"@.len() == 6 && "leave"@.len() == 5 && "ban"@.len() == 3);
    assert("join"@ != "leave"@) by {
        assert("join"@[0] != "leave"@[0]);
    }
}

} // verus!
