//! The statements one sync writes to the database, in the order they run
//! inside one transaction.

use vstd::prelude::*;
use crate::message::MessageRow;
use crate::storage::rows::{MemberRow, ReadReceiptRow, RoomRow, SafeStuff, SpaceChildRow, SpaceParentRow};

verus! {

/// What a sync brings to be stored.
pub struct SyncChanges {
    pub joined_rooms: Vec<String>,
    pub new_messages: Vec<MessageRow>,
    pub member_updates: Vec<MemberRow>,
    pub read_receipts: Vec<ReadReceiptRow>,
    /// The full set of direct-message rooms, when the sync brings it.
    pub direct_rooms: Option<Vec<String>>,
    pub room_updates: Vec<(String, RoomRow)>,
    pub space_children: Vec<SpaceChildRow>,
    pub space_parents: Vec<SpaceParentRow>,
}

/// One write of a sync.
pub enum SyncStatement {
    DeleteSpaceChild { parent_room_id: String, child_room_id: String },
    UpsertSpaceChild { parent_room_id: String, child_room_id: String, order_str: Option<String> },
    DeleteSpaceParent { child_room_id: String, parent_room_id: String },
    UpsertSpaceParent { child_room_id: String, parent_room_id: String, is_canonical: bool },
    /// Marks every room as not direct.
    ClearDirectFlags,
    MarkDirect { room_id: String },
    /// Inserts a message, or on a known event id replaces its type and JSON.
    UpsertMessage {
        event_id: String,
        room_id: String,
        sender: String,
        msg_type: String,
        raw_json: String,
        timestamp: u64,
    },
    /// Inserts a member, or replaces its name, avatar and membership.
    UpsertMember(MemberRow),
    /// Overwrites the room's fields that the update holds.
    UpdateRoomState { room_id: String, update: RoomRow },
    /// Inserts a receipt, or replaces its event and time.
    UpsertReceipt(ReadReceiptRow),
}

pub open spec fn child_statement(c: SpaceChildRow) -> SyncStatement {
    if c.is_deleted {
        SyncStatement::DeleteSpaceChild { parent_room_id: c.parent_room_id, child_room_id: c.child_room_id }
    } else {
        SyncStatement::UpsertSpaceChild {
            parent_room_id: c.parent_room_id,
            child_room_id: c.child_room_id,
            order_str: c.order_str,
        }
    }
}

pub open spec fn parent_statement(p: SpaceParentRow) -> SyncStatement {
    if p.is_deleted {
        SyncStatement::DeleteSpaceParent { child_room_id: p.child_room_id, parent_room_id: p.parent_room_id }
    } else {
        SyncStatement::UpsertSpaceParent {
            child_room_id: p.child_room_id,
            parent_room_id: p.parent_room_id,
            is_canonical: p.is_canonical,
        }
    }
}

pub open spec fn direct_statements(direct: Option<Vec<String>>) -> Seq<SyncStatement> {
    match direct {
        Some(rooms) => seq![SyncStatement::ClearDirectFlags] + rooms@.map_values(
            |r: String| SyncStatement::MarkDirect { room_id: r },
        ),
        None => Seq::empty(),
    }
}

pub open spec fn message_statement(m: MessageRow) -> SyncStatement {
    SyncStatement::UpsertMessage {
        event_id: m.event_id,
        room_id: m.room_id,
        sender: m.sender,
        msg_type: m.msg_type,
        raw_json: m.raw_json,
        timestamp: m.timestamp,
    }
}

/// The writes of a sync: space children, space parents, the direct-room
/// flags, messages, members, room state and read receipts, each group in
/// the order the sync lists it.
pub open spec fn sync_statements(c: SyncChanges) -> Seq<SyncStatement> {
    c.space_children@.map_values(|x: SpaceChildRow| child_statement(x))
        + c.space_parents@.map_values(|x: SpaceParentRow| parent_statement(x))
        + direct_statements(c.direct_rooms)
        + c.new_messages@.map_values(|x: MessageRow| message_statement(x))
        + c.member_updates@.map_values(|x: MemberRow| SyncStatement::UpsertMember(x))
        + c.room_updates@.map_values(
            |x: (String, RoomRow)| SyncStatement::UpdateRoomState { room_id: x.0, update: x.1 },
        )
        + c.read_receipts@.map_values(|x: ReadReceiptRow| SyncStatement::UpsertReceipt(x))
}

/// A sync's writes start with one statement per space-child update, in
/// order: a removed child is deleted, any other is stored with its parent,
/// child and order. Then come one statement per space-parent update, in
/// order: a removed parent link is deleted, any other is stored with its
/// child, parent and whether it is canonical.
pub proof fn law_space_link_statements(c: SyncChanges)
    ensures
        sync_statements(c).len() >= c.space_children@.len() + c.space_parents@.len(),
        forall|i: int| 0 <= i < c.space_children@.len() ==> {
            let x = #[trigger] c.space_children@[i];
            if x.is_deleted {
                sync_statements(c)[i] == SyncStatement::DeleteSpaceChild {
                    parent_room_id: x.parent_room_id,
                    child_room_id: x.child_room_id,
                }
            } else {
                sync_statements(c)[i] == SyncStatement::UpsertSpaceChild {
                    parent_room_id: x.parent_room_id,
                    child_room_id: x.child_room_id,
                    order_str: x.order_str,
                }
            }
        },
        forall|i: int| 0 <= i < c.space_parents@.len() ==> {
            let x = #[trigger] c.space_parents@[i];
            let k = c.space_children@.len() + i;
            if x.is_deleted {
                sync_statements(c)[k] == SyncStatement::DeleteSpaceParent {
                    child_room_id: x.child_room_id,
                    parent_room_id: x.parent_room_id,
                }
            } else {
                sync_statements(c)[k] == SyncStatement::UpsertSpaceParent {
                    child_room_id: x.child_room_id,
                    parent_room_id: x.parent_room_id,
                    is_canonical: x.is_canonical,
                }
            }
        },
{
    let a = c.space_children@.map_values(|x: SpaceChildRow| child_statement(x));
    let b = c.space_parents@.map_values(|x: SpaceParentRow| parent_statement(x));
    let rest = direct_statements(c.direct_rooms)
        + c.new_messages@.map_values(|x: MessageRow| message_statement(x))
        + c.member_updates@.map_values(|x: MemberRow| SyncStatement::UpsertMember(x))
        + c.room_updates@.map_values(
            |x: (String, RoomRow)| SyncStatement::UpdateRoomState { room_id: x.0, update: x.1 },
        )
        + c.read_receipts@.map_values(|x: ReadReceiptRow| SyncStatement::UpsertReceipt(x));
    assert(sync_statements(c) =~= a + b + rest);
    assert forall|i: int| 0 <= i < c.space_children@.len() implies sync_statements(c)[i] == child_statement(
        #[trigger] c.space_children@[i],
    ) by {
        assert((a + b + rest)[i] == a[i]);
    }
    assert forall|i: int| 0 <= i < c.space_parents@.len() implies sync_statements(c)[c.space_children@.len() + i]
        == parent_statement(#[trigger] c.space_parents@[i]) by {
        assert((a + b + rest)[a.len() + i] == b[i]);
    }
}

/// After the space links, a sync's writes hold, in order: when the sync
/// brings the direct rooms, one statement clearing every direct flag and
/// one marking each of those rooms direct; then one insert per new message
/// with its event id, room, sender, type, raw JSON and time; then one per
/// member update, one per room update and one per read receipt, each
/// carrying that update. Nothing else is written.
pub proof fn law_sync_statement_groups(c: SyncChanges)
    ensures
        ({
            let s = sync_statements(c);
            let d = match c.direct_rooms {
                Some(r) => r@.len() + 1,
                None => 0,
            };
            let at_direct = c.space_children@.len() + c.space_parents@.len();
            let at_msg = at_direct + d;
            let at_member = at_msg + c.new_messages@.len();
            let at_room = at_member + c.member_updates@.len();
            let at_receipt = at_room + c.room_updates@.len();
            &&& s.len() == at_receipt + c.read_receipts@.len()
            &&& c.direct_rooms matches Some(r) ==> {
                &&& s[at_direct as int] == SyncStatement::ClearDirectFlags
                &&& forall|i: int| 0 <= i < r@.len() ==> s[at_direct + 1 + i] == SyncStatement::MarkDirect {
                    room_id: #[trigger] r@[i],
                }
            }
            &&& forall|i: int| 0 <= i < c.new_messages@.len() ==> {
                let m = #[trigger] c.new_messages@[i];
                s[at_msg + i] == SyncStatement::UpsertMessage {
                    event_id: m.event_id,
                    room_id: m.room_id,
                    sender: m.sender,
                    msg_type: m.msg_type,
                    raw_json: m.raw_json,
                    timestamp: m.timestamp,
                }
            }
            &&& forall|i: int| 0 <= i < c.member_updates@.len() ==> s[at_member + i] == SyncStatement::UpsertMember(
                #[trigger] c.member_updates@[i],
            )
            &&& forall|i: int| 0 <= i < c.room_updates@.len() ==> s[at_room + i] == SyncStatement::UpdateRoomState {
                room_id: (#[trigger] c.room_updates@[i]).0,
                update: c.room_updates@[i].1,
            }
            &&& forall|i: int| 0 <= i < c.read_receipts@.len() ==> s[at_receipt + i] == SyncStatement::UpsertReceipt(
                #[trigger] c.read_receipts@[i],
            )
        }),
{
    let a = c.space_children@.map_values(|x: SpaceChildRow| child_statement(x));
    let b = c.space_parents@.map_values(|x: SpaceParentRow| parent_statement(x));
    let dd = direct_statements(c.direct_rooms);
    let mm = c.new_messages@.map_values(|x: MessageRow| message_statement(x));
    let me = c.member_updates@.map_values(|x: MemberRow| SyncStatement::UpsertMember(x));
    let ro = c.room_updates@.map_values(
        |x: (String, RoomRow)| SyncStatement::UpdateRoomState { room_id: x.0, update: x.1 },
    );
    let re = c.read_receipts@.map_values(|x: ReadReceiptRow| SyncStatement::UpsertReceipt(x));
    let s = sync_statements(c);
    assert(s == a + b + dd + mm + me + ro + re);
    let ab = a + b;
    let abd = ab + dd;
    let abdm = abd + mm;
    let abdme = abdm + me;
    let abdmer = abdme + ro;
    match c.direct_rooms {
        Some(r) => {
            assert(dd.len() == r@.len() + 1);
            assert(s[ab.len() as int] == abd[ab.len() as int]);
            assert(abd[ab.len() as int] == dd[0]);
            assert forall|i: int| 0 <= i < r@.len() implies s[ab.len() + 1 + i] == SyncStatement::MarkDirect {
                room_id: #[trigger] r@[i],
            } by {
                assert(s[ab.len() + 1 + i] == abd[ab.len() + 1 + i]);
                assert(abd[ab.len() + 1 + i] == dd[1 + i]);
            }
        },
        None => {
            assert(dd.len() == 0);
        },
    }
    assert forall|i: int| 0 <= i < c.new_messages@.len() implies s[abd.len() + i] == message_statement(
        #[trigger] c.new_messages@[i],
    ) by {
        assert(s[abd.len() + i] == abdm[abd.len() + i]);
    }
    assert forall|i: int| 0 <= i < c.member_updates@.len() implies s[abdm.len() + i] == SyncStatement::UpsertMember(
        #[trigger] c.member_updates@[i],
    ) by {
        assert(s[abdm.len() + i] == abdme[abdm.len() + i]);
    }
    assert forall|i: int| 0 <= i < c.room_updates@.len() implies s[abdme.len() + i] == SyncStatement::UpdateRoomState {
        room_id: (#[trigger] c.room_updates@[i]).0,
        update: c.room_updates@[i].1,
    } by {
        assert(s[abdme.len() + i] == abdmer[abdme.len() + i]);
    }
}

/// Lists the writes of a sync, after the joined rooms have been ensured.
/// Returns the joined rooms, to be ensured first, and the statements.
pub fn plan_sync_statements(changes: SyncChanges) -> (plan: (Vec<String>, Vec<SyncStatement>))
    ensures
        plan.0 == changes.joined_rooms,
        plan.1@ == sync_statements(changes),
{
    let ghost c = changes;
    let SyncChanges {
        joined_rooms,
        new_messages,
        member_updates,
        read_receipts,
        direct_rooms,
        room_updates,
        space_children,
        space_parents,
    } = changes;
    let mut out: Vec<SyncStatement> = Vec::new();
    for x in it: space_children
        invariant
            it.seq() == c.space_children@,
            out@ == it.seq().take(it.index() as int).map_values(|x: SpaceChildRow| child_statement(x)),
    {
        let ghost before = out@;
        if x.is_deleted {
            out.push(SyncStatement::DeleteSpaceChild { parent_room_id: x.parent_room_id, child_room_id: x.child_room_id });
        } else {
            out.push(SyncStatement::UpsertSpaceChild {
                parent_room_id: x.parent_room_id,
                child_room_id: x.child_room_id,
                order_str: x.order_str,
            });
        }
        assert(out@ =~= it.seq().take(it.index() + 1).map_values(|x: SpaceChildRow| child_statement(x)));
    }
    let ghost p1 = out@;
    assert(p1 =~= c.space_children@.map_values(|x: SpaceChildRow| child_statement(x)));
    for x in it: space_parents
        invariant
            it.seq() == c.space_parents@,
            out@ == p1 + it.seq().take(it.index() as int).map_values(|x: SpaceParentRow| parent_statement(x)),
    {
        if x.is_deleted {
            out.push(SyncStatement::DeleteSpaceParent { child_room_id: x.child_room_id, parent_room_id: x.parent_room_id });
        } else {
            out.push(SyncStatement::UpsertSpaceParent {
                child_room_id: x.child_room_id,
                parent_room_id: x.parent_room_id,
                is_canonical: x.is_canonical,
            });
        }
        assert(out@ =~= p1 + it.seq().take(it.index() + 1).map_values(|x: SpaceParentRow| parent_statement(x)));
    }
    let ghost p2 = out@;
    assert(p2 =~= p1 + c.space_parents@.map_values(|x: SpaceParentRow| parent_statement(x)));
    match direct_rooms {
        Some(rooms) => {
            out.push(SyncStatement::ClearDirectFlags);
            let ghost p2b = out@;
            for r in it: rooms
                invariant
                    it.seq() == c.direct_rooms->0@,
                    p2b == p2.push(SyncStatement::ClearDirectFlags),
                    out@ == p2b + it.seq().take(it.index() as int).map_values(
                        |r: String| SyncStatement::MarkDirect { room_id: r },
                    ),
            {
                out.push(SyncStatement::MarkDirect { room_id: r });
                assert(out@ =~= p2b + it.seq().take(it.index() + 1).map_values(
                    |r: String| SyncStatement::MarkDirect { room_id: r },
                ));
            }
            assert(out@ =~= p2 + direct_statements(c.direct_rooms));
        },
        None => {
            assert(out@ =~= p2 + direct_statements(c.direct_rooms));
        },
    }
    let ghost p3 = out@;
    for m in it: new_messages
        invariant
            it.seq() == c.new_messages@,
            out@ == p3 + it.seq().take(it.index() as int).map_values(|x: MessageRow| message_statement(x)),
    {
        out.push(SyncStatement::UpsertMessage {
            event_id: m.event_id,
            room_id: m.room_id,
            sender: m.sender,
            msg_type: m.msg_type,
            raw_json: m.raw_json,
            timestamp: m.timestamp,
        });
        assert(out@ =~= p3 + it.seq().take(it.index() + 1).map_values(|x: MessageRow| message_statement(x)));
    }
    let ghost p4 = out@;
    assert(p4 =~= p3 + c.new_messages@.map_values(|x: MessageRow| message_statement(x)));
    for m in it: member_updates
        invariant
            it.seq() == c.member_updates@,
            out@ == p4 + it.seq().take(it.index() as int).map_values(|x: MemberRow| SyncStatement::UpsertMember(x)),
    {
        out.push(SyncStatement::UpsertMember(m));
        assert(out@ =~= p4 + it.seq().take(it.index() + 1).map_values(|x: MemberRow| SyncStatement::UpsertMember(x)));
    }
    let ghost p5 = out@;
    assert(p5 =~= p4 + c.member_updates@.map_values(|x: MemberRow| SyncStatement::UpsertMember(x)));
    for u in it: room_updates
        invariant
            it.seq() == c.room_updates@,
            out@ == p5 + it.seq().take(it.index() as int).map_values(
                |x: (String, RoomRow)| SyncStatement::UpdateRoomState { room_id: x.0, update: x.1 },
            ),
    {
        let (room_id, update) = u;
        out.push(SyncStatement::UpdateRoomState { room_id, update });
        assert(out@ =~= p5 + it.seq().take(it.index() + 1).map_values(
            |x: (String, RoomRow)| SyncStatement::UpdateRoomState { room_id: x.0, update: x.1 },
        ));
    }
    let ghost p6 = out@;
    assert(p6 =~= p5 + c.room_updates@.map_values(
        |x: (String, RoomRow)| SyncStatement::UpdateRoomState { room_id: x.0, update: x.1 },
    ));
    for r in it: read_receipts
        invariant
            it.seq() == c.read_receipts@,
            out@ == p6 + it.seq().take(it.index() as int).map_values(|x: ReadReceiptRow| SyncStatement::UpsertReceipt(x)),
    {
        out.push(SyncStatement::UpsertReceipt(r));
        assert(out@ =~= p6 + it.seq().take(it.index() + 1).map_values(|x: ReadReceiptRow| SyncStatement::UpsertReceipt(x)));
    }
    assert(out@ =~= p6 + c.read_receipts@.map_values(|x: ReadReceiptRow| SyncStatement::UpsertReceipt(x)));
    (joined_rooms, out)
}

/// The joined rooms that were not stored before the sync, in the order the
/// sync lists them: these get their member lists fetched. `existed[i]` is
/// what the database answered for `joined[i]` just before it was ensured.
pub fn new_joined_rooms(joined: &Vec<String>, existed: &Vec<bool>) -> (rooms: Vec<String>)
    requires
        joined@.len() == existed@.len(),
    ensures
        rooms@ == new_rooms_of(joined@, existed@, joined@.len() as nat),
{
    let mut out: Vec<String> = Vec::new();
    let mut i: usize = 0;
    while i < joined.len()
        invariant
            joined@.len() == existed@.len(),
            i <= joined@.len(),
            out@ == new_rooms_of(joined@, existed@, i as nat),
        decreases joined.len() - i,
    {
        if !existed[i] {
            out.push(joined[i].clone());
        }
        i = i + 1;
    }
    out
}

/// The rooms among the first `k` joined ones that did not exist.
pub open spec fn new_rooms_of(joined: Seq<String>, existed: Seq<bool>, k: nat) -> Seq<String>
    decreases k,
{
    if k == 0 {
        Seq::empty()
    } else {
        let prev = new_rooms_of(joined, existed, (k - 1) as nat);
        if existed[k - 1] {
            prev
        } else {
            prev.push(joined[k - 1])
        }
    }
}

/// The rooms to create before a sync's writes are exactly the joined rooms
/// that did not exist yet: every one of them is listed, and every room
/// listed is one of them.
pub proof fn law_new_rooms(joined: Seq<String>, existed: Seq<bool>, k: nat)
    requires
        k <= joined.len(),
        joined.len() == existed.len(),
    ensures
        forall|i: int| 0 <= i < k && !existed[i] ==> new_rooms_of(joined, existed, k).contains(#[trigger] joined[i]),
        forall|j: int|
            0 <= j < new_rooms_of(joined, existed, k).len() ==> exists|i: int|
                0 <= i < k && !existed[i] && joined[i] == #[trigger] new_rooms_of(joined, existed, k)[j],
    decreases k,
{
    if k > 0 {
        law_new_rooms(joined, existed, (k - 1) as nat);
        let prev = new_rooms_of(joined, existed, (k - 1) as nat);
        let cur = new_rooms_of(joined, existed, k);
        assert forall|i: int| 0 <= i < k && !existed[i] implies cur.contains(#[trigger] joined[i]) by {
            if i < k - 1 {
                let j = choose|j: int| 0 <= j < prev.len() && prev[j] == joined[i];
                assert(cur[j] == prev[j]);
            } else {
                assert(cur[cur.len() - 1] == joined[i]);
            }
        }
        assert forall|j: int| 0 <= j < cur.len() implies exists|i: int|
            0 <= i < k && !existed[i] && joined[i] == #[trigger] cur[j] by {
            if j < prev.len() {
                assert(cur[j] == prev[j]);
                let i = choose|i: int| 0 <= i < k - 1 && !existed[i] && joined[i] == prev[j];
                assert(0 <= i < k && !existed[i] && joined[i] == cur[j]);
            } else {
                assert(!existed[k - 1] && cur[j] == joined[k - 1]);
            }
        }
    }
}

/// The writes of a batch of memberships learnt outside a sync.
pub fn plan_safe_stuff(stuff: SafeStuff) -> (statements: Vec<SyncStatement>)
    ensures
        statements@ == stuff.memberships@.map_values(|x: MemberRow| SyncStatement::UpsertMember(x)),
{
    let ghost all = stuff.memberships@;
    let mut out: Vec<SyncStatement> = Vec::new();
    for m in it: stuff.memberships
        invariant
            it.seq() == all,
            out@ == it.seq().take(it.index() as int).map_values(|x: MemberRow| SyncStatement::UpsertMember(x)),
    {
        out.push(SyncStatement::UpsertMember(m));
        assert(out@ =~= it.seq().take(it.index() + 1).map_values(|x: MemberRow| SyncStatement::UpsertMember(x)));
    }
    assert(out@ =~= all.map_values(|x: MemberRow| SyncStatement::UpsertMember(x)));
    out
}

} // verus!
