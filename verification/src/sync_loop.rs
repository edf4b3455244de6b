//! The decisions of the background sync loop: which sidebar lists a sync
//! may have changed, and when a recomputed list is sent to the interface.

use vstd::prelude::*;
use crate::client::same_strings;
use crate::display::event::{contains_string, vec_contains_string};
use crate::display::system::strings_view;

verus! {

broadcast use vstd::string::group_string_axioms;

/// Whether some changed room is among the rooms.
pub open spec fn touches(changed: Seq<String>, rooms: Seq<String>) -> bool {
    exists|i: int| 0 <= i < changed.len() && contains_string(rooms, changed[i]@)
}

pub fn touches_any(changed: &Vec<String>, rooms: &Vec<String>) -> (b: bool)
    ensures
        b == touches(changed@, rooms@),
{
    let mut i: usize = 0;
    while i < changed.len()
        invariant
            i <= changed@.len(),
            forall|j: int| 0 <= j < i ==> !contains_string(rooms@, changed@[j]@),
        decreases changed.len() - i,
    {
        if vec_contains_string(rooms, &changed[i]) {
            return true;
        }
        i = i + 1;
    }
    false
}

/// The rooms a sync joined or left touch the direct chats when one of them
/// is a direct chat room; without direct chat data nothing is touched.
pub fn dm_touched(changed: &Vec<String>, dm_rooms: &Option<Vec<String>>) -> (b: bool)
    ensures
        b == (dm_rooms matches Some(d) && touches(changed@, d@)),
{
    match dm_rooms {
        Some(d) => touches_any(changed, d),
        None => false,
    }
}

/// They touch the single rooms when one of them is known as a single room
/// or was in the list last sent.
pub fn single_touched(changed: &Vec<String>, known_singles: &Vec<String>, prev_singles: &Vec<String>) -> (b: bool)
    ensures
        b == exists|i: int|
            0 <= i < changed@.len() && (contains_string(known_singles@, changed@[i]@) || contains_string(
                prev_singles@,
                changed@[i]@,
            )),
{
    let mut i: usize = 0;
    while i < changed.len()
        invariant
            i <= changed@.len(),
            forall|j: int|
                0 <= j < i ==> !contains_string(known_singles@, changed@[j]@) && !contains_string(
                    prev_singles@,
                    changed@[j]@,
                ),
        decreases changed.len() - i,
    {
        if vec_contains_string(known_singles, &changed[i]) || vec_contains_string(prev_singles, &changed[i]) {
            return true;
        }
        i = i + 1;
    }
    false
}

/// Takes a recomputed list: where it differs from the one last sent it
/// becomes the last sent and is returned to be sent; otherwise nothing
/// changes.
pub fn refresh_order(prev: &mut Vec<String>, new_order: Vec<String>) -> (sent: Option<Vec<String>>)
    ensures
        match sent {
            Some(s) => {
                &&& strings_view(new_order@) != strings_view(old(prev)@)
                &&& strings_view(s@) == strings_view(new_order@)
                &&& strings_view(final(prev)@) == strings_view(new_order@)
            },
            None => strings_view(new_order@) == strings_view(old(prev)@) && final(prev)@ == old(prev)@,
        },
{
    if same_strings(&new_order, prev) {
        None
    } else {
        let copy = crate::display::system::clone_strings(&new_order);
        *prev = new_order;
        Some(copy)
    }
}

/// A sidebar list as last sent, after one sync: the recomputed order where
/// the sync touched the list, the one last sent otherwise.
pub open spec fn list_after(prev: Seq<Seq<char>>, touched: bool, order: Seq<Seq<char>>) -> Seq<Seq<char>> {
    if touched {
        order
    } else {
        prev
    }
}

/// Whether one sync sends the list: it touched the list and the recomputed
/// order differs from the one last sent.
pub open spec fn list_sent(prev: Seq<Seq<char>>, touched: bool, order: Seq<Seq<char>>) -> bool {
    touched && order != prev
}

/// The lists sent over successive syncs, each given as whether it touched
/// the list and the order recomputed for it, starting from `prev` as last
/// sent.
pub open spec fn lists_sent(prev: Seq<Seq<char>>, syncs: Seq<(bool, Seq<Seq<char>>)>) -> Seq<Seq<Seq<char>>>
    decreases syncs.len(),
{
    if syncs.len() == 0 {
        Seq::empty()
    } else {
        let (touched, order) = syncs[0];
        let rest = lists_sent(list_after(prev, touched, order), syncs.drop_first());
        if list_sent(prev, touched, order) {
            seq![order] + rest
        } else {
            rest
        }
    }
}

/// The list last sent after successive syncs.
pub open spec fn last_sent(prev: Seq<Seq<char>>, syncs: Seq<(bool, Seq<Seq<char>>)>) -> Seq<Seq<char>>
    decreases syncs.len(),
{
    if syncs.len() == 0 {
        prev
    } else {
        last_sent(list_after(prev, syncs[0].0, syncs[0].1), syncs.drop_first())
    }
}

/// Over any run of syncs, a sidebar list is sent only when it changes: the
/// first list sent differs from the one last sent before, each list sent
/// differs from the one sent before it, and afterwards the list last sent
/// is the last one sent (or the one before the run, where none was sent).
/// A run of syncs none of which touches the list sends nothing.
pub proof fn law_lists_sent_on_change(prev: Seq<Seq<char>>, syncs: Seq<(bool, Seq<Seq<char>>)>)
    ensures
        lists_sent(prev, syncs).len() > 0 ==> lists_sent(prev, syncs)[0] != prev,
        forall|i: int|
            0 <= i < lists_sent(prev, syncs).len() - 1 ==> #[trigger] lists_sent(prev, syncs)[i] != lists_sent(
                prev,
                syncs,
            )[i + 1],
        last_sent(prev, syncs) == if lists_sent(prev, syncs).len() == 0 {
            prev
        } else {
            lists_sent(prev, syncs).last()
        },
        (forall|i: int| 0 <= i < syncs.len() ==> !(#[trigger] syncs[i]).0) ==> lists_sent(prev, syncs).len() == 0,
    decreases syncs.len(),
{
    if syncs.len() > 0 {
        let (touched, order) = syncs[0];
        let after = list_after(prev, touched, order);
        let tail = syncs.drop_first();
        law_lists_sent_on_change(after, tail);
        let rest = lists_sent(after, tail);
        let all = lists_sent(prev, syncs);
        if list_sent(prev, touched, order) {
            assert(all == seq![order] + rest);
            assert forall|i: int| 0 <= i < all.len() - 1 implies #[trigger] all[i] != all[i + 1] by {
                if i > 0 {
                    assert(all[i] == rest[i - 1]);
                    assert(all[i + 1] == rest[i]);
                }
            }
        } else {
            assert(after == prev);
            assert(all == rest);
        }
        if forall|i: int| 0 <= i < syncs.len() ==> !(#[trigger] syncs[i]).0 {
            assert forall|i: int| 0 <= i < tail.len() implies !(#[trigger] tail[i]).0 by {
                assert(tail[i] == syncs[i + 1]);
            }
            assert(!syncs[0].0);
        }
    }
}

/// What the loop remembers between syncs: the direct chats and the single
/// rooms as last sent to the interface.
pub struct SentLists {
    pub dm: Vec<String>,
    pub single: Vec<String>,
}

/// Takes one sync for one list: where it touched the list the recomputed
/// order is compared with the one last sent and, if it differs, sent and
/// remembered; where it did not touch the list, nothing happens and the
/// order handed in is not looked at.
pub fn list_step(prev: &mut Vec<String>, touched: bool, order: Vec<String>) -> (sent: Option<Vec<String>>)
    ensures
        sent is Some == list_sent(strings_view(old(prev)@), touched, strings_view(order@)),
        sent matches Some(s) ==> strings_view(s@) == strings_view(order@),
        strings_view(final(prev)@) == list_after(strings_view(old(prev)@), touched, strings_view(order@)),
        !touched ==> final(prev)@ == old(prev)@,
{
    if touched {
        refresh_order(prev, order)
    } else {
        None
    }
}

/// Takes one successful sync: the rooms it joined or left, the direct chat
/// rooms (if known), the rooms known as single rooms, and the two orders
/// recomputed for it. The direct chats are sent when a changed room is a
/// direct chat and their order changed; the single rooms when a changed
/// room is a single room, known or among those last sent, and their order
/// changed.
pub fn sync_lists_step(
    lists: &mut SentLists,
    changed: &Vec<String>,
    dm_rooms: &Option<Vec<String>>,
    known_singles: &Vec<String>,
    dm_order: Vec<String>,
    single_order: Vec<String>,
) -> (sent: (Option<Vec<String>>, Option<Vec<String>>))
    ensures
        ({
            let dm_hit = dm_rooms matches Some(d) && touches(changed@, d@);
            let single_hit = exists|i: int|
                0 <= i < changed@.len() && (contains_string(known_singles@, changed@[i]@) || contains_string(
                    old(lists).single@,
                    changed@[i]@,
                ));
            &&& sent.0 is Some == list_sent(strings_view(old(lists).dm@), dm_hit, strings_view(dm_order@))
            &&& (sent.0 matches Some(s) ==> strings_view(s@) == strings_view(dm_order@))
            &&& strings_view(final(lists).dm@) == list_after(strings_view(old(lists).dm@), dm_hit, strings_view(dm_order@))
            &&& sent.1 is Some == list_sent(strings_view(old(lists).single@), single_hit, strings_view(single_order@))
            &&& (sent.1 matches Some(s) ==> strings_view(s@) == strings_view(single_order@))
            &&& strings_view(final(lists).single@) == list_after(
                strings_view(old(lists).single@),
                single_hit,
                strings_view(single_order@),
            )
        }),
{
    let dm_hit = dm_touched(changed, dm_rooms);
    let dm_sent = list_step(&mut lists.dm, dm_hit, dm_order);
    let single_hit = single_touched(changed, known_singles, &lists.single);
    let single_sent = list_step(&mut lists.single, single_hit, single_order);
    (dm_sent, single_sent)
}

} // verus!
