//! Shaping what the database returns: room names, member profiles and the
//! space hierarchy of the sidebar.

use vstd::prelude::*;
use crate::storage::rows::MemberRow;
use crate::display::system::strings_view;

verus! {

broadcast use vstd::string::group_string_axioms;

/// The name shown for a room. `room` is the stored room (its name and
/// whether it is a direct chat), `other_member` the display name of the
/// first other member of the room, when there is one.
///
/// A direct chat is named after the other member, or after its id when the
/// member has no display name or there is no other member. Other rooms are
/// named by their stored name, or by their id when they have none. Unknown
/// rooms have no name.
pub fn resolve_room_name(
    room: Option<(Option<String>, bool)>,
    other_member: Option<Option<String>>,
    room_id: &String,
) -> (name: Option<String>)
    ensures
        name == match room {
            None => None,
            Some((stored, is_direct)) => if is_direct {
                match other_member {
                    Some(Some(display_name)) => Some(display_name),
                    _ => Some(*room_id),
                }
            } else {
                match stored {
                    Some(n) => Some(n),
                    None => Some(*room_id),
                }
            },
        },
{
    match room {
        None => None,
        Some((stored, is_direct)) => {
            if is_direct {
                match other_member {
                    Some(Some(display_name)) => Some(display_name),
                    _ => Some(room_id.clone()),
                }
            } else {
                match stored {
                    Some(n) => Some(n),
                    None => Some(room_id.clone()),
                }
            }
        },
    }
}

/// A member's public profile.
pub struct UserProfile {
    pub user_id: String,
    pub display_name: Option<String>,
    pub avatar_url: Option<String>,
}

pub open spec fn profile_of(r: MemberRow) -> UserProfile {
    UserProfile { user_id: r.user_id, display_name: r.display_name, avatar_url: r.avatar_url }
}

/// The profiles of the first `k` rows keyed by user id; a later row for the
/// same user replaces an earlier one.
pub open spec fn profiles_map(rows: Seq<MemberRow>, k: nat) -> Map<Seq<char>, UserProfile>
    decreases k,
{
    if k == 0 {
        Map::empty()
    } else {
        profiles_map(rows, (k - 1) as nat).insert(rows[k - 1].user_id@, profile_of(rows[k - 1]))
    }
}

pub open spec fn profile_ids_unique(v: Seq<UserProfile>) -> bool {
    forall|i: int, j: int| 0 <= i < j < v.len() ==> v[i].user_id@ != v[j].user_id@
}

/// The profiles listed, keyed by user id.
pub open spec fn profiles_as_map(v: Seq<UserProfile>) -> Map<Seq<char>, UserProfile> {
    Map::new(
        |id: Seq<char>| exists|i: int| 0 <= i < v.len() && v[i].user_id@ == id,
        |id: Seq<char>| v[choose|i: int| 0 <= i < v.len() && v[i].user_id@ == id],
    )
}

fn find_profile(v: &Vec<UserProfile>, user_id: &String) -> (r: Option<usize>)
    ensures
        match r {
            Some(i) => i < v@.len() && v@[i as int].user_id@ == user_id@,
            None => forall|i: int| 0 <= i < v@.len() ==> v@[i].user_id@ != user_id@,
        },
{
    let mut i: usize = 0;
    while i < v.len()
        invariant
            i <= v@.len(),
            forall|j: int| 0 <= j < i ==> v@[j].user_id@ != user_id@,
        decreases v.len() - i,
    {
        if v[i].user_id == *user_id {
            return Some(i);
        }
        i = i + 1;
    }
    None
}

/// The member profiles of a room keyed by user id, each user once, with the
/// last row of a user winning.
pub fn profiles_by_user(rows: Vec<MemberRow>) -> (out: Vec<UserProfile>)
    ensures
        profile_ids_unique(out@),
        profiles_as_map(out@) == profiles_map(rows@, rows@.len() as nat),
{
    let ghost all = rows@;
    let mut out: Vec<UserProfile> = Vec::new();
    for r in it: rows
        invariant
            it.seq() == all,
            profile_ids_unique(out@),
            profiles_as_map(out@) == profiles_map(all, it.index() as nat),
    {
        let ghost before = out@;
        let p = UserProfile { user_id: r.user_id, display_name: r.display_name, avatar_url: r.avatar_url };
        let ghost pv = p;
        match find_profile(&out, &p.user_id) {
            Some(i) => {
                out.set(i, p);
            },
            None => {
                out.push(p);
            },
        }
        proof {
            let m_new = profiles_map(all, (it.index() + 1) as nat);
            assert(m_new == profiles_map(all, it.index() as nat).insert(pv.user_id@, pv));
            assert forall|id: Seq<char>| #![auto] profiles_as_map(out@).dom().contains(id) <==> m_new.dom().contains(id) by {
                if profiles_as_map(before).dom().contains(id) {
                    let w = choose|k: int| 0 <= k < before.len() && before[k].user_id@ == id;
                    if id != pv.user_id@ {
                        assert(out@[w].user_id@ == id);
                    }
                }
                if profiles_as_map(out@).dom().contains(id) && id != pv.user_id@ {
                    let w = choose|k: int| 0 <= k < out@.len() && out@[k].user_id@ == id;
                    assert(before[w].user_id@ == id);
                }
                if id == pv.user_id@ {
                    let k = if out@.len() > before.len() { before.len() as int } else { choose|k: int| 0 <= k < out@.len() && out@[k] == pv };
                    assert(out@[k].user_id@ == id);
                }
            }
            assert forall|id: Seq<char>| #![auto] profiles_as_map(out@).dom().contains(id) implies profiles_as_map(out@)[id] == m_new[id] by {
                let w = choose|k: int| 0 <= k < out@.len() && out@[k].user_id@ == id;
                if id == pv.user_id@ {
                    assert(out@[w] == pv);
                } else {
                    let wb = choose|k: int| 0 <= k < before.len() && before[k].user_id@ == id;
                    assert(before[w].user_id@ == id);
                    assert(wb == w);
                    assert(out@[w] == before[w]);
                }
            }
            assert(profiles_as_map(out@) =~= m_new);
        }
    }
    out
}

/// The children of each space among the first `k` links, in link order.
pub open spec fn children_map(links: Seq<(String, String)>, k: nat) -> Map<Seq<char>, Seq<Seq<char>>>
    decreases k,
{
    if k == 0 {
        Map::empty()
    } else {
        let prev = children_map(links, (k - 1) as nat);
        let p = links[k - 1].0@;
        let c = links[k - 1].1@;
        let known = if prev.contains_key(p) {
            prev[p]
        } else {
            Seq::empty()
        };
        prev.insert(p, known.push(c))
    }
}

/// Every child among the first `k` links.
pub open spec fn children_set(links: Seq<(String, String)>, k: nat) -> Set<Seq<char>>
    decreases k,
{
    if k == 0 {
        Set::empty()
    } else {
        children_set(links, (k - 1) as nat).insert(links[k - 1].1@)
    }
}

pub open spec fn space_keys_unique(v: Seq<(String, Vec<String>)>) -> bool {
    forall|i: int, j: int| 0 <= i < j < v.len() ==> v[i].0@ != v[j].0@
}

/// The spaces listed, each with its children, keyed by space id.
pub open spec fn spaces_as_map(v: Seq<(String, Vec<String>)>) -> Map<Seq<char>, Seq<Seq<char>>> {
    Map::new(
        |id: Seq<char>| exists|i: int| 0 <= i < v.len() && v[i].0@ == id,
        |id: Seq<char>| strings_view(v[choose|i: int| 0 <= i < v.len() && v[i].0@ == id].1@),
    )
}

pub open spec fn strings_unique(v: Seq<String>) -> bool {
    forall|i: int, j: int| 0 <= i < j < v.len() ==> v[i]@ != v[j]@
}

pub open spec fn strings_as_set(v: Seq<String>) -> Set<Seq<char>> {
    Set::new(|s: Seq<char>| exists|i: int| 0 <= i < v.len() && v[i]@ == s)
}

fn find_space(v: &Vec<(String, Vec<String>)>, id: &String) -> (r: Option<usize>)
    ensures
        match r {
            Some(i) => i < v@.len() && v@[i as int].0@ == id@,
            None => forall|i: int| 0 <= i < v@.len() ==> v@[i].0@ != id@,
        },
{
    let mut i: usize = 0;
    while i < v.len()
        invariant
            i <= v@.len(),
            forall|j: int| 0 <= j < i ==> v@[j].0@ != id@,
        decreases v.len() - i,
    {
        if v[i].0 == *id {
            return Some(i);
        }
        i = i + 1;
    }
    None
}

fn find_string(v: &Vec<String>, s: &String) -> (r: bool)
    ensures
        r == exists|i: int| 0 <= i < v@.len() && v@[i]@ == s@,
{
    let mut i: usize = 0;
    while i < v.len()
        invariant
            i <= v@.len(),
            forall|j: int| 0 <= j < i ==> v@[j]@ != s@,
        decreases v.len() - i,
    {
        if v[i] == *s {
            return true;
        }
        i = i + 1;
    }
    false
}

/// Groups the space links of the sidebar (parent, child) into the children
/// of each space, in link order, and collects every room that is some
/// space's child.
pub fn group_space_links(links: Vec<(String, String)>) -> (r: (Vec<(String, Vec<String>)>, Vec<String>))
    ensures
        space_keys_unique(r.0@),
        spaces_as_map(r.0@) == children_map(links@, links@.len() as nat),
        strings_unique(r.1@),
        strings_as_set(r.1@) == children_set(links@, links@.len() as nat),
{
    let ghost all = links@;
    let mut spaces: Vec<(String, Vec<String>)> = Vec::new();
    let mut children: Vec<String> = Vec::new();
    for link in it: links
        invariant
            it.seq() == all,
            space_keys_unique(spaces@),
            spaces_as_map(spaces@) == children_map(all, it.index() as nat),
            strings_unique(children@),
            strings_as_set(children@) == children_set(all, it.index() as nat),
    {
        let ghost before = spaces@;
        let ghost cbefore = children@;
        let (parent, child) = link;
        let ghost pv = parent@;
        let ghost cv = child@;
        let seen = find_string(&children, &child);
        if !seen {
            children.push(child.clone());
            proof {
                assert forall|s: Seq<char>| #[trigger] strings_as_set(children@).contains(s)
                    <==> strings_as_set(cbefore).insert(cv).contains(s) by {
                    if strings_as_set(cbefore).contains(s) {
                        let w = choose|k: int| 0 <= k < cbefore.len() && cbefore[k]@ == s;
                        assert(children@[w]@ == s);
                    }
                    if s == cv {
                        assert(children@[cbefore.len() as int]@ == s);
                    }
                    if strings_as_set(children@).contains(s) && s != cv {
                        let w = choose|k: int| 0 <= k < children@.len() && children@[k]@ == s;
                        assert(w < cbefore.len());
                        assert(cbefore[w]@ == s);
                    }
                }
            }
        } else {
            proof {
                let w = choose|k: int| 0 <= k < cbefore.len() && cbefore[k]@ == cv;
                assert(strings_as_set(cbefore).contains(cv));
            }
        }
        proof {
            assert(strings_as_set(children@) =~= strings_as_set(cbefore).insert(cv));
        }
        match find_space(&spaces, &parent) {
            Some(i) => {
                let mut slot: (String, Vec<String>) = (String::new(), Vec::new());
                spaces.set_and_swap(i, &mut slot);
                let ghost old_list = slot.1@;
                slot.1.push(child);
                assert(strings_view(slot.1@) =~= strings_view(old_list).push(cv));
                spaces.set_and_swap(i, &mut slot);
                proof {
                    let m_new = children_map(all, (it.index() + 1) as nat);
                    assert(spaces_as_map(before).contains_key(pv));
                    assert(spaces@.len() == before.len());
                    assert forall|k: int| 0 <= k < spaces@.len() implies #[trigger] spaces@[k].0@ == before[k].0@ by {}
                    assert forall|id: Seq<char>| #![auto] spaces_as_map(spaces@).contains_key(id) implies spaces_as_map(spaces@)[id] == m_new[id] by {
                        let w = choose|k: int| 0 <= k < spaces@.len() && spaces@[k].0@ == id;
                        assert(before[w].0@ == id);
                        let wb = choose|k: int| 0 <= k < before.len() && before[k].0@ == id;
                        assert(wb == w);
                        if w == i {
                            assert(id == pv);
                        } else {
                            assert(spaces@[w] == before[w]);
                        }
                    }
                    assert forall|id: Seq<char>| #![auto] spaces_as_map(spaces@).contains_key(id) <==> m_new.contains_key(id) by {
                        if spaces_as_map(spaces@).contains_key(id) {
                            let w = choose|k: int| 0 <= k < spaces@.len() && spaces@[k].0@ == id;
                            assert(before[w].0@ == id);
                        }
                        if m_new.contains_key(id) {
                            if id == pv {
                                assert(spaces@[i as int].0@ == id);
                            } else {
                                let w = choose|k: int| 0 <= k < before.len() && before[k].0@ == id;
                                assert(spaces@[w].0@ == id);
                            }
                        }
                    }
                    assert(spaces_as_map(spaces@) =~= m_new);
                }
            },
            None => {
                let mut list: Vec<String> = Vec::new();
                list.push(child);
                spaces.push((parent, list));
                proof {
                    let m_new = children_map(all, (it.index() + 1) as nat);
                    assert(!spaces_as_map(before).contains_key(pv));
                    assert(strings_view(list@) =~= Seq::<Seq<char>>::empty().push(cv));
                    assert forall|id: Seq<char>| #![auto] spaces_as_map(spaces@).contains_key(id) <==> m_new.contains_key(id) by {
                        if spaces_as_map(spaces@).contains_key(id) && id != pv {
                            let w = choose|k: int| 0 <= k < spaces@.len() && spaces@[k].0@ == id;
                            assert(before[w].0@ == id);
                        }
                        if m_new.contains_key(id) {
                            if id == pv {
                                assert(spaces@[before.len() as int].0@ == id);
                            } else {
                                let w = choose|k: int| 0 <= k < before.len() && before[k].0@ == id;
                                assert(spaces@[w].0@ == id);
                            }
                        }
                    }
                    assert forall|id: Seq<char>| #![auto] spaces_as_map(spaces@).contains_key(id) implies spaces_as_map(spaces@)[id] == m_new[id] by {
                        let w = choose|k: int| 0 <= k < spaces@.len() && spaces@[k].0@ == id;
                        if id == pv {
                            assert(w == before.len());
                        } else {
                            assert(before[w].0@ == id);
                            let wb = choose|k: int| 0 <= k < before.len() && before[k].0@ == id;
                            assert(wb == w);
                        }
                    }
                    assert(spaces_as_map(spaces@) =~= m_new);
                }
            },
        }
    }
    (spaces, children)
}

} // verus!
