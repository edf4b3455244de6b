//! Grouping the rows of the query that joins messages with their
//! reactions: each message once, its reactions grouped by key, each
//! reactor once per key.

use vstd::prelude::*;
use crate::message::MessageRow;

verus! {

broadcast use vstd::string::group_string_axioms;

/// One row of the join: a message and, where it has one, a reaction's
/// sender, the reaction's event and the reaction's key.
pub struct MessageReactionRow {
    pub message: MessageRow,
    pub reactor_id: Option<String>,
    pub reaction_event_id: Option<String>,
    pub reaction_key: Option<String>,
}

/// Who reacted, and by which event.
pub struct Reactor {
    pub user_id: String,
    pub event_id: String,
}

/// The reactors of a message under one reaction key.
pub struct ReactionGroup {
    pub key: String,
    pub reactors: Vec<Reactor>,
}

/// A message with its reactions.
pub struct MessageReactions {
    pub message: MessageRow,
    pub reactions: Vec<ReactionGroup>,
}

/// A reaction of a row: the message's id, the key, the reactor and the
/// reaction's event. Rows without a complete reaction bring none.
pub open spec fn row_fact(r: MessageReactionRow) -> Option<(Seq<char>, Seq<char>, Seq<char>, Seq<char>)> {
    match (r.reactor_id, r.reaction_event_id, r.reaction_key) {
        (Some(u), Some(e), Some(k)) => Some((r.message.event_id@, k@, u@, e@)),
        _ => None,
    }
}

/// The reactions of the first `k` rows, in row order.
pub open spec fn row_facts(rows: Seq<MessageReactionRow>, k: nat) -> Seq<(Seq<char>, Seq<char>, Seq<char>, Seq<char>)>
    decreases k,
{
    if k == 0 {
        Seq::empty()
    } else {
        let prev = row_facts(rows, (k - 1) as nat);
        match row_fact(rows[k - 1]) {
            Some(f) => prev.push(f),
            None => prev,
        }
    }
}

/// The message of each id among the first `k` rows: the first row's.
pub open spec fn first_messages(rows: Seq<MessageReactionRow>, k: nat) -> Map<Seq<char>, MessageRow>
    decreases k,
{
    if k == 0 {
        Map::empty()
    } else {
        let prev = first_messages(rows, (k - 1) as nat);
        let id = rows[k - 1].message.event_id@;
        if prev.dom().contains(id) {
            prev
        } else {
            prev.insert(id, rows[k - 1].message)
        }
    }
}

/// The reactors, as user and event, that the reactions give a message
/// under a key.
pub open spec fn reactors_in(
    facts: Seq<(Seq<char>, Seq<char>, Seq<char>, Seq<char>)>,
    id: Seq<char>,
    key: Seq<char>,
) -> Set<(Seq<char>, Seq<char>)> {
    Set::new(
        |p: (Seq<char>, Seq<char>)|
            exists|s: int| 0 <= s < facts.len() && #[trigger] facts[s] == (id, key, p.0, p.1),
    )
}

pub open spec fn reactor_view(r: Reactor) -> (Seq<char>, Seq<char>) {
    (r.user_id@, r.event_id@)
}

/// The reactors a group lists.
pub open spec fn reactor_set(g: ReactionGroup) -> Set<(Seq<char>, Seq<char>)> {
    Set::new(
        |p: (Seq<char>, Seq<char>)|
            exists|l: int| 0 <= l < g.reactors@.len() && #[trigger] reactor_view(g.reactors@[l]) == p,
    )
}

pub open spec fn fact_view(f: (String, String, String, String)) -> (Seq<char>, Seq<char>, Seq<char>, Seq<char>) {
    (f.0@, f.1@, f.2@, f.3@)
}

/// The groups of a message: keys once each, reactors once each and at
/// least one per group.
pub open spec fn groups_well_formed(groups: Seq<ReactionGroup>) -> bool {
    &&& forall|j1: int, j2: int| 0 <= j1 < j2 < groups.len() ==> groups[j1].key@ != groups[j2].key@
    &&& forall|j: int| 0 <= j < groups.len() ==> (#[trigger] groups[j]).reactors@.len() > 0
    &&& forall|j: int, l1: int, l2: int|
        0 <= j < groups.len() && 0 <= l1 < l2 < groups[j].reactors@.len() ==> reactor_view(
            #[trigger] groups[j].reactors@[l1],
        ) != reactor_view(#[trigger] groups[j].reactors@[l2])
}

/// The messages listed are those of the rows, each once, with the first
/// row's message.
pub open spec fn messages_match(out: Seq<MessageReactions>, first: Map<Seq<char>, MessageRow>) -> bool {
    &&& forall|i: int, j: int| 0 <= i < j < out.len() ==> out[i].message.event_id@ != out[j].message.event_id@
    &&& forall|i: int|
        0 <= i < out.len() ==> first.dom().contains((#[trigger] out[i]).message.event_id@) && first[out[i].message.event_id@]
            == out[i].message
    &&& forall|id: Seq<char>|
        first.dom().contains(id) ==> exists|i: int| 0 <= i < out.len() && (#[trigger] out[i]).message.event_id@ == id
}

/// The groups list exactly the reactions: a group's reactors are those the
/// reactions give its message under its key, and every reaction has its
/// group.
pub open spec fn reactions_match(
    out: Seq<MessageReactions>,
    facts: Seq<(Seq<char>, Seq<char>, Seq<char>, Seq<char>)>,
) -> bool {
    &&& forall|i: int| 0 <= i < out.len() ==> groups_well_formed((#[trigger] out[i]).reactions@)
    &&& forall|i: int, j: int|
        0 <= i < out.len() && 0 <= j < out[i].reactions@.len() ==> reactor_set(
            #[trigger] out[i].reactions@[j],
        ) == reactors_in(facts, out[i].message.event_id@, out[i].reactions@[j].key@)
    &&& forall|s: int|
        #![trigger facts[s]]
        0 <= s < facts.len() ==> exists|i: int, j: int|
            0 <= i < out.len() && 0 <= j < out[i].reactions@.len() && (#[trigger] out[i]).message.event_id@
                == facts[s].0 && #[trigger] out[i].reactions@[j].key@ == facts[s].1
}

fn find_message(out: &Vec<MessageReactions>, id: &String) -> (r: Option<usize>)
    ensures
        match r {
            Some(i) => i < out@.len() && out@[i as int].message.event_id@ == id@,
            None => forall|i: int| 0 <= i < out@.len() ==> out@[i].message.event_id@ != id@,
        },
{
    let mut i: usize = 0;
    while i < out.len()
        invariant
            i <= out@.len(),
            forall|j: int| 0 <= j < i ==> out@[j].message.event_id@ != id@,
        decreases out.len() - i,
    {
        if out[i].message.event_id == *id {
            return Some(i);
        }
        i = i + 1;
    }
    None
}

fn find_group(groups: &Vec<ReactionGroup>, key: &String) -> (r: Option<usize>)
    ensures
        match r {
            Some(j) => j < groups@.len() && groups@[j as int].key@ == key@,
            None => forall|j: int| 0 <= j < groups@.len() ==> groups@[j].key@ != key@,
        },
{
    let mut j: usize = 0;
    while j < groups.len()
        invariant
            j <= groups@.len(),
            forall|k: int| 0 <= k < j ==> groups@[k].key@ != key@,
        decreases groups.len() - j,
    {
        if groups[j].key == *key {
            return Some(j);
        }
        j = j + 1;
    }
    None
}

fn has_reactor(reactors: &Vec<Reactor>, user_id: &String, event_id: &String) -> (b: bool)
    ensures
        b == exists|l: int| 0 <= l < reactors@.len() && #[trigger] reactor_view(reactors@[l]) == (user_id@, event_id@),
{
    let mut l: usize = 0;
    while l < reactors.len()
        invariant
            l <= reactors@.len(),
            forall|k: int| 0 <= k < l ==> reactor_view(#[trigger] reactors@[k]) != (user_id@, event_id@),
        decreases reactors.len() - l,
    {
        if reactors[l].user_id == *user_id && reactors[l].event_id == *event_id {
            assert(reactor_view(reactors@[l as int]) == (user_id@, event_id@));
            return true;
        }
        l = l + 1;
    }
    false
}

/// Adding a reaction adds its reactor to the message's reactors under its
/// key, and to no others.
proof fn lemma_reactors_step(
    facts: Seq<(Seq<char>, Seq<char>, Seq<char>, Seq<char>)>,
    t: int,
    id: Seq<char>,
    key: Seq<char>,
)
    requires
        0 <= t < facts.len(),
    ensures
        reactors_in(facts.take(t + 1), id, key) == if facts[t].0 == id && facts[t].1 == key {
            reactors_in(facts.take(t), id, key).insert((facts[t].2, facts[t].3))
        } else {
            reactors_in(facts.take(t), id, key)
        },
{
    let a = reactors_in(facts.take(t + 1), id, key);
    let old = reactors_in(facts.take(t), id, key);
    let b = if facts[t].0 == id && facts[t].1 == key {
        old.insert((facts[t].2, facts[t].3))
    } else {
        old
    };
    assert forall|p: (Seq<char>, Seq<char>)| a.contains(p) <==> b.contains(p) by {
        if a.contains(p) {
            let s = choose|s: int| 0 <= s < t + 1 && #[trigger] facts.take(t + 1)[s] == (id, key, p.0, p.1);
            if s < t {
                assert(facts.take(t)[s] == facts.take(t + 1)[s]);
            }
        }
        if old.contains(p) {
            let s = choose|s: int| 0 <= s < t && #[trigger] facts.take(t)[s] == (id, key, p.0, p.1);
            assert(facts.take(t + 1)[s] == facts.take(t)[s]);
        }
        if facts[t].0 == id && facts[t].1 == key && p == (facts[t].2, facts[t].3) {
            assert(facts.take(t + 1)[t] == (id, key, p.0, p.1));
        }
    }
    assert(a =~= b);
}

/// Whether a message with the id is listed.
pub open spec fn has_message(out: Seq<MessageReactions>, id: Seq<char>) -> bool {
    exists|i: int| 0 <= i < out.len() && (#[trigger] out[i]).message.event_id@ == id
}

pub open spec fn ids_distinct(out: Seq<MessageReactions>) -> bool {
    forall|i: int, j: int| 0 <= i < j < out.len() ==> out[i].message.event_id@ != out[j].message.event_id@
}

/// A reaction whose key the message already has extends that group: its
/// reactor joins the group unless already there.
proof fn lemma_group_extended(
    before: Seq<MessageReactions>,
    after: Seq<MessageReactions>,
    fv: Seq<(Seq<char>, Seq<char>, Seq<char>, Seq<char>)>,
    t: int,
    mi: int,
    gi: int,
)
    requires
        0 <= t < fv.len(),
        reactions_match(before, fv.take(t)),
        ids_distinct(before),
        0 <= mi < before.len(),
        before[mi].message.event_id@ == fv[t].0,
        0 <= gi < before[mi].reactions@.len(),
        before[mi].reactions@[gi].key@ == fv[t].1,
        after.len() == before.len(),
        forall|i: int| 0 <= i < before.len() && i != mi ==> after[i] == before[i],
        after[mi].message == before[mi].message,
        after[mi].reactions@.len() == before[mi].reactions@.len(),
        forall|j: int|
            0 <= j < before[mi].reactions@.len() && j != gi ==> after[mi].reactions@[j] == before[mi].reactions@[j],
        after[mi].reactions@[gi].key == before[mi].reactions@[gi].key,
        ({
            let r0 = before[mi].reactions@[gi].reactors@;
            let r1 = after[mi].reactions@[gi].reactors@;
            ||| (r1 == r0 && exists|l: int| 0 <= l < r0.len() && #[trigger] reactor_view(r0[l]) == (fv[t].2, fv[t].3))
            ||| (r1.len() == r0.len() + 1 && r1.drop_last() == r0 && reactor_view(r1.last()) == (fv[t].2, fv[t].3)
                && forall|l: int| 0 <= l < r0.len() ==> #[trigger] reactor_view(r0[l]) != (fv[t].2, fv[t].3))
        }),
    ensures
        reactions_match(after, fv.take(t + 1)),
{
    let f = fv[t];
    let f0 = fv.take(t);
    let f1 = fv.take(t + 1);
    let g0 = before[mi].reactions@;
    let g1 = after[mi].reactions@;
    let r0 = g0[gi].reactors@;
    let r1 = g1[gi].reactors@;
    assert(groups_well_formed(before[mi].reactions@));
    assert forall|i: int| 0 <= i < after.len() implies groups_well_formed((#[trigger] after[i]).reactions@) by {
        if i != mi {
            assert(after[i] == before[i]);
        } else {
            assert forall|j1: int, j2: int| 0 <= j1 < j2 < g1.len() implies g1[j1].key@ != g1[j2].key@ by {
                assert(g1[j1].key == g0[j1].key);
                assert(g1[j2].key == g0[j2].key);
            }
            assert forall|j: int| 0 <= j < g1.len() implies (#[trigger] g1[j]).reactors@.len() > 0 by {
                if j != gi {
                    assert(g1[j] == g0[j]);
                }
            }
            assert forall|j: int, l1: int, l2: int|
                0 <= j < g1.len() && 0 <= l1 < l2 < g1[j].reactors@.len() implies reactor_view(
                #[trigger] g1[j].reactors@[l1],
            ) != reactor_view(#[trigger] g1[j].reactors@[l2]) by {
                if j != gi {
                    assert(g1[j] == g0[j]);
                } else if r1.len() > r0.len() {
                    assert(r1[l1] == r0[l1]);
                    if l2 < r0.len() {
                        assert(r1[l2] == r0[l2]);
                    } else {
                        assert(reactor_view(r0[l1]) != (f.2, f.3));
                    }
                } else {
                    assert(r1[l1] == r0[l1] && r1[l2] == r0[l2]);
                }
            }
        }
    }
    assert forall|i: int, j: int|
        0 <= i < after.len() && 0 <= j < after[i].reactions@.len() implies reactor_set(
        #[trigger] after[i].reactions@[j],
    ) == reactors_in(f1, after[i].message.event_id@, after[i].reactions@[j].key@) by {
        lemma_reactors_step(fv, t, after[i].message.event_id@, after[i].reactions@[j].key@);
        if i != mi {
            assert(after[i] == before[i]);
            if i < mi {
                assert(before[i].message.event_id@ != before[mi].message.event_id@);
            } else {
                assert(before[mi].message.event_id@ != before[i].message.event_id@);
            }
            assert(reactor_set(before[i].reactions@[j]) == reactors_in(f0, before[i].message.event_id@, before[i].reactions@[j].key@));
        } else if j != gi {
            assert(g1[j] == g0[j]);
            if j < gi {
                assert(g0[j].key@ != g0[gi].key@);
            } else {
                assert(g0[gi].key@ != g0[j].key@);
            }
            assert(reactor_set(g0[j]) == reactors_in(f0, before[mi].message.event_id@, g0[j].key@));
        } else {
            assert(reactor_set(g0[gi]) == reactors_in(f0, before[mi].message.event_id@, g0[gi].key@));
            assert forall|p: (Seq<char>, Seq<char>)| reactor_set(g1[gi]).contains(p) <==> reactor_set(g0[gi]).insert(
                (f.2, f.3),
            ).contains(p) by {
                if reactor_set(g1[gi]).contains(p) {
                    let l = choose|l: int| 0 <= l < r1.len() && #[trigger] reactor_view(r1[l]) == p;
                    if l < r0.len() {
                        assert(r1[l] == r0[l]);
                    }
                }
                if reactor_set(g0[gi]).contains(p) {
                    let l = choose|l: int| 0 <= l < r0.len() && #[trigger] reactor_view(r0[l]) == p;
                    assert(r1[l] == r0[l]);
                }
                if p == (f.2, f.3) {
                    if r1.len() > r0.len() {
                        assert(reactor_view(r1[r0.len() as int]) == p);
                    } else {
                        let l = choose|l: int| 0 <= l < r0.len() && #[trigger] reactor_view(r0[l]) == (f.2, f.3);
                        assert(r1[l] == r0[l]);
                    }
                }
            }
            assert(reactor_set(g1[gi]) =~= reactor_set(g0[gi]).insert((f.2, f.3)));
        }
    }
    assert forall|s: int| #![trigger f1[s]] 0 <= s < f1.len() implies exists|i: int, j: int|
        0 <= i < after.len() && 0 <= j < after[i].reactions@.len() && (#[trigger] after[i]).message.event_id@
            == f1[s].0 && #[trigger] after[i].reactions@[j].key@ == f1[s].1 by {
        if s < t {
            assert(f1[s] == f0[s]);
            let (i, j) = choose|i: int, j: int|
                0 <= i < before.len() && 0 <= j < before[i].reactions@.len() && (#[trigger] before[i]).message.event_id@
                    == f0[s].0 && #[trigger] before[i].reactions@[j].key@ == f0[s].1;
            if i != mi {
                assert(after[i] == before[i]);
            } else if j != gi {
                assert(g1[j] == g0[j]);
            }
            assert(after[i].message.event_id@ == f1[s].0);
            assert(after[i].reactions@[j].key@ == f1[s].1);
        } else {
            assert(f1[s] == f);
            assert(after[mi].message.event_id@ == f1[s].0);
            assert(after[mi].reactions@[gi].key@ == f1[s].1);
        }
    }
}

/// A reaction under a key the message does not have yet starts a group of
/// its own.
proof fn lemma_group_added(
    before: Seq<MessageReactions>,
    after: Seq<MessageReactions>,
    fv: Seq<(Seq<char>, Seq<char>, Seq<char>, Seq<char>)>,
    t: int,
    mi: int,
)
    requires
        0 <= t < fv.len(),
        reactions_match(before, fv.take(t)),
        ids_distinct(before),
        0 <= mi < before.len(),
        before[mi].message.event_id@ == fv[t].0,
        forall|j: int| 0 <= j < before[mi].reactions@.len() ==> before[mi].reactions@[j].key@ != fv[t].1,
        after.len() == before.len(),
        forall|i: int| 0 <= i < before.len() && i != mi ==> after[i] == before[i],
        after[mi].message == before[mi].message,
        after[mi].reactions@.len() == before[mi].reactions@.len() + 1,
        after[mi].reactions@.drop_last() == before[mi].reactions@,
        after[mi].reactions@.last().key@ == fv[t].1,
        after[mi].reactions@.last().reactors@.len() == 1,
        reactor_view(after[mi].reactions@.last().reactors@[0]) == (fv[t].2, fv[t].3),
    ensures
        reactions_match(after, fv.take(t + 1)),
{
    let f = fv[t];
    let f0 = fv.take(t);
    let f1 = fv.take(t + 1);
    let g0 = before[mi].reactions@;
    let g1 = after[mi].reactions@;
    let n0 = g0.len() as int;
    assert(groups_well_formed(g0));
    assert forall|j: int| 0 <= j < n0 implies g1[j] == g0[j] by {
        assert(g1.drop_last()[j] == g1[j]);
    }
    assert forall|i: int| 0 <= i < after.len() implies groups_well_formed((#[trigger] after[i]).reactions@) by {
        if i != mi {
            assert(after[i] == before[i]);
        } else {
            assert forall|j1: int, j2: int| 0 <= j1 < j2 < g1.len() implies g1[j1].key@ != g1[j2].key@ by {
                assert(g1[j1] == g0[j1]);
                if j2 < n0 {
                    assert(g1[j2] == g0[j2]);
                }
            }
            assert forall|j: int| 0 <= j < g1.len() implies (#[trigger] g1[j]).reactors@.len() > 0 by {
                if j < n0 {
                    assert(g1[j] == g0[j]);
                }
            }
            assert forall|j: int, l1: int, l2: int|
                0 <= j < g1.len() && 0 <= l1 < l2 < g1[j].reactors@.len() implies reactor_view(
                #[trigger] g1[j].reactors@[l1],
            ) != reactor_view(#[trigger] g1[j].reactors@[l2]) by {
                if j < n0 {
                    assert(g1[j] == g0[j]);
                }
            }
        }
    }
    assert forall|i: int, j: int|
        0 <= i < after.len() && 0 <= j < after[i].reactions@.len() implies reactor_set(
        #[trigger] after[i].reactions@[j],
    ) == reactors_in(f1, after[i].message.event_id@, after[i].reactions@[j].key@) by {
        lemma_reactors_step(fv, t, after[i].message.event_id@, after[i].reactions@[j].key@);
        if i != mi {
            assert(after[i] == before[i]);
            if i < mi {
                assert(before[i].message.event_id@ != before[mi].message.event_id@);
            } else {
                assert(before[mi].message.event_id@ != before[i].message.event_id@);
            }
            assert(reactor_set(before[i].reactions@[j]) == reactors_in(f0, before[i].message.event_id@, before[i].reactions@[j].key@));
        } else if j < n0 {
            assert(g1[j] == g0[j]);
            assert(reactor_set(g0[j]) == reactors_in(f0, before[mi].message.event_id@, g0[j].key@));
        } else {
            let ng = g1[n0];
            assert(ng == g1.last());
            assert forall|p: (Seq<char>, Seq<char>)| !reactors_in(f0, f.0, f.1).contains(p) by {
                if reactors_in(f0, f.0, f.1).contains(p) {
                    let s = choose|s: int| 0 <= s < f0.len() && #[trigger] f0[s] == (f.0, f.1, p.0, p.1);
                    let (i2, j2) = choose|i2: int, j2: int|
                        0 <= i2 < before.len() && 0 <= j2 < before[i2].reactions@.len() && (#[trigger] before[i2]).message.event_id@
                            == f0[s].0 && #[trigger] before[i2].reactions@[j2].key@ == f0[s].1;
                    if i2 < mi {
                        assert(before[i2].message.event_id@ != before[mi].message.event_id@);
                    } else if i2 > mi {
                        assert(before[mi].message.event_id@ != before[i2].message.event_id@);
                    }
                    assert(g0[j2].key@ != f.1);
                }
            }
            assert forall|p: (Seq<char>, Seq<char>)| reactor_set(ng).contains(p) <==> p == (f.2, f.3) by {
                if reactor_set(ng).contains(p) {
                    let l = choose|l: int| 0 <= l < ng.reactors@.len() && #[trigger] reactor_view(ng.reactors@[l]) == p;
                    assert(l == 0);
                }
                if p == (f.2, f.3) {
                    assert(reactor_view(ng.reactors@[0]) == p);
                }
            }
            assert(reactor_set(ng) =~= reactors_in(f0, f.0, f.1).insert((f.2, f.3)));
        }
    }
    assert forall|s: int| #![trigger f1[s]] 0 <= s < f1.len() implies exists|i: int, j: int|
        0 <= i < after.len() && 0 <= j < after[i].reactions@.len() && (#[trigger] after[i]).message.event_id@
            == f1[s].0 && #[trigger] after[i].reactions@[j].key@ == f1[s].1 by {
        if s < t {
            assert(f1[s] == f0[s]);
            let (i, j) = choose|i: int, j: int|
                0 <= i < before.len() && 0 <= j < before[i].reactions@.len() && (#[trigger] before[i]).message.event_id@
                    == f0[s].0 && #[trigger] before[i].reactions@[j].key@ == f0[s].1;
            if i != mi {
                assert(after[i] == before[i]);
            } else {
                assert(g1[j] == g0[j]);
            }
            assert(after[i].message.event_id@ == f1[s].0);
            assert(after[i].reactions@[j].key@ == f1[s].1);
        } else {
            assert(f1[s] == f);
            assert(after[mi].message.event_id@ == f1[s].0);
            assert(after[mi].reactions@[n0].key@ == f1[s].1);
        }
    }
}

/// Changing only the groups of the messages keeps the messages matching.
proof fn lemma_messages_kept(
    before: Seq<MessageReactions>,
    after: Seq<MessageReactions>,
    first: Map<Seq<char>, MessageRow>,
    fv: Seq<(Seq<char>, Seq<char>, Seq<char>, Seq<char>)>,
)
    requires
        messages_match(before, first),
        forall|s: int| 0 <= s < fv.len() ==> has_message(before, #[trigger] fv[s].0),
        after.len() == before.len(),
        forall|i: int| 0 <= i < before.len() ==> (#[trigger] after[i]).message == before[i].message,
    ensures
        messages_match(after, first),
        forall|s: int| 0 <= s < fv.len() ==> has_message(after, #[trigger] fv[s].0),
{
    assert forall|i: int, j: int| 0 <= i < j < after.len() implies after[i].message.event_id@ != after[j].message.event_id@ by {
        assert(after[i].message == before[i].message);
        assert(after[j].message == before[j].message);
    }
    assert forall|i: int| 0 <= i < after.len() implies first.dom().contains((#[trigger] after[i]).message.event_id@)
        && first[after[i].message.event_id@] == after[i].message by {
        assert(before[i].message == after[i].message);
    }
    assert forall|id: Seq<char>| first.dom().contains(id) implies exists|i: int|
        0 <= i < after.len() && (#[trigger] after[i]).message.event_id@ == id by {
        let i = choose|i: int| 0 <= i < before.len() && (#[trigger] before[i]).message.event_id@ == id;
        assert(after[i].message == before[i].message);
    }
    assert forall|s: int| 0 <= s < fv.len() implies has_message(after, #[trigger] fv[s].0) by {
        assert(has_message(before, fv[s].0));
        let i = choose|i: int| 0 <= i < before.len() && (#[trigger] before[i]).message.event_id@ == fv[s].0;
        assert(after[i].message == before[i].message);
        assert(after[i].message.event_id@ == fv[s].0);
    }
}

/// Groups the rows of the join of messages with their reactions: each
/// message once, as its first row has it, with its reactions grouped by
/// key and each reactor listed once per key. Like the query's rows, the
/// messages, groups and reactors come in no promised order.
pub fn group_message_reactions(rows: Vec<MessageReactionRow>) -> (out: Vec<MessageReactions>)
    ensures
        messages_match(out@, first_messages(rows@, rows@.len() as nat)),
        reactions_match(out@, row_facts(rows@, rows@.len() as nat)),
{
    let ghost all = rows@;
    let mut out: Vec<MessageReactions> = Vec::new();
    let mut facts: Vec<(String, String, String, String)> = Vec::new();
    for r in it: rows
        invariant
            it.seq() == all,
            messages_match(out@, first_messages(all, it.index() as nat)),
            forall|i: int| 0 <= i < out@.len() ==> (#[trigger] out@[i]).reactions@.len() == 0,
            facts@.map_values(|f: (String, String, String, String)| fact_view(f)) == row_facts(
                all,
                it.index() as nat,
            ),
            forall|s: int|
                0 <= s < facts@.len() ==> exists|i: int|
                    0 <= i < out@.len() && (#[trigger] out@[i]).message.event_id@ == (#[trigger] facts@[s]).0@,
    {
        let ghost k = it.index();
        let ghost row = r;
        let ghost before = out@;
        let ghost facts_before = facts@;
        let MessageReactionRow { message, reactor_id, reaction_event_id, reaction_key } = r;
        let id = message.event_id.clone();
        let ghost prev = first_messages(all, k as nat);
        assert(all[k] == row);
        match find_message(&out, &id) {
            Some(i) => {
                assert(prev.dom().contains(id@));
                assert(first_messages(all, (k + 1) as nat) == prev);
            },
            None => {
                assert(!prev.dom().contains(id@));
                out.push(MessageReactions { message, reactions: Vec::new() });
                proof {
                    let next = first_messages(all, (k + 1) as nat);
                    assert(next == prev.insert(id@, row.message));
                    assert forall|i: int| 0 <= i < out@.len() implies next.dom().contains(
                        (#[trigger] out@[i]).message.event_id@,
                    ) && next[out@[i].message.event_id@] == out@[i].message by {
                        if i < before.len() {
                            assert(out@[i] == before[i]);
                        }
                    }
                    assert forall|x: Seq<char>| next.dom().contains(x) implies exists|i: int|
                        0 <= i < out@.len() && (#[trigger] out@[i]).message.event_id@ == x by {
                        if x == id@ {
                            assert(out@[before.len() as int].message.event_id@ == x);
                        } else {
                            let i = choose|i: int| 0 <= i < before.len() && (#[trigger] before[i]).message.event_id@ == x;
                            assert(out@[i] == before[i]);
                        }
                    }
                    assert forall|i: int| 0 <= i < out@.len() implies (#[trigger] out@[i]).reactions@.len() == 0 by {
                        if i < before.len() {
                            assert(out@[i] == before[i]);
                        }
                    }
                    assert forall|s: int| 0 <= s < facts@.len() implies exists|i: int|
                        0 <= i < out@.len() && (#[trigger] out@[i]).message.event_id@ == (
                        #[trigger] facts@[s]).0@ by {
                        let i = choose|i: int| 0 <= i < before.len() && (#[trigger] before[i]).message.event_id@ == facts@[s].0@;
                        assert(out@[i] == before[i]);
                    }
                }
            },
        }
        let ghost mid = out@;
        assert(exists|i: int| 0 <= i < out@.len() && (#[trigger] out@[i]).message.event_id@ == id@);
        match (reactor_id, reaction_event_id, reaction_key) {
            (Some(u), Some(e), Some(key)) => {
                facts.push((id, key, u, e));
                proof {
                    assert(row_fact(row) == Some(fact_view(facts@[facts@.len() - 1])));
                    assert(facts@.map_values(|f: (String, String, String, String)| fact_view(f)) =~= row_facts(
                        all,
                        (k + 1) as nat,
                    ));
                    assert forall|s: int| 0 <= s < facts@.len() implies exists|i: int|
                        0 <= i < out@.len() && (#[trigger] out@[i]).message.event_id@ == (
                        #[trigger] facts@[s]).0@ by {
                        if s < facts_before.len() {
                            assert(facts@[s] == facts_before[s]);
                        }
                    }
                }
            },
            _ => {
                proof {
                    assert(row_fact(row) is None);
                }
            },
        }
    }
    let ghost fv = facts@.map_values(|f: (String, String, String, String)| fact_view(f));
    let ghost n = facts@.len();
    assert forall|s: int| 0 <= s < n implies has_message(out@, #[trigger] fv[s].0) by {
        assert(fv[s] == fact_view(facts@[s]));
        let i = choose|i: int| 0 <= i < out@.len() && (#[trigger] out@[i]).message.event_id@ == facts@[s].0@;
        assert(out@[i].message.event_id@ == fv[s].0);
    }
    assert(fv.take(0) =~= Seq::<(Seq<char>, Seq<char>, Seq<char>, Seq<char>)>::empty());
    let mut t: usize = 0;
    while t < facts.len()
        invariant
            t <= facts@.len(),
            n == facts@.len(),
            fv == facts@.map_values(|f: (String, String, String, String)| fact_view(f)),
            messages_match(out@, first_messages(all, all.len() as nat)),
            reactions_match(out@, fv.take(t as int)),
            forall|s: int| 0 <= s < n ==> has_message(out@, #[trigger] fv[s].0),
        decreases facts.len() - t,
    {
        let id = facts[t].0.clone();
        let key = facts[t].1.clone();
        let user_id = facts[t].2.clone();
        let event_id = facts[t].3.clone();
        assert(fv[t as int] == (id@, key@, user_id@, event_id@));
        let ghost before = out@;
        match find_message(&out, &id) {
            Some(mi) => {
                let mut m = out.remove(mi);
                assert(m == before[mi as int]);
                let ghost groups_before = m.reactions@;
                match find_group(&m.reactions, &key) {
                    Some(gi) => {
                        let mut g = m.reactions.remove(gi);
                        let ghost g_before = g;
                        assert(g == groups_before[gi as int]);
                        if !has_reactor(&g.reactors, &user_id, &event_id) {
                            let ghost rs_before = g.reactors@;
                            g.reactors.push(Reactor { user_id, event_id });
                            assert(g.reactors@.drop_last() =~= rs_before);
                        }
                        m.reactions.insert(gi, g);
                        assert(m.reactions@ =~= groups_before.update(gi as int, g));
                        out.insert(mi, m);
                        assert(out@ =~= before.update(mi as int, m));
                        proof {
                            lemma_group_extended(before, out@, fv, t as int, mi as int, gi as int);
                            lemma_messages_kept(before, out@, first_messages(all, all.len() as nat), fv);
                        }
                    },
                    None => {
                        let mut rs: Vec<Reactor> = Vec::new();
                        rs.push(Reactor { user_id, event_id });
                        m.reactions.push(ReactionGroup { key, reactors: rs });
                        assert(m.reactions@.drop_last() =~= groups_before);
                        out.insert(mi, m);
                        assert(out@ =~= before.update(mi as int, m));
                        proof {
                            lemma_group_added(before, out@, fv, t as int, mi as int);
                            lemma_messages_kept(before, out@, first_messages(all, all.len() as nat), fv);
                        }
                    },
                }
            },
            None => {
                proof {
                    assert(has_message(out@, fv[t as int].0));
                    let i = choose|i: int| 0 <= i < out@.len() && (#[trigger] out@[i]).message.event_id@ == fv[t as int].0;
                    assert(out@[i].message.event_id@ != id@);
                }
            },
        }
        t = t + 1;
    }
    proof {
        assert(fv.take(n as int) =~= fv);
    }
    out
}

} // verus!
