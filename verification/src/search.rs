//! Message search across rooms: what the search box asks for as it is
//! typed in, which reply batches belong to the search on screen, and how a
//! room's results grow batch by batch.

use vstd::prelude::*;
use vstd::utf8::encode_utf8;
use vstd::string::StringSliceAdditionalSpecFns;
use crate::chars::str_eq;

verus! {

broadcast use vstd::string::group_string_axioms;

/// The rooms that already sent a batch for the current search.
pub struct BatchTracker {
    pub search_id: u128,
    pub seen_rooms: Vec<String>,
}

/// The results of a search, room by room, each room once.
pub open spec fn keys_unique<T>(v: Seq<(String, Vec<T>)>) -> bool {
    forall|i: int, j: int| 0 <= i < j < v.len() ==> v[i].0@ != v[j].0@
}

pub open spec fn has_room(v: Seq<String>, room: Seq<char>) -> bool {
    exists|i: int| 0 <= i < v.len() && v[i]@ == room
}

fn find_seen(v: &Vec<String>, room: &String) -> (b: bool)
    ensures
        b == has_room(v@, room@),
{
    let mut i: usize = 0;
    while i < v.len()
        invariant
            i <= v@.len(),
            forall|j: int| 0 <= j < i ==> v@[j]@ != room@,
        decreases v.len() - i,
    {
        if v[i] == *room {
            return true;
        }
        i = i + 1;
    }
    false
}

fn find_results<T>(v: &Vec<(String, Vec<T>)>, room: &String) -> (r: Option<usize>)
    ensures
        match r {
            Some(i) => i < v@.len() && v@[i as int].0@ == room@,
            None => forall|j: int| 0 <= j < v@.len() ==> v@[j].0@ != room@,
        },
{
    let mut i: usize = 0;
    while i < v.len()
        invariant
            i <= v@.len(),
            forall|j: int| 0 <= j < i ==> v@[j].0@ != room@,
        decreases v.len() - i,
    {
        if v[i].0 == *room {
            return Some(i);
        }
        i = i + 1;
    }
    None
}

/// What the search box searches for: its text, the rooms it covers, and
/// the search that the replies must belong to.
pub struct SearchParams {
    pub text: String,
    pub room_ids: Vec<String>,
    pub search_id: u128,
}

/// The parameters once the box holds `input`: the text replaced, and the
/// active room taken as the one room searched where none is chosen yet.
pub open spec fn edited_params(
    current: Option<(Seq<char>, Seq<Seq<char>>, u128)>,
    input: Seq<char>,
    active_room: Option<Seq<char>>,
) -> (Seq<char>, Seq<Seq<char>>, u128) {
    let (rooms, id) = match current {
        Some((_, r, i)) => (r, i),
        None => (Seq::empty(), 0u128),
    };
    let rooms = match active_room {
        Some(a) => if rooms.len() == 0 { seq![a] } else { rooms },
        None => rooms,
    };
    (input, rooms, id)
}

/// The parameters as plain values: text, rooms and search id.
pub open spec fn params_view(p: SearchParams) -> (Seq<char>, Seq<Seq<char>>, u128) {
    (p.text@, p.room_ids@.map_values(|r: String| r@), p.search_id)
}

/// Applies an edit of the search box's text to the parameters on screen
/// (none yet: empty parameters).
pub fn edit_search_params(current: Option<SearchParams>, input: String, active_room: Option<String>) -> (p: SearchParams)
    ensures
        params_view(p) == edited_params(
            match current { Some(c) => Some(params_view(c)), None => None },
            input@,
            match active_room { Some(a) => Some(a@), None => None },
        ),
{
    let mut p = match current {
        Some(c) => c,
        None => SearchParams { text: String::new(), room_ids: Vec::new(), search_id: 0 },
    };
    p.text = input;
    if p.room_ids.len() == 0 {
        match active_room {
            Some(a) => {
                p.room_ids.push(a);
            },
            None => {},
        }
    }
    p
}

/// What an edit of the search box asks for.
pub enum SearchStep {
    /// The parameters and the results are both cleared.
    ClearAll,
    /// The text is too short to search: the results are cleared, the
    /// parameters on screen stay as they were.
    ClearResults,
    /// A search starts with these parameters, under a fresh id; the results
    /// on screen keep only the rooms that it covers.
    Start(SearchParams),
}

/// A search needs at least this many bytes of text.
pub const MIN_SEARCH_BYTES: usize = 3;

/// Decides what an edit asks for, given the edited parameters, whether they
/// ask for nothing (as the API's `SearchParameters::is_empty` reports for
/// them and the active room), and a fresh search id.
pub fn search_step(params: SearchParams, asks_nothing: bool, fresh_id: u128) -> (step: SearchStep)
    requires
        encode_utf8(params.text@).len() <= usize::MAX,
    ensures
        asks_nothing ==> step is ClearAll,
        !asks_nothing && encode_utf8(params.text@).len() < MIN_SEARCH_BYTES ==> step is ClearResults,
        !asks_nothing && encode_utf8(params.text@).len() >= MIN_SEARCH_BYTES ==> (step matches SearchStep::Start(p)
            && p.text@ == params.text@ && p.room_ids@ == params.room_ids@ && p.search_id == fresh_id),
{
    if asks_nothing {
        return SearchStep::ClearAll;
    }
    if params.text.as_str().len() < MIN_SEARCH_BYTES {
        return SearchStep::ClearResults;
    }
    let mut p = params;
    p.search_id = fresh_id;
    SearchStep::Start(p)
}

/// The results, room by room, that lie in the rooms `ids`, in their order.
pub open spec fn results_in_rooms<T>(v: Seq<(String, Vec<T>)>, ids: Seq<String>) -> Seq<(String, Vec<T>)>
    decreases v.len(),
{
    if v.len() == 0 {
        Seq::empty()
    } else {
        let rest = results_in_rooms(v.drop_last(), ids);
        if has_room(ids, v.last().0@) {
            rest.push(v.last())
        } else {
            rest
        }
    }
}

/// Keeps, of the results on screen (none yet: no results), the rooms that
/// a new search covers.
pub fn prune_results<T>(results: Option<Vec<(String, Vec<T>)>>, room_ids: &Vec<String>) -> (kept: Vec<(String, Vec<T>)>)
    ensures
        kept@ == match results {
            Some(v) => results_in_rooms(v@, room_ids@),
            None => Seq::empty(),
        },
{
    let mut v = match results {
        Some(v) => v,
        None => {
            return Vec::new();
        },
    };
    let ghost orig = v@;
    let mut i: usize = 0;
    let ghost mut j: int = 0;
    while i < v.len()
        invariant
            0 <= i <= j <= orig.len(),
            v@.len() == i + (orig.len() - j),
            v@.subrange(0, i as int) == results_in_rooms(orig.take(j), room_ids@),
            v@.subrange(i as int, v@.len() as int) == orig.skip(j),
        decreases v@.len() - i,
    {
        proof {
            let tail = v@.subrange(i as int, v@.len() as int);
            assert(tail[0] == v@[i as int]);
            assert(tail[0] == orig.skip(j)[0]);
            assert(v@[i as int] == orig[j]);
            assert(v@.subrange(i + 1, v@.len() as int) =~= tail.skip(1));
            assert(orig.skip(j + 1) =~= orig.skip(j).skip(1));
            assert(orig.take(j + 1).drop_last() =~= orig.take(j));
            assert(orig.take(j + 1).last() == orig[j]);
        }
        if find_seen(room_ids, &v[i].0) {
            proof {
                assert(v@.subrange(0, i + 1) =~= v@.subrange(0, i as int).push(v@[i as int]));
                assert(v@.subrange(i + 1, v@.len() as int) =~= orig.skip(j + 1));
            }
            i = i + 1;
        } else {
            let ghost before = v@;
            v.remove(i);
            proof {
                assert(v@.subrange(0, i as int) =~= before.subrange(0, i as int));
                assert(v@.subrange(i as int, v@.len() as int) =~= orig.skip(j + 1));
            }
        }
        proof {
            j = j + 1;
        }
    }
    proof {
        assert(orig.take(j) =~= orig);
        assert(v@.subrange(0, i as int) =~= v@);
    }
    v
}

/// What the search box does.
pub enum SearchBoxAction {
    /// Clears the parameters, the results and the box, and leaves it.
    ClearAndLeave,
    /// Leaves the box as it is.
    Leave,
    /// Puts the caret in the box.
    Focus,
    /// Nothing.
    Nothing,
}

/// A key pressed in the search box: Escape clears everything, Enter leaves.
pub fn search_key_action(key: &str) -> (a: SearchBoxAction)
    ensures
        key@ == "Escape"@ ==> a is ClearAndLeave,
        key@ == "Enter"@ ==> a is Leave,
        key@ != "Escape"@ && key@ != "Enter"@ ==> a is Nothing,
{
    proof {
        reveal_strlit("Escape");
        reveal_strlit("Enter");
        assert("Enter"@.len() != "Escape"@.len());
    }
    if str_eq(key, "Escape") {
        SearchBoxAction::ClearAndLeave
    } else if str_eq(key, "Enter") {
        SearchBoxAction::Leave
    } else {
        SearchBoxAction::Nothing
    }
}

/// The button at the end of the search box: it clears a box that holds
/// text, and puts the caret in an empty one.
pub fn search_button_action(box_empty: bool) -> (a: SearchBoxAction)
    ensures
        box_empty ==> a is Focus,
        !box_empty ==> a is ClearAndLeave,
{
    if box_empty {
        SearchBoxAction::Focus
    } else {
        SearchBoxAction::ClearAndLeave
    }
}

/// Whether a batch is the first of its search for its room.
pub open spec fn is_first_batch(tracker_id: u128, seen: Seq<String>, batch_id: u128, room: Seq<char>) -> bool {
    tracker_id != batch_id || !has_room(seen, room)
}

/// Notes that `room` sent a batch for search `batch_id`, forgetting the
/// rooms of an earlier search; says whether it was the room's first.
pub fn note_batch(tracker: &mut BatchTracker, batch_id: u128, room: &String) -> (first: bool)
    ensures
        first == is_first_batch(old(tracker).search_id, old(tracker).seen_rooms@, batch_id, room@),
        final(tracker).search_id == batch_id,
        forall|r: Seq<char>| has_room(final(tracker).seen_rooms@, r) <==> (r == room@ || (old(tracker).search_id
            == batch_id && has_room(old(tracker).seen_rooms@, r))),
{
    let first = tracker.search_id != batch_id || !find_seen(&tracker.seen_rooms, room);
    if tracker.search_id != batch_id {
        tracker.search_id = batch_id;
        tracker.seen_rooms = Vec::new();
    }
    let ghost before = tracker.seen_rooms@;
    if !find_seen(&tracker.seen_rooms, room) {
        tracker.seen_rooms.push(room.clone());
    }
    proof {
        assert forall|r: Seq<char>| has_room(tracker.seen_rooms@, r) <==> (r == room@ || has_room(before, r)) by {
            if has_room(tracker.seen_rooms@, r) {
                let w = choose|w: int| 0 <= w < tracker.seen_rooms@.len() && tracker.seen_rooms@[w]@ == r;
                if w < before.len() {
                    assert(before[w]@ == r);
                }
            }
            if has_room(before, r) {
                let w = choose|w: int| 0 <= w < before.len() && before[w]@ == r;
                assert(tracker.seen_rooms@[w]@ == r);
            }
            if r == room@ && !has_room(before, r) {
                assert(tracker.seen_rooms@[before.len() as int]@ == r);
            }
        }
    }
    first
}

/// The results after a batch for `room`: where the room has results, the
/// first batch of a search replaces them and a later one extends them; a
/// room without results gets the batch at the end.
pub open spec fn batch_result<T>(before: Seq<(String, Vec<T>)>, after: Seq<(String, Vec<T>)>, room: Seq<char>, first: bool, update: Seq<T>) -> bool {
    match find_spec(before, room) {
        Some(i) => {
            &&& after.len() == before.len()
            &&& after[i].0@ == room
            &&& after[i].1@ == if first { update } else { before[i].1@ + update }
            &&& forall|j: int| 0 <= j < before.len() && j != i ==> after[j] == before[j]
        },
        None => {
            &&& after.len() == before.len() + 1
            &&& forall|j: int| 0 <= j < before.len() ==> after[j] == before[j]
            &&& after.last().0@ == room
            &&& after.last().1@ == update
        },
    }
}

/// Adds a batch of results for `room`: the first batch of a search replaces
/// what the room held, later ones extend it; a room without results gets
/// the batch.
pub fn add_batch<T>(results: &mut Vec<(String, Vec<T>)>, room: String, first: bool, update: Vec<T>)
    requires
        keys_unique(old(results)@),
    ensures
        keys_unique(final(results)@),
        batch_result(old(results)@, final(results)@, room@, first, update@),
{
    match find_results(results, &room) {
        Some(i) => {
            proof {
                assert(find_spec(results@, room@) == Some(i as int));
            }
            let ghost before = results@;
            let mut slot: (String, Vec<T>) = (String::new(), Vec::new());
            results.set_and_swap(i, &mut slot);
            let (key, mut items) = slot;
            if first {
                items = update;
            } else {
                let mut more = update;
                items.append(&mut more);
            }
            let mut back = (key, items);
            results.set_and_swap(i, &mut back);
            proof {
                assert forall|a: int, b: int| 0 <= a < b < results@.len() implies results@[a].0@ != results@[b].0@ by {
                    if a != i && b != i {
                        assert(results@[a] == before[a] && results@[b] == before[b]);
                    } else if a == i {
                        assert(results@[b] == before[b]);
                    } else {
                        assert(results@[a] == before[a]);
                    }
                }
            }
        },
        None => {
            proof {
                assert(find_spec(results@, room@) is None);
            }
            let ghost before = results@;
            results.push((room, update));
            proof {
                assert forall|a: int, b: int| 0 <= a < b < results@.len() implies results@[a].0@ != results@[b].0@ by {
                    if b < before.len() {
                        assert(results@[a] == before[a] && results@[b] == before[b]);
                    } else {
                        assert(results@[a] == before[a]);
                    }
                }
            }
        },
    }
}

/// The position of a room among the results, if it has any.
pub open spec fn find_spec<T>(v: Seq<(String, Vec<T>)>, room: Seq<char>) -> Option<int> {
    if exists|i: int| 0 <= i < v.len() && v[i].0@ == room {
        Some(choose|i: int| 0 <= i < v.len() && v[i].0@ == room)
    } else {
        None
    }
}

/// Takes a batch of results that search `batch_id` found in `room`. Only
/// batches of the search on screen count; the first for a room replaces
/// its results from an earlier search, later ones extend them. Results are
/// kept only while a result list is open.
pub fn accept_batch<T>(
    current_search: Option<u128>,
    tracker: &mut BatchTracker,
    results: &mut Option<Vec<(String, Vec<T>)>>,
    batch_id: u128,
    room: String,
    update: Vec<T>,
) -> (accepted: bool)
    requires
        *old(results) matches Some(r) ==> keys_unique(r@),
    ensures
        accepted == (current_search == Some(batch_id)),
        !accepted ==> *final(tracker) == *old(tracker) && *final(results) == *old(results),
        accepted ==> {
            let first = is_first_batch(old(tracker).search_id, old(tracker).seen_rooms@, batch_id, room@);
            &&& final(tracker).search_id == batch_id
            &&& forall|r: Seq<char>| has_room(final(tracker).seen_rooms@, r) <==> (r == room@ || (old(tracker).search_id
                == batch_id && has_room(old(tracker).seen_rooms@, r)))
            &&& match *old(results) {
                Some(o) => *final(results) matches Some(n) && batch_result(o@, n@, room@, first, update@),
                None => *final(results) is None,
            }
        },
        *final(results) matches Some(r) ==> keys_unique(r@),
        (*final(results) is Some) == (*old(results) is Some),
{
    match current_search {
        Some(id) => {
            if id != batch_id {
                return false;
            }
        },
        None => {
            return false;
        },
    }
    let first = note_batch(tracker, batch_id, &room);
    match results {
        Some(r) => {
            add_batch(r, room, first, update);
        },
        None => {},
    }
    true
}

/// A search's first batch for a room replaces what the room showed, and
/// every later batch of the same search for that room extends it: once a
/// room's batch is noted, the next batch of that search for that room is
/// not a first one, whatever was noted before.
pub proof fn law_later_batches_extend(tracker_id: u128, seen: Seq<String>, batch_id: u128, room: Seq<char>, seen_after: Seq<String>)
    requires
        forall|r: Seq<char>| has_room(seen_after, r) <==> (r == room || (tracker_id == batch_id && has_room(seen, r))),
    ensures
        !is_first_batch(batch_id, seen_after, batch_id, room),
        tracker_id != batch_id ==> is_first_batch(tracker_id, seen, batch_id, room),
{
    assert(has_room(seen_after, room));
}
} // verus!
