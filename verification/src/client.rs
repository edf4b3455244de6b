//! Client-wide state that the backend's events update: the order of the
//! servers in the sidebar, the map of known rooms, which window is shown,
//! and the notification toasts.

use vstd::prelude::*;
use crate::display::system::strings_view;

verus! {

broadcast use vstd::string::group_string_axioms;

/// Where a server stands in the saved order: its last position there, or
/// after all others when it is not saved.
pub open spec fn saved_position(saved: Seq<String>, id: Seq<char>) -> int {
    if exists|j: int| 0 <= j < saved.len() && saved[j]@ == id {
        choose|j: int| 0 <= j < saved.len() && saved[j]@ == id && forall|k: int| j < k < saved.len() ==> saved[k]@ != id
    } else {
        usize::MAX as int
    }
}

fn position_in(saved: &Vec<String>, id: &String) -> (p: usize)
    ensures
        p == saved_position(saved@, id@),
{
    let mut j: usize = saved.len();
    while j > 0
        invariant
            j <= saved@.len(),
            forall|k: int| j <= k < saved@.len() ==> saved@[k]@ != id@,
        decreases j,
    {
        if saved[j - 1] == *id {
            proof {
                let w = choose|x: int|
                    0 <= x < saved@.len() && saved@[x]@ == id@ && forall|k: int| x < k < saved@.len() ==> saved@[k]@ != id@;
                if w < j - 1 {
                    assert(saved@[j - 1]@ != id@);
                } else if w > j - 1 {
                    assert(saved@[w]@ != id@);
                }
            }
            return j - 1;
        }
        j = j - 1;
    }
    usize::MAX
}

/// Whether server `a` of the list comes before server `b`: by saved
/// position, and in list order among equal positions.
pub open spec fn server_before(keys: Seq<usize>, a: int, b: int) -> bool {
    keys[a] < keys[b] || (keys[a] == keys[b] && a < b)
}

/// `perm` lists every position of the list once, ordered by saved position
/// and, among equal ones, by list order.
pub open spec fn is_stable_order(keys: Seq<usize>, perm: Seq<usize>) -> bool {
    &&& perm.len() == keys.len()
    &&& forall|i: int| 0 <= i < perm.len() ==> perm[i] < keys.len()
    &&& forall|i: int, j: int| 0 <= i < j < perm.len() ==> server_before(keys, perm[i] as int, perm[j] as int)
}

/// Sorts positions by key, keeping the list order among equal keys.
pub fn stable_order(keys: &Vec<usize>) -> (perm: Vec<usize>)
    ensures
        is_stable_order(keys@, perm@),
{
    let mut perm: Vec<usize> = Vec::new();
    let mut x: usize = 0;
    while x < keys.len()
        invariant
            x <= keys@.len(),
            perm@.len() == x,
            forall|i: int| 0 <= i < perm@.len() ==> perm@[i] < x,
            forall|i: int, j: int| 0 <= i < j < perm@.len() ==> server_before(keys@, perm@[i] as int, perm@[j] as int),
        decreases keys.len() - x,
    {
        let k = keys[x];
        let mut p: usize = 0;
        while p < perm.len() && keys[perm[p]] <= k
            invariant
                p <= perm@.len(),
                x < keys@.len(),
                k == keys@[x as int],
                forall|i: int| 0 <= i < perm@.len() ==> perm@[i] < x,
                forall|i: int| 0 <= i < p ==> keys@[perm@[i] as int] <= k,
            decreases perm.len() - p,
        {
            p = p + 1;
        }
        let ghost before = perm@;
        perm.insert(p, x);
        proof {
            assert(perm@ == before.insert(p as int, x));
            assert forall|i: int, j: int| 0 <= i < j < perm@.len() implies server_before(
                keys@,
                perm@[i] as int,
                perm@[j] as int,
            ) by {
                if j < p {
                    assert(perm@[i] == before[i] && perm@[j] == before[j]);
                } else if j == p {
                    assert(perm@[i] == before[i]);
                } else if i < p {
                    assert(perm@[i] == before[i] && perm@[j] == before[j - 1]);
                } else if i == p {
                    assert(perm@[j] == before[j - 1]);
                    assert(keys@[before[p as int] as int] > k);
                    if j - 1 > p {
                        assert(server_before(keys@, before[p as int] as int, before[j - 1] as int));
                    }
                } else {
                    assert(perm@[i] == before[i - 1] && perm@[j] == before[j - 1]);
                }
            }
        }
        x = x + 1;
    }
    perm
}

/// The servers of the sidebar in the saved order: each server by its last
/// position in `saved`, servers not saved after the others, and servers
/// of equal position in the order the backend listed them. The flag says
/// whether this order differs from the saved one.
pub fn order_servers(servers: &Vec<String>, saved: &Vec<String>) -> (r: (Vec<String>, bool))
    ensures
        ({
            let keys = Seq::new(servers@.len(), |i: int| saved_position(saved@, servers@[i]@) as usize);
            exists|perm: Seq<usize>| #[trigger] is_stable_order(keys, perm) && strings_view(r.0@) == Seq::new(
                perm.len(),
                |i: int| servers@[perm[i] as int]@,
            )
        }),
        r.1 == (strings_view(r.0@) != strings_view(saved@)),
{
    let mut keys: Vec<usize> = Vec::new();
    let mut i: usize = 0;
    while i < servers.len()
        invariant
            i <= servers@.len(),
            keys@ == Seq::new(i as nat, |k: int| saved_position(saved@, servers@[k]@) as usize),
        decreases servers.len() - i,
    {
        keys.push(position_in(saved, &servers[i]));
        assert(keys@ =~= Seq::new((i + 1) as nat, |k: int| saved_position(saved@, servers@[k]@) as usize));
        i = i + 1;
    }
    let perm = stable_order(&keys);
    let mut out: Vec<String> = Vec::new();
    let mut j: usize = 0;
    while j < perm.len()
        invariant
            is_stable_order(keys@, perm@),
            keys@.len() == servers@.len(),
            j <= perm@.len(),
            strings_view(out@) == Seq::new(j as nat, |k: int| servers@[perm@[k] as int]@),
        decreases perm.len() - j,
    {
        let c = servers[perm[j]].clone();
        assert(c@ == servers@[perm@[j as int] as int]@);
        let ghost prev = out@;
        out.push(c);
        assert(strings_view(prev).len() == j);
        assert forall|k: int| 0 <= k < j + 1 implies #[trigger] strings_view(out@)[k] == Seq::new(
            (j + 1) as nat,
            |m: int| servers@[perm@[m] as int]@,
        )[k] by {
            if k < j {
                assert(out@[k] == prev[k]);
                assert(strings_view(prev)[k] == Seq::new(j as nat, |m: int| servers@[perm@[m] as int]@)[k]);
            }
        }
        assert(strings_view(out@) =~= Seq::new((j + 1) as nat, |k: int| servers@[perm@[k] as int]@));
        j = j + 1;
    }
    let changed = !same_strings(&out, saved);
    (out, changed)
}

/// Whether two lists hold the same strings in the same order.
pub fn same_strings(a: &Vec<String>, b: &Vec<String>) -> (r: bool)
    ensures
        r == (strings_view(a@) == strings_view(b@)),
{
    if a.len() != b.len() {
        assert(strings_view(a@).len() != strings_view(b@).len());
        return false;
    }
    let mut i: usize = 0;
    while i < a.len()
        invariant
            a@.len() == b@.len(),
            i <= a@.len(),
            forall|k: int| 0 <= k < i ==> a@[k]@ == b@[k]@,
        decreases a.len() - i,
    {
        if a[i] != b[i] {
            assert(strings_view(a@)[i as int] != strings_view(b@)[i as int]);
            return false;
        }
        i = i + 1;
    }
    assert(strings_view(a@) =~= strings_view(b@));
    true
}

/// A map kept as a list of entries, each key once.
pub open spec fn keys_distinct<T>(v: Seq<(String, T)>) -> bool {
    forall|i: int, j: int| 0 <= i < j < v.len() ==> v[i].0@ != v[j].0@
}

/// The map the entries stand for.
pub open spec fn map_of<T>(v: Seq<(String, T)>) -> Map<Seq<char>, T> {
    Map::new(
        |k: Seq<char>| exists|i: int| 0 <= i < v.len() && v[i].0@ == k,
        |k: Seq<char>| v[choose|i: int| 0 <= i < v.len() && v[i].0@ == k].1,
    )
}

proof fn lemma_map_of_at<T>(v: Seq<(String, T)>, i: int)
    requires
        keys_distinct(v),
        0 <= i < v.len(),
    ensures
        map_of(v).contains_key(v[i].0@),
        map_of(v)[v[i].0@] == v[i].1,
{
    let w = choose|x: int| 0 <= x < v.len() && v[x].0@ == v[i].0@;
    assert(w == i);
}

fn find_key<T>(v: &Vec<(String, T)>, key: &String) -> (r: Option<usize>)
    ensures
        match r {
            Some(i) => i < v@.len() && v@[i as int].0@ == key@,
            None => forall|j: int| 0 <= j < v@.len() ==> v@[j].0@ != key@,
        },
{
    let mut i: usize = 0;
    while i < v.len()
        invariant
            i <= v@.len(),
            forall|j: int| 0 <= j < i ==> v@[j].0@ != key@,
        decreases v.len() - i,
    {
        if v[i].0 == *key {
            return Some(i);
        }
        i = i + 1;
    }
    None
}

/// Sets the value of a key, adding the key where it is new.
pub fn map_insert<T>(v: &mut Vec<(String, T)>, key: String, value: T)
    requires
        keys_distinct(old(v)@),
    ensures
        keys_distinct(final(v)@),
        map_of(final(v)@) == map_of(old(v)@).insert(key@, value),
{
    let ghost before = v@;
    let ghost k = key@;
    match find_key(v, &key) {
        Some(i) => {
            v.set(i, (key, value));
            proof {
                assert forall|a: int, b: int| 0 <= a < b < v@.len() implies v@[a].0@ != v@[b].0@ by {
                    if a != i && b != i {
                        assert(v@[a] == before[a] && v@[b] == before[b]);
                    } else if a == i {
                        assert(v@[b] == before[b]);
                    } else {
                        assert(v@[a] == before[a]);
                    }
                }
                assert forall|q: Seq<char>| #[trigger] map_of(v@).contains_key(q) <==> map_of(before).insert(
                    k,
                    value,
                ).contains_key(q) by {
                    if map_of(v@).contains_key(q) {
                        let w = choose|x: int| 0 <= x < v@.len() && v@[x].0@ == q;
                        if w != i {
                            assert(before[w].0@ == q);
                        }
                    }
                    if map_of(before).contains_key(q) {
                        let w = choose|x: int| 0 <= x < before.len() && before[x].0@ == q;
                        if w != i {
                            assert(v@[w].0@ == q);
                        } else {
                            assert(v@[i as int].0@ == q);
                        }
                    }
                    if q == k {
                        assert(v@[i as int].0@ == q);
                    }
                }
                assert forall|q: Seq<char>| #[trigger] map_of(v@).contains_key(q) implies map_of(v@)[q] == map_of(
                    before,
                ).insert(k, value)[q] by {
                    let w = choose|x: int| 0 <= x < v@.len() && v@[x].0@ == q;
                    lemma_map_of_at(v@, w);
                    if w != i {
                        assert(v@[w] == before[w]);
                        lemma_map_of_at(before, w);
                    }
                }
                assert(map_of(v@) =~= map_of(before).insert(k, value));
            }
        },
        None => {
            v.push((key, value));
            proof {
                assert forall|a: int, b: int| 0 <= a < b < v@.len() implies v@[a].0@ != v@[b].0@ by {
                    if b < before.len() {
                        assert(v@[a] == before[a] && v@[b] == before[b]);
                    } else {
                        assert(v@[a] == before[a]);
                    }
                }
                assert forall|q: Seq<char>| #[trigger] map_of(v@).contains_key(q) <==> map_of(before).insert(
                    k,
                    value,
                ).contains_key(q) by {
                    if map_of(v@).contains_key(q) {
                        let w = choose|x: int| 0 <= x < v@.len() && v@[x].0@ == q;
                        if w < before.len() {
                            assert(before[w].0@ == q);
                        }
                    }
                    if map_of(before).contains_key(q) {
                        let w = choose|x: int| 0 <= x < before.len() && before[x].0@ == q;
                        assert(v@[w].0@ == q);
                    }
                    if q == k {
                        assert(v@[before.len() as int].0@ == q);
                    }
                }
                assert forall|q: Seq<char>| #[trigger] map_of(v@).contains_key(q) implies map_of(v@)[q] == map_of(
                    before,
                ).insert(k, value)[q] by {
                    let w = choose|x: int| 0 <= x < v@.len() && v@[x].0@ == q;
                    lemma_map_of_at(v@, w);
                    if w < before.len() {
                        assert(v@[w] == before[w]);
                        lemma_map_of_at(before, w);
                    }
                }
                assert(map_of(v@) =~= map_of(before).insert(k, value));
            }
        },
    }
}

/// Removes a key and its value, if the key is there.
pub fn map_remove<T>(v: &mut Vec<(String, T)>, key: &String)
    requires
        keys_distinct(old(v)@),
    ensures
        keys_distinct(final(v)@),
        map_of(final(v)@) == map_of(old(v)@).remove(key@),
{
    let ghost before = v@;
    match find_key(v, key) {
        Some(i) => {
            let _ = v.remove(i);
            proof {
                assert(v@ == before.remove(i as int));
                assert forall|a: int, b: int| 0 <= a < b < v@.len() implies v@[a].0@ != v@[b].0@ by {
                    let a2 = if a < i { a } else { a + 1 };
                    let b2 = if b < i { b } else { b + 1 };
                    assert(v@[a] == before[a2] && v@[b] == before[b2]);
                }
                assert forall|q: Seq<char>| #[trigger] map_of(v@).contains_key(q) <==> map_of(before).remove(
                    key@,
                ).contains_key(q) by {
                    if map_of(v@).contains_key(q) {
                        let w = choose|x: int| 0 <= x < v@.len() && v@[x].0@ == q;
                        let w2 = if w < i { w } else { w + 1 };
                        assert(before[w2].0@ == q);
                    }
                    if map_of(before).contains_key(q) && q != key@ {
                        let w = choose|x: int| 0 <= x < before.len() && before[x].0@ == q;
                        assert(w != i);
                        if w < i {
                            assert(v@[w].0@ == q);
                        } else {
                            assert(v@[w - 1].0@ == q);
                        }
                    }
                }
                assert forall|q: Seq<char>| #[trigger] map_of(v@).contains_key(q) implies map_of(v@)[q] == map_of(
                    before,
                ).remove(key@)[q] by {
                    let w = choose|x: int| 0 <= x < v@.len() && v@[x].0@ == q;
                    lemma_map_of_at(v@, w);
                    let w2 = if w < i { w } else { w + 1 };
                    assert(v@[w] == before[w2]);
                    lemma_map_of_at(before, w2);
                }
                assert(map_of(v@) =~= map_of(before).remove(key@));
            }
        },
        None => {
            proof {
                assert(!map_of(before).contains_key(key@));
                assert(map_of(v@) =~= map_of(before).remove(key@));
            }
        },
    }
}

/// A change to the map of known rooms.
pub enum RoomMapUpdate<T> {
    Insert { key: String, value: T },
    Remove { key: String },
    /// Replaces the whole map with these entries.
    Reset { entries: Vec<(String, T)> },
}

/// The map after the entries are set one after the other.
pub open spec fn map_with_all<T>(m: Map<Seq<char>, T>, entries: Seq<(String, T)>) -> Map<Seq<char>, T>
    decreases entries.len(),
{
    if entries.len() == 0 {
        m
    } else {
        map_with_all(m, entries.drop_last()).insert(entries.last().0@, entries.last().1)
    }
}

/// The map after one update.
pub open spec fn room_map_after<T>(m: Map<Seq<char>, T>, u: RoomMapUpdate<T>) -> Map<Seq<char>, T> {
    match u {
        RoomMapUpdate::Insert { key, value } => m.insert(key@, value),
        RoomMapUpdate::Remove { key } => m.remove(key@),
        RoomMapUpdate::Reset { entries } => map_with_all(Map::empty(), entries@),
    }
}

/// Applies one update to the map of known rooms.
pub fn apply_room_map_update<T>(v: &mut Vec<(String, T)>, u: RoomMapUpdate<T>)
    requires
        keys_distinct(old(v)@),
    ensures
        keys_distinct(final(v)@),
        map_of(final(v)@) == room_map_after(map_of(old(v)@), u),
{
    match u {
        RoomMapUpdate::Insert { key, value } => map_insert(v, key, value),
        RoomMapUpdate::Remove { key } => map_remove(v, &key),
        RoomMapUpdate::Reset { entries } => {
            let ghost all = entries@;
            *v = Vec::new();
            proof {
                assert(map_of(v@) =~= Map::<Seq<char>, T>::empty());
            }
            for e in it: entries
                invariant
                    it.seq() == all,
                    keys_distinct(v@),
                    map_of(v@) == map_with_all(Map::empty(), all.take(it.index() as int)),
            {
                let ghost done = all.take(it.index() as int);
                let (k, val) = e;
                map_insert(v, k, val);
                proof {
                    let next = all.take(it.index() + 1);
                    assert(next.drop_last() =~= done);
                }
            }
            proof {
                assert(all.take(all.len() as int) =~= all);
            }
        },
    }
}

/// Applies a batch of updates in order.
pub fn apply_room_map_updates<T>(v: &mut Vec<(String, T)>, updates: Vec<RoomMapUpdate<T>>)
    requires
        keys_distinct(old(v)@),
    ensures
        keys_distinct(final(v)@),
        map_of(final(v)@) == room_map_after_all(map_of(old(v)@), updates@),
{
    let ghost start = map_of(v@);
    let ghost all = updates@;
    for u in it: updates
        invariant
            it.seq() == all,
            keys_distinct(v@),
            map_of(v@) == room_map_after_all(start, all.take(it.index() as int)),
    {
        let ghost done = all.take(it.index() as int);
        apply_room_map_update(v, u);
        proof {
            let next = all.take(it.index() + 1);
            assert(next.drop_last() =~= done);
        }
    }
    proof {
        assert(all.take(all.len() as int) =~= all);
    }
}

/// The map after updates applied in order.
pub open spec fn room_map_after_all<T>(m: Map<Seq<char>, T>, us: Seq<RoomMapUpdate<T>>) -> Map<Seq<char>, T>
    decreases us.len(),
{
    if us.len() == 0 {
        m
    } else {
        room_map_after(room_map_after_all(m, us.drop_last()), us.last())
    }
}

/// The window the client shows.
#[derive(PartialEq, Eq, Structural)]
pub enum CurrentWindow {
    HomeserverDiscovery,
    Login,
    Home,
    Loading,
}

/// What the backend answers when the client tries to restore a session.
pub enum RestoreResponse {
    NoSession,
    Success { user_id: String },
    Failed { home_server: String },
}

/// After a restore: without a session the homeserver is chosen anew, a
/// restored session opens the home window as its user, and a failed one
/// asks to log in again.
pub fn window_after_restore(r: &RestoreResponse) -> (w: (CurrentWindow, Option<String>))
    ensures
        match *r {
            RestoreResponse::NoSession => w.0 == CurrentWindow::HomeserverDiscovery && w.1 is None,
            RestoreResponse::Success { user_id } => w.0 == CurrentWindow::Home && (w.1 matches Some(u) && u@ == user_id@),
            RestoreResponse::Failed { .. } => w.0 == CurrentWindow::Login && w.1 is None,
        },
{
    match r {
        RestoreResponse::NoSession => (CurrentWindow::HomeserverDiscovery, None),
        RestoreResponse::Success { user_id } => (CurrentWindow::Home, Some(user_id.clone())),
        RestoreResponse::Failed { .. } => (CurrentWindow::Login, None),
    }
}

/// The page a window shows: the authentication pages for discovery and
/// login, the home page, or the loading screen.
pub enum Page {
    Authentication,
    HomePage,
    LoadingScreen,
}

pub fn page_for(w: &CurrentWindow) -> (p: Page)
    ensures
        (p is Authentication) == (*w == CurrentWindow::HomeserverDiscovery || *w == CurrentWindow::Login),
        (p is HomePage) == (*w == CurrentWindow::Home),
        (p is LoadingScreen) == (*w == CurrentWindow::Loading),
{
    match w {
        CurrentWindow::HomeserverDiscovery | CurrentWindow::Login => Page::Authentication,
        CurrentWindow::Home => Page::HomePage,
        CurrentWindow::Loading => Page::LoadingScreen,
    }
}

/// The window shown and the one shown before it.
pub struct WindowHistory {
    pub last: CurrentWindow,
    pub previous: CurrentWindow,
}

/// Notes the window now shown: where it changed, the one before becomes
/// the previous window, and the change is reported so that its time can be
/// taken.
pub fn note_window(h: &mut WindowHistory, current: CurrentWindow) -> (changed: bool)
    ensures
        changed == (current != old(h).last),
        changed ==> final(h).previous == old(h).last && final(h).last == current,
        !changed ==> *final(h) == *old(h),
{
    if current != h.last {
        let before = match h.last {
            CurrentWindow::HomeserverDiscovery => CurrentWindow::HomeserverDiscovery,
            CurrentWindow::Login => CurrentWindow::Login,
            CurrentWindow::Home => CurrentWindow::Home,
            CurrentWindow::Loading => CurrentWindow::Loading,
        };
        h.previous = before;
        h.last = current;
        true
    } else {
        false
    }
}

/// How urgent a notification is.
pub enum NotificationLevel {
    Info,
    Warning,
    Error,
}

/// A notification the backend raises.
pub enum NotificationEvent {
    UpdateAvailable,
    UpdateDownloaded,
    Generic { title: String, message: String, level: NotificationLevel },
}

/// The colour family of a toast.
pub enum Tone {
    Blue,
    Green,
    Yellow,
    Red,
}

/// The toasts on screen, each with its id, and the id the next one gets.
pub struct Toasts<E> {
    pub next_id: u64,
    pub active: Vec<(u64, E)>,
}

/// Shows a notification as a new toast under the next id; ids count up and
/// wrap round as the counter does.
pub fn push_toast<E>(t: &mut Toasts<E>, event: E) -> (id: u64)
    ensures
        id == old(t).next_id,
        final(t).next_id == (if old(t).next_id == u64::MAX { 0 } else { old(t).next_id + 1 }),
        final(t).active@ == old(t).active@.push((id, event)),
{
    let id = t.next_id;
    t.next_id = t.next_id.wrapping_add(1);
    t.active.push((id, event));
    id
}

/// The toasts left after those with the id expire.
pub open spec fn without_id<E>(v: Seq<(u64, E)>, id: u64) -> Seq<(u64, E)>
    decreases v.len(),
{
    if v.len() == 0 {
        v
    } else {
        let rest = without_id(v.drop_last(), id);
        if v.last().0 == id {
            rest
        } else {
            rest.push(v.last())
        }
    }
}

/// Removes the toasts with the id, when their time is up.
pub fn expire_toast<E>(t: &mut Toasts<E>, id: u64)
    ensures
        final(t).next_id == old(t).next_id,
        final(t).active@ == without_id(old(t).active@, id),
{
    let mut kept: Vec<(u64, E)> = Vec::new();
    let mut old_active: Vec<(u64, E)> = Vec::new();
    std::mem::swap(&mut old_active, &mut t.active);
    let ghost all = old_active@;
    for item in it: old_active
        invariant
            it.seq() == all,
            kept@ == without_id(all.take(it.index() as int), id),
    {
        let ghost done = all.take(it.index() as int);
        proof {
            let next = all.take(it.index() + 1);
            assert(next.drop_last() =~= done);
        }
        if item.0 != id {
            kept.push(item);
        }
    }
    proof {
        assert(all.take(all.len() as int) =~= all);
    }
    t.active = kept;
}

/// Pushing a toast and expiring its id leaves the toasts as they were,
/// where no toast on screen had that id.
pub proof fn law_expire_undoes_push<E>(before: Seq<(u64, E)>, id: u64, event: E)
    requires
        forall|i: int| 0 <= i < before.len() ==> before[i].0 != id,
    ensures
        without_id(before.push((id, event)), id) == before,
{
    assert(before.push((id, event)).drop_last() =~= before);
    lemma_without_absent(before, id);
}

proof fn lemma_without_absent<E>(v: Seq<(u64, E)>, id: u64)
    requires
        forall|i: int| 0 <= i < v.len() ==> v[i].0 != id,
    ensures
        without_id(v, id) == v,
    decreases v.len(),
{
    if v.len() > 0 {
        lemma_without_absent(v.drop_last(), id);
        assert(v.drop_last().push(v.last()) =~= v);
    }
}

/// What a toast says and in which colours.
pub open spec fn toast_content_spec(e: NotificationEvent) -> (Seq<char>, Seq<char>, Tone) {
    match e {
        NotificationEvent::UpdateAvailable => (
            "Update Available"@,
            "A new version of the app is ready to install, check the settings."@,
            Tone::Blue,
        ),
        NotificationEvent::UpdateDownloaded => (
            "Update Downloaded"@,
            "The new version has been downloaded and is ready to install."@,
            Tone::Blue,
        ),
        NotificationEvent::Generic { title, message, level } => (
            title@,
            message@,
            match level {
                NotificationLevel::Info => Tone::Green,
                NotificationLevel::Warning => Tone::Yellow,
                NotificationLevel::Error => Tone::Red,
            },
        ),
    }
}

pub fn toast_content(e: &NotificationEvent) -> (c: (String, String, Tone))
    ensures
        (c.0@, c.1@, c.2) == toast_content_spec(*e),
{
    match e {
        NotificationEvent::UpdateAvailable => (
            String::from_str("Update Available"),
            String::from_str("A new version of the app is ready to install, check the settings."),
            Tone::Blue,
        ),
        NotificationEvent::UpdateDownloaded => (
            String::from_str("Update Downloaded"),
            String::from_str("The new version has been downloaded and is ready to install."),
            Tone::Blue,
        ),
        NotificationEvent::Generic { title, message, level } => (
            title.clone(),
            message.clone(),
            match level {
                NotificationLevel::Info => Tone::Green,
                NotificationLevel::Warning => Tone::Yellow,
                NotificationLevel::Error => Tone::Red,
            },
        ),
    }
}

/// Setting a room and then removing it leaves the map as removing it
/// alone would: nothing of the set value remains.
pub proof fn law_insert_then_remove<T>(m: Map<Seq<char>, T>, key: String, value: T)
    ensures
        room_map_after(room_map_after(m, RoomMapUpdate::Insert { key: key, value: value }), RoomMapUpdate::Remove { key: key })
            == m.remove(key@),
{
    assert(m.insert(key@, value).remove(key@) =~= m.remove(key@));
}

/// A reset forgets every room it does not list: the map afterwards holds
/// exactly the keys of the listed entries.
pub proof fn law_reset_forgets<T>(m: Map<Seq<char>, T>, entries: Seq<(String, T)>, k: Seq<char>)
    ensures
        map_with_all(Map::<Seq<char>, T>::empty(), entries).contains_key(k) <==> exists|i: int|
            0 <= i < entries.len() && entries[i].0@ == k,
    decreases entries.len(),
{
    if entries.len() > 0 {
        law_reset_forgets(m, entries.drop_last(), k);
        if exists|i: int| 0 <= i < entries.drop_last().len() && entries.drop_last()[i].0@ == k {
            let i = choose|i: int| 0 <= i < entries.drop_last().len() && entries.drop_last()[i].0@ == k;
            assert(entries[i].0@ == k);
        }
        if exists|i: int| 0 <= i < entries.len() && entries[i].0@ == k {
            let i = choose|i: int| 0 <= i < entries.len() && entries[i].0@ == k;
            if i < entries.len() - 1 {
                assert(entries.drop_last()[i].0@ == k);
            }
        }
    }
}

} // verus!
