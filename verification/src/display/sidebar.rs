//! The chat sidebar: which panel it shows, the member list split by
//! presence and sorted by name, and the headers of the search and pinned
//! message panels.

use vstd::prelude::*;
use crate::chars::{chars_of, str_eq, string_from_chars};
use crate::logs::{is_white_space, white_space_char};
use crate::outside::{lowercase, std_lowercase};
use crate::display::numbers::{decimal, decimal_string};
use crate::display::system::strings_view;

verus! {

broadcast use vstd::string::group_string_axioms;

/// Whether `a` sorts before `b` the way strings compare: character by
/// character, a proper prefix first.
pub open spec fn text_lt(a: Seq<char>, b: Seq<char>) -> bool
    decreases a.len(),
{
    if a.len() == 0 {
        b.len() > 0
    } else if b.len() == 0 {
        false
    } else if a[0] != b[0] {
        (a[0] as int) < (b[0] as int)
    } else {
        text_lt(a.drop_first(), b.drop_first())
    }
}

proof fn lemma_text_lt_irreflexive(a: Seq<char>)
    ensures
        !text_lt(a, a),
    decreases a.len(),
{
    if a.len() > 0 {
        lemma_text_lt_irreflexive(a.drop_first());
    }
}

proof fn lemma_text_lt_total(a: Seq<char>, b: Seq<char>)
    ensures
        text_lt(a, b) || text_lt(b, a) || a == b,
    decreases a.len(),
{
    if a.len() > 0 && b.len() > 0 && a[0] == b[0] {
        lemma_text_lt_total(a.drop_first(), b.drop_first());
        if a.drop_first() == b.drop_first() {
            assert(a =~= seq![a[0]] + a.drop_first());
            assert(b =~= seq![b[0]] + b.drop_first());
        }
    }
    if a.len() == 0 && b.len() == 0 {
        assert(a =~= b);
    }
    if a.len() > 0 && b.len() > 0 && a[0] != b[0] {
        assert((a[0] as int) != (b[0] as int));
    }
}

proof fn lemma_text_lt_transitive(a: Seq<char>, b: Seq<char>, c: Seq<char>)
    requires
        text_lt(a, b),
        text_lt(b, c),
    ensures
        text_lt(a, c),
    decreases a.len(),
{
    if a.len() > 0 && b.len() > 0 && c.len() > 0 && a[0] == b[0] && b[0] == c[0] {
        lemma_text_lt_transitive(a.drop_first(), b.drop_first(), c.drop_first());
    }
}

proof fn lemma_text_lt_asymmetric(a: Seq<char>, b: Seq<char>)
    requires
        text_lt(a, b),
    ensures
        !text_lt(b, a),
    decreases a.len(),
{
    if a.len() > 0 && b.len() > 0 && a[0] == b[0] {
        lemma_text_lt_asymmetric(a.drop_first(), b.drop_first());
    }
}

/// Texts compare as a strict total order: no text sorts before itself,
/// the order is transitive, and of two different texts one sorts first.
pub proof fn law_text_order_is_strict_and_total(a: Seq<char>, b: Seq<char>, c: Seq<char>)
    ensures
        !text_lt(a, a),
        text_lt(a, b) && text_lt(b, c) ==> text_lt(a, c),
        a != b ==> (text_lt(a, b) || text_lt(b, a)),
        text_lt(a, b) ==> !text_lt(b, a),
{
    lemma_text_lt_irreflexive(a);
    if text_lt(a, b) && text_lt(b, c) {
        lemma_text_lt_transitive(a, b, c);
    }
    lemma_text_lt_total(a, b);
    if text_lt(a, b) {
        lemma_text_lt_asymmetric(a, b);
    }
}

/// Compares two texts the way strings compare.
pub fn text_less(a: &str, b: &str) -> (r: bool)
    ensures
        r == text_lt(a@, b@),
{
    let x = chars_of(a);
    let y = chars_of(b);
    let mut i: usize = 0;
    assert(a@.skip(0) =~= a@);
    assert(b@.skip(0) =~= b@);
    while i < x.len() && i < y.len() && x[i] == y[i]
        invariant
            x@ == a@,
            y@ == b@,
            i <= x@.len(),
            i <= y@.len(),
            text_lt(a@, b@) == text_lt(a@.skip(i as int), b@.skip(i as int)),
        decreases x.len() - i,
    {
        proof {
            let sa = a@.skip(i as int);
            let sb = b@.skip(i as int);
            assert(sa.drop_first() =~= a@.skip(i + 1));
            assert(sb.drop_first() =~= b@.skip(i + 1));
        }
        i = i + 1;
    }
    proof {
        let sa = a@.skip(i as int);
        let sb = b@.skip(i as int);
        if i < x@.len() && i < y@.len() {
            assert(sa[0] == a@[i as int] && sb[0] == b@[i as int]);
        }
    }
    if i == x.len() {
        assert(a@.skip(i as int).len() == 0);
        i < y.len()
    } else if i == y.len() {
        assert(b@.skip(i as int).len() == 0);
        false
    } else {
        let c = x[i];
        let d = y[i];
        assert(c != d);
        assert(a@.skip(i as int)[0] == c && b@.skip(i as int)[0] == d);
        c < d
    }
}

/// Whether entry `a` comes before entry `b`: by key, and in list order
/// among equal keys.
pub open spec fn key_before(keys: Seq<Seq<char>>, a: int, b: int) -> bool {
    text_lt(keys[a], keys[b]) || (keys[a] == keys[b] && a < b)
}

/// `order` lists the chosen positions once each, sorted by key and, among
/// equal keys, by position.
pub open spec fn sorted_by_key(keys: Seq<Seq<char>>, order: Seq<usize>) -> bool {
    &&& forall|i: int| 0 <= i < order.len() ==> order[i] < keys.len()
    &&& forall|i: int, j: int| 0 <= i < j < order.len() ==> key_before(keys, order[i] as int, order[j] as int)
}

/// Whether the pair of texts `(a1, a2)` sorts before `(b1, b2)` the way
/// tuples compare: by the first text, then by the second.
pub open spec fn pair_lt(a1: Seq<char>, a2: Seq<char>, b1: Seq<char>, b2: Seq<char>) -> bool {
    text_lt(a1, b1) || (a1 == b1 && text_lt(a2, b2))
}

/// Whether entry `a` comes before entry `b`: by the pair of its keys, and
/// in list order among equal pairs.
pub open spec fn pair_before(first: Seq<Seq<char>>, second: Seq<Seq<char>>, a: int, b: int) -> bool {
    pair_lt(first[a], second[a], first[b], second[b]) || (first[a] == first[b] && second[a] == second[b]
        && a < b)
}

/// `order` lists the chosen positions once each, sorted by the pairs of
/// keys and, among equal pairs, by position.
pub open spec fn sorted_by_pair(first: Seq<Seq<char>>, second: Seq<Seq<char>>, order: Seq<usize>) -> bool {
    &&& forall|i: int| 0 <= i < order.len() ==> order[i] < first.len()
    &&& forall|i: int, j: int|
        0 <= i < j < order.len() ==> pair_before(first, second, order[i] as int, order[j] as int)
}

proof fn lemma_pair_lt_total(a1: Seq<char>, a2: Seq<char>, b1: Seq<char>, b2: Seq<char>)
    ensures
        pair_lt(a1, a2, b1, b2) || pair_lt(b1, b2, a1, a2) || (a1 == b1 && a2 == b2),
{
    lemma_text_lt_total(a1, b1);
    lemma_text_lt_total(a2, b2);
}

proof fn lemma_pair_lt_transitive(
    a1: Seq<char>,
    a2: Seq<char>,
    b1: Seq<char>,
    b2: Seq<char>,
    c1: Seq<char>,
    c2: Seq<char>,
)
    requires
        pair_lt(a1, a2, b1, b2),
        pair_lt(b1, b2, c1, c2),
    ensures
        pair_lt(a1, a2, c1, c2),
{
    if text_lt(a1, b1) && text_lt(b1, c1) {
        lemma_text_lt_transitive(a1, b1, c1);
    }
    if a1 == b1 && b1 == c1 {
        lemma_text_lt_irreflexive(a1);
        lemma_text_lt_transitive(a2, b2, c2);
    }
}

/// Compares two pairs of texts the way tuples of strings compare.
pub fn pair_less(a1: &str, a2: &str, b1: &str, b2: &str) -> (r: bool)
    ensures
        r == pair_lt(a1@, a2@, b1@, b2@),
{
    text_less(a1, b1) || (str_eq(a1, b1) && text_less(a2, b2))
}

/// A list sorted by keys names each position at most once: the member
/// list shows each member once.
pub proof fn law_sorted_by_key_each_once(keys: Seq<Seq<char>>, order: Seq<usize>)
    requires
        sorted_by_key(keys, order),
    ensures
        forall|i: int, j: int| 0 <= i < j < order.len() ==> order[i] != order[j],
{
    assert forall|i: int, j: int| 0 <= i < j < order.len() implies order[i] != order[j] by {
        let a = order[i] as int;
        assert(key_before(keys, a, order[j] as int));
        if order[i] == order[j] {
            lemma_text_lt_irreflexive(keys[a]);
        }
    }
}

/// A list sorted by pairs of keys names each position at most once.
pub proof fn law_sorted_lists_each_once(first: Seq<Seq<char>>, second: Seq<Seq<char>>, order: Seq<usize>)
    requires
        sorted_by_pair(first, second, order),
    ensures
        forall|i: int, j: int| 0 <= i < j < order.len() ==> order[i] != order[j],
{
    assert forall|i: int, j: int| 0 <= i < j < order.len() implies order[i] != order[j] by {
        let a = order[i] as int;
        assert(pair_before(first, second, a, order[j] as int));
        if order[i] == order[j] {
            lemma_text_lt_irreflexive(first[a]);
            lemma_text_lt_irreflexive(second[a]);
        }
    }
}

/// Sorts the positions that `chosen` selects by their pairs of keys,
/// keeping the list order among equal pairs.
pub fn sort_chosen_by_pair(first: &Vec<String>, second: &Vec<String>, chosen: &Vec<bool>) -> (order: Vec<usize>)
    requires
        second@.len() == first@.len(),
        chosen@.len() == first@.len(),
    ensures
        sorted_by_pair(strings_view(first@), strings_view(second@), order@),
        forall|x: int| 0 <= x < first@.len() ==> (chosen@[x] <==> order@.contains(x as usize)),
{
    let ghost k1 = strings_view(first@);
    let ghost k2 = strings_view(second@);
    let mut order: Vec<usize> = Vec::new();
    let mut x: usize = 0;
    while x < first.len()
        invariant
            x <= first@.len(),
            second@.len() == first@.len(),
            chosen@.len() == first@.len(),
            k1 == strings_view(first@),
            k2 == strings_view(second@),
            forall|i: int| 0 <= i < order@.len() ==> order@[i] < x && chosen@[order@[i] as int],
            forall|i: int, j: int|
                0 <= i < j < order@.len() ==> pair_before(k1, k2, order@[i] as int, order@[j] as int),
            forall|y: int| 0 <= y < x ==> (chosen@[y] <==> order@.contains(y as usize)),
        decreases first.len() - x,
    {
        if chosen[x] {
            let mut p: usize = 0;
            while p < order.len() && !pair_less(
                first[x].as_str(),
                second[x].as_str(),
                first[order[p]].as_str(),
                second[order[p]].as_str(),
            )
                invariant
                    p <= order@.len(),
                    x < first@.len(),
                    second@.len() == first@.len(),
                    k1 == strings_view(first@),
                    k2 == strings_view(second@),
                    forall|i: int| 0 <= i < order@.len() ==> order@[i] < x,
                    forall|i: int|
                        0 <= i < p ==> !pair_lt(
                            k1[x as int],
                            k2[x as int],
                            k1[order@[i] as int],
                            k2[order@[i] as int],
                        ),
                decreases order.len() - p,
            {
                p = p + 1;
            }
            let ghost before = order@;
            order.insert(p, x);
            proof {
                assert(order@ == before.insert(p as int, x));
                assert forall|i: int, j: int| 0 <= i < j < order@.len() implies pair_before(
                    k1,
                    k2,
                    order@[i] as int,
                    order@[j] as int,
                ) by {
                    if j < p {
                        assert(order@[i] == before[i] && order@[j] == before[j]);
                    } else if j == p {
                        assert(order@[i] == before[i]);
                        let a = before[i] as int;
                        assert(!pair_lt(k1[x as int], k2[x as int], k1[a], k2[a]));
                        lemma_pair_lt_total(k1[a], k2[a], k1[x as int], k2[x as int]);
                    } else if i < p {
                        assert(order@[i] == before[i] && order@[j] == before[j - 1]);
                    } else if i == p {
                        assert(order@[j] == before[j - 1]);
                        let c = before[p as int] as int;
                        let d = before[j - 1] as int;
                        assert(pair_lt(k1[x as int], k2[x as int], k1[c], k2[c]));
                        if j - 1 > p {
                            assert(pair_before(k1, k2, c, d));
                            if pair_lt(k1[c], k2[c], k1[d], k2[d]) {
                                lemma_pair_lt_transitive(
                                    k1[x as int],
                                    k2[x as int],
                                    k1[c],
                                    k2[c],
                                    k1[d],
                                    k2[d],
                                );
                            }
                        }
                    } else {
                        assert(order@[i] == before[i - 1] && order@[j] == before[j - 1]);
                    }
                }
                assert forall|y: int| 0 <= y < x + 1 implies (chosen@[y] <==> order@.contains(y as usize)) by {
                    if y < x {
                        if before.contains(y as usize) {
                            let w = choose|w: int| 0 <= w < before.len() && before[w] == y as usize;
                            if w < p {
                                assert(order@[w] == y as usize);
                            } else {
                                assert(order@[w + 1] == y as usize);
                            }
                        }
                        if order@.contains(y as usize) {
                            let w = choose|w: int| 0 <= w < order@.len() && order@[w] == y as usize;
                            if w < p {
                                assert(before[w] == y as usize);
                            } else if w > p {
                                assert(before[w - 1] == y as usize);
                            }
                        }
                    } else {
                        assert(order@[p as int] == x);
                    }
                }
            }
        } else {
            proof {
                assert forall|y: int| 0 <= y < x + 1 implies (chosen@[y] <==> order@.contains(y as usize)) by {
                    if y == x && order@.contains(y as usize) {
                        let w = choose|w: int| 0 <= w < order@.len() && order@[w] == y as usize;
                        assert(order@[w] < x);
                    }
                }
            }
        }
        x = x + 1;
    }
    order
}

/// Sorts the positions that `chosen` selects by their keys, keeping the
/// list order among equal keys.
pub fn sort_chosen_by_key(keys: &Vec<String>, chosen: &Vec<bool>) -> (order: Vec<usize>)
    requires
        chosen@.len() == keys@.len(),
    ensures
        sorted_by_key(strings_view(keys@), order@),
        forall|x: int| 0 <= x < keys@.len() ==> (chosen@[x] <==> order@.contains(x as usize)),
{
    let mut blanks: Vec<String> = Vec::new();
    let mut i: usize = 0;
    while i < keys.len()
        invariant
            i <= keys@.len(),
            blanks@.len() == i,
            forall|k: int| 0 <= k < i ==> (#[trigger] blanks@[k])@.len() == 0,
        decreases keys.len() - i,
    {
        blanks.push(String::new());
        i = i + 1;
    }
    let order = sort_chosen_by_pair(keys, &blanks, chosen);
    proof {
        let kv = strings_view(keys@);
        let bv = strings_view(blanks@);
        assert forall|i: int, j: int| 0 <= i < j < order@.len() implies key_before(
            kv,
            order@[i] as int,
            order@[j] as int,
        ) by {
            let a = order@[i] as int;
            let b = order@[j] as int;
            assert(pair_before(kv, bv, a, b));
            assert(bv[a].len() == 0 && bv[b].len() == 0);
            assert(!text_lt(bv[a], bv[b]));
        }
    }
    order
}

/// The panel the chat sidebar shows.
pub enum SidebarPanel {
    Hidden,
    /// Search results, wide.
    Search,
    /// Pinned messages, wide.
    Pins,
    /// The room's members or, in a direct chat, the other user's card
    /// (wider).
    Info { direct: bool },
}

/// A search that is open wins over the pinned messages, which win over the
/// room information; the latter shows only while the sidebar is open.
pub fn sidebar_panel(search_open: bool, pins_open: bool, sidebar_open: bool, is_direct: bool) -> (p: SidebarPanel)
    ensures
        search_open ==> (p is Search),
        !search_open && pins_open ==> (p is Pins),
        !search_open && !pins_open && sidebar_open ==> (p == (SidebarPanel::Info { direct: is_direct })),
        !search_open && !pins_open && !sidebar_open ==> (p is Hidden),
{
    if search_open {
        SidebarPanel::Search
    } else if pins_open {
        SidebarPanel::Pins
    } else if sidebar_open {
        SidebarPanel::Info { direct: is_direct }
    } else {
        SidebarPanel::Hidden
    }
}

/// The member list: those online, then those offline, each sorted by name,
/// with the headings of the non-empty sections.
pub struct MemberSections {
    pub online: Vec<usize>,
    pub offline: Vec<usize>,
    pub online_heading: Option<String>,
    pub offline_heading: Option<String>,
}

pub open spec fn section_heading(label: Seq<char>, n: nat) -> Option<Seq<char>> {
    if n > 0 {
        Some(label + " — "@ + decimal(n))
    } else {
        None
    }
}

fn heading(label: &str, n: usize) -> (h: Option<String>)
    ensures
        match h {
            Some(t) => section_heading(label@, n as nat) == Some(t@),
            None => section_heading(label@, n as nat) is None,
        },
{
    if n > 0 {
        let mut t = String::from_str(label);
        t.append(" — ");
        let d = decimal_string(n as u64);
        t.append(d.as_str());
        Some(t)
    } else {
        None
    }
}

/// Splits the members, given by name and whether they are offline, into
/// the online and the offline section, each sorted by name.
pub fn member_sections(names: &Vec<String>, offline: &Vec<bool>) -> (m: MemberSections)
    requires
        names@.len() == offline@.len(),
    ensures
        sorted_by_key(strings_view(names@), m.online@),
        sorted_by_key(strings_view(names@), m.offline@),
        forall|x: int| 0 <= x < names@.len() ==> (!offline@[x] <==> m.online@.contains(x as usize)),
        forall|x: int| 0 <= x < names@.len() ==> (offline@[x] <==> m.offline@.contains(x as usize)),
        match m.online_heading {
            Some(t) => section_heading("Online"@, m.online@.len()) == Some(t@),
            None => section_heading("Online"@, m.online@.len()) is None,
        },
        match m.offline_heading {
            Some(t) => section_heading("Offline"@, m.offline@.len()) == Some(t@),
            None => section_heading("Offline"@, m.offline@.len()) is None,
        },
{
    let mut online_flags: Vec<bool> = Vec::new();
    let mut i: usize = 0;
    while i < offline.len()
        invariant
            i <= offline@.len(),
            online_flags@ == Seq::new(i as nat, |k: int| !offline@[k]),
        decreases offline.len() - i,
    {
        online_flags.push(!offline[i]);
        assert(online_flags@ =~= Seq::new((i + 1) as nat, |k: int| !offline@[k]));
        i = i + 1;
    }
    let online = sort_chosen_by_key(names, &online_flags);
    let off = sort_chosen_by_key(names, offline);
    assert forall|x: int| 0 <= x < names@.len() implies (!offline@[x] <==> online@.contains(x as usize)) by {
        assert(online_flags@[x] == !offline@[x]);
    }
    let online_heading = heading("Online", online.len());
    let offline_heading = heading("Offline", off.len());
    MemberSections { online, offline: off, online_heading, offline_heading }
}

/// The sum of the numbers.
pub open spec fn total(v: Seq<usize>) -> nat
    decreases v.len(),
{
    if v.len() == 0 {
        0
    } else {
        total(v.drop_last()) + (v.last() as nat)
    }
}

/// How many of the numbers are not zero.
pub open spec fn nonzero(v: Seq<usize>) -> nat
    decreases v.len(),
{
    if v.len() == 0 {
        0
    } else {
        nonzero(v.drop_last()) + if v.last() > 0 { 1nat } else { 0nat }
    }
}

/// The heading of the search panel, given how many results each room
/// holds (nothing before a search runs).
pub open spec fn search_heading_spec(counts: Option<Seq<usize>>) -> Seq<char> {
    match counts {
        None => "Type at least three letters to start searching"@,
        Some(c) => if total(c) == 0 {
            "No results"@
        } else {
            decimal(total(c)) + " Result"@ + (if total(c) == 1 { ""@ } else { "s"@ }) + (if nonzero(c) > 1 {
                " across "@ + decimal(nonzero(c)) + " rooms"@
            } else {
                ""@
            })
        },
    }
}

pub fn search_heading(counts: &Option<Vec<usize>>) -> (h: String)
    requires
        counts matches Some(c) ==> total(c@) <= u64::MAX,
    ensures
        h@ == search_heading_spec(match counts {
            Some(c) => Some(c@),
            None => None,
        }),
{
    match counts {
        None => String::from_str("Type at least three letters to start searching"),
        Some(c) => {
            let mut sum: u64 = 0;
            let mut rooms: u64 = 0;
            let mut i: usize = 0;
            while i < c.len()
                invariant
                    i <= c@.len(),
                    total(c@) <= u64::MAX,
                    sum == total(c@.take(i as int)),
                    rooms == nonzero(c@.take(i as int)),
                    rooms <= i,
                decreases c.len() - i,
            {
                proof {
                    assert(c@.take(i + 1).drop_last() =~= c@.take(i as int));
                    lemma_total_prefix(c@, i + 1);
                }
                sum = sum + c[i] as u64;
                if c[i] > 0 {
                    rooms = rooms + 1;
                }
                i = i + 1;
            }
            assert(c@.take(c@.len() as int) =~= c@);
            if sum == 0 {
                return String::from_str("No results");
            }
            let mut h = decimal_string(sum);
            h.append(" Result");
            if sum == 1 {
                h.append("");
            } else {
                h.append("s");
            }
            if rooms > 1 {
                let mut extra = String::from_str(" across ");
                let n = decimal_string(rooms);
                extra.append(n.as_str());
                extra.append(" rooms");
                h.append(extra.as_str());
            } else {
                h.append("");
            }
            h
        },
    }
}

proof fn lemma_total_prefix(v: Seq<usize>, k: int)
    requires
        0 <= k <= v.len(),
    ensures
        total(v.take(k)) <= total(v),
    decreases v.len(),
{
    if k < v.len() {
        assert(v.drop_last().take(k) =~= v.take(k));
        lemma_total_prefix(v.drop_last(), k);
    } else {
        assert(v.take(k) =~= v);
    }
}

/// The rooms whose results the search panel lists: those with results,
/// sorted by room name and then by room id. A room is given by id, name
/// (empty when unknown) and how many results it holds.
pub fn search_room_order(ids: &Vec<String>, names: &Vec<String>, counts: &Vec<usize>) -> (order: Vec<usize>)
    requires
        names@.len() == ids@.len(),
        counts@.len() == ids@.len(),
    ensures
        sorted_by_pair(strings_view(names@), strings_view(ids@), order@),
        forall|x: int| 0 <= x < ids@.len() ==> (counts@[x] > 0 <==> order@.contains(x as usize)),
{
    let mut has: Vec<bool> = Vec::new();
    let mut i: usize = 0;
    while i < counts.len()
        invariant
            i <= counts@.len(),
            has@.len() == i,
            forall|k: int| 0 <= k < i ==> (#[trigger] has@[k]) == (counts@[k] > 0),
        decreases counts.len() - i,
    {
        has.push(counts[i] > 0);
        i = i + 1;
    }
    let order = sort_chosen_by_pair(names, ids, &has);
    assert forall|x: int| 0 <= x < ids@.len() implies (counts@[x] > 0 <==> order@.contains(x as usize)) by {
        assert(has@[x] == (counts@[x] > 0));
    }
    order
}

/// The words of the first `k` characters: the runs of characters other
/// than white space, in order.
pub open spec fn words_upto(s: Seq<char>, k: nat) -> Seq<Seq<char>>
    decreases k,
{
    if k == 0 {
        Seq::empty()
    } else {
        let prev = words_upto(s, (k - 1) as nat);
        let c = s[k - 1];
        if is_white_space(c) {
            prev
        } else if k >= 2 && !is_white_space(s[k - 2]) {
            prev.update(prev.len() - 1, prev.last().push(c))
        } else {
            prev.push(seq![c])
        }
    }
}

/// The words of a text, as `str::split_whitespace` gives them.
pub open spec fn words(s: Seq<char>) -> Seq<Seq<char>> {
    words_upto(s, s.len())
}

/// The words a search highlights in its results: the words of the search
/// text, each in lower case.
pub fn highlight_words(text: &str) -> (out: Vec<String>)
    ensures
        strings_view(out@) == words(text@).map_values(|w: Seq<char>| std_lowercase(w)),
{
    let cs = chars_of(text);
    let mut raw: Vec<Vec<char>> = Vec::new();
    let mut i: usize = 0;
    while i < cs.len()
        invariant
            cs@ == text@,
            i <= cs@.len(),
            raw@.map_values(|w: Vec<char>| w@) == words_upto(text@, i as nat),
            (i > 0 && !is_white_space(text@[i - 1])) ==> raw@.len() > 0,
        decreases cs.len() - i,
    {
        let c = cs[i];
        let ghost before = raw@.map_values(|w: Vec<char>| w@);
        if white_space_char(c) {
        } else if i >= 1 && !white_space_char(cs[i - 1]) {
            let last = raw.len() - 1;
            let mut w = raw.pop().unwrap();
            w.push(c);
            raw.push(w);
            proof {
                assert(raw@.map_values(|w: Vec<char>| w@) =~= before.update(last as int, before.last().push(c)));
            }
        } else {
            let mut w: Vec<char> = Vec::new();
            w.push(c);
            raw.push(w);
            proof {
                assert(raw@.map_values(|w: Vec<char>| w@) =~= before.push(seq![c]));
            }
        }
        i = i + 1;
    }
    let ghost ws = raw@.map_values(|w: Vec<char>| w@);
    let mut out: Vec<String> = Vec::new();
    let mut j: usize = 0;
    while j < raw.len()
        invariant
            j <= raw@.len(),
            ws == raw@.map_values(|w: Vec<char>| w@),
            strings_view(out@) == ws.take(j as int).map_values(|w: Seq<char>| std_lowercase(w)),
        decreases raw.len() - j,
    {
        let word = string_from_chars(&raw[j]);
        let lower = lowercase(word.as_str());
        let ghost prev = out@;
        out.push(lower);
        proof {
            assert(ws[j as int] == raw@[j as int]@);
            assert(out@ == prev.push(lower));
            let want = ws.take(j + 1).map_values(|w: Seq<char>| std_lowercase(w));
            let had = ws.take(j as int).map_values(|w: Seq<char>| std_lowercase(w));
            assert(ws.len() == raw@.len());
            assert(had.len() == j);
            assert(strings_view(prev).len() == prev.len());
            assert(prev.len() == j);
            assert forall|k: int| 0 <= k < j + 1 implies strings_view(out@)[k] == want[k] by {
                if k < j {
                    assert(strings_view(prev)[k] == had[k]);
                    assert(out@[k] == prev[k]);
                } else {
                    assert(out@[k] == lower);
                }
            }
            assert(strings_view(out@) =~= want);
        }
        j = j + 1;
    }
    assert(ws.take(ws.len() as int) =~= ws);
    out
}

/// Clicking the pin button closes the pinned messages when they show, and
/// opens them empty, waiting for a fetch, when they do not.
pub fn pins_after_click<T>(current: Option<Vec<T>>) -> (next: Option<Vec<T>>)
    ensures
        match current {
            Some(_) => next is None,
            None => next matches Some(v) && v@.len() == 0,
        },
{
    match current {
        Some(_) => None,
        None => Some(Vec::new()),
    }
}

/// The pinned messages are fetched when the panel is open and empty and a
/// room is open.
pub fn should_fetch_pins<T>(current: &Option<Vec<T>>, in_room: bool) -> (b: bool)
    ensures
        b == (in_room && (current matches Some(v) && v@.len() == 0)),
{
    match current {
        Some(v) => in_room && v.len() == 0,
        None => false,
    }
}

/// A fetch of the pinned messages is shown only when it found some and the
/// panel is still open and empty; a late answer to a closed panel is
/// dropped.
pub fn accept_pinned<T>(current: &Option<Vec<T>>, fetched: &Vec<T>) -> (b: bool)
    ensures
        b == (fetched@.len() > 0 && (current matches Some(v) && v@.len() == 0)),
{
    match current {
        Some(v) => fetched.len() > 0 && v.len() == 0,
        None => false,
    }
}

/// The heading of the pinned messages panel.
pub open spec fn pinned_heading_spec(count: nat) -> Seq<char> {
    if count == 0 {
        "No pinned messages"@
    } else {
        "Pinned Messages ("@ + decimal(count) + ")"@
    }
}

pub fn pinned_heading(count: Option<usize>) -> (h: String)
    ensures
        h@ == pinned_heading_spec(match count {
            Some(n) => n as nat,
            None => 0,
        }),
{
    let n: usize = match count {
        Some(n) => n,
        None => 0,
    };
    if n == 0 {
        String::from_str("No pinned messages")
    } else {
        let mut h = String::from_str("Pinned Messages (");
        let d = decimal_string(n as u64);
        h.append(d.as_str());
        h.append(")");
        h
    }
}

} // verus!
