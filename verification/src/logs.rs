//! The log window: the backlog and live log lines kept in order of their
//! sequence numbers, the level filter and slider, the search over location
//! and message, and the highlighting of search hits.

use vstd::prelude::*;
use vstd::utf8::*;
use crate::chars::{chars_of, str_eq, string_from_chars};
use crate::display::numbers::{decimal, decimal_string};
use crate::outside::{fuzzy_indices, fuzzy_score, nucleo_fuzzy_indices, nucleo_fuzzy_score};

verus! {

broadcast use vstd::string::group_string_axioms;

/// One line of the application's log.
pub struct LogEntry {
    pub seq: u64,
    pub level: String,
    pub timestamp: String,
    pub path: String,
    pub line: u32,
    pub message: String,
}

/// The sequence numbers of the entries, in list order.
pub open spec fn seqs(v: Seq<LogEntry>) -> Seq<u64> {
    v.map_values(|e: LogEntry| e.seq)
}

/// Entries ordered by strictly increasing sequence number.
pub open spec fn strictly_ordered(v: Seq<LogEntry>) -> bool {
    forall|i: int, j: int| 0 <= i < j < v.len() ==> v[i].seq < v[j].seq
}

/// Where `key` stands among ordered entries: found at an index, or the
/// index where it would be inserted.
pub fn search_seq(v: &Vec<LogEntry>, key: u64) -> (r: Result<usize, usize>)
    requires
        strictly_ordered(v@),
    ensures
        match r {
            Ok(i) => i < v@.len() && v@[i as int].seq == key,
            Err(p) => p <= v@.len() && (forall|i: int| 0 <= i < p ==> v@[i].seq < key) && (forall|i: int|
                p <= i < v@.len() ==> v@[i].seq > key),
        },
{
    let mut lo: usize = 0;
    let mut hi: usize = v.len();
    while lo < hi
        invariant
            lo <= hi <= v@.len(),
            strictly_ordered(v@),
            forall|i: int| 0 <= i < lo ==> v@[i].seq < key,
            forall|i: int| hi <= i < v@.len() ==> v@[i].seq > key,
        decreases hi - lo,
    {
        let mid = lo + (hi - lo) / 2;
        let s = v[mid].seq;
        if s == key {
            return Ok(mid);
        } else if s < key {
            lo = mid + 1;
        } else {
            hi = mid;
        }
    }
    Err(lo)
}

/// Adds a log entry in order of sequence number; an entry whose number is
/// already there is dropped.
pub fn insert_entry(list: &mut Vec<LogEntry>, entry: LogEntry)
    requires
        strictly_ordered(old(list)@),
    ensures
        strictly_ordered(final(list)@),
        seqs(old(list)@).contains(entry.seq) ==> final(list)@ == old(list)@,
        !seqs(old(list)@).contains(entry.seq) ==> exists|p: int|
            0 <= p <= old(list)@.len() && final(list)@ == old(list)@.insert(p, entry),
{
    match search_seq(list, entry.seq) {
        Ok(i) => {
            assert(seqs(list@)[i as int] == entry.seq);
        },
        Err(p) => {
            let ghost before = list@;
            proof {
                if seqs(before).contains(entry.seq) {
                    let w = choose|w: int| 0 <= w < seqs(before).len() && seqs(before)[w] == entry.seq;
                    assert(before[w].seq == entry.seq);
                }
            }
            list.insert(p, entry);
            assert(list@ == before.insert(p as int, entry));
            assert forall|i: int, j: int| 0 <= i < j < list@.len() implies list@[i].seq < list@[j].seq by {
                if j < p {
                    assert(list@[i] == before[i] && list@[j] == before[j]);
                } else if j == p {
                    assert(list@[i] == before[i]);
                } else if i < p {
                    assert(list@[i] == before[i] && list@[j] == before[j - 1]);
                } else if i == p {
                    assert(list@[j] == before[j - 1]);
                } else {
                    assert(list@[i] == before[i - 1] && list@[j] == before[j - 1]);
                }
            }
        },
    }
}

/// The number of levels.
pub const LEVEL_COUNT: usize = 5;

/// The position of a level by its name, least verbose first, so that the
/// position doubles as the severity on the slider; unknown names count as
/// the most verbose.
pub open spec fn level_index_spec(level: Seq<char>) -> nat {
    if level == "ERROR"@ {
        0
    } else if level == "WARN"@ {
        1
    } else if level == "INFO"@ {
        2
    } else if level == "DEBUG"@ {
        3
    } else {
        4
    }
}

pub fn level_index(level: &str) -> (i: usize)
    ensures
        i == level_index_spec(level@),
        i < LEVEL_COUNT,
{
    if str_eq(level, "ERROR") {
        0
    } else if str_eq(level, "WARN") {
        1
    } else if str_eq(level, "INFO") {
        2
    } else if str_eq(level, "DEBUG") {
        3
    } else {
        4
    }
}

/// The slider's position: the most verbose level shown, or the first when
/// none is.
pub open spec fn threshold_spec(enabled: Seq<bool>) -> nat {
    if enabled[4] {
        4
    } else if enabled[3] {
        3
    } else if enabled[2] {
        2
    } else if enabled[1] {
        1
    } else {
        0
    }
}

pub fn threshold(enabled: &[bool; 5]) -> (t: usize)
    ensures
        t == threshold_spec(enabled@),
{
    if enabled[4] {
        4
    } else if enabled[3] {
        3
    } else if enabled[2] {
        2
    } else if enabled[1] {
        1
    } else {
        0
    }
}

/// Moving the slider, or clicking a dot, to `value` shows every level up to
/// it and none past it.
pub fn set_threshold(value: usize) -> (enabled: [bool; 5])
    ensures
        forall|i: int| 0 <= i < 5 ==> enabled@[i] == (i <= value),
{
    [0 <= value, 1 <= value, 2 <= value, 3 <= value, 4 <= value]
}

/// Clicking a level's chip shows or hides that level alone.
pub fn toggle_level(enabled: &mut [bool; 5], i: usize)
    requires
        i < 5,
    ensures
        final(enabled)@ == old(enabled)@.update(i as int, !old(enabled)@[i as int]),
{
    let v = enabled[i];
    enabled[i] = !v;
}

/// Whether the log is scrolled to its end, within forty pixels.
pub fn is_at_bottom(scroll_height: i32, scroll_top: i32, client_height: i32) -> (b: bool)
    requires
        i32::MIN <= scroll_height - scroll_top <= i32::MAX,
        i32::MIN <= scroll_height - scroll_top - client_height <= i32::MAX,
    ensures
        b == (scroll_height - scroll_top - client_height <= 40),
{
    let distance = scroll_height - scroll_top - client_height;
    distance <= 40
}

/// Whether a character is white space in Unicode's sense, as
/// `char::is_whitespace` documents it.
pub open spec fn is_white_space(c: char) -> bool {
    let v = c as u32;
    (0x9 <= v <= 0xD) || v == 0x20 || v == 0x85 || v == 0xA0 || v == 0x1680 || (0x2000 <= v <= 0x200A)
        || v == 0x2028 || v == 0x2029 || v == 0x202F || v == 0x205F || v == 0x3000
}

pub fn white_space_char(c: char) -> (b: bool)
    ensures
        b == is_white_space(c),
{
    let v = c as u32;
    (0x9 <= v && v <= 0xD) || v == 0x20 || v == 0x85 || v == 0xA0 || v == 0x1680 || (0x2000 <= v && v
        <= 0x200A) || v == 0x2028 || v == 0x2029 || v == 0x202F || v == 0x205F || v == 0x3000
}

/// The text without white space at either end, as `str::trim` gives it.
#[verifier::opaque]
pub open spec fn trimmed(s: Seq<char>) -> Seq<char> {
    if forall|i: int| 0 <= i < s.len() ==> is_white_space(#[trigger] s[i]) {
        Seq::empty()
    } else {
        let a = choose|a: int|
            0 <= a < s.len() && !is_white_space(s[a]) && forall|i: int| 0 <= i < a ==> is_white_space(#[trigger] s[i]);
        let b = choose|b: int|
            0 <= b < s.len() && !is_white_space(s[b]) && forall|i: int| b < i < s.len() ==> is_white_space(#[trigger] s[i]);
        s.subrange(a, b + 1)
    }
}

/// Trims white space from both ends of the text.
pub fn trim(s: &str) -> (t: String)
    ensures
        t@ == trimmed(s@),
{
    let cs = chars_of(s);
    let n = cs.len();
    let mut a: usize = 0;
    while a < n && white_space_char(cs[a])
        invariant
            n == cs@.len(),
            a <= n,
            forall|i: int| 0 <= i < a ==> is_white_space(#[trigger] cs@[i]),
        decreases n - a,
    {
        a = a + 1;
    }
    if a == n {
        let t = String::new();
        assert(t@ =~= trimmed(s@)) by {
            reveal(trimmed);
        }
        return t;
    }
    let mut b: usize = n - 1;
    while white_space_char(cs[b])
        invariant
            n == cs@.len(),
            a < n,
            a <= b < n,
            !is_white_space(cs@[a as int]),
            forall|i: int| b < i < n ==> is_white_space(#[trigger] cs@[i]),
        decreases b,
    {
        b = b - 1;
    }
    let mut out: Vec<char> = Vec::new();
    let mut i = a;
    while i <= b
        invariant
            a <= i <= b + 1,
            b < n == cs@.len(),
            out@ == cs@.subrange(a as int, i as int),
        decreases b + 1 - i,
    {
        out.push(cs[i]);
        assert(out@ =~= cs@.subrange(a as int, i + 1));
        i = i + 1;
    }
    proof {
        reveal(trimmed);
        let aa = choose|x: int|
            0 <= x < cs@.len() && !is_white_space(cs@[x]) && forall|k: int| 0 <= k < x ==> is_white_space(#[trigger] cs@[k]);
        let bb = choose|x: int|
            0 <= x < cs@.len() && !is_white_space(cs@[x]) && forall|k: int| x < k < cs@.len() ==> is_white_space(#[trigger] cs@[k]);
        assert(aa == a) by {
            if aa < a {
                assert(is_white_space(cs@[aa]));
            } else if aa > a {
                assert(is_white_space(cs@[a as int]));
            }
        }
        assert(bb == b) by {
            if bb < b {
                assert(is_white_space(cs@[b as int]));
            } else if bb > b {
                assert(is_white_space(cs@[bb]));
            }
        }
    }
    string_from_chars(&out)
}

/// Where a log line comes from: its path, a colon and its line number.
pub open spec fn location_of(e: LogEntry) -> Seq<char> {
    e.path@ + ":"@ + decimal(e.line as nat)
}

pub fn location(e: &LogEntry) -> (l: String)
    ensures
        l@ == location_of(*e),
{
    let mut l = e.path.clone();
    l.append(":");
    let n = decimal_string(e.line as u64);
    l.append(n.as_str());
    l
}

/// Whether a line is shown: its level is enabled, and either no search is
/// typed or the (trimmed) search fuzzily matches its location or message.
pub open spec fn entry_visible(e: LogEntry, enabled: Seq<bool>, query: Seq<char>) -> bool {
    &&& enabled[level_index_spec(e.level@) as int]
    &&& (query.len() == 0 || nucleo_fuzzy_score(location_of(e), query) is Some || nucleo_fuzzy_score(
        e.message@,
        query,
    ) is Some)
}

/// The positions of the shown lines among the first `k`, in order.
pub open spec fn visible_upto(entries: Seq<LogEntry>, enabled: Seq<bool>, query: Seq<char>, k: nat) -> Seq<usize>
    decreases k,
{
    if k == 0 {
        Seq::empty()
    } else {
        let prev = visible_upto(entries, enabled, query, (k - 1) as nat);
        if entry_visible(entries[k - 1], enabled, query) {
            prev.push((k - 1) as usize)
        } else {
            prev
        }
    }
}

/// Whether the matcher can take a line's location and message.
pub open spec fn entry_searchable(e: LogEntry) -> bool {
    &&& encode_utf8(location_of(e)).len() <= u32::MAX
    &&& encode_utf8(e.message@).len() <= u32::MAX
}

/// Whether a line passes the log window's filters, spelled out: its level
/// is enabled, and the search is empty or fuzzily matches the line's
/// location (`path:line`) or its message.
spec fn passes_filters(e: LogEntry, enabled: Seq<bool>, query: Seq<char>) -> bool {
    &&& enabled[level_index_spec(e.level@) as int]
    &&& (query.len() == 0 || nucleo_fuzzy_score(e.path@ + ":"@ + decimal(e.line as nat), query) is Some
        || nucleo_fuzzy_score(e.message@, query) is Some)
}

proof fn lemma_visible_upto(entries: Seq<LogEntry>, enabled: Seq<bool>, query: Seq<char>, k: nat)
    requires
        k <= entries.len() <= usize::MAX,
    ensures
        forall|j: int| 0 <= j < visible_upto(entries, enabled, query, k).len()
            ==> #[trigger] visible_upto(entries, enabled, query, k)[j] < k,
        forall|a: int, b: int| 0 <= a < b < visible_upto(entries, enabled, query, k).len()
            ==> visible_upto(entries, enabled, query, k)[a] < visible_upto(entries, enabled, query, k)[b],
        forall|i: int| 0 <= i < k ==> (visible_upto(entries, enabled, query, k).contains(i as usize)
            <==> passes_filters(#[trigger] entries[i], enabled, query)),
    decreases k,
{
    if k > 0 {
        lemma_visible_upto(entries, enabled, query, (k - 1) as nat);
        let prev = visible_upto(entries, enabled, query, (k - 1) as nat);
        let cur = visible_upto(entries, enabled, query, k);
        assert forall|i: int| 0 <= i < k implies (cur.contains(i as usize)
            <==> passes_filters(#[trigger] entries[i], enabled, query)) by {
            if i < k - 1 {
                if cur.contains(i as usize) {
                    let j = choose|j: int| 0 <= j < cur.len() && cur[j] == i as usize;
                    if j < prev.len() {
                        assert(prev[j] == cur[j]);
                    }
                }
                if prev.contains(i as usize) {
                    let j = choose|j: int| 0 <= j < prev.len() && prev[j] == i as usize;
                    assert(cur[j] == prev[j]);
                }
            } else {
                if passes_filters(entries[i], enabled, query) {
                    assert(cur[cur.len() - 1] == i as usize);
                } else if cur.contains(i as usize) {
                    let j = choose|j: int| 0 <= j < cur.len() && cur[j] == i as usize;
                    assert(cur[j] == prev[j]);
                }
            }
        }
    }
}

/// The log window shows exactly the lines that pass its filters, each
/// once, in the order of the log: a line's position is listed if and only
/// if its level is enabled and the trimmed search is empty or fuzzily
/// matches the line's location or its message.
pub proof fn law_visible_lines(entries: Seq<LogEntry>, enabled: Seq<bool>, query: Seq<char>)
    requires
        entries.len() <= usize::MAX,
    ensures
        forall|i: int|
            0 <= i < entries.len() ==> (visible_upto(entries, enabled, trimmed(query), entries.len() as nat).contains(
                i as usize,
            ) <==> {
                &&& enabled[level_index_spec((#[trigger] entries[i]).level@) as int]
                &&& (trimmed(query).len() == 0 || nucleo_fuzzy_score(
                    entries[i].path@ + ":"@ + decimal(entries[i].line as nat),
                    trimmed(query),
                ) is Some || nucleo_fuzzy_score(entries[i].message@, trimmed(query)) is Some)
            }),
        forall|a: int, b: int| 0 <= a < b < visible_upto(entries, enabled, trimmed(query), entries.len() as nat).len()
            ==> visible_upto(entries, enabled, trimmed(query), entries.len() as nat)[a] < visible_upto(
            entries,
            enabled,
            trimmed(query),
            entries.len() as nat,
        )[b],
{
    lemma_visible_upto(entries, enabled, trimmed(query), entries.len() as nat);
}


/// The lines the log window shows, in the order of the log: the positions
/// of the lines of an enabled level that match the trimmed search.
pub fn visible_entries(entries: &Vec<LogEntry>, enabled: &[bool; 5], query: &str) -> (out: Vec<usize>)
    requires
        forall|i: int| 0 <= i < entries@.len() ==> entry_searchable(#[trigger] entries@[i]),
    ensures
        out@ == visible_upto(entries@, enabled@, trimmed(query@), entries@.len() as nat),
{
    let q = trim(query);
    let ghost tq = q@;
    let mut out: Vec<usize> = Vec::new();
    let mut i: usize = 0;
    while i < entries.len()
        invariant
            i <= entries@.len(),
            q@ == tq,
            tq == trimmed(query@),
            forall|k: int| 0 <= k < entries@.len() ==> entry_searchable(#[trigger] entries@[k]),
            out@ == visible_upto(entries@, enabled@, tq, i as nat),
        decreases entries.len() - i,
    {
        let shown = entry_shown(&entries[i], enabled, &q);
        if shown {
            out.push(i);
        }
        i = i + 1;
    }
    out
}

fn entry_shown(e: &LogEntry, enabled: &[bool; 5], q: &String) -> (b: bool)
    requires
        entry_searchable(*e),
    ensures
        b == entry_visible(*e, enabled@, q@),
{
    if !enabled[level_index(e.level.as_str())] {
        return false;
    }
    if q.as_str().is_empty() {
        return true;
    }
    let loc = location(e);
    let loc_match = fuzzy_score(loc.as_str(), q.as_str()).is_some();
    let msg_match = fuzzy_score(e.message.as_str(), q.as_str()).is_some();
    loc_match || msg_match
}

/// Whether the position is among the hits.
pub open spec fn is_hit(indices: Seq<u32>, i: int) -> bool {
    exists|k: int| 0 <= k < indices.len() && indices[k] == i
}

/// The first `k` characters of the text cut into runs of hit and unhit
/// characters, each run as long as it can be.
pub open spec fn segments_upto(text: Seq<char>, indices: Seq<u32>, k: nat) -> Seq<(Seq<char>, bool)>
    decreases k,
{
    if k == 0 {
        Seq::empty()
    } else {
        let prev = segments_upto(text, indices, (k - 1) as nat);
        let hit = is_hit(indices, k - 1);
        if prev.len() > 0 && prev.last().1 == hit {
            prev.update(prev.len() - 1, (prev.last().0.push(text[k - 1]), hit))
        } else {
            prev.push((seq![text[k - 1]], hit))
        }
    }
}

/// The runs put back together.
pub open spec fn joined_runs(runs: Seq<(Seq<char>, bool)>) -> Seq<char>
    decreases runs.len(),
{
    if runs.len() == 0 {
        Seq::empty()
    } else {
        joined_runs(runs.drop_last()) + runs.last().0
    }
}

/// The runs of hits put back together give the text; no run is empty; and
/// of two neighbouring runs one is a hit and the other is not.
pub proof fn law_runs_rebuild_text(text: Seq<char>, indices: Seq<u32>, k: nat)
    requires
        k <= text.len(),
    ensures
        joined_runs(segments_upto(text, indices, k)) == text.take(k as int),
        forall|i: int| 0 <= i < segments_upto(text, indices, k).len() ==> (#[trigger] segments_upto(text, indices, k)[i]).0.len() > 0,
        forall|i: int|
            0 <= i < segments_upto(text, indices, k).len() - 1 ==> (#[trigger] segments_upto(text, indices, k)[i]).1
                != segments_upto(text, indices, k)[i + 1].1,
    decreases k,
{
    if k > 0 {
        law_runs_rebuild_text(text, indices, (k - 1) as nat);
        let prev = segments_upto(text, indices, (k - 1) as nat);
        let cur = segments_upto(text, indices, k);
        let hit = is_hit(indices, k - 1);
        let c = text[k - 1];
        assert(text.take(k as int) =~= text.take(k - 1).push(c));
        if prev.len() > 0 && prev.last().1 == hit {
            let last = (prev.last().0.push(c), hit);
            assert(cur == prev.update(prev.len() - 1, last));
            assert(cur.drop_last() =~= prev.drop_last());
            assert(joined_runs(prev) == joined_runs(prev.drop_last()) + prev.last().0);
            assert(joined_runs(cur) == joined_runs(cur.drop_last()) + cur.last().0);
            assert(joined_runs(cur) =~= joined_runs(prev).push(c));
            assert forall|i: int| 0 <= i < cur.len() - 1 implies (#[trigger] cur[i]).1 != cur[i + 1].1 by {
                assert(cur[i] == prev[i]);
                if i + 1 < cur.len() - 1 {
                    assert(cur[i + 1] == prev[i + 1]);
                }
            }
            assert forall|i: int| 0 <= i < cur.len() implies (#[trigger] cur[i]).0.len() > 0 by {
                if i < cur.len() - 1 {
                    assert(cur[i] == prev[i]);
                }
            }
        } else {
            assert(cur == prev.push((seq![c], hit)));
            assert(cur.drop_last() =~= prev);
            assert(joined_runs(cur) =~= joined_runs(prev) + seq![c]);
            assert forall|i: int| 0 <= i < cur.len() - 1 implies (#[trigger] cur[i]).1 != cur[i + 1].1 by {
                assert(cur[i] == prev[i]);
                if i + 1 < prev.len() {
                    assert(cur[i + 1] == prev[i + 1]);
                }
            }
            assert forall|i: int| 0 <= i < cur.len() implies (#[trigger] cur[i]).0.len() > 0 by {
                if i < prev.len() {
                    assert(cur[i] == prev[i]);
                }
            }
        }
    } else {
        assert(text.take(0) =~= Seq::<char>::empty());
    }
}

pub open spec fn runs_view(v: Seq<(Vec<char>, bool)>) -> Seq<(Seq<char>, bool)> {
    v.map_values(|r: (Vec<char>, bool)| (r.0@, r.1))
}

/// The characters of the segments, one after the other, each with its
/// segment's mark.
pub open spec fn marked_chars(segs: Seq<(Seq<char>, bool)>) -> Seq<(char, bool)>
    decreases segs.len(),
{
    if segs.len() == 0 {
        Seq::empty()
    } else {
        marked_chars(segs.drop_last()) + segs.last().0.map_values(|c: char| (c, segs.last().1))
    }
}

/// Highlighting cuts a text into runs: read one after the other, the runs
/// give back the text, each character marked exactly when the matcher
/// reported its position; no run is empty; and two runs next to each other
/// are never marked alike.
pub proof fn law_highlight_runs(text: Seq<char>, indices: Seq<u32>, k: nat)
    requires
        k <= text.len(),
    ensures
        marked_chars(segments_upto(text, indices, k)) == Seq::new(k, |i: int| (text[i], is_hit(indices, i))),
        forall|j: int|
            0 <= j < segments_upto(text, indices, k).len() ==> (#[trigger] segments_upto(text, indices, k)[j]).0.len()
                > 0,
        forall|j: int|
            0 <= j < segments_upto(text, indices, k).len() - 1 ==> (#[trigger] segments_upto(text, indices, k)[j]).1
                != segments_upto(text, indices, k)[j + 1].1,
    decreases k,
{
    if k > 0 {
        law_highlight_runs(text, indices, (k - 1) as nat);
        let prev = segments_upto(text, indices, (k - 1) as nat);
        let cur = segments_upto(text, indices, k);
        let c = text[k - 1];
        let hit = is_hit(indices, k - 1);
        let want = Seq::new(k, |i: int| (text[i], is_hit(indices, i)));
        let want_prev = Seq::new((k - 1) as nat, |i: int| (text[i], is_hit(indices, i)));
        assert(want =~= want_prev.push((c, hit)));
        if prev.len() > 0 && prev.last().1 == hit {
            let p = prev.last();
            assert(cur.drop_last() =~= prev.drop_last());
            assert(cur.last() == (p.0.push(c), hit));
            assert(p.0.push(c).map_values(|x: char| (x, hit)) =~= p.0.map_values(|x: char| (x, p.1)).push((c, hit)));
            assert(marked_chars(cur) =~= marked_chars(prev).push((c, hit)));
            assert forall|j: int| 0 <= j < cur.len() - 1 implies (#[trigger] cur[j]).1 != cur[j + 1].1 by {
                assert(cur[j] == prev[j]);
                if j + 1 < cur.len() - 1 {
                    assert(cur[j + 1] == prev[j + 1]);
                }
            }
            assert forall|j: int| 0 <= j < cur.len() implies (#[trigger] cur[j]).0.len() > 0 by {
                if j < cur.len() - 1 {
                    assert(cur[j] == prev[j]);
                }
            }
        } else {
            assert(cur.drop_last() =~= prev);
            assert(cur.last() == (seq![c], hit));
            assert(seq![c].map_values(|x: char| (x, hit)) =~= seq![(c, hit)]);
            assert(marked_chars(cur) =~= marked_chars(prev).push((c, hit)));
            assert forall|j: int| 0 <= j < cur.len() - 1 implies (#[trigger] cur[j]).1 != cur[j + 1].1 by {
                assert(cur[j] == prev[j]);
                if j + 1 < cur.len() - 1 {
                    assert(cur[j + 1] == prev[j + 1]);
                }
            }
            assert forall|j: int| 0 <= j < cur.len() implies (#[trigger] cur[j]).0.len() > 0 by {
                if j < cur.len() - 1 {
                    assert(cur[j] == prev[j]);
                }
            }
        }
    }
}

pub open spec fn segments_view(v: Seq<(String, bool)>) -> Seq<(Seq<char>, bool)> {
    v.map_values(|r: (String, bool)| (r.0@, r.1))
}

fn hit_at(indices: &Vec<u32>, i: u32) -> (b: bool)
    ensures
        b == is_hit(indices@, i as int),
{
    let mut k: usize = 0;
    while k < indices.len()
        invariant
            k <= indices@.len(),
            forall|j: int| 0 <= j < k ==> indices@[j] != i,
        decreases indices.len() - k,
    {
        if indices[k] == i {
            return true;
        }
        k = k + 1;
    }
    false
}

/// Cuts the text into runs of characters that are and are not search hits,
/// so that the hits can be highlighted in place.
pub fn highlight_segments(text: &str, indices: &Vec<u32>) -> (segs: Vec<(String, bool)>)
    requires
        text@.len() <= u32::MAX,
    ensures
        segments_view(segs@) == segments_upto(text@, indices@, text@.len() as nat),
{
    let cs = chars_of(text);
    let mut runs: Vec<(Vec<char>, bool)> = Vec::new();
    let mut i: usize = 0;
    while i < cs.len()
        invariant
            cs@ == text@,
            cs@.len() <= u32::MAX,
            i <= cs@.len(),
            runs_view(runs@) == segments_upto(text@, indices@, i as nat),
        decreases cs.len() - i,
    {
        let hit = hit_at(indices, i as u32);
        let c = cs[i];
        let n = runs.len();
        let ghost before = runs_view(runs@);
        if n > 0 && runs[n - 1].1 == hit {
            let mut last: (Vec<char>, bool) = (Vec::new(), false);
            runs.set_and_swap(n - 1, &mut last);
            last.0.push(c);
            runs.set_and_swap(n - 1, &mut last);
            assert(runs_view(runs@) =~= before.update(n - 1, (before.last().0.push(c), hit)));
        } else {
            let mut run: Vec<char> = Vec::new();
            run.push(c);
            runs.push((run, hit));
            assert(runs_view(runs@) =~= before.push((seq![c], hit)));
        }
        i = i + 1;
    }
    let mut segs: Vec<(String, bool)> = Vec::new();
    let mut j: usize = 0;
    while j < runs.len()
        invariant
            j <= runs@.len(),
            segments_view(segs@) == runs_view(runs@).take(j as int),
        decreases runs.len() - j,
    {
        let s = string_from_chars(&runs[j].0);
        let ghost prev = segs@;
        segs.push((s, runs[j].1));
        assert(segments_view(prev).len() == j);
        assert forall|k: int| 0 <= k < j + 1 implies #[trigger] segments_view(segs@)[k] == runs_view(runs@).take(
            j + 1,
        )[k] by {
            if k < j {
                assert(segs@[k] == prev[k]);
                assert(segments_view(prev)[k] == runs_view(runs@).take(j as int)[k]);
            }
        }
        assert(segments_view(segs@) =~= runs_view(runs@).take(j + 1));
        j = j + 1;
    }
    assert(runs_view(runs@).take(runs@.len() as int) =~= runs_view(runs@));
    segs
}

/// How a field of a log line is drawn: as runs of hit and unhit text.
/// Without a search the whole text is one unhit run.
pub open spec fn highlighted_spec(text: Seq<char>, query: Seq<char>) -> Seq<(Seq<char>, bool)> {
    if query.len() == 0 {
        seq![(text, false)]
    } else {
        segments_upto(text, nucleo_fuzzy_indices(text, query), text.len() as nat)
    }
}

/// Marks the hits of the trimmed search in a field of a log line.
pub fn highlighted_field(text: &str, query: &str) -> (segs: Vec<(String, bool)>)
    requires
        text@.len() <= u32::MAX,
        encode_utf8(text@).len() <= u32::MAX,
    ensures
        segments_view(segs@) == highlighted_spec(text@, trimmed(query@)),
{
    let q = trim(query);
    if q.as_str().is_empty() {
        let mut segs: Vec<(String, bool)> = Vec::new();
        segs.push((String::from_str(text), false));
        assert(segments_view(segs@) =~= seq![(text@, false)]);
        return segs;
    }
    let indices = fuzzy_indices(text, q.as_str());
    highlight_segments(text, &indices)
}

proof fn lemma_visible_increasing(entries: Seq<LogEntry>, enabled: Seq<bool>, query: Seq<char>, k: nat)
    requires
        k <= entries.len(),
        entries.len() <= usize::MAX,
    ensures
        forall|i: int| 0 <= i < visible_upto(entries, enabled, query, k).len() ==> #[trigger] visible_upto(
            entries,
            enabled,
            query,
            k,
        )[i] < k,
        forall|i: int, j: int|
            0 <= i < j < visible_upto(entries, enabled, query, k).len() ==> visible_upto(entries, enabled, query, k)[i]
                < visible_upto(entries, enabled, query, k)[j],
    decreases k,
{
    if k > 0 {
        lemma_visible_increasing(entries, enabled, query, (k - 1) as nat);
        let prev = visible_upto(entries, enabled, query, (k - 1) as nat);
        let cur = visible_upto(entries, enabled, query, k);
        if entry_visible(entries[k - 1], enabled, query) {
            assert(cur == prev.push((k - 1) as usize));
            assert forall|i: int| 0 <= i < cur.len() implies #[trigger] cur[i] < k by {
                if i < prev.len() {
                    assert(cur[i] == prev[i]);
                }
            }
            assert forall|i: int, j: int| 0 <= i < j < cur.len() implies cur[i] < cur[j] by {
                assert(cur[i] == prev[i]);
                assert(prev[i] < k - 1);
                if j < prev.len() {
                    assert(cur[j] == prev[j]);
                }
            }
        } else {
            assert(cur == prev);
        }
    }
}

/// The log window keeps the log's order: the lines it shows stand in
/// increasing position, never reordered by how well they match.
pub proof fn law_visible_lines_keep_log_order(entries: Seq<LogEntry>, enabled: Seq<bool>, query: Seq<char>)
    requires
        entries.len() <= usize::MAX,
    ensures
        forall|i: int, j: int|
            0 <= i < j < visible_upto(entries, enabled, query, entries.len() as nat).len() ==> visible_upto(
                entries,
                enabled,
                query,
                entries.len() as nat,
            )[i] < visible_upto(entries, enabled, query, entries.len() as nat)[j],
{
    lemma_visible_increasing(entries, enabled, query, entries.len() as nat);
}

/// The level chips and the slider agree: after the slider is set to a
/// level, the slider reads that level back (the last level where it was set
/// beyond).
pub proof fn law_slider_reads_back(value: nat, enabled: Seq<bool>)
    requires
        enabled.len() == 5,
        forall|i: int| 0 <= i < 5 ==> enabled[i] == (i <= value),
    ensures
        threshold_spec(enabled) == if value < 5 { value } else { 4 },
{
}

/// A line once added stays found by its number, so adding it again
/// changes nothing: whichever place an insertion takes, the inserted
/// number is in the list afterwards.
pub proof fn law_added_line_is_found(before: Seq<LogEntry>, p: int, entry: LogEntry)
    requires
        0 <= p <= before.len(),
    ensures
        seqs(before.insert(p, entry)).contains(entry.seq),
{
    assert(seqs(before.insert(p, entry))[p] == entry.seq);
}

} // verus!
