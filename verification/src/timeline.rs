//! The message timeline of the open room: applying the backend's list
//! diffs, and deciding which messages show a sender header.

use vstd::prelude::*;

verus! {

/// One change to the timeline list sent by the backend.
pub enum TimelineDiff<T> {
    Update { index: usize, value: T },
    Append { values: Vec<T> },
    PushBack { value: T },
    PushFront { value: T },
    Insert { index: usize, value: T },
    Remove { index: usize },
    PopBack,
    PopFront,
    Clear,
    Reset { values: Vec<T> },
    Truncate { length: usize },
}

/// The list that results from applying `d` to `s`. Diffs whose index
/// lies outside the list leave it unchanged.
pub open spec fn diff_result<T>(s: Seq<T>, d: TimelineDiff<T>) -> Seq<T> {
    match d {
        TimelineDiff::Update { index, value } => if index < s.len() {
            s.update(index as int, value)
        } else {
            s
        },
        TimelineDiff::Append { values } => s + values@,
        TimelineDiff::PushBack { value } => s.push(value),
        TimelineDiff::PushFront { value } => seq![value] + s,
        TimelineDiff::Insert { index, value } => if index <= s.len() {
            s.insert(index as int, value)
        } else {
            s
        },
        TimelineDiff::Remove { index } => if index < s.len() {
            s.remove(index as int)
        } else {
            s
        },
        TimelineDiff::PopBack => if s.len() > 0 {
            s.drop_last()
        } else {
            s
        },
        TimelineDiff::PopFront => if s.len() > 0 {
            s.drop_first()
        } else {
            s
        },
        TimelineDiff::Clear => Seq::empty(),
        TimelineDiff::Reset { values } => values@,
        TimelineDiff::Truncate { length } => if length < s.len() {
            s.take(length as int)
        } else {
            s
        },
    }
}

/// The list after applying every diff of `ds` in order.
pub open spec fn diffs_result<T>(s: Seq<T>, ds: Seq<TimelineDiff<T>>) -> Seq<T>
    decreases ds.len(),
{
    if ds.len() == 0 {
        s
    } else {
        diffs_result(diff_result(s, ds[0]), ds.drop_first())
    }
}

/// Applies one diff to the timeline.
pub fn apply_timeline_diff<T>(items: &mut Vec<T>, diff: TimelineDiff<T>)
    ensures
        final(items)@ == diff_result(old(items)@, diff),
{
    let ghost d = diff;
    match diff {
        TimelineDiff::Update { index, value } => {
            if index < items.len() {
                items.set(index, value);
            }
        },
        TimelineDiff::Append { values } => {
            let mut values = values;
            items.append(&mut values);
        },
        TimelineDiff::PushBack { value } => {
            items.push(value);
        },
        TimelineDiff::PushFront { value } => {
            items.insert(0, value);
            assert(items@ =~= seq![value] + old(items)@);
        },
        TimelineDiff::Insert { index, value } => {
            if index <= items.len() {
                items.insert(index, value);
            }
        },
        TimelineDiff::Remove { index } => {
            if index < items.len() {
                items.remove(index);
            }
        },
        TimelineDiff::PopBack => {
            if items.len() > 0 {
                items.pop();
                assert(items@ =~= old(items)@.drop_last());
            }
        },
        TimelineDiff::PopFront => {
            if items.len() > 0 {
                items.remove(0);
                assert(items@ =~= old(items)@.drop_first());
            }
        },
        TimelineDiff::Clear => {
            items.clear();
        },
        TimelineDiff::Reset { values } => {
            *items = values;
        },
        TimelineDiff::Truncate { length } => {
            items.truncate(length);
        },
    }
}

/// Applies a batch of diffs, in order, to the timeline.
pub fn apply_timeline_diffs<T>(items: &mut Vec<T>, diffs: Vec<TimelineDiff<T>>)
    ensures
        final(items)@ == diffs_result(old(items)@, diffs@),
{
    let ghost all = diffs@;
    assert(all.subrange(0, all.len() as int) =~= all);
    for d in it: diffs
        invariant
            it.seq() == all,
            diffs_result(old(items)@, all) == diffs_result(
                items@,
                all.subrange(it.index() as int, all.len() as int),
            ),
    {
        proof {
            let tail = all.subrange(it.index() as int, all.len() as int);
            assert(tail.drop_first() =~= all.subrange(it.index() + 1, all.len() as int));
        }
        apply_timeline_diff(items, d);
    }
    assert(all.subrange(all.len() as int, all.len() as int) =~= Seq::<TimelineDiff<T>>::empty());
}

/// Appending an entry and then popping the last one leaves the timeline as
/// it was.
pub proof fn law_push_back_then_pop_back<T>(s: Seq<T>, v: T)
    ensures
        diff_result(diff_result(s, TimelineDiff::PushBack { value: v }), TimelineDiff::PopBack)
            == s,
{
    assert(s.push(v).drop_last() =~= s);
}

/// Prepending an entry and then popping the first one leaves the timeline
/// as it was.
pub proof fn law_push_front_then_pop_front<T>(s: Seq<T>, v: T)
    ensures
        diff_result(diff_result(s, TimelineDiff::PushFront { value: v }), TimelineDiff::PopFront)
            == s,
{
    assert((seq![v] + s).drop_first() =~= s);
}

/// Inserting an entry at a position inside the list and then removing the
/// entry at that position leaves the timeline as it was.
pub proof fn law_insert_then_remove<T>(s: Seq<T>, index: usize, v: T)
    requires
        index <= s.len(),
    ensures
        diff_result(
            diff_result(s, TimelineDiff::Insert { index, value: v }),
            TimelineDiff::Remove { index },
        ) == s,
{
    assert(s.insert(index as int, v).remove(index as int) =~= s);
}

/// A reset replaces the whole timeline, whatever it held before.
pub proof fn law_reset_replaces<T>(s: Seq<T>, values: Vec<T>)
    ensures
        diff_result(s, TimelineDiff::Reset { values }) == values@,
{
}

/// Diffs that address a position outside the list change nothing.
pub proof fn law_out_of_range_diffs_are_ignored<T>(s: Seq<T>, index: usize, v: T)
    requires
        index > s.len(),
    ensures
        diff_result(s, TimelineDiff::Insert { index, value: v }) == s,
        diff_result(s, TimelineDiff::Remove { index }) == s,
        diff_result(s, TimelineDiff::Update { index, value: v }) == s,
{
}

/// Applying two batches one after the other is the same as applying their
/// concatenation.
pub proof fn law_batches_compose<T>(s: Seq<T>, a: Seq<TimelineDiff<T>>, b: Seq<TimelineDiff<T>>)
    ensures
        diffs_result(s, a + b) == diffs_result(diffs_result(s, a), b),
    decreases a.len(),
{
    if a.len() == 0 {
        assert(a + b =~= b);
    } else {
        assert((a + b).drop_first() =~= a.drop_first() + b);
        law_batches_compose(diff_result(s, a[0]), a.drop_first(), b);
    }
}

/// What the header decision needs to know about one timeline entry.
pub enum TimelineEntry {
    /// A message-like event from `sender`; `replies` is set when it answers
    /// another event.
    Message { sender: String, timestamp: u64, replies: bool },
    /// Any other event (state changes and the like).
    OtherEvent,
    DateDivider,
    ReadMarker,
    /// Entries that are not events, such as the start of the timeline.
    Other,
}

/// Messages from one sender closer together than this many seconds share a
/// header.
pub const HEADER_GROUP_SECONDS: u64 = 300;

pub open spec fn is_divider(e: TimelineEntry) -> bool {
    e matches TimelineEntry::DateDivider || e matches TimelineEntry::ReadMarker
}

pub open spec fn follows_divider(es: Seq<TimelineEntry>, k: int) -> bool {
    k > 0 && is_divider(es[k - 1])
}

/// The sender and time the grouping remembers before entry `k` is looked at.
pub open spec fn group_state(es: Seq<TimelineEntry>, k: nat) -> Option<(Seq<char>, u64)>
    decreases k,
{
    if k == 0 {
        None
    } else {
        let j = (k - 1) as nat;
        match es[j as int] {
            TimelineEntry::Message { sender, timestamp, replies } => {
                if follows_divider(es, j as int) {
                    Some((sender@, timestamp))
                } else if replies {
                    group_state(es, j)
                } else {
                    Some((sender@, timestamp))
                }
            },
            _ => group_state(es, j),
        }
    }
}

pub open spec fn saturating_diff(a: u64, b: u64) -> int {
    if a >= b {
        a - b
    } else {
        0
    }
}

/// Whether entry `k` is shown with its sender's name and avatar.
pub open spec fn shows_header(es: Seq<TimelineEntry>, k: nat) -> bool {
    match es[k as int] {
        TimelineEntry::Message { sender, timestamp, replies } => {
            if follows_divider(es, k as int) || replies {
                true
            } else {
                match group_state(es, k) {
                    Some((last, last_ts)) => !(last == sender@ && saturating_diff(timestamp, last_ts)
                        < HEADER_GROUP_SECONDS),
                    None => true,
                }
            }
        },
        _ => false,
    }
}

/// A message is grouped under the header of the message just before it
/// exactly when both come from the same sender less than five minutes
/// apart: for two consecutive messages where the later one answers nothing
/// and the earlier one answers nothing or starts a day (or follows the read
/// marker), the later one shows no header when they share a sender and the
/// later is less than `HEADER_GROUP_SECONDS` after the earlier, and shows
/// one otherwise. A message that answers another, or that follows a
/// divider, always shows a header.
pub proof fn law_header_grouping(es: Seq<TimelineEntry>, k: int)
    requires
        0 <= k < es.len(),
    ensures
        (es[k] matches TimelineEntry::Message { replies, .. } && (replies || follows_divider(es, k))) ==> shows_header(
            es,
            k as nat,
        ),
        k > 0 ==> match (es[k - 1], es[k]) {
            (
                TimelineEntry::Message { sender: s1, timestamp: t1, replies: r1 },
                TimelineEntry::Message { sender: s2, timestamp: t2, replies: r2 },
            ) => (!r2 && (!r1 || follows_divider(es, k - 1))) ==> (shows_header(es, k as nat) <==> !(s1@ == s2@
                && (if t2 >= t1 { t2 - t1 } else { 0 }) < 300)),
            _ => true,
        },
{
    if k > 0 {
        assert(group_state(es, k as nat) == match es[k - 1] {
            TimelineEntry::Message { sender, timestamp, replies } => if follows_divider(es, k - 1) {
                Some((sender@, timestamp))
            } else if replies {
                group_state(es, (k - 1) as nat)
            } else {
                Some((sender@, timestamp))
            },
            _ => group_state(es, (k - 1) as nat),
        });
    }
}

/// Decides, for every entry, whether it is shown with a header, and lists
/// the entries newest first as the view draws them: element `j` of the
/// result is `(index, shows_header)` for the entry `len - 1 - j`.
pub fn group_headers(entries: &Vec<TimelineEntry>) -> (out: Vec<(usize, bool)>)
    ensures
        out@.len() == entries@.len(),
        forall|j: int|
            0 <= j < out@.len() ==> #[trigger] out@[j] == (
                (entries@.len() - 1 - j) as usize,
                shows_header(entries@, (entries@.len() - 1 - j) as nat),
            ),
{
    let n = entries.len();
    let mut flags: Vec<bool> = Vec::new();
    let mut last: Option<(&String, u64)> = None;
    let mut i: usize = 0;
    while i < n
        invariant
            n == entries@.len(),
            i <= n,
            flags@.len() == i,
            forall|k: int| 0 <= k < i ==> #[trigger] flags@[k] == shows_header(entries@, k as nat),
            match last {
                Some((s, t)) => group_state(entries@, i as nat) == Some((s@, t)),
                None => group_state(entries@, i as nat) is None,
            },
        decreases n - i,
    {
        let after_divider = i > 0 && match &entries[i - 1] {
            TimelineEntry::DateDivider | TimelineEntry::ReadMarker => true,
            _ => false,
        };
        match &entries[i] {
            TimelineEntry::Message { sender, timestamp, replies } => {
                if after_divider {
                    flags.push(true);
                    last = Some((sender, *timestamp));
                } else if *replies {
                    flags.push(true);
                } else {
                    let mut show = true;
                    match last {
                        Some((s, t)) => {
                            if *s == *sender {
                                let gap = if *timestamp >= t {
                                    *timestamp - t
                                } else {
                                    0
                                };
                                if gap < HEADER_GROUP_SECONDS {
                                    show = false;
                                }
                            }
                        },
                        None => {},
                    }
                    flags.push(show);
                    last = Some((sender, *timestamp));
                }
            },
            _ => {
                flags.push(false);
            },
        }
        i = i + 1;
    }
    let mut out: Vec<(usize, bool)> = Vec::new();
    let mut j: usize = 0;
    while j < n
        invariant
            n == entries@.len(),
            flags@.len() == n,
            forall|k: int| 0 <= k < n ==> #[trigger] flags@[k] == shows_header(entries@, k as nat),
            j <= n,
            out@.len() == j,
            forall|m: int|
                0 <= m < j ==> #[trigger] out@[m] == (
                    (n - 1 - m) as usize,
                    shows_header(entries@, (n - 1 - m) as nat),
                ),
        decreases n - j,
    {
        let idx = n - 1 - j;
        out.push((idx, flags[idx]));
        j = j + 1;
    }
    out
}

} // verus!
