//! The text around the caret of the composer, in UTF-16 code units as the
//! browser counts them: the word being typed, the filter after a trigger
//! character, and the text node that holds a caret position.

use vstd::prelude::*;
use crate::chars::{chars_of, str_eq};
use crate::outside::string_from_utf16;

verus! {

broadcast use vstd::string::group_string_axioms;

/// The UTF-16 code units of one character.
pub open spec fn utf16_char(c: char) -> Seq<u16> {
    let v = c as u32;
    if v < 0x10000 {
        seq![v as u16]
    } else {
        let w = (v - 0x10000) as u32;
        seq![(0xD800 + w / 1024) as u16, (0xDC00 + w % 1024) as u16]
    }
}

/// The UTF-16 code units of a text.
pub open spec fn utf16_seq(s: Seq<char>) -> Seq<u16>
    decreases s.len(),
{
    if s.len() == 0 {
        Seq::empty()
    } else {
        utf16_seq(s.drop_last()) + utf16_char(s.last())
    }
}

/// Decodes UTF-16 code units into characters: a unit outside the
/// surrogate range stands for itself, a high surrogate followed by a low
/// one for the character they encode together; an unpaired surrogate
/// makes the whole decoding fail.
pub open spec fn utf16_decode(units: Seq<u16>) -> Option<Seq<char>>
    decreases units.len(),
{
    if units.len() == 0 {
        Some(Seq::empty())
    } else if units[0] < 0xD800 || units[0] >= 0xE000 {
        match utf16_decode(units.drop_first()) {
            Some(rest) => Some(seq![units[0] as char] + rest),
            None => None,
        }
    } else if units[0] < 0xDC00 && units.len() >= 2 && 0xDC00 <= units[1] < 0xE000 {
        let c = (0x10000 + (units[0] - 0xD800) * 1024 + (units[1] - 0xDC00)) as char;
        match utf16_decode(units.subrange(2, units.len() as int)) {
            Some(rest) => Some(seq![c] + rest),
            None => None,
        }
    } else {
        None
    }
}

proof fn lemma_utf16_len(s: Seq<char>)
    ensures
        utf16_seq(s).len() <= 2 * s.len(),
    decreases s.len(),
{
    if s.len() > 0 {
        lemma_utf16_len(s.drop_last());
    }
}

/// Encodes a text in UTF-16, as `str::encode_utf16` does.
pub fn utf16_of(s: &str) -> (units: Vec<u16>)
    ensures
        units@ == utf16_seq(s@),
{
    let cs = chars_of(s);
    let mut units: Vec<u16> = Vec::new();
    let mut i: usize = 0;
    while i < cs.len()
        invariant
            cs@ == s@,
            i <= cs@.len(),
            units@ == utf16_seq(cs@.take(i as int)),
        decreases cs.len() - i,
    {
        let c = cs[i];
        let v: u32 = c as u32;
        if v < 0x10000 {
            units.push(v as u16);
        } else {
            let w: u32 = v - 0x10000;
            units.push((0xD800 + w / 1024) as u16);
            units.push((0xDC00 + w % 1024) as u16);
        }
        proof {
            let after = cs@.take(i + 1);
            assert(after.drop_last() =~= cs@.take(i as int));
            assert(after.last() == c);
            assert(units@ =~= utf16_seq(cs@.take(i as int)) + utf16_char(c));
        }
        i = i + 1;
    }
    assert(cs@.take(cs@.len() as int) =~= s@);
    units
}

/// Whether a code unit ends a word: a space, a no-break space, a line feed,
/// and, where `zero_width` is set, a zero-width space.
pub open spec fn is_word_break(u: u16, zero_width: bool) -> bool {
    u == 32 || u == 160 || u == 10 || (zero_width && u == 8203)
}

fn word_break(u: u16, zero_width: bool) -> (b: bool)
    ensures
        b == is_word_break(u, zero_width),
{
    u == 32 || u == 160 || u == 10 || (zero_width && u == 8203)
}

/// Where the word that reaches up to `i` starts: just after the closest
/// break before `i`, or at the start.
pub open spec fn word_start(units: Seq<u16>, i: int, zero_width: bool) -> int
    decreases i,
{
    if i <= 0 {
        0
    } else if is_word_break(units[i - 1], zero_width) {
        i
    } else {
        word_start(units, i - 1, zero_width)
    }
}

/// Where the word that starts at or before `i` ends: at the first break
/// from `i` on, or at the end.
pub open spec fn word_end(units: Seq<u16>, i: int, zero_width: bool) -> int
    decreases units.len() - i,
{
    if i >= units.len() {
        units.len() as int
    } else if is_word_break(units[i], zero_width) {
        i
    } else {
        word_end(units, i + 1, zero_width)
    }
}

proof fn lemma_word_start_bounds(units: Seq<u16>, i: int, zero_width: bool)
    requires
        0 <= i <= units.len(),
    ensures
        0 <= word_start(units, i, zero_width) <= i,
    decreases i,
{
    if i > 0 && !is_word_break(units[i - 1], zero_width) {
        lemma_word_start_bounds(units, i - 1, zero_width);
    }
}

proof fn lemma_word_end_bounds(units: Seq<u16>, i: int, zero_width: bool)
    requires
        0 <= i <= units.len(),
    ensures
        i <= word_end(units, i, zero_width) <= units.len(),
        word_end(units, i, zero_width) == i || !is_word_break(units[i], zero_width),
    decreases units.len() - i,
{
    if i < units.len() && !is_word_break(units[i], zero_width) {
        lemma_word_end_bounds(units, i + 1, zero_width);
    }
}

/// The bounds of the word around `offset`.
pub fn word_bounds(units: &Vec<u16>, offset: usize, zero_width: bool) -> (r: (usize, usize))
    requires
        offset <= units@.len(),
    ensures
        r.0 == word_start(units@, offset as int, zero_width),
        r.1 == word_end(units@, offset as int, zero_width),
        r.0 <= offset <= r.1 <= units@.len(),
{
    let mut start = offset;
    while start > 0 && !word_break(units[start - 1], zero_width)
        invariant
            start <= offset <= units@.len(),
            word_start(units@, start as int, zero_width) == word_start(units@, offset as int, zero_width),
        decreases start,
    {
        start = start - 1;
    }
    let mut end = offset;
    while end < units.len() && !word_break(units[end], zero_width)
        invariant
            offset <= end <= units@.len(),
            word_end(units@, end as int, zero_width) == word_end(units@, offset as int, zero_width),
        decreases units.len() - end,
    {
        end = end + 1;
    }
    (start, end)
}

/// The filter typed after a trigger character at the caret: the word
/// around the caret must start with the trigger, and the filter is the
/// rest of the word. Zero-width spaces break words here.
pub open spec fn active_filter_units(units: Seq<u16>, offset: int, trigger: u16) -> Option<Seq<u16>> {
    if offset > units.len() {
        None
    } else {
        let s = word_start(units, offset, true);
        if s == units.len() || units[s] != trigger {
            None
        } else {
            Some(units.subrange(s + 1, word_end(units, offset, true)))
        }
    }
}

/// Finds the filter typed after `trigger` around the caret, in code units.
pub fn active_filter(units: &Vec<u16>, offset: usize, trigger: u16) -> (r: Option<Vec<u16>>)
    requires
        !is_word_break(trigger, true),
    ensures
        match r {
            Some(f) => active_filter_units(units@, offset as int, trigger) == Some(f@),
            None => active_filter_units(units@, offset as int, trigger) is None,
        },
{
    if offset > units.len() {
        return None;
    }
    let (start, end) = word_bounds(units, offset, true);
    if start == units.len() || units[start] != trigger {
        return None;
    }
    proof {
        if start == offset {
            assert(!is_word_break(units@[offset as int], true));
            lemma_word_end_bounds(units@, offset + 1, true);
            assert(word_end(units@, offset as int, true) == word_end(units@, offset + 1, true));
        }
    }
    let mut out: Vec<u16> = Vec::new();
    let mut i = start + 1;
    while i < end
        invariant
            start + 1 <= i <= end <= units@.len(),
            out@ == units@.subrange(start + 1, i as int),
        decreases end - i,
    {
        out.push(units[i]);
        assert(out@ =~= units@.subrange(start + 1, i + 1));
        i = i + 1;
    }
    Some(out)
}

/// The prefix sums of the nodes' lengths: where node `k` starts.
pub open spec fn node_start(lens: Seq<nat>, k: nat) -> nat
    decreases k,
{
    if k == 0 {
        0
    } else {
        node_start(lens, (k - 1) as nat) + lens[k - 1]
    }
}

/// Where node `k` ends.
pub open spec fn node_end(lens: Seq<nat>, k: int) -> nat {
    node_start(lens, (k + 1) as nat)
}

/// Each node's length in code units, as a `u32` the way the editor counts.
pub open spec fn node_lens(texts: Seq<String>) -> Seq<nat> {
    texts.map_values(|t: String| (utf16_seq(t@).len() as u32) as nat)
}

/// The text node that holds an absolute caret position: the first node
/// that reaches it, with the position inside that node.
pub open spec fn locate_spec(lens: Seq<nat>, absolute: nat) -> Option<(int, int)> {
    if exists|k: int| 0 <= k < lens.len() && #[trigger] node_end(lens, k) >= absolute {
        let k = choose|k: int|
            0 <= k < lens.len() && #[trigger] node_end(lens, k) >= absolute && forall|j: int|
                0 <= j < k ==> #[trigger] node_end(lens, j) < absolute;
        Some((k, absolute - node_start(lens, k as nat)))
    } else {
        None
    }
}

proof fn lemma_node_end_step(lens: Seq<nat>, k: int)
    requires
        0 <= k < lens.len(),
    ensures
        node_end(lens, k) == node_start(lens, k as nat) + lens[k],
{
}

/// Finds the text node, among the editor's text nodes in document order,
/// that holds the caret position `absolute` (in code units), and the
/// position within it. The running position is a `u32`, as in the editor,
/// so it must not overflow before the node is found.
pub fn locate_caret(texts: &Vec<String>, absolute: u32) -> (r: Option<(usize, u32)>)
    requires
        forall|k: int|
            0 <= k < texts@.len() && node_start(node_lens(texts@), k as nat) < absolute ==> #[trigger] node_end(
                node_lens(texts@),
                k,
            ) <= u32::MAX,
    ensures
        match r {
            Some((k, off)) => locate_spec(node_lens(texts@), absolute as nat) == Some((k as int, off as int)),
            None => locate_spec(node_lens(texts@), absolute as nat) is None,
        },
{
    let ghost lens = node_lens(texts@);
    let mut pos: u32 = 0;
    let mut k: usize = 0;
    while k < texts.len()
        invariant
            k <= texts@.len(),
            lens == node_lens(texts@),
            lens.len() == texts@.len(),
            pos == node_start(lens, k as nat),
            k == 0 || pos < absolute,
            forall|j: int| 0 <= j < k ==> #[trigger] node_end(lens, j) < absolute,
            forall|j: int|
                0 <= j < texts@.len() && node_start(lens, j as nat) < absolute ==> #[trigger] node_end(lens, j)
                    <= u32::MAX,
        decreases texts.len() - k,
    {
        let units = utf16_of(texts[k].as_str());
        let n: u32 = units.len() as u32;
        proof {
            assert(lens[k as int] == n);
            lemma_node_end_step(lens, k as int);
        }
        let reach: u32 = pos + n;
        if reach >= absolute {
            proof {
                assert(node_end(lens, k as int) >= absolute);
                let w = choose|w: int|
                    0 <= w < lens.len() && #[trigger] node_end(lens, w) >= absolute && forall|j: int|
                        0 <= j < w ==> #[trigger] node_end(lens, j) < absolute;
                if w < k {
                    assert(node_end(lens, w) < absolute);
                } else if w > k {
                    assert(node_end(lens, k as int) < absolute);
                }
            }
            return Some((k, absolute - pos));
        }
        pos = reach;
        k = k + 1;
    }
    proof {
        if exists|w: int| 0 <= w < lens.len() && #[trigger] node_end(lens, w) >= absolute {
            let w = choose|w: int| 0 <= w < lens.len() && #[trigger] node_end(lens, w) >= absolute;
            assert(node_end(lens, w) < absolute);
        }
    }
    None
}

/// The filter after `trigger` around the caret, as text: nothing where the
/// caret's text node sits inside a span (a mention or command chip), and
/// an empty filter where its code units do not decode.
pub open spec fn active_filter_text(text: Seq<char>, offset: int, in_span: bool, trigger: u16) -> Option<Seq<char>> {
    if in_span {
        None
    } else {
        match active_filter_units(utf16_seq(text), offset, trigger) {
            Some(units) => Some(
                match utf16_decode(units) {
                    Some(t) => t,
                    None => Seq::empty(),
                },
            ),
            None => None,
        }
    }
}

/// Reads the filter after `trigger` around the caret, given the text of
/// the caret's node and the caret's offset in it.
pub fn get_active_filter(text: &str, local_offset: u32, in_span: bool, trigger: u16) -> (r: Option<String>)
    requires
        !is_word_break(trigger, true),
    ensures
        match r {
            Some(f) => active_filter_text(text@, local_offset as int, in_span, trigger) == Some(f@),
            None => active_filter_text(text@, local_offset as int, in_span, trigger) is None,
        },
{
    if in_span {
        return None;
    }
    let units = utf16_of(text);
    match active_filter(&units, local_offset as usize, trigger) {
        Some(f) => match string_from_utf16(&f) {
            Some(t) => Some(t),
            None => Some(String::new()),
        },
        None => None,
    }
}

/// The word that a chosen menu entry replaces: the caret's word, where
/// zero-width spaces do not break words.
pub fn commit_range(units: &Vec<u16>, offset: usize) -> (r: (usize, usize))
    requires
        offset <= units@.len(),
    ensures
        r.0 == word_start(units@, offset as int, false),
        r.1 == word_end(units@, offset as int, false),
{
    word_bounds(units, offset, false)
}

/// The entry selected after pressing up: the one before, or from the first
/// the last.
pub fn select_previous(index: usize, len: usize) -> (r: usize)
    requires
        len > 0,
    ensures
        r == if index == 0 { len - 1 } else { index - 1 },
{
    if index == 0 {
        len - 1
    } else {
        index - 1
    }
}

/// The entry selected after pressing down: the one after, wrapping round.
pub fn select_next(index: usize, len: usize) -> (r: usize)
    requires
        len > 0,
        index < usize::MAX,
    ensures
        r == (index + 1) % (len as int),
{
    (index + 1) % len
}

/// What a key press in the composer does.
pub enum KeyAction {
    /// Shift+Enter: the editor adds a line break itself.
    LineBreak,
    /// Enter with the menu open: the selected entry replaces the word.
    CommitSelection,
    /// Enter with the menu closed: the message is sent and the draft cleared.
    Send,
    /// Up or down with the menu open: the selection moves.
    MoveSelection { up: bool },
    /// Escape with the menu open: the menu closes.
    CloseMenu,
    /// Anything else is left to the editor.
    Ignore,
}

pub open spec fn key_action_spec(key: Seq<char>, shift: bool, menu_open: bool) -> KeyAction {
    if key == "Enter"@ {
        if shift {
            KeyAction::LineBreak
        } else if menu_open {
            KeyAction::CommitSelection
        } else {
            KeyAction::Send
        }
    } else if (key == "ArrowUp"@ || key == "ArrowDown"@) && menu_open {
        KeyAction::MoveSelection { up: key == "ArrowUp"@ }
    } else if key == "Escape"@ && menu_open {
        KeyAction::CloseMenu
    } else {
        KeyAction::Ignore
    }
}

/// Decides what a key press does, by the key's name, whether shift is
/// held and whether the autocomplete menu is open.
pub fn key_action(key: &str, shift: bool, menu_open: bool) -> (a: KeyAction)
    ensures
        a == key_action_spec(key@, shift, menu_open),
{
    if str_eq(key, "Enter") {
        if shift {
            KeyAction::LineBreak
        } else if menu_open {
            KeyAction::CommitSelection
        } else {
            KeyAction::Send
        }
    } else if (str_eq(key, "ArrowUp") || str_eq(key, "ArrowDown")) && menu_open {
        KeyAction::MoveSelection { up: str_eq(key, "ArrowUp") }
    } else if str_eq(key, "Escape") && menu_open {
        KeyAction::CloseMenu
    } else {
        KeyAction::Ignore
    }
}

} // verus!
