//! The profile settings: the room picker of room-specific profiles and the
//! underline that marks the chosen tab.

use vstd::prelude::*;
use crate::display::numbers::{decimal, decimal_string};
use crate::emoji_picker::{occurs_in, text_contains};
use crate::outside::{lowercase, std_lowercase};

verus! {

broadcast use vstd::string::group_string_axioms;

/// Whether a room, given by name and id, matches the picker's search:
/// without a search every room does; otherwise the lowercase search must
/// occur in the lowercase name or id.
pub open spec fn room_matches(name: Seq<char>, id: Seq<char>, search: Seq<char>) -> bool {
    let s = std_lowercase(search);
    s.len() == 0 || occurs_in(std_lowercase(name), s) || occurs_in(std_lowercase(id), s)
}

pub open spec fn rooms_matching(rooms: Seq<(String, String)>, search: Seq<char>, k: nat) -> Seq<usize>
    decreases k,
{
    if k == 0 {
        Seq::empty()
    } else {
        let prev = rooms_matching(rooms, search, (k - 1) as nat);
        if room_matches(rooms[k - 1].0@, rooms[k - 1].1@, search) {
            prev.push((k - 1) as usize)
        } else {
            prev
        }
    }
}

/// The rooms the picker lists for a search, in their order.
pub fn room_picker_matches(rooms: &Vec<(String, String)>, search: &str) -> (out: Vec<usize>)
    ensures
        out@ == rooms_matching(rooms@, search@, rooms@.len() as nat),
{
    let s = lowercase(search);
    let mut out: Vec<usize> = Vec::new();
    let mut i: usize = 0;
    while i < rooms.len()
        invariant
            i <= rooms@.len(),
            s@ == std_lowercase(search@),
            out@ == rooms_matching(rooms@, search@, i as nat),
        decreases rooms.len() - i,
    {
        let keep = if s.as_str().is_empty() {
            true
        } else {
            let name = lowercase(rooms[i].0.as_str());
            let id = lowercase(rooms[i].1.as_str());
            text_contains(name.as_str(), s.as_str()) || text_contains(id.as_str(), s.as_str())
        };
        if keep {
            out.push(i);
        }
        i = i + 1;
    }
    out
}

/// "No rooms found" shows under a search that no room matches.
pub fn no_rooms_found(rooms: &Vec<(String, String)>, search: &str) -> (b: bool)
    ensures
        b == (std_lowercase(search@).len() > 0 && rooms_matching(rooms@, search@, rooms@.len() as nat).len() == 0),
{
    let s = lowercase(search);
    let matches = room_picker_matches(rooms, search);
    !s.as_str().is_empty() && matches.len() == 0
}

/// A whole number in decimal, with a minus sign when negative.
pub open spec fn signed_decimal(v: int) -> Seq<char> {
    if v < 0 {
        seq!['-'] + decimal((-v) as nat)
    } else {
        decimal(v as nat)
    }
}

fn signed_decimal_string(v: i32) -> (s: String)
    ensures
        s@ == signed_decimal(v as int),
{
    if v < 0 {
        let mut s = String::from_str("-");
        let magnitude: u64 = (-(v as i64)) as u64;
        let d = decimal_string(magnitude);
        s.append(d.as_str());
        proof {
            reveal_strlit("-");
            assert("-"@ =~= seq!['-']);
        }
        s
    } else {
        decimal_string(v as u64)
    }
}

/// The style of the underline under the chosen tab: placed and shown once
/// the tab was measured with a width, hidden before.
pub open spec fn pill_style_spec(left: int, width: int) -> Seq<char> {
    if width > 0 {
        "left: "@ + signed_decimal(left) + "px; width: "@ + signed_decimal(width) + "px; opacity: 1;"@
    } else {
        "opacity: 0;"@
    }
}

pub fn pill_style(left: i32, width: i32) -> (s: String)
    ensures
        s@ == pill_style_spec(left as int, width as int),
{
    if width > 0 {
        let mut s = String::from_str("left: ");
        let l = signed_decimal_string(left);
        s.append(l.as_str());
        s.append("px; width: ");
        let w = signed_decimal_string(width);
        s.append(w.as_str());
        s.append("px; opacity: 1;");
        s
    } else {
        String::from_str("opacity: 0;")
    }
}

} // verus!
