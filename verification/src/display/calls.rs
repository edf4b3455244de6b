//! The call view: the size of the participants' tiles and whether the call
//! button joins or leaves.

use vstd::prelude::*;
use crate::display::event::{contains_string, vec_contains_string};

verus! {

broadcast use vstd::string::group_string_axioms;

/// The width class of a participant's tile, by how many take part: the
/// more participants, the more tiles share a row.
pub open spec fn tile_width_spec(count: nat) -> Seq<char> {
    if count == 1 {
        "w-full max-w-5xl"@
    } else if count == 2 {
        "w-[calc(50%-0.5*var(--gap))] max-w-3xl"@
    } else if count == 3 || count == 4 {
        "w-[calc(50%-0.5*var(--gap))] max-w-2xl"@
    } else if 5 <= count <= 6 {
        "w-[calc(33.33%-0.66*var(--gap))] max-w-xl"@
    } else if 7 <= count <= 9 {
        "w-[calc(33.33%-0.66*var(--gap))] max-w-lg"@
    } else if 10 <= count <= 12 {
        "w-[calc(25%-0.75*var(--gap))] max-w-md"@
    } else {
        "w-[calc(20%-0.8*var(--gap))] max-w-sm"@
    }
}

pub fn tile_width(count: usize) -> (c: String)
    ensures
        c@ == tile_width_spec(count as nat),
{
    if count == 1 {
        String::from_str("w-full max-w-5xl")
    } else if count == 2 {
        String::from_str("w-[calc(50%-0.5*var(--gap))] max-w-3xl")
    } else if count == 3 || count == 4 {
        String::from_str("w-[calc(50%-0.5*var(--gap))] max-w-2xl")
    } else if 5 <= count && count <= 6 {
        String::from_str("w-[calc(33.33%-0.66*var(--gap))] max-w-xl")
    } else if 7 <= count && count <= 9 {
        String::from_str("w-[calc(33.33%-0.66*var(--gap))] max-w-lg")
    } else if 10 <= count && count <= 12 {
        String::from_str("w-[calc(25%-0.75*var(--gap))] max-w-md")
    } else {
        String::from_str("w-[calc(20%-0.8*var(--gap))] max-w-sm")
    }
}

/// What the call button does.
pub enum CallAction {
    Join,
    Leave,
}

/// The call button leaves the call when this device takes part in it, and
/// joins it otherwise; without a known device it joins.
pub fn call_button(participants: &Vec<String>, own_device: &Option<String>) -> (a: CallAction)
    ensures
        (a is Leave) == (own_device matches Some(d) && contains_string(participants@, d@)),
{
    match own_device {
        Some(d) => {
            if vec_contains_string(participants, d) {
                CallAction::Leave
            } else {
                CallAction::Join
            }
        },
        None => CallAction::Join,
    }
}

} // verus!
