//! The line under the timeline that says who is typing.

use vstd::prelude::*;
use crate::display::event::{others, receipts_of_others};
use crate::display::system::{prefix_strings, strings_view};

verus! {

broadcast use vstd::string::group_string_axioms;

/// Who the typing line names.
pub enum TypingLine {
    Nobody,
    One(String),
    Two(String, String),
    Three(String, String, String),
    Several,
}

/// The most users the line looks at.
pub const TYPING_SHOWN: usize = 4;

/// The users typing besides the user, at most four, in order.
pub open spec fn typing_users(typing: Seq<String>, own: Seq<char>) -> Seq<Seq<char>> {
    let o = others(typing, own);
    o.take(if o.len() < TYPING_SHOWN { o.len() as int } else { TYPING_SHOWN as int })
}

pub open spec fn typing_line_spec(users: Seq<Seq<char>>, line: TypingLine) -> bool {
    match line {
        TypingLine::Nobody => users.len() == 0,
        TypingLine::One(a) => users.len() == 1 && a@ == users[0],
        TypingLine::Two(a, b) => users.len() == 2 && a@ == users[0] && b@ == users[1],
        TypingLine::Three(a, b, c) => users.len() == 3 && a@ == users[0] && b@ == users[1] && c@ == users[2],
        TypingLine::Several => users.len() >= 4,
    }
}

/// Decides the typing line from the users typing in the room: the user
/// is left out, one to three others are named, four or more are "several".
pub fn typing_line(typing: &Vec<String>, own: &String) -> (line: TypingLine)
    ensures
        typing_line_spec(typing_users(typing@, own@), line),
{
    let visible = receipts_of_others(typing, own);
    let n: usize = if visible.len() < TYPING_SHOWN { visible.len() } else { TYPING_SHOWN };
    let users = prefix_strings(&visible, n);
    proof {
        assert(strings_view(users@).len() == users@.len());
    }
    if users.len() == 0 {
        TypingLine::Nobody
    } else if users.len() == 1 {
        TypingLine::One(users[0].clone())
    } else if users.len() == 2 {
        TypingLine::Two(users[0].clone(), users[1].clone())
    } else if users.len() == 3 {
        TypingLine::Three(users[0].clone(), users[1].clone(), users[2].clone())
    } else {
        TypingLine::Several
    }
}

/// Whether anyone but the user is typing, which slides the line in.
pub fn someone_else_typing(typing: &Vec<String>, own: &String) -> (b: bool)
    ensures
        b == (others(typing@, own@).len() > 0),
{
    let visible = receipts_of_others(typing, own);
    assert(strings_view(visible@).len() == visible@.len());
    visible.len() > 0
}

} // verus!
