//! The emoji picker: the emoji groups, the emojis of a group, the search by
//! name, and the groups folded away.

use vstd::prelude::*;
use crate::chars::chars_of;
use crate::composer::menu::EmojiItem;
use crate::outside::{emoji_table, lowercase, std_lowercase};

verus! {

broadcast use vstd::string::group_string_axioms;

/// The groups emojis are sorted into, in the order the picker lists them.
#[derive(PartialEq, Eq, Structural)]
pub enum EmojiGroup {
    SmileysAndEmotion,
    PeopleAndBody,
    AnimalsAndNature,
    FoodAndDrink,
    TravelAndPlaces,
    Activities,
    Objects,
    Symbols,
    Flags,
}

/// The group at a position of the list of groups.
pub open spec fn group_at(i: nat) -> EmojiGroup {
    if i == 0 {
        EmojiGroup::SmileysAndEmotion
    } else if i == 1 {
        EmojiGroup::PeopleAndBody
    } else if i == 2 {
        EmojiGroup::AnimalsAndNature
    } else if i == 3 {
        EmojiGroup::FoodAndDrink
    } else if i == 4 {
        EmojiGroup::TravelAndPlaces
    } else if i == 5 {
        EmojiGroup::Activities
    } else if i == 6 {
        EmojiGroup::Objects
    } else if i == 7 {
        EmojiGroup::Symbols
    } else {
        EmojiGroup::Flags
    }
}

/// The position of a group in the list of groups.
pub open spec fn group_index(g: EmojiGroup) -> nat {
    match g {
        EmojiGroup::SmileysAndEmotion => 0,
        EmojiGroup::PeopleAndBody => 1,
        EmojiGroup::AnimalsAndNature => 2,
        EmojiGroup::FoodAndDrink => 3,
        EmojiGroup::TravelAndPlaces => 4,
        EmojiGroup::Activities => 5,
        EmojiGroup::Objects => 6,
        EmojiGroup::Symbols => 7,
        EmojiGroup::Flags => 8,
    }
}

pub fn group_from_index(i: usize) -> (g: EmojiGroup)
    requires
        i < 9,
    ensures
        g == group_at(i as nat),
        group_index(g) == i,
{
    if i == 0 {
        EmojiGroup::SmileysAndEmotion
    } else if i == 1 {
        EmojiGroup::PeopleAndBody
    } else if i == 2 {
        EmojiGroup::AnimalsAndNature
    } else if i == 3 {
        EmojiGroup::FoodAndDrink
    } else if i == 4 {
        EmojiGroup::TravelAndPlaces
    } else if i == 5 {
        EmojiGroup::Activities
    } else if i == 6 {
        EmojiGroup::Objects
    } else if i == 7 {
        EmojiGroup::Symbols
    } else {
        EmojiGroup::Flags
    }
}

pub fn index_of_group(g: &EmojiGroup) -> (i: usize)
    ensures
        i == group_index(*g),
        i < 9,
{
    match g {
        EmojiGroup::SmileysAndEmotion => 0,
        EmojiGroup::PeopleAndBody => 1,
        EmojiGroup::AnimalsAndNature => 2,
        EmojiGroup::FoodAndDrink => 3,
        EmojiGroup::TravelAndPlaces => 4,
        EmojiGroup::Activities => 5,
        EmojiGroup::Objects => 6,
        EmojiGroup::Symbols => 7,
        EmojiGroup::Flags => 8,
    }
}

pub open spec fn group_name_spec(g: EmojiGroup) -> Seq<char> {
    match g {
        EmojiGroup::SmileysAndEmotion => "Smileys & Emotion"@,
        EmojiGroup::PeopleAndBody => "People & Body"@,
        EmojiGroup::AnimalsAndNature => "Animals & Nature"@,
        EmojiGroup::FoodAndDrink => "Food & Drink"@,
        EmojiGroup::TravelAndPlaces => "Travel & Places"@,
        EmojiGroup::Activities => "Activities"@,
        EmojiGroup::Objects => "Objects"@,
        EmojiGroup::Symbols => "Symbols"@,
        EmojiGroup::Flags => "Flags"@,
    }
}

/// The heading of a group.
pub fn group_name(g: &EmojiGroup) -> (name: String)
    ensures
        name@ == group_name_spec(*g),
{
    match g {
        EmojiGroup::SmileysAndEmotion => String::from_str("Smileys & Emotion"),
        EmojiGroup::PeopleAndBody => String::from_str("People & Body"),
        EmojiGroup::AnimalsAndNature => String::from_str("Animals & Nature"),
        EmojiGroup::FoodAndDrink => String::from_str("Food & Drink"),
        EmojiGroup::TravelAndPlaces => String::from_str("Travel & Places"),
        EmojiGroup::Activities => String::from_str("Activities"),
        EmojiGroup::Objects => String::from_str("Objects"),
        EmojiGroup::Symbols => String::from_str("Symbols"),
        EmojiGroup::Flags => String::from_str("Flags"),
    }
}

/// An emoji of the picker with its group.
pub struct EmojiRecord {
    pub item: EmojiItem,
    pub group: EmojiGroup,
}

/// Whether a record holds a row of the emoji table: its name, shortcodes
/// and text, and the group at the row's group position.
pub open spec fn record_of_row(r: EmojiRecord, row: (String, Vec<String>, String, usize)) -> bool {
    &&& r.item.name == row.0
    &&& r.item.shortcodes == row.1
    &&& r.item.character == row.2
    &&& r.group == group_at(row.3 as nat)
}

/// The records of the rows of an emoji table, in table order.
pub fn emoji_records(table: Vec<(String, Vec<String>, String, usize)>) -> (records: Vec<EmojiRecord>)
    requires
        forall|i: int| 0 <= i < table@.len() ==> #[trigger] table@[i].3 < 9,
    ensures
        records@.len() == table@.len(),
        forall|i: int| 0 <= i < table@.len() ==> record_of_row(#[trigger] records@[i], table@[i]),
{
    let ghost all = table@;
    let mut out: Vec<EmojiRecord> = Vec::new();
    for row in it: table
        invariant
            it.seq() == all,
            forall|i: int| 0 <= i < all.len() ==> #[trigger] all[i].3 < 9,
            out@.len() == it.index(),
            forall|i: int| 0 <= i < it.index() ==> record_of_row(#[trigger] out@[i], all[i]),
    {
        let ghost r = row;
        let (name, shortcodes, character, g) = row;
        proof {
            assert(all[it.index() as int].3 < 9);
        }
        out.push(EmojiRecord { item: EmojiItem { name, shortcodes, character }, group: group_from_index(g) });
        proof {
            assert(record_of_row(out@[it.index() as int], r));
        }
    }
    out
}

/// The emojis the picker offers: the records of the emoji crate's table,
/// one per row, none missing. The table is the crate's data and is not
/// empty; `emoji_records` says how each row becomes a record.
pub fn load_emojis() -> (records: Vec<EmojiRecord>)
    ensures
        records@.len() > 0,
        exists|t: Seq<(String, Vec<String>, String, usize)>| #[trigger] rows_become_records(t, records@),
{
    let table = emoji_table();
    let ghost rows = table@;
    let records = emoji_records(table);
    assert(rows_become_records(rows, records@));
    records
}

/// Each record holds the row of the table at its position, and each row's
/// group position is below nine.
pub open spec fn rows_become_records(t: Seq<(String, Vec<String>, String, usize)>, records: Seq<EmojiRecord>) -> bool {
    &&& t.len() == records.len()
    &&& forall|i: int| 0 <= i < t.len() ==> t[i].3 < 9 && record_of_row(#[trigger] records[i], t[i])
}

/// The positions of the emojis of a group, in table order.
pub open spec fn in_group(records: Seq<EmojiRecord>, g: EmojiGroup, k: nat) -> Seq<usize>
    decreases k,
{
    if k == 0 {
        Seq::empty()
    } else {
        let prev = in_group(records, g, (k - 1) as nat);
        if records[k - 1].group == g {
            prev.push((k - 1) as usize)
        } else {
            prev
        }
    }
}

pub fn emojis_in_group(records: &Vec<EmojiRecord>, g: &EmojiGroup) -> (out: Vec<usize>)
    ensures
        out@ == in_group(records@, *g, records@.len() as nat),
{
    let mut out: Vec<usize> = Vec::new();
    let mut i: usize = 0;
    while i < records.len()
        invariant
            i <= records@.len(),
            out@ == in_group(records@, *g, i as nat),
        decreases records.len() - i,
    {
        if records[i].group == *g {
            out.push(i);
        }
        i = i + 1;
    }
    out
}

/// Whether `needle` occurs in `hay`.
pub open spec fn occurs_in(hay: Seq<char>, needle: Seq<char>) -> bool {
    exists|i: int| 0 <= i && i + needle.len() <= hay.len() && #[trigger] hay.subrange(i, i + needle.len()) == needle
}

fn match_at(hay: &Vec<char>, needle: &Vec<char>, i: usize) -> (b: bool)
    requires
        i + needle@.len() <= hay@.len(),
    ensures
        b == (hay@.subrange(i as int, i + needle@.len()) == needle@),
{
    let hl = hay.len();
    let mut k: usize = 0;
    while k < needle.len()
        invariant
            hl == hay@.len(),
            i + needle@.len() <= hay@.len(),
            k <= needle@.len(),
            forall|j: int| 0 <= j < k ==> hay@[i + j] == needle@[j],
        decreases needle.len() - k,
    {
        if hay[i + k] != needle[k] {
            assert(hay@.subrange(i as int, i + needle@.len())[k as int] != needle@[k as int]);
            return false;
        }
        k = k + 1;
    }
    assert(hay@.subrange(i as int, i + needle@.len()) =~= needle@);
    true
}

/// Whether the text contains the other, as `str::contains` tells.
pub fn text_contains(hay: &str, needle: &str) -> (b: bool)
    ensures
        b == occurs_in(hay@, needle@),
{
    let h = chars_of(hay);
    let n = chars_of(needle);
    if n.len() > h.len() {
        return false;
    }
    if n.len() == 0 {
        assert(hay@.subrange(0int, 0int + needle@.len()) =~= needle@);
        return true;
    }
    let hl = h.len();
    let last = hl - n.len();
    let mut i: usize = 0;
    while i <= last
        invariant
            hl == h@.len(),
            h@ == hay@,
            n@ == needle@,
            n@.len() > 0,
            last + n@.len() == h@.len(),
            i <= last + 1,
            forall|j: int| 0 <= j < i ==> #[trigger] hay@.subrange(j, j + needle@.len()) != needle@,
        decreases last + 1 - i,
    {
        if match_at(&h, &n, i) {
            return true;
        }
        i = i + 1;
    }
    assert forall|j: int| 0 <= j && j + needle@.len() <= hay@.len() implies #[trigger] hay@.subrange(j, j + needle@.len()) != needle@ by {
        assert(j <= last);
    }
    false
}

/// The emojis whose lowercase name contains the lowercase search, in table
/// order.
pub open spec fn search_hits(records: Seq<EmojiRecord>, query: Seq<char>, k: nat) -> Seq<usize>
    decreases k,
{
    if k == 0 {
        Seq::empty()
    } else {
        let prev = search_hits(records, query, (k - 1) as nat);
        if occurs_in(std_lowercase(records[k - 1].item.name@), std_lowercase(query)) {
            prev.push((k - 1) as usize)
        } else {
            prev
        }
    }
}

/// Searches the emojis by name, ignoring case.
pub fn search_emojis(records: &Vec<EmojiRecord>, query: &str) -> (out: Vec<usize>)
    ensures
        out@ == search_hits(records@, query@, records@.len() as nat),
{
    let q = lowercase(query);
    let mut out: Vec<usize> = Vec::new();
    let mut i: usize = 0;
    while i < records.len()
        invariant
            i <= records@.len(),
            q@ == std_lowercase(query@),
            out@ == search_hits(records@, query@, i as nat),
        decreases records.len() - i,
    {
        let name = lowercase(records[i].item.name.as_str());
        if text_contains(name.as_str(), q.as_str()) {
            out.push(i);
        }
        i = i + 1;
    }
    out
}

/// The folded groups after a click on a group's heading: that group's flag
/// flips, the others stay.
pub open spec fn toggled_groups(collapsed: Seq<bool>, g: EmojiGroup) -> Seq<bool> {
    collapsed.update(group_index(g) as int, !collapsed[group_index(g) as int])
}

/// Clicking a group's heading twice leaves the groups folded as before.
pub proof fn law_toggle_twice_restores(collapsed: Seq<bool>, g: EmojiGroup)
    requires
        collapsed.len() == 9,
    ensures
        toggled_groups(toggled_groups(collapsed, g), g) == collapsed,
{
    assert(toggled_groups(toggled_groups(collapsed, g), g) =~= collapsed);
}

/// What the picker shows: the search typed, the group in view, and the
/// groups folded away.
pub struct EmojiPickerView {
    pub search: String,
    pub active_group: EmojiGroup,
    pub collapsed: [bool; 9],
}

impl EmojiPickerView {
    /// Opening the picker clears the search, shows the first group and
    /// unfolds every group.
    pub fn opened() -> (v: EmojiPickerView)
        ensures
            v.search@.len() == 0,
            v.active_group == EmojiGroup::SmileysAndEmotion,
            forall|i: int| 0 <= i < 9 ==> !v.collapsed@[i],
    {
        EmojiPickerView { search: String::new(), active_group: EmojiGroup::SmileysAndEmotion, collapsed: [false; 9] }
    }

    /// Clicking a group's heading folds it away or unfolds it.
    pub fn toggle_group(&mut self, g: &EmojiGroup)
        ensures
            final(self).collapsed@ == toggled_groups(old(self).collapsed@, *g),
            final(self).search == old(self).search,
            final(self).active_group == old(self).active_group,
    {
        let i = index_of_group(g);
        let v = self.collapsed[i];
        self.collapsed[i] = !v;
    }
}

} // verus!
