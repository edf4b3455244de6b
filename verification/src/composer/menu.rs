//! The autocomplete menu: which users, rooms, commands or emojis match what
//! is typed after a trigger character, and in which order they appear.

use vstd::prelude::*;
use vstd::utf8::*;
use crate::outside::{fuzzy_score, lowercase, nucleo_fuzzy_score, std_lowercase};
use crate::composer::caret::{active_filter_text, get_active_filter};
use crate::display::numbers::{decimal, decimal_string};
use crate::display::system::{join, join_strings, strings_view};

verus! {

broadcast use vstd::string::group_string_axioms;

/// The most entries the menu lists.
pub const MENU_LIMIT: usize = 50;

/// Whether the item at `a` is listed before the item at `b`: a higher
/// score first, and among equal scores the earlier item.
pub open spec fn ranks_before(scores: Seq<Option<u16>>, a: int, b: int) -> bool {
    scores[a]->0 > scores[b]->0 || (scores[a]->0 == scores[b]->0 && a < b)
}

/// `out` lists the scored items by descending score, keeping the given
/// order among equal scores, and stops after `MENU_LIMIT` entries.
pub open spec fn is_ranking(scores: Seq<Option<u16>>, out: Seq<usize>) -> bool {
    &&& out.len() <= MENU_LIMIT
    &&& forall|i: int| 0 <= i < out.len() ==> out[i] < scores.len() && scores[out[i] as int] is Some
    &&& forall|i: int, j: int| 0 <= i < j < out.len() ==> ranks_before(scores, out[i] as int, out[j] as int)
    &&& forall|x: int|
        0 <= x < scores.len() && scores[x] is Some && !out.contains(x as usize) ==> {
            &&& out.len() == MENU_LIMIT
            &&& forall|i: int| 0 <= i < out.len() ==> ranks_before(scores, out[i] as int, x)
        }
}

fn score_at(scores: &Vec<Option<u16>>, i: usize) -> (s: u16)
    requires
        i < scores@.len(),
        scores@[i as int] is Some,
    ensures
        s == scores@[i as int]->0,
{
    match scores[i] {
        Some(v) => v,
        None => 0,
    }
}

/// Orders the scored items, best first, and keeps the first fifty. Items
/// without a score are left out; among equal scores the earlier item comes
/// first.
pub fn rank_by_scores(scores: &Vec<Option<u16>>) -> (out: Vec<usize>)
    ensures
        is_ranking(scores@, out@),
{
    let mut ranked: Vec<usize> = Vec::new();
    let mut x: usize = 0;
    while x < scores.len()
        invariant
            x <= scores@.len(),
            forall|i: int| 0 <= i < ranked@.len() ==> ranked@[i] < x && scores@[ranked@[i] as int] is Some,
            forall|i: int, j: int|
                0 <= i < j < ranked@.len() ==> ranks_before(scores@, ranked@[i] as int, ranked@[j] as int),
            forall|y: int| 0 <= y < x && scores@[y] is Some ==> ranked@.contains(y as usize),
        decreases scores.len() - x,
    {
        match scores[x] {
            Some(s) => {
                let mut p: usize = 0;
                while p < ranked.len() && score_at(scores, ranked[p]) >= s
                    invariant
                        p <= ranked@.len(),
                        x < scores@.len(),
                        scores@[x as int] == Some(s),
                        forall|i: int| 0 <= i < ranked@.len() ==> ranked@[i] < x && scores@[ranked@[i] as int] is Some,
                        forall|i: int| 0 <= i < p ==> scores@[ranked@[i] as int]->0 >= s,
                    decreases ranked.len() - p,
                {
                    p = p + 1;
                }
                let ghost before = ranked@;
                proof {
                    if p < ranked@.len() {
                        assert(scores@[ranked@[p as int] as int]->0 < s);
                    }
                }
                ranked.insert(p, x);
                proof {
                    assert(ranked@ == before.insert(p as int, x));
                    assert forall|i: int, j: int| 0 <= i < j < ranked@.len() implies ranks_before(
                        scores@,
                        ranked@[i] as int,
                        ranked@[j] as int,
                    ) by {
                        if j < p {
                            assert(ranked@[i] == before[i] && ranked@[j] == before[j]);
                        } else if j == p {
                            assert(ranked@[i] == before[i]);
                        } else if i < p {
                            assert(ranked@[i] == before[i] && ranked@[j] == before[j - 1]);
                        } else if i == p {
                            assert(ranked@[j] == before[j - 1]);
                            assert(ranks_before(scores@, before[p as int] as int, before[j - 1] as int)
                                || j - 1 == p);
                        } else {
                            assert(ranked@[i] == before[i - 1] && ranked@[j] == before[j - 1]);
                        }
                    }
                    assert forall|y: int| 0 <= y < x + 1 && scores@[y] is Some implies ranked@.contains(
                        y as usize,
                    ) by {
                        if y < x {
                            let w = choose|w: int| 0 <= w < before.len() && before[w] == y as usize;
                            if w < p {
                                assert(ranked@[w] == y as usize);
                            } else {
                                assert(ranked@[w + 1] == y as usize);
                            }
                        } else {
                            assert(ranked@[p as int] == x);
                        }
                    }
                }
            },
            None => {},
        }
        x = x + 1;
    }
    let ghost full = ranked@;
    if ranked.len() > MENU_LIMIT {
        ranked.truncate(MENU_LIMIT);
    }
    proof {
        assert forall|y: int|
            0 <= y < scores@.len() && scores@[y] is Some && !ranked@.contains(y as usize) implies {
            &&& ranked@.len() == MENU_LIMIT
            &&& forall|i: int| 0 <= i < ranked@.len() ==> ranks_before(scores@, ranked@[i] as int, y)
        } by {
            assert(full.contains(y as usize));
            let w = choose|w: int| 0 <= w < full.len() && full[w] == y as usize;
            if w < ranked@.len() {
                assert(ranked@[w] == y as usize);
            }
            assert forall|i: int| 0 <= i < ranked@.len() implies ranks_before(scores@, ranked@[i] as int, y) by {
                assert(ranked@[i] == full[i]);
            }
        }
    }
    ranked
}

/// The score of one match field against the lowercase filter: the field,
/// lowercased, fuzzily matched.
pub open spec fn field_match(needle: Seq<char>, field: Option<String>) -> Option<u16> {
    match field {
        Some(t) => nucleo_fuzzy_score(std_lowercase(t@), needle),
        None => None,
    }
}

/// Earlier fields weigh more: each field ahead of the last adds ten.
pub open spec fn field_bonus(n_fields: nat, k: int) -> int {
    (n_fields - 1 - k) * 10
}

/// The best score with bonus among the first `k` fields.
pub open spec fn best_upto(needle: Seq<char>, fields: Seq<Option<String>>, k: nat) -> Option<int>
    decreases k,
{
    if k == 0 {
        None
    } else {
        let prev = best_upto(needle, fields, (k - 1) as nat);
        match field_match(needle, fields[k - 1]) {
            Some(s) => {
                let f = s + field_bonus(fields.len(), k - 1);
                match prev {
                    Some(p) => if f > p {
                        Some(f)
                    } else {
                        Some(p)
                    },
                    None => Some(f),
                }
            },
            None => prev,
        }
    }
}

/// An item's score: the best of its fields' scores with their bonuses.
pub open spec fn item_score(needle: Seq<char>, fields: Seq<Option<String>>) -> Option<u16> {
    match best_upto(needle, fields, fields.len()) {
        Some(s) => Some(s as u16),
        None => None,
    }
}

/// Whether field `k` of an item can be scored within the matcher's limits:
/// its lowercase text fits the matcher, and its score with bonus fits the
/// score's sixteen bits.
pub open spec fn field_fits(needle: Seq<char>, fields: Seq<Option<String>>, k: int) -> bool {
    &&& fields[k] is Some ==> encode_utf8(std_lowercase(fields[k]->0@)).len() <= u32::MAX
    &&& field_match(needle, fields[k]) is Some ==> field_match(needle, fields[k])->0 + field_bonus(
        fields.len(),
        k,
    ) <= u16::MAX
}

/// Whether an item can be scored within the matcher's limits.
pub open spec fn item_fits(needle: Seq<char>, fields: Seq<Option<String>>) -> bool {
    &&& fields.len() <= 6554
    &&& forall|k: int| 0 <= k < fields.len() ==> field_fits(needle, fields, k)
}

proof fn lemma_best_bounded(needle: Seq<char>, fields: Seq<Option<String>>, k: nat)
    requires
        k <= fields.len(),
        fields.len() <= 6554,
        forall|j: int| 0 <= j < k ==> field_fits(needle, fields, j),
    ensures
        best_upto(needle, fields, k) matches Some(b) ==> 0 <= b <= u16::MAX,
    decreases k,
{
    if k > 0 {
        lemma_best_bounded(needle, fields, (k - 1) as nat);
        assert(field_fits(needle, fields, k - 1));
    }
}

/// Scores an item's fields against the lowercase filter, or gives `None`
/// where a field exceeds the matcher's limits.
fn score_item(needle: &String, fields: &Vec<Option<String>>) -> (r: Option<Option<u16>>)
    ensures
        match r {
            Some(score) => item_fits(needle@, fields@) && score == item_score(needle@, fields@),
            None => !item_fits(needle@, fields@),
        },
{
    let n = fields.len();
    if n > 6554 {
        return None;
    }
    let mut best: Option<u16> = None;
    let mut k: usize = 0;
    while k < n
        invariant
            n == fields@.len(),
            n <= 6554,
            k <= n,
            forall|j: int| 0 <= j < k ==> field_fits(needle@, fields@, j),
            match best_upto(needle@, fields@, k as nat) {
                Some(b) => best == Some(b as u16) && 0 <= b <= u16::MAX,
                None => best is None,
            },
        decreases n - k,
    {
        match &fields[k] {
            Some(text) => {
                let lower = lowercase(text.as_str());
                if lower.as_str().len() > 4_294_967_295usize {
                    assert(!field_fits(needle@, fields@, k as int));
                    return None;
                }
                match fuzzy_score(lower.as_str(), needle.as_str()) {
                    Some(sc) => {
                        let bonus: usize = (n - 1 - k) * 10;
                        if sc as usize + bonus > 65535 {
                            assert(!field_fits(needle@, fields@, k as int));
                            return None;
                        }
                        let f: u16 = sc + bonus as u16;
                        best = match best {
                            Some(p) => if f > p {
                                Some(f)
                            } else {
                                Some(p)
                            },
                            None => Some(f),
                        };
                    },
                    None => {},
                }
            },
            None => {},
        }
        k = k + 1;
    }
    Some(best)
}

/// The scores of all items, or `None` where one exceeds the matcher's
/// limits.
pub open spec fn all_fit(needle: Seq<char>, items: Seq<Vec<Option<String>>>) -> bool {
    forall|i: int| 0 <= i < items.len() ==> item_fits(needle, #[trigger] items[i]@)
}

pub open spec fn item_scores(needle: Seq<char>, items: Seq<Vec<Option<String>>>) -> Seq<Option<u16>> {
    Seq::new(items.len(), |i: int| item_score(needle, items[i]@))
}

fn score_items(needle: &String, items: &Vec<Vec<Option<String>>>) -> (r: Option<Vec<Option<u16>>>)
    ensures
        match r {
            Some(scores) => all_fit(needle@, items@) && scores@ == item_scores(needle@, items@),
            None => !all_fit(needle@, items@),
        },
{
    let mut scores: Vec<Option<u16>> = Vec::new();
    let mut i: usize = 0;
    while i < items.len()
        invariant
            i <= items@.len(),
            forall|j: int| 0 <= j < i ==> item_fits(needle@, #[trigger] items@[j]@),
            scores@ == item_scores(needle@, items@).take(i as int),
        decreases items.len() - i,
    {
        match score_item(needle, &items[i]) {
            Some(score) => {
                scores.push(score);
                assert(scores@ =~= item_scores(needle@, items@).take(i + 1));
            },
            None => {
                return None;
            },
        }
        i = i + 1;
    }
    assert(item_scores(needle@, items@).take(items@.len() as int) =~= item_scores(needle@, items@));
    Some(scores)
}

/// The first `min(n, MENU_LIMIT)` positions, in order.
pub open spec fn leading_positions(n: nat) -> Seq<usize> {
    Seq::new(if n < MENU_LIMIT { n } else { MENU_LIMIT as nat }, |i: int| i as usize)
}

fn first_positions(n: usize) -> (out: Vec<usize>)
    ensures
        out@ == leading_positions(n as nat),
{
    let m: usize = if n < MENU_LIMIT { n } else { MENU_LIMIT };
    let mut out: Vec<usize> = Vec::new();
    let mut i: usize = 0;
    while i < m
        invariant
            i <= m,
            m == (if n < MENU_LIMIT { n } else { MENU_LIMIT }),
            out@ == Seq::new(i as nat, |j: int| j as usize),
        decreases m - i,
    {
        out.push(i);
        assert(out@ =~= Seq::new((i + 1) as nat, |j: int| j as usize));
        i = i + 1;
    }
    out
}

/// What the menu lists for a filter: without a filter the first fifty
/// items in their order; with one, the items whose fields match the
/// lowercase filter, ranked by score.
pub open spec fn menu_result(filter: Seq<char>, items: Seq<Vec<Option<String>>>, out: Seq<usize>) -> bool {
    if filter.len() == 0 {
        out == leading_positions(items.len())
    } else {
        is_ranking(item_scores(std_lowercase(filter), items), out)
    }
}

/// Picks the menu entries among the items, each given by its match fields
/// in order of weight, and returns their positions in the order shown.
pub fn filter_items(filter: &str, items: &Vec<Vec<Option<String>>>) -> (out: Vec<usize>)
    requires
        filter@.len() > 0 ==> all_fit(std_lowercase(filter@), items@),
    ensures
        menu_result(filter@, items@, out@),
{
    if filter.is_empty() {
        return first_positions(items.len());
    }
    let needle = lowercase(filter);
    match score_items(&needle, items) {
        Some(scores) => rank_by_scores(&scores),
        None => Vec::new(),
    }
}

/// Like `filter_items`, for any fields: `None` where a field's lowercase
/// text is too long for the matcher or its score with bonus overflows.
pub fn filter_items_checked(filter: &str, items: &Vec<Vec<Option<String>>>) -> (out: Option<Vec<usize>>)
    ensures
        match out {
            Some(o) => menu_result(filter@, items@, o@),
            None => filter@.len() > 0 && !all_fit(std_lowercase(filter@), items@),
        },
{
    if !filter.is_empty() {
        let needle = lowercase(filter);
        if score_items(&needle, items).is_none() {
            return None;
        }
    }
    Some(filter_items(filter, items))
}

/// Which autocomplete menu is open, with the filter typed after its
/// trigger character.
pub enum MenuType {
    NoMenu,
    UserAutocomplete { filter: String },
    CommandAutocomplete { filter: String },
    RoomAutocomplete { filter: String },
    EmojiAutocomplete { filter: String },
}

/// The kinds of entries a menu lists.
pub enum MenuKind {
    Users,
    Commands,
    Rooms,
    Emojis,
}

/// A menu as its kind and filter.
pub open spec fn menu_view(m: MenuType) -> Option<(MenuKind, Seq<char>)> {
    match m {
        MenuType::NoMenu => None,
        MenuType::UserAutocomplete { filter } => Some((MenuKind::Users, filter@)),
        MenuType::CommandAutocomplete { filter } => Some((MenuKind::Commands, filter@)),
        MenuType::RoomAutocomplete { filter } => Some((MenuKind::Rooms, filter@)),
        MenuType::EmojiAutocomplete { filter } => Some((MenuKind::Emojis, filter@)),
    }
}

impl MenuType {
    pub fn is_none(&self) -> (b: bool)
        ensures
            b == (*self is NoMenu),
    {
        match self {
            MenuType::NoMenu => true,
            _ => false,
        }
    }
}

/// The trigger characters, as code units: `@`, `/`, `#` and `:`.
pub const TRIGGER_USER: u16 = 64;
pub const TRIGGER_COMMAND: u16 = 47;
pub const TRIGGER_ROOM: u16 = 35;
pub const TRIGGER_EMOJI: u16 = 58;

/// The menu that the caret opens: a filter after `@` opens the members,
/// else one after `/` the commands, else one after `#` the rooms, else one
/// after `:` the emojis; otherwise none.
pub open spec fn menu_at_caret_spec(text: Seq<char>, offset: int, in_span: bool) -> Option<(MenuKind, Seq<char>)> {
    if let Some(f) = active_filter_text(text, offset, in_span, TRIGGER_USER) {
        Some((MenuKind::Users, f))
    } else if let Some(f) = active_filter_text(text, offset, in_span, TRIGGER_COMMAND) {
        Some((MenuKind::Commands, f))
    } else if let Some(f) = active_filter_text(text, offset, in_span, TRIGGER_ROOM) {
        Some((MenuKind::Rooms, f))
    } else if let Some(f) = active_filter_text(text, offset, in_span, TRIGGER_EMOJI) {
        Some((MenuKind::Emojis, f))
    } else {
        None
    }
}

/// Decides which menu the caret opens, from the text of its node, its
/// offset there and whether the node sits inside a span.
pub fn menu_at_caret(text: &str, local_offset: u32, in_span: bool) -> (m: MenuType)
    ensures
        menu_view(m) == menu_at_caret_spec(text@, local_offset as int, in_span),
{
    if let Some(filter) = get_active_filter(text, local_offset, in_span, TRIGGER_USER) {
        MenuType::UserAutocomplete { filter }
    } else if let Some(filter) = get_active_filter(text, local_offset, in_span, TRIGGER_COMMAND) {
        MenuType::CommandAutocomplete { filter }
    } else if let Some(filter) = get_active_filter(text, local_offset, in_span, TRIGGER_ROOM) {
        MenuType::RoomAutocomplete { filter }
    } else if let Some(filter) = get_active_filter(text, local_offset, in_span, TRIGGER_EMOJI) {
        MenuType::EmojiAutocomplete { filter }
    } else {
        MenuType::NoMenu
    }
}

/// The entry count that ends a menu's title.
pub open spec fn count_suffix(len: nat) -> Seq<char> {
    " ("@ + decimal(len) + ")"@
}

/// The title of the open menu with `len` entries: the kind in capitals,
/// the filter after its trigger where one is typed, and the count.
pub open spec fn menu_title_spec(menu: MenuType, len: nat) -> Seq<char> {
    match menu {
        MenuType::NoMenu => Seq::empty(),
        MenuType::UserAutocomplete { filter } => if filter@.len() == 0 {
            "MEMBERS"@ + count_suffix(len)
        } else {
            "MEMBERS MATCHING @"@ + filter@ + count_suffix(len)
        },
        MenuType::CommandAutocomplete { filter } => if filter@.len() == 0 {
            "COMMANDS"@ + count_suffix(len)
        } else {
            "COMMANDS MATCHING /"@ + filter@ + count_suffix(len)
        },
        MenuType::RoomAutocomplete { filter } => if filter@.len() == 0 {
            "ROOMS"@ + count_suffix(len)
        } else {
            "ROOMS MATCHING #"@ + filter@ + count_suffix(len)
        },
        MenuType::EmojiAutocomplete { filter } => if filter@.len() == 0 {
            "EMOJIS"@ + count_suffix(len)
        } else {
            "EMOJIS MATCHING :"@ + filter@ + ":"@ + count_suffix(len)
        },
    }
}

fn count_suffix_string(len: usize) -> (s: String)
    ensures
        s@ == count_suffix(len as nat),
{
    let mut s = String::from_str(" (");
    let n = decimal_string(len as u64);
    s.append(n.as_str());
    s.append(")");
    s
}

fn title_with(empty_head: &str, matching_head: &str, filter: &String, closing: &str, len: usize) -> (s: String)
    ensures
        s@ == if filter@.len() == 0 {
            empty_head@ + count_suffix(len as nat)
        } else {
            matching_head@ + filter@ + closing@ + count_suffix(len as nat)
        },
{
    let suffix = count_suffix_string(len);
    if filter.as_str().is_empty() {
        let mut s = String::from_str(empty_head);
        s.append(suffix.as_str());
        s
    } else {
        let mut s = String::from_str(matching_head);
        s.append(filter.as_str());
        s.append(closing);
        s.append(suffix.as_str());
        s
    }
}

/// Writes the title of the open menu with `len` entries.
pub fn menu_title(menu: &MenuType, len: usize) -> (s: String)
    ensures
        s@ == menu_title_spec(*menu, len as nat),
{
    match menu {
        MenuType::NoMenu => String::new(),
        MenuType::UserAutocomplete { filter } => {
            let s = title_with("MEMBERS", "MEMBERS MATCHING @", filter, "", len);
            assert("MEMBERS MATCHING @"@ + filter@ + ""@ =~= "MEMBERS MATCHING @"@ + filter@) by {
                reveal_strlit("");
            }
            s
        },
        MenuType::CommandAutocomplete { filter } => {
            let s = title_with("COMMANDS", "COMMANDS MATCHING /", filter, "", len);
            assert("COMMANDS MATCHING /"@ + filter@ + ""@ =~= "COMMANDS MATCHING /"@ + filter@) by {
                reveal_strlit("");
            }
            s
        },
        MenuType::RoomAutocomplete { filter } => {
            let s = title_with("ROOMS", "ROOMS MATCHING #", filter, "", len);
            assert("ROOMS MATCHING #"@ + filter@ + ""@ =~= "ROOMS MATCHING #"@ + filter@) by {
                reveal_strlit("");
            }
            s
        },
        MenuType::EmojiAutocomplete { filter } => title_with("EMOJIS", "EMOJIS MATCHING :", filter, ":", len),
    }
}

/// A room member as the member menu lists it.
pub struct MemberEntry {
    pub user_id: String,
    pub display_name: Option<String>,
}

/// A command as the command menu lists it.
pub struct CommandEntry {
    pub source: String,
    pub name: String,
    pub usage: String,
    pub description: String,
}

/// A room as the room menu lists it.
pub struct RoomEntry {
    pub room_id: String,
    pub name: Option<String>,
    pub canonical_alias: Option<String>,
    pub aliases: Vec<String>,
}

/// An emoji as the emoji menu lists it.
pub struct EmojiItem {
    pub name: String,
    pub shortcodes: Vec<String>,
    pub character: String,
}

pub open spec fn opt_view(o: Option<String>) -> Option<Seq<char>> {
    match o {
        Some(s) => Some(s@),
        None => None,
    }
}

pub open spec fn fields_view(v: Seq<Option<String>>) -> Seq<Option<Seq<char>>> {
    v.map_values(|o: Option<String>| opt_view(o))
}

fn clone_opt(o: &Option<String>) -> (r: Option<String>)
    ensures
        opt_view(r) == opt_view(*o),
{
    match o {
        Some(s) => Some(s.clone()),
        None => None,
    }
}

/// The texts a member is matched by, the weightier first: the display
/// name, then the user id.
pub fn member_fields(m: &MemberEntry) -> (f: Vec<Option<String>>)
    ensures
        fields_view(f@) == seq![opt_view(m.display_name), Some(m.user_id@)],
{
    let mut f: Vec<Option<String>> = Vec::new();
    f.push(clone_opt(&m.display_name));
    f.push(Some(m.user_id.clone()));
    assert(fields_view(f@) =~= seq![opt_view(m.display_name), Some(m.user_id@)]);
    f
}

/// A command is matched by its name, then its description.
pub fn command_fields(c: &CommandEntry) -> (f: Vec<Option<String>>)
    ensures
        fields_view(f@) == seq![Some(c.name@), Some(c.description@)],
{
    let mut f: Vec<Option<String>> = Vec::new();
    f.push(Some(c.name.clone()));
    f.push(Some(c.description.clone()));
    assert(fields_view(f@) =~= seq![Some(c.name@), Some(c.description@)]);
    f
}

/// Several strings as one field, joined by spaces; none when there are none.
pub open spec fn joined_field(v: Seq<String>) -> Option<Seq<char>> {
    if v.len() == 0 {
        None
    } else {
        Some(join(strings_view(v), " "@))
    }
}

fn joined_strings(v: &Vec<String>) -> (r: Option<String>)
    ensures
        opt_view(r) == joined_field(v@),
{
    if v.len() == 0 {
        None
    } else {
        Some(join_strings(v, " "))
    }
}

/// A room is matched by its name, then its canonical alias, then all its
/// aliases.
pub fn room_fields(r: &RoomEntry) -> (f: Vec<Option<String>>)
    ensures
        fields_view(f@) == seq![opt_view(r.name), opt_view(r.canonical_alias), joined_field(r.aliases@)],
{
    let mut f: Vec<Option<String>> = Vec::new();
    f.push(clone_opt(&r.name));
    f.push(clone_opt(&r.canonical_alias));
    f.push(joined_strings(&r.aliases));
    assert(fields_view(f@) =~= seq![opt_view(r.name), opt_view(r.canonical_alias), joined_field(r.aliases@)]);
    f
}

/// An emoji is matched by its shortcodes, then its name.
pub fn emoji_fields(e: &EmojiItem) -> (f: Vec<Option<String>>)
    ensures
        fields_view(f@) == seq![joined_field(e.shortcodes@), Some(e.name@)],
{
    let mut f: Vec<Option<String>> = Vec::new();
    f.push(joined_strings(&e.shortcodes));
    f.push(Some(e.name.clone()));
    assert(fields_view(f@) =~= seq![joined_field(e.shortcodes@), Some(e.name@)]);
    f
}

/// The key a menu row is kept by.
pub open spec fn command_id(c: CommandEntry) -> Seq<char> {
    c.source@ + ":"@ + c.name@
}

pub fn command_entry_id(c: &CommandEntry) -> (id: String)
    ensures
        id@ == command_id(*c),
{
    let mut id = c.source.clone();
    id.append(":");
    id.append(c.name.as_str());
    id
}

/// The entries an open menu lists.
pub enum MenuCompletionMatches {
    User(Vec<MemberEntry>),
    Command(Vec<CommandEntry>),
    Room(Vec<RoomEntry>),
    Emoji(Vec<EmojiItem>),
    NoMatches,
}

/// The number of entries listed.
pub open spec fn matches_len(m: MenuCompletionMatches) -> nat {
    match m {
        MenuCompletionMatches::User(v) => v@.len(),
        MenuCompletionMatches::Command(v) => v@.len(),
        MenuCompletionMatches::Room(v) => v@.len(),
        MenuCompletionMatches::Emoji(v) => v@.len(),
        MenuCompletionMatches::NoMatches => 0,
    }
}

/// The entry chosen from a menu.
pub enum SelectedItem {
    User(usize),
    Command(usize),
    Room(usize),
    Emoji(usize),
}

impl MenuCompletionMatches {
    pub fn len(&self) -> (n: usize)
        ensures
            n == matches_len(*self),
    {
        match self {
            MenuCompletionMatches::User(v) => v.len(),
            MenuCompletionMatches::Command(v) => v.len(),
            MenuCompletionMatches::Room(v) => v.len(),
            MenuCompletionMatches::Emoji(v) => v.len(),
            MenuCompletionMatches::NoMatches => 0,
        }
    }

    /// The entry at `index`, by its kind and position, where there is one.
    pub fn get(&self, index: usize) -> (r: Option<SelectedItem>)
        ensures
            r is Some <==> index < matches_len(*self),
            r matches Some(item) ==> match (item, *self) {
                (SelectedItem::User(i), MenuCompletionMatches::User(_)) => i == index,
                (SelectedItem::Command(i), MenuCompletionMatches::Command(_)) => i == index,
                (SelectedItem::Room(i), MenuCompletionMatches::Room(_)) => i == index,
                (SelectedItem::Emoji(i), MenuCompletionMatches::Emoji(_)) => i == index,
                _ => false,
            },
    {
        if index >= self.len() {
            return None;
        }
        match self {
            MenuCompletionMatches::User(_) => Some(SelectedItem::User(index)),
            MenuCompletionMatches::Command(_) => Some(SelectedItem::Command(index)),
            MenuCompletionMatches::Room(_) => Some(SelectedItem::Room(index)),
            MenuCompletionMatches::Emoji(_) => Some(SelectedItem::Emoji(index)),
            MenuCompletionMatches::NoMatches => None,
        }
    }
}

} // verus!
