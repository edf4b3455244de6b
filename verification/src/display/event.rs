//! What a timeline event row shows around its content: the action buttons,
//! the highlight bar, the pin mark, read receipts and reactions, and the
//! texts of rows that are not messages.

use vstd::prelude::*;
use crate::display::system::{prefix_strings, strings_view};
use crate::display::numbers::{overflow_label, overflow_label_spec};

verus! {

broadcast use vstd::string::group_string_axioms;

/// What the backend allows for an event.
pub struct EventFlags {
    pub is_reactable: bool,
    pub can_be_replied_to: bool,
    pub is_editable: bool,
    pub is_deletable: bool,
    pub is_highlighted: bool,
}

/// The buttons of the action bar that hovers over a message.
pub struct MessageActions {
    /// The recently used reactions offered for one click, most used first.
    pub quick_reactions: Vec<String>,
    pub react: bool,
    pub reply: bool,
    pub edit: bool,
    pub pin: bool,
    pub delete: bool,
    /// Whether the pin button takes the pin off (and asks to unpin).
    pub pin_removes: bool,
    /// Whether the bar is hidden for want of anything to offer.
    pub hidden: bool,
}

/// The number of recent reactions the action bar offers.
pub const QUICK_REACTIONS: usize = 3;

pub open spec fn quick_reactions_spec(flags: EventFlags, recent: Seq<Seq<char>>) -> Seq<Seq<char>> {
    if flags.is_reactable {
        recent.take(if recent.len() < QUICK_REACTIONS { recent.len() as int } else { QUICK_REACTIONS as int })
    } else {
        Seq::empty()
    }
}

/// Decides the action bar of a message: the quick reactions appear for a
/// reactable event (the first three of the recent ones), each button for
/// what the flags allow, the pin button for members allowed to pin, and
/// the bar hides when the event can be neither reacted to, replied to nor
/// edited and has no id.
pub fn message_actions(
    flags: &EventFlags,
    has_event_id: bool,
    can_pin: bool,
    is_pinned: bool,
    recent: &Vec<String>,
) -> (a: MessageActions)
    ensures
        strings_view(a.quick_reactions@) == quick_reactions_spec(*flags, strings_view(recent@)),
        a.react == flags.is_reactable,
        a.reply == flags.can_be_replied_to,
        a.edit == flags.is_editable,
        a.pin == can_pin,
        a.delete == flags.is_deletable,
        a.pin_removes == is_pinned,
        a.hidden == (!flags.is_reactable && !flags.can_be_replied_to && !flags.is_editable
            && !has_event_id),
{
    let quick: Vec<String> = if flags.is_reactable {
        let n: usize = if recent.len() < QUICK_REACTIONS { recent.len() } else { QUICK_REACTIONS };
        prefix_strings(recent, n)
    } else {
        let v: Vec<String> = Vec::new();
        assert(strings_view(v@) =~= Seq::<Seq<char>>::empty());
        v
    };
    MessageActions {
        quick_reactions: quick,
        react: flags.is_reactable,
        reply: flags.can_be_replied_to,
        edit: flags.is_editable,
        pin: can_pin,
        delete: flags.is_deletable,
        pin_removes: is_pinned,
        hidden: !flags.is_reactable && !flags.can_be_replied_to && !flags.is_editable && !has_event_id,
    }
}

/// The confirmation a click on the pin button opens.
pub enum PinConfirm {
    Pin,
    Unpin,
}

/// A pinned message asks whether to unpin it, any other whether to pin it.
pub fn pin_confirm(is_pinned: bool) -> (c: PinConfirm)
    ensures
        (c is Unpin) == is_pinned,
{
    if is_pinned {
        PinConfirm::Unpin
    } else {
        PinConfirm::Pin
    }
}

/// The overlays that a message's buttons open: the emoji picker, and the
/// dialogs that confirm a deletion, a pin and an unpin.
#[derive(Clone, Copy)]
pub struct ButtonOverlays {
    pub picker_open: bool,
    pub confirm_delete: bool,
    pub confirm_pin: bool,
    pub confirm_unpin: bool,
}

/// What the user does with a message's buttons and their overlays.
pub enum ButtonEvent {
    /// The react button is clicked.
    React,
    /// The emoji picker closes, with the emoji chosen, if any.
    Picked(Option<String>),
    /// The delete button is clicked.
    Delete,
    /// The pin button is clicked, on a message that is pinned or not.
    PinButton { is_pinned: bool },
    /// A confirmation dialog's cancel button is clicked.
    Cancel(ConfirmDialog),
    /// A confirmation dialog's confirm button is clicked.
    Confirm(ConfirmDialog),
}

/// Which confirmation dialog a button belongs to.
#[derive(Clone, Copy)]
pub enum ConfirmDialog {
    Delete,
    Pin,
    Unpin,
}

/// What the buttons ask of the backend.
pub enum ButtonRequest {
    NoRequest,
    /// Open the emoji picker over the react button.
    OpenPicker,
    /// Toggle the user's reaction with this emoji.
    ToggleReaction(String),
    DeleteMessage,
    PinMessage,
    UnpinMessage,
}

/// The overlays with one dialog's flag set to `open`.
pub open spec fn with_dialog(o: ButtonOverlays, d: ConfirmDialog, open: bool) -> ButtonOverlays {
    match d {
        ConfirmDialog::Delete => ButtonOverlays { confirm_delete: open, ..o },
        ConfirmDialog::Pin => ButtonOverlays { confirm_pin: open, ..o },
        ConfirmDialog::Unpin => ButtonOverlays { confirm_unpin: open, ..o },
    }
}

/// Whether the row is being interacted with, which keeps its buttons shown:
/// while the picker or the delete dialog is open.
pub open spec fn interacting(o: ButtonOverlays) -> bool {
    o.picker_open || o.confirm_delete
}

/// What one step of a message's buttons gives: the overlays after it and
/// the request it makes.
pub open spec fn button_step_spec(o: ButtonOverlays, e: ButtonEvent, has_event_id: bool, r: (ButtonOverlays, ButtonRequest)) -> bool {
    match e {
        ButtonEvent::React => if has_event_id {
            r.0 == (ButtonOverlays { picker_open: true, ..o }) && r.1 is OpenPicker
        } else {
            r.0 == o && r.1 is NoRequest
        },
        ButtonEvent::Picked(choice) => r.0 == (ButtonOverlays { picker_open: false, ..o }) && match choice {
            Some(emoji) => r.1 matches ButtonRequest::ToggleReaction(x) && x@ == emoji@,
            None => r.1 is NoRequest,
        },
        ButtonEvent::Delete => r.0 == with_dialog(o, ConfirmDialog::Delete, true) && r.1 is NoRequest,
        ButtonEvent::PinButton { is_pinned } => r.1 is NoRequest && r.0 == with_dialog(
            o,
            if is_pinned { ConfirmDialog::Unpin } else { ConfirmDialog::Pin },
            true,
        ),
        ButtonEvent::Cancel(d) => r.0 == with_dialog(o, d, false) && r.1 is NoRequest,
        ButtonEvent::Confirm(d) => r.0 == with_dialog(o, d, false) && (if !has_event_id {
            r.1 is NoRequest
        } else {
            match d {
                ConfirmDialog::Delete => r.1 is DeleteMessage,
                ConfirmDialog::Pin => r.1 is PinMessage,
                ConfirmDialog::Unpin => r.1 is UnpinMessage,
            }
        }),
    }
}

/// One step of a message's buttons. Reacting opens the picker (for an event
/// with an id), and a reaction is toggled only with the emoji the picker
/// hands back. Deleting, pinning and unpinning each open their dialog
/// first; only its confirm button asks the backend, and only for an event
/// with an id; cancel just closes the dialog.
pub fn button_step(o: ButtonOverlays, e: ButtonEvent, has_event_id: bool) -> (r: (ButtonOverlays, ButtonRequest))
    ensures
        button_step_spec(o, e, has_event_id, r),
{
    match e {
        ButtonEvent::React => {
            if has_event_id {
                (ButtonOverlays { picker_open: true, ..o }, ButtonRequest::OpenPicker)
            } else {
                (o, ButtonRequest::NoRequest)
            }
        },
        ButtonEvent::Picked(choice) => {
            let closed = ButtonOverlays { picker_open: false, ..o };
            match choice {
                Some(emoji) => (closed, ButtonRequest::ToggleReaction(emoji)),
                None => (closed, ButtonRequest::NoRequest),
            }
        },
        ButtonEvent::Delete => (ButtonOverlays { confirm_delete: true, ..o }, ButtonRequest::NoRequest),
        ButtonEvent::PinButton { is_pinned } => {
            if is_pinned {
                (ButtonOverlays { confirm_unpin: true, ..o }, ButtonRequest::NoRequest)
            } else {
                (ButtonOverlays { confirm_pin: true, ..o }, ButtonRequest::NoRequest)
            }
        },
        ButtonEvent::Cancel(d) => (close_dialog(o, d), ButtonRequest::NoRequest),
        ButtonEvent::Confirm(d) => {
            let closed = close_dialog(o, d);
            if !has_event_id {
                (closed, ButtonRequest::NoRequest)
            } else {
                match d {
                    ConfirmDialog::Delete => (closed, ButtonRequest::DeleteMessage),
                    ConfirmDialog::Pin => (closed, ButtonRequest::PinMessage),
                    ConfirmDialog::Unpin => (closed, ButtonRequest::UnpinMessage),
                }
            }
        },
    }
}

fn close_dialog(o: ButtonOverlays, d: ConfirmDialog) -> (c: ButtonOverlays)
    ensures
        c == with_dialog(o, d, false),
{
    match d {
        ConfirmDialog::Delete => ButtonOverlays { confirm_delete: false, ..o },
        ConfirmDialog::Pin => ButtonOverlays { confirm_pin: false, ..o },
        ConfirmDialog::Unpin => ButtonOverlays { confirm_unpin: false, ..o },
    }
}

/// Whether the row is being interacted with: while the emoji picker or the
/// delete dialog is open.
pub fn is_interacting(o: &ButtonOverlays) -> (b: bool)
    ensures
        b == interacting(*o),
{
    o.picker_open || o.confirm_delete
}

/// A message is deleted, pinned or unpinned only through its dialog's
/// confirm button, and a reaction is toggled only with what the picker
/// handed back: no click on the buttons themselves asks the backend for
/// any of these.
pub proof fn law_backend_only_after_confirmation(o: ButtonOverlays, e: ButtonEvent, has_event_id: bool, r: (ButtonOverlays, ButtonRequest))
    requires
        button_step_spec(o, e, has_event_id, r),
    ensures
        (r.1 is DeleteMessage) ==> e == ButtonEvent::Confirm(ConfirmDialog::Delete) && has_event_id,
        (r.1 is PinMessage) ==> e == ButtonEvent::Confirm(ConfirmDialog::Pin) && has_event_id,
        (r.1 is UnpinMessage) ==> e == ButtonEvent::Confirm(ConfirmDialog::Unpin) && has_event_id,
        r.1 matches ButtonRequest::ToggleReaction(x) ==> (e matches ButtonEvent::Picked(Some(y)) && y@ == x@),
{
}

/// The colour of the bar beside an event.
pub enum Highlight {
    /// The event the composer replies to or edits.
    Focused,
    /// An event that mentions the user.
    Mention,
    NoHighlight,
}

/// The event being replied to or edited is marked first; otherwise an event
/// that highlights the user is; otherwise none.
pub fn event_highlight(important: &Option<String>, event_id: &Option<String>, is_highlighted: bool) -> (h: Highlight)
    ensures
        (h is Focused) == (important is Some && event_id is Some && important->0@ == event_id->0@),
        (h is Mention) == (!(important is Some && event_id is Some && important->0@ == event_id->0@)
            && is_highlighted),
{
    let focused = match (important, event_id) {
        (Some(a), Some(b)) => *a == *b,
        _ => false,
    };
    if focused {
        Highlight::Focused
    } else if is_highlighted {
        Highlight::Mention
    } else {
        Highlight::NoHighlight
    }
}

pub open spec fn contains_string(v: Seq<String>, s: Seq<char>) -> bool {
    exists|i: int| 0 <= i < v.len() && v[i]@ == s
}

/// Whether a string occurs among the strings.
pub fn vec_contains_string(v: &Vec<String>, s: &String) -> (b: bool)
    ensures
        b == contains_string(v@, s@),
{
    let mut i: usize = 0;
    while i < v.len()
        invariant
            i <= v@.len(),
            forall|j: int| 0 <= j < i ==> v@[j]@ != s@,
        decreases v.len() - i,
    {
        if v[i] == *s {
            return true;
        }
        i = i + 1;
    }
    false
}

/// An event carries the pin mark when the setting asks for it and the
/// room's pinned events hold its id.
pub fn is_marked_pinned(mark_pinned: bool, pinned_events: &Vec<String>, event_id: &Option<String>) -> (b: bool)
    ensures
        b == (mark_pinned && event_id is Some && contains_string(pinned_events@, event_id->0@)),
{
    if !mark_pinned {
        return false;
    }
    match event_id {
        Some(id) => vec_contains_string(pinned_events, id),
        None => false,
    }
}

/// The users whose read receipts a row shows: all but the user.
pub open spec fn others(v: Seq<String>, own: Seq<char>) -> Seq<Seq<char>>
    decreases v.len(),
{
    if v.len() == 0 {
        Seq::empty()
    } else {
        let rest = others(v.drop_last(), own);
        if v.last()@ == own {
            rest
        } else {
            rest.push(v.last()@)
        }
    }
}

/// Drops the user's own id from the receipts, keeping the others in order.
pub fn receipts_of_others(receipts: &Vec<String>, own: &String) -> (out: Vec<String>)
    ensures
        strings_view(out@) == others(receipts@, own@),
{
    let mut out: Vec<String> = Vec::new();
    let mut i: usize = 0;
    while i < receipts.len()
        invariant
            i <= receipts@.len(),
            strings_view(out@) == others(receipts@.take(i as int), own@),
        decreases receipts.len() - i,
    {
        let ghost prev = out@;
        assert(receipts@.take(i + 1).drop_last() =~= receipts@.take(i as int));
        if receipts[i] != *own {
            let c = receipts[i].clone();
            out.push(c);
            assert(strings_view(out@) =~= strings_view(prev).push(receipts@[i as int]@));
        }
        i = i + 1;
    }
    assert(receipts@.take(receipts@.len() as int) =~= receipts@);
    out
}

/// The row of a timeline event, as far as it depends on hover and state.
pub struct RowChrome {
    /// Whether the row counts as active (hovered or in a dialog or picker),
    /// which keeps its action bar visible and dims its highlight.
    pub active: bool,
    /// Whether the time stands in the margin (rows without a header, hovered).
    pub margin_time: bool,
    /// Whether the margin time is indented past the highlight bar.
    pub margin_time_indented: bool,
}

/// Decides the hover state of an event row.
pub fn row_chrome(
    hovered: bool,
    picker_open: bool,
    dialog_open: bool,
    show_header: bool,
    has_highlight: bool,
    is_pinned: bool,
) -> (c: RowChrome)
    ensures
        c.active == (hovered || picker_open || dialog_open),
        c.margin_time == (hovered && !show_header),
        c.margin_time_indented == (has_highlight || is_pinned),
{
    RowChrome {
        active: hovered || picker_open || dialog_open,
        margin_time: hovered && !show_header,
        margin_time_indented: has_highlight || is_pinned,
    }
}

/// The number of reactor avatars a reaction chip draws.
pub const REACTORS_SHOWN: usize = 4;

/// A reaction under a message: the emoji, how many reacted, whether the
/// user is among them, the reactors whose avatars are drawn and the label
/// of the rest.
pub struct ReactionChip {
    pub emoji: String,
    pub count: usize,
    pub mine: bool,
    pub shown: Vec<String>,
    pub overflow: Option<String>,
}

/// Lays out one reaction chip from the users who reacted with `emoji`.
pub fn reaction_chip(emoji: &String, reactors: &Vec<String>, user: &String) -> (chip: ReactionChip)
    ensures
        chip.emoji@ == emoji@,
        chip.count == reactors@.len(),
        chip.mine == contains_string(reactors@, user@),
        strings_view(chip.shown@) == strings_view(reactors@).take(
            if reactors@.len() < REACTORS_SHOWN { reactors@.len() as int } else { REACTORS_SHOWN as int },
        ),
        match chip.overflow {
            Some(l) => overflow_label_spec(reactors@.len() as nat, REACTORS_SHOWN as nat) == Some(l@),
            None => overflow_label_spec(reactors@.len() as nat, REACTORS_SHOWN as nat) is None,
        },
{
    let n: usize = if reactors.len() < REACTORS_SHOWN { reactors.len() } else { REACTORS_SHOWN };
    ReactionChip {
        emoji: emoji.clone(),
        count: reactors.len(),
        mine: vec_contains_string(reactors, user),
        shown: prefix_strings(reactors, n),
        overflow: overflow_label(reactors.len(), REACTORS_SHOWN),
    }
}

/// The number of read-receipt avatars a row draws.
pub const RECEIPTS_SHOWN: usize = 5;

/// The read receipts beside an event: the avatars drawn and the label of
/// the rest.
pub struct ReceiptRow {
    pub shown: Vec<String>,
    pub overflow: Option<String>,
}

/// Lays out the read receipts of an event for the user `own`: the others'
/// receipts, the first five drawn and the rest counted.
pub fn receipt_row(receipts: &Vec<String>, own: &String) -> (row: ReceiptRow)
    ensures
        ({
            let o = others(receipts@, own@);
            &&& strings_view(row.shown@) == o.take(
                if o.len() < RECEIPTS_SHOWN { o.len() as int } else { RECEIPTS_SHOWN as int },
            )
            &&& match row.overflow {
                Some(l) => overflow_label_spec(o.len(), RECEIPTS_SHOWN as nat) == Some(l@),
                None => overflow_label_spec(o.len(), RECEIPTS_SHOWN as nat) is None,
            }
        }),
{
    let visible = receipts_of_others(receipts, own);
    let n: usize = if visible.len() < RECEIPTS_SHOWN { visible.len() } else { RECEIPTS_SHOWN };
    ReceiptRow { shown: prefix_strings(&visible, n), overflow: overflow_label(visible.len(), RECEIPTS_SHOWN) }
}

/// The text shown for a message-like event that could not be parsed.
pub open spec fn failed_message_text(event_type: Seq<char>, error: Seq<char>) -> Seq<char> {
    "Failed to render "@ + event_type + ": "@ + error
}

pub fn failed_message_like(event_type: &str, error: &str) -> (s: String)
    ensures
        s@ == failed_message_text(event_type@, error@),
{
    let mut s = String::from_str("Failed to render ");
    s.append(event_type);
    s.append(": ");
    s.append(error);
    s
}

/// The text shown for a state event that could not be parsed.
pub open spec fn failed_state_text(event_type: Seq<char>, state_key: Seq<char>, error: Seq<char>) -> Seq<char> {
    "Failed to render "@ + event_type + " with state key "@ + state_key + ": "@ + error
}

pub fn failed_state(event_type: &str, state_key: &str, error: &str) -> (s: String)
    ensures
        s@ == failed_state_text(event_type@, state_key@, error@),
{
    let mut s = String::from_str("Failed to render ");
    s.append(event_type);
    s.append(" with state key ");
    s.append(state_key);
    s.append(": ");
    s.append(error);
    s
}

/// The kind of room a timeline belongs to, as its start row tells it.
pub enum RoomKind {
    Direct,
    Voice,
    Text,
}

/// The first row of a timeline.
pub struct TimelineStart {
    /// Whether the row shows a speaker (voice rooms) rather than a hash.
    pub speaker_icon: bool,
    pub heading: String,
    pub subtitle: String,
}

pub open spec fn start_heading(direct: bool, name: Seq<char>) -> Seq<char> {
    if direct {
        "Welcome to your chat with "@ + name + "!"@
    } else {
        "Welcome to #"@ + name + "!"@
    }
}

pub open spec fn start_subtitle(direct: bool, name: Seq<char>) -> Seq<char> {
    if direct {
        "This is the beginning of your direct message history with "@ + name + "."@
    } else {
        "This is the start of the #"@ + name + " channel."@
    }
}

/// Words the start of a timeline for the active room, given by its kind and
/// name; without an active room it speaks of "this channel".
pub fn timeline_start(room: &Option<(RoomKind, String)>) -> (t: TimelineStart)
    ensures
        match *room {
            Some((kind, name)) => {
                &&& t.speaker_icon == (kind is Voice)
                &&& t.heading@ == start_heading(kind is Direct, name@)
                &&& t.subtitle@ == start_subtitle(kind is Direct, name@)
            },
            None => {
                &&& !t.speaker_icon
                &&& t.heading@ == start_heading(false, "this channel"@)
                &&& t.subtitle@ == start_subtitle(false, "this channel"@)
            },
        },
{
    let (direct, voice, name) = match room {
        Some((kind, name)) => (
            match kind {
                RoomKind::Direct => true,
                _ => false,
            },
            match kind {
                RoomKind::Voice => true,
                _ => false,
            },
            name.clone(),
        ),
        None => (false, false, String::from_str("this channel")),
    };
    let (heading, subtitle) = if direct {
        let mut h = String::from_str("Welcome to your chat with ");
        h.append(name.as_str());
        h.append("!");
        let mut s = String::from_str("This is the beginning of your direct message history with ");
        s.append(name.as_str());
        s.append(".");
        (h, s)
    } else {
        let mut h = String::from_str("Welcome to #");
        h.append(name.as_str());
        h.append("!");
        let mut s = String::from_str("This is the start of the #");
        s.append(name.as_str());
        s.append(" channel.");
        (h, s)
    };
    TimelineStart { speaker_icon: voice, heading, subtitle }
}

} // verus!
