use matrix_frontend::display::numbers::{
    decimal_string, duration_label, overflow_label, size_parts, DataSizeUnit,
};
use matrix_frontend::display::system::{
    join_strings, system_line, CallIntent, MembershipChange, SystemMessage,
};
use matrix_frontend::display::event::{
    event_highlight, failed_message_like, failed_state, is_marked_pinned, message_actions,
    pin_confirm, reaction_chip, receipt_row, receipts_of_others, row_chrome, timeline_start,
    EventFlags, Highlight, PinConfirm, RoomKind,
};
use matrix_frontend::display::event::{
    button_step, is_interacting, ButtonEvent, ButtonOverlays, ButtonRequest, ConfirmDialog,
};
use matrix_frontend::display::typing::{someone_else_typing, typing_line, TypingLine};
use matrix_frontend::display::dates::{
    date_divider, format_date, format_time, stamp_pattern_string, DateFormat, HourFormat,
};

fn s(x: &str) -> String {
    x.to_string()
}

fn strings(v: &[&str]) -> Vec<String> {
    v.iter().map(|x| x.to_string()).collect()
}

#[test]
fn decimal_writes_numbers() {
    assert_eq!(decimal_string(0), "0");
    assert_eq!(decimal_string(7), "7");
    assert_eq!(decimal_string(1234567890), "1234567890");
    assert_eq!(decimal_string(u64::MAX), "18446744073709551615");
}

#[test]
fn duration_label_pads_seconds() {
    assert_eq!(duration_label(0), "0:00");
    assert_eq!(duration_label(5), "0:05");
    assert_eq!(duration_label(65), "1:05");
    assert_eq!(duration_label(600), "10:00");
    assert_eq!(duration_label(3599), "59:59");
}

#[test]
fn overflow_label_counts_the_rest() {
    assert_eq!(overflow_label(3, 4), None);
    assert_eq!(overflow_label(4, 4), None);
    assert_eq!(overflow_label(9, 4).as_deref(), Some("+5"));
    assert_eq!(overflow_label(6, 5).as_deref(), Some("+1"));
}

#[test]
fn size_parts_choose_units() {
    let p = size_parts(512, &DataSizeUnit::Bytes);
    assert_eq!(p.step, 0);
    assert_eq!(p.label, "B");
    assert_eq!(p.whole.as_deref(), Some("512 B"));
    let p = size_parts(1024, &DataSizeUnit::Mibibytes);
    assert_eq!(p.step, 1);
    assert_eq!(p.label, "KiB");
    assert_eq!(p.whole, None);
    let p = size_parts(200, &DataSizeUnit::Bits);
    assert_eq!(p.amount, 1600);
    assert_eq!(p.step, 1);
    assert_eq!(p.label, "Kb");
    let p = size_parts(5 * 1024 * 1024 * 1024 * 1024 * 1024, &DataSizeUnit::Bytes);
    assert_eq!(p.step, 4);
    assert_eq!(p.label, "TB");
    let p = size_parts(1023, &DataSizeUnit::Bits);
    assert_eq!(p.step, 1);
    assert_eq!(p.amount, 8184);
}

#[test]
fn join_strings_separates_neighbours() {
    assert_eq!(join_strings(&strings(&[]), ", "), "");
    assert_eq!(join_strings(&strings(&["a"]), ", "), "a");
    assert_eq!(join_strings(&strings(&["a", "b", "c"]), ", "), "a, b, c");
}

#[test]
fn membership_notices() {
    let line = system_line(
        &s("@sender:x"),
        &SystemMessage::MembershipChange { user_id: s("@bob:x"), change: Some(MembershipChange::Joined) },
    );
    assert_eq!(line.subject, "@bob:x");
    assert!(line.joined_arrow);
    assert_eq!(line.text, "joined the room");
    let line = system_line(&s("@a:x"), &SystemMessage::MembershipChange { user_id: s("@b:x"), change: None });
    assert_eq!(line.text, "changed membership");
    assert!(!line.joined_arrow);
    let line = system_line(
        &s("@a:x"),
        &SystemMessage::MembershipChange { user_id: s("@b:x"), change: Some(MembershipChange::NoChange) },
    );
    assert_eq!(line.text, "had no membership change");
    let line = system_line(
        &s("@a:x"),
        &SystemMessage::MembershipChange { user_id: s("@b:x"), change: Some(MembershipChange::KickedAndBanned) },
    );
    assert_eq!(line.text, "was kicked and banned");
}

#[test]
fn room_notices() {
    let sender = s("@alice:x");
    let line = system_line(&sender, &SystemMessage::RoomCanonicalAlias { alias: Some(s("#r:x")) });
    assert_eq!(line.subject, "@alice:x");
    assert_eq!(line.text, "changed the room alias to #r:x");
    let line = system_line(&sender, &SystemMessage::RoomCanonicalAlias { alias: None });
    assert_eq!(line.text, "changed the room alias");
    let line = system_line(
        &sender,
        &SystemMessage::RoomCreate { additional_creators: strings(&["@b:x", "@c:x"]), room_type: Some(s("m.space")) },
    );
    assert_eq!(line.text, "created the room (m.space) with @b:x ,@c:x");
    let line = system_line(&sender, &SystemMessage::RoomCreate { additional_creators: vec![], room_type: None });
    assert_eq!(line.text, "created the room");
    let line = system_line(&sender, &SystemMessage::RoomTopic { topic: s("news") });
    assert_eq!(line.text, "changed the room topic to: news");
    let line = system_line(
        &sender,
        &SystemMessage::RoomTombstone { body: s("moved"), replacement_room: s("!n:x") },
    );
    assert_eq!(line.text, "closed the room. Reason: moved. Replacement room: !n:x");
    let line = system_line(&sender, &SystemMessage::RoomThirdPartyInvite { display_name: s("Carol") });
    assert_eq!(line.text, "invited Carol to the room");
}

#[test]
fn pinned_and_call_notices() {
    let sender = s("@alice:x");
    let line = system_line(&sender, &SystemMessage::RoomPinnedEvents { pinned_events: strings(&["$1", "$2"]) });
    assert_eq!(line.text, "pinned a message to this room. See all pinned messages.");
    assert_eq!(line.jump_target.as_deref(), Some("$2"));
    let line = system_line(&sender, &SystemMessage::RoomPinnedEvents { pinned_events: vec![] });
    assert_eq!(line.text, "changed pinned events");
    assert_eq!(line.jump_target, None);
    let line = system_line(
        &sender,
        &SystemMessage::RtcNotification { call_intent: Some(CallIntent::Video), declined_by: strings(&["@b:x"]) },
    );
    assert_eq!(line.text, "started started a video call which was declined by");
    assert_eq!(line.declined_by, strings(&["@b:x"]));
    let line = system_line(&sender, &SystemMessage::RtcNotification { call_intent: None, declined_by: vec![] });
    assert_eq!(line.text, "started started a call");
    let line = system_line(
        &sender,
        &SystemMessage::SpaceChild { via: strings(&["a.org", "b.org"]), order: Some(s("1")), suggested: true },
    );
    assert_eq!(line.text, "added this room as a child of a space via a.org, b.org with order 1 (suggested)");
    let line = system_line(&sender, &SystemMessage::SpaceParent { via: vec![], canonical: true });
    assert_eq!(line.text, "added this room as a parent of a space (canonical)");
    let line = system_line(&sender, &SystemMessage::ProfileChange { user_id: s("@p:x"), text: s("changed their name") });
    assert_eq!(line.subject, "@p:x");
    assert_eq!(line.text, "changed their name");
}

#[test]
fn action_bar_follows_flags() {
    let flags = EventFlags {
        is_reactable: true,
        can_be_replied_to: true,
        is_editable: false,
        is_deletable: true,
        is_highlighted: false,
    };
    let a = message_actions(&flags, true, false, true, &strings(&["👍", "❤", "😂", "🎉"]));
    assert_eq!(a.quick_reactions, strings(&["👍", "❤", "😂"]));
    assert!(a.react && a.reply && !a.edit && !a.pin && a.delete && a.pin_removes && !a.hidden);
    let none = EventFlags {
        is_reactable: false,
        can_be_replied_to: false,
        is_editable: false,
        is_deletable: false,
        is_highlighted: false,
    };
    let a = message_actions(&none, false, true, false, &strings(&["👍"]));
    assert!(a.quick_reactions.is_empty());
    assert!(a.hidden);
    assert!(a.pin);
    assert!(matches!(pin_confirm(true), PinConfirm::Unpin));
    assert!(matches!(pin_confirm(false), PinConfirm::Pin));
}

#[test]
fn highlight_prefers_focus() {
    assert!(matches!(event_highlight(&Some(s("$e")), &Some(s("$e")), true), Highlight::Focused));
    assert!(matches!(event_highlight(&Some(s("$f")), &Some(s("$e")), true), Highlight::Mention));
    assert!(matches!(event_highlight(&None, &Some(s("$e")), false), Highlight::NoHighlight));
}

#[test]
fn pinned_mark_needs_setting() {
    let pinned = strings(&["$a", "$b"]);
    assert!(is_marked_pinned(true, &pinned, &Some(s("$b"))));
    assert!(!is_marked_pinned(false, &pinned, &Some(s("$b"))));
    assert!(!is_marked_pinned(true, &pinned, &Some(s("$c"))));
    assert!(!is_marked_pinned(true, &pinned, &None));
}

#[test]
fn receipts_leave_out_the_user() {
    let r = receipts_of_others(&strings(&["@me:x", "@a:x", "@me:x", "@b:x"]), &s("@me:x"));
    assert_eq!(r, strings(&["@a:x", "@b:x"]));
    let row = receipt_row(&strings(&["@a", "@b", "@me", "@c", "@d", "@e", "@f", "@g"]), &s("@me"));
    assert_eq!(row.shown, strings(&["@a", "@b", "@c", "@d", "@e"]));
    assert_eq!(row.overflow.as_deref(), Some("+2"));
}

#[test]
fn reaction_chip_counts_reactors() {
    let chip = reaction_chip(&s("👍"), &strings(&["@a", "@b", "@me", "@c", "@d", "@e"]), &s("@me"));
    assert_eq!(chip.emoji, "👍");
    assert_eq!(chip.count, 6);
    assert!(chip.mine);
    assert_eq!(chip.shown, strings(&["@a", "@b", "@me", "@c"]));
    assert_eq!(chip.overflow.as_deref(), Some("+2"));
    let chip = reaction_chip(&s("x"), &strings(&["@a"]), &s("@me"));
    assert!(!chip.mine);
    assert_eq!(chip.overflow, None);
}

#[test]
fn row_chrome_and_failures() {
    let c = row_chrome(true, false, false, false, false, true);
    assert!(c.active && c.margin_time && c.margin_time_indented);
    let c = row_chrome(false, false, true, true, false, false);
    assert!(c.active && !c.margin_time && !c.margin_time_indented);
    assert_eq!(failed_message_like("m.sticker", "bad"), "Failed to render m.sticker: bad");
    assert_eq!(
        failed_state("m.room.name", "", "oops"),
        "Failed to render m.room.name with state key : oops"
    );
}

#[test]
fn timeline_start_words() {
    let t = timeline_start(&Some((RoomKind::Direct, s("Bob"))));
    assert!(!t.speaker_icon);
    assert_eq!(t.heading, "Welcome to your chat with Bob!");
    assert_eq!(t.subtitle, "This is the beginning of your direct message history with Bob.");
    let t = timeline_start(&Some((RoomKind::Voice, s("lounge"))));
    assert!(t.speaker_icon);
    assert_eq!(t.heading, "Welcome to #lounge!");
    assert_eq!(t.subtitle, "This is the start of the #lounge channel.");
    let t = timeline_start(&None);
    assert_eq!(t.heading, "Welcome to #this channel!");
}

#[test]
fn typing_line_names_up_to_three() {
    let me = s("@me");
    assert!(matches!(typing_line(&strings(&["@me"]), &me), TypingLine::Nobody));
    match typing_line(&strings(&["@a", "@me"]), &me) {
        TypingLine::One(a) => assert_eq!(a, "@a"),
        _ => panic!("one user expected"),
    }
    match typing_line(&strings(&["@a", "@b", "@c"]), &me) {
        TypingLine::Three(a, b, c) => assert_eq!((a.as_str(), b.as_str(), c.as_str()), ("@a", "@b", "@c")),
        _ => panic!("three users expected"),
    }
    assert!(matches!(typing_line(&strings(&["@a", "@b", "@c", "@d", "@e"]), &me), TypingLine::Several));
    assert!(someone_else_typing(&strings(&["@me", "@a"]), &me));
    assert!(!someone_else_typing(&strings(&["@me"]), &me));
}

#[test]
fn stamp_patterns_by_day() {
    let h12 = HourFormat::TwelveHour;
    let h24 = HourFormat::TwentyFourHour;
    assert_eq!(stamp_pattern_string(0, &h24, &DateFormat::DayMonthYear), "Today, %H:%M");
    assert_eq!(stamp_pattern_string(-1, &h12, &DateFormat::DayMonthYear), "Yesterday, %I:%M %p");
    assert_eq!(stamp_pattern_string(-3, &h24, &DateFormat::YearMonthDay), "%a %Y/%m/%d, %H:%M");
    assert_eq!(stamp_pattern_string(-7, &h24, &DateFormat::MonthDayYear), "%m/%d/%Y, %H:%M");
    assert_eq!(stamp_pattern_string(2, &h24, &DateFormat::DayMonthYear), "%d/%m/%Y, %H:%M");
}

#[test]
fn dates_in_a_fixed_zone() {
    // 2024-03-15 14:30:00 UTC is a Friday.
    let ts: u64 = 1_710_513_000;
    let now = ts + 3600;
    assert_eq!(format_date(ts, now, 0, 0, &HourFormat::TwentyFourHour, &DateFormat::DayMonthYear).as_deref(), Some("Today, 14:30"));
    assert_eq!(
        format_date(ts, now + 86_400, 0, 0, &HourFormat::TwelveHour, &DateFormat::DayMonthYear).as_deref(),
        Some("Yesterday, 02:30 PM")
    );
    assert_eq!(
        format_date(ts, now + 3 * 86_400, 0, 0, &HourFormat::TwentyFourHour, &DateFormat::DayMonthYear).as_deref(),
        Some("Fri 15/03/2024, 14:30")
    );
    assert_eq!(
        format_date(ts, now + 30 * 86_400, 0, 0, &HourFormat::TwentyFourHour, &DateFormat::YearMonthDay).as_deref(),
        Some("2024/03/15, 14:30")
    );
    assert_eq!(format_time(ts, 3600, &HourFormat::TwentyFourHour).as_deref(), Some("15:30"));
    assert_eq!(date_divider(ts, now, 0, 0).as_deref(), Some("Today"));
    assert_eq!(date_divider(ts, now + 86_400, 0, 0).as_deref(), Some("Yesterday"));
    assert_eq!(date_divider(ts, now + 3 * 86_400, 0, 0).as_deref(), Some("Fri 15 March 2024"));
    assert_eq!(date_divider(ts, now + 30 * 86_400, 0, 0).as_deref(), Some("15 March 2024"));
}

#[test]
fn dates_across_a_daylight_saving_change() {
    // 2024-03-30 23:30 UTC is 00:30 on the 31st an hour east of UTC; 2024-03-31
    // 22:30 UTC is 00:30 on 1 April two hours east, after clocks went forward.
    let ts: u64 = 1_711_841_400;
    let now: u64 = 1_711_924_200;
    assert_eq!(date_divider(ts, now, 3600, 7200).as_deref(), Some("Yesterday"));
    assert_eq!(date_divider(ts, now, 3600, 3600).as_deref(), Some("Today"));
    assert_eq!(
        format_date(ts, now, 3600, 7200, &HourFormat::TwentyFourHour, &DateFormat::DayMonthYear).as_deref(),
        Some("Yesterday, 00:30")
    );
}

fn closed_overlays() -> ButtonOverlays {
    ButtonOverlays { picker_open: false, confirm_delete: false, confirm_pin: false, confirm_unpin: false }
}

#[test]
fn delete_asks_first_and_deletes_on_confirm() {
    let (o, r) = button_step(closed_overlays(), ButtonEvent::Delete, true);
    assert!(o.confirm_delete && matches!(r, ButtonRequest::NoRequest));
    assert!(is_interacting(&o));
    let (o2, r) = button_step(o, ButtonEvent::Cancel(ConfirmDialog::Delete), true);
    assert!(!o2.confirm_delete && matches!(r, ButtonRequest::NoRequest));
    let (o3, r) = button_step(o, ButtonEvent::Confirm(ConfirmDialog::Delete), true);
    assert!(!o3.confirm_delete && matches!(r, ButtonRequest::DeleteMessage));
    let (_, r) = button_step(o, ButtonEvent::Confirm(ConfirmDialog::Delete), false);
    assert!(matches!(r, ButtonRequest::NoRequest));
}

#[test]
fn pin_button_opens_matching_dialog() {
    let (o, r) = button_step(closed_overlays(), ButtonEvent::PinButton { is_pinned: true }, true);
    assert!(o.confirm_unpin && !o.confirm_pin && matches!(r, ButtonRequest::NoRequest));
    assert!(!is_interacting(&o));
    let (_, r) = button_step(o, ButtonEvent::Confirm(ConfirmDialog::Unpin), true);
    assert!(matches!(r, ButtonRequest::UnpinMessage));
    let (o, _) = button_step(closed_overlays(), ButtonEvent::PinButton { is_pinned: false }, true);
    assert!(o.confirm_pin && !o.confirm_unpin);
    let (o, r) = button_step(o, ButtonEvent::Confirm(ConfirmDialog::Pin), true);
    assert!(!o.confirm_pin && matches!(r, ButtonRequest::PinMessage));
}

#[test]
fn reaction_uses_picked_emoji() {
    let (o, r) = button_step(closed_overlays(), ButtonEvent::React, true);
    assert!(o.picker_open && matches!(r, ButtonRequest::OpenPicker));
    let (o2, r) = button_step(o, ButtonEvent::Picked(Some("\u{1F44D}".to_string())), true);
    assert!(!o2.picker_open);
    assert!(matches!(r, ButtonRequest::ToggleReaction(e) if e == "\u{1F44D}"));
    let (_, r) = button_step(o, ButtonEvent::Picked(None), true);
    assert!(matches!(r, ButtonRequest::NoRequest));
    let (o, r) = button_step(closed_overlays(), ButtonEvent::React, false);
    assert!(!o.picker_open && matches!(r, ButtonRequest::NoRequest));
}
