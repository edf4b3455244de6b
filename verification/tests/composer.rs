use matrix_frontend::composer::typing::{typing_step, TypingEvent};
use matrix_frontend::composer::editor::{editor_emptiness, link_fix, typed_link_pieces, LinkFix};
use matrix_frontend::spans::RichTextSpan;
use matrix_frontend::composer::caret::{
    active_filter, commit_range, get_active_filter, key_action, locate_caret, select_next,
    select_previous, utf16_of, word_bounds, KeyAction,
};
use matrix_frontend::composer::menu::{
    command_entry_id, command_fields, emoji_fields, filter_items, filter_items_checked,
    member_fields, menu_at_caret, menu_title, rank_by_scores, room_fields, CommandEntry,
    EmojiItem, MemberEntry, MenuCompletionMatches, MenuType, RoomEntry, SelectedItem,
};

fn s(x: &str) -> String {
    x.to_string()
}

#[test]
fn utf16_matches_std() {
    for text in ["", "hello", "héllo wörld", "a😀b", "\u{200B}x"] {
        let expected: Vec<u16> = text.encode_utf16().collect();
        assert_eq!(utf16_of(text), expected);
    }
}

#[test]
fn word_bounds_stop_at_breaks() {
    let units = utf16_of("hi @bo b");
    assert_eq!(word_bounds(&units, 5, true), (3, 6));
    assert_eq!(word_bounds(&units, 0, true), (0, 2));
    assert_eq!(word_bounds(&units, 2, true), (0, 2));
    let units = utf16_of("a\u{200B}b");
    assert_eq!(commit_range(&units, 2), (0, 3));
    assert_eq!(word_bounds(&units, 2, true), (2, 3));
}

#[test]
fn active_filter_after_trigger() {
    let units = utf16_of("hey @ali there");
    assert_eq!(active_filter(&units, 8, 64), Some(utf16_of("ali")));
    assert_eq!(active_filter(&units, 2, 64), None);
    assert_eq!(active_filter(&units, 99, 64), None);
    assert_eq!(get_active_filter("hey @ali there", 8, false, 64).as_deref(), Some("ali"));
    assert_eq!(get_active_filter("hey @ali there", 8, true, 64), None);
    assert_eq!(get_active_filter("/", 1, false, 47).as_deref(), Some(""));
    assert_eq!(get_active_filter("x:smi", 5, false, 58), None);
    assert_eq!(get_active_filter(":smi", 4, false, 58).as_deref(), Some("smi"));
    // A character outside the basic plane takes two code units and decodes back whole.
    assert_eq!(get_active_filter("@a\u{1F600}b", 5, false, 64).as_deref(), Some("a\u{1F600}b"));
}

#[test]
fn menu_follows_trigger_order() {
    assert!(matches!(menu_at_caret("hi @al", 6, false), MenuType::UserAutocomplete { filter } if filter == "al"));
    assert!(matches!(menu_at_caret("/ban", 4, false), MenuType::CommandAutocomplete { filter } if filter == "ban"));
    assert!(matches!(menu_at_caret("#gen", 2, false), MenuType::RoomAutocomplete { filter } if filter == "gen"));
    assert!(matches!(menu_at_caret(":+1", 3, false), MenuType::EmojiAutocomplete { filter } if filter == "+1"));
    assert!(matches!(menu_at_caret("plain", 3, false), MenuType::NoMenu));
}

#[test]
fn menu_titles() {
    let m = MenuType::UserAutocomplete { filter: s("") };
    assert_eq!(menu_title(&m, 3), "MEMBERS (3)");
    let m = MenuType::UserAutocomplete { filter: s("al") };
    assert_eq!(menu_title(&m, 1), "MEMBERS MATCHING @al (1)");
    let m = MenuType::CommandAutocomplete { filter: s("b") };
    assert_eq!(menu_title(&m, 12), "COMMANDS MATCHING /b (12)");
    let m = MenuType::RoomAutocomplete { filter: s("") };
    assert_eq!(menu_title(&m, 0), "ROOMS (0)");
    let m = MenuType::EmojiAutocomplete { filter: s("smi") };
    assert_eq!(menu_title(&m, 50), "EMOJIS MATCHING :smi: (50)");
    assert_eq!(menu_title(&MenuType::NoMenu, 4), "");
    assert!(MenuType::NoMenu.is_none());
}

#[test]
fn caret_lands_in_reaching_node() {
    let texts = vec![s("ab"), s("cde"), s("f")];
    assert_eq!(locate_caret(&texts, 0), Some((0, 0)));
    assert_eq!(locate_caret(&texts, 2), Some((0, 2)));
    assert_eq!(locate_caret(&texts, 3), Some((1, 1)));
    assert_eq!(locate_caret(&texts, 6), Some((2, 1)));
    assert_eq!(locate_caret(&texts, 7), None);
    assert_eq!(locate_caret(&vec![s("😀")], 2), Some((0, 2)));
}

#[test]
fn selection_wraps_round() {
    assert_eq!(select_previous(0, 3), 2);
    assert_eq!(select_previous(2, 3), 1);
    assert_eq!(select_next(2, 3), 0);
    assert_eq!(select_next(0, 3), 1);
}

#[test]
fn keys_map_to_actions() {
    assert!(matches!(key_action("Enter", true, true), KeyAction::LineBreak));
    assert!(matches!(key_action("Enter", false, true), KeyAction::CommitSelection));
    assert!(matches!(key_action("Enter", false, false), KeyAction::Send));
    assert!(matches!(key_action("ArrowUp", false, true), KeyAction::MoveSelection { up: true }));
    assert!(matches!(key_action("ArrowDown", false, true), KeyAction::MoveSelection { up: false }));
    assert!(matches!(key_action("ArrowDown", false, false), KeyAction::Ignore));
    assert!(matches!(key_action("Escape", false, true), KeyAction::CloseMenu));
    assert!(matches!(key_action("a", false, true), KeyAction::Ignore));
}

#[test]
fn ranking_orders_by_score_then_position() {
    let scores = vec![Some(10), None, Some(30), Some(10), Some(30)];
    assert_eq!(rank_by_scores(&scores), vec![2, 4, 0, 3]);
    let many: Vec<Option<u16>> = (0..60).map(|i| Some((i % 3) as u16)).collect();
    let ranked = rank_by_scores(&many);
    assert_eq!(ranked.len(), 50);
    assert_eq!(ranked[0], 2);
    assert_eq!(ranked[19], 59);
    assert_eq!(ranked[20], 1);
    assert!(rank_by_scores(&vec![None, None]).is_empty());
}

#[test]
fn filter_items_with_and_without_filter() {
    let items: Vec<Vec<Option<String>>> = (0..60).map(|i| vec![Some(format!("user{i}"))]).collect();
    let all = filter_items("", &items);
    assert_eq!(all, (0..50).collect::<Vec<usize>>());
    let items = vec![
        vec![Some(s("Alice")), Some(s("@alice:x"))],
        vec![Some(s("Bob")), Some(s("@bob:x"))],
        vec![None, Some(s("@carol:x"))],
    ];
    let found = filter_items("BOB", &items);
    assert_eq!(found, vec![1]);
    assert_eq!(filter_items_checked("bob", &items), Some(vec![1]));
    let found = filter_items("zzz", &items);
    assert!(found.is_empty());
    let found = filter_items("carol", &items);
    assert_eq!(found, vec![2]);
}

#[test]
fn earlier_fields_weigh_more() {
    // The same text in the first field outranks it in the second.
    let items = vec![
        vec![Some(s("zed")), Some(s("alice"))],
        vec![Some(s("alice")), Some(s("zed"))],
    ];
    assert_eq!(filter_items("alice", &items), vec![1, 0]);
}

#[test]
fn match_fields_of_entries() {
    let m = MemberEntry { user_id: s("@a:x"), display_name: None };
    assert_eq!(member_fields(&m), vec![None, Some(s("@a:x"))]);
    let c = CommandEntry { source: s("core"), name: s("ban"), usage: s("/ban"), description: s("bans") };
    assert_eq!(command_fields(&c), vec![Some(s("ban")), Some(s("bans"))]);
    assert_eq!(command_entry_id(&c), "core:ban");
    let r = RoomEntry { room_id: s("!r"), name: Some(s("General")), canonical_alias: None, aliases: vec![s("#a"), s("#b")] };
    assert_eq!(room_fields(&r), vec![Some(s("General")), None, Some(s("#a #b"))]);
    let e = EmojiItem { name: s("grinning face"), shortcodes: vec![], character: s("😀") };
    assert_eq!(emoji_fields(&e), vec![None, Some(s("grinning face"))]);
}

#[test]
fn completion_matches_index() {
    let m = MenuCompletionMatches::Room(vec![RoomEntry { room_id: s("!r"), name: None, canonical_alias: None, aliases: vec![] }]);
    assert_eq!(m.len(), 1);
    assert!(matches!(m.get(0), Some(SelectedItem::Room(0))));
    assert!(m.get(1).is_none());
    assert_eq!(MenuCompletionMatches::NoMatches.len(), 0);
}

#[test]
fn editor_emptiness_from_markup() {
    assert_eq!(editor_emptiness("", ""), (true, false));
    assert_eq!(editor_emptiness("<br>", ""), (true, false));
    assert_eq!(editor_emptiness("<BR>", " "), (true, false));
    assert_eq!(editor_emptiness("<!----><br>\n", ""), (true, true));
    assert_eq!(editor_emptiness("<br><br>", "\n"), (true, true));
    assert_eq!(editor_emptiness("<br type=\"_moz\">", ""), (true, true));
    assert_eq!(editor_emptiness("<p></p>", ""), (false, false));
    assert_eq!(editor_emptiness("hello", "hello"), (false, false));
    assert_eq!(editor_emptiness("<br>", "x"), (false, false));
}

fn piece(span: &RichTextSpan) -> (String, bool) {
    match span {
        RichTextSpan::Plain(t) => (t.clone(), false),
        RichTextSpan::Link { url, .. } => (url.clone(), true),
        _ => (String::new(), false),
    }
}

#[test]
fn typed_urls_become_links() {
    assert!(typed_link_pieces("no links here").is_none());
    assert!(typed_link_pieces("ftp://x.org").is_none());
    let p = typed_link_pieces("see https://a.org/x?y=1 and http://b.de").unwrap();
    let p: Vec<(String, bool)> = p.iter().map(piece).collect();
    assert_eq!(
        p,
        vec![
            ("see ".to_string(), false),
            ("https://a.org/x?y=1".to_string(), true),
            (" and ".to_string(), false),
            ("http://b.de".to_string(), true),
        ]
    );
    let p = typed_link_pieces("https://ä.org\u{a0}tail").unwrap();
    let p: Vec<(String, bool)> = p.iter().map(piece).collect();
    assert_eq!(p, vec![("https://ä.org".to_string(), true), ("\u{a0}tail".to_string(), false)]);
}

#[test]
fn links_fixed_as_text_changes() {
    assert!(matches!(link_fix("https://a.org", "https://b.org"), LinkFix::Unwrap));
    assert!(matches!(link_fix("https://a.org", "https://a.org"), LinkFix::Keep));
    match link_fix("https://a.org \u{a0} ", "https://a.org \u{a0} ") {
        LinkFix::MoveSpace(t) => assert_eq!(t, "https://a.org"),
        _ => panic!("expected the space to move out of the link"),
    }
    match link_fix("https://a.org\u{a0}", "https://a.org\u{a0}") {
        LinkFix::MoveSpace(t) => assert_eq!(t, "https://a.org"),
        _ => panic!("expected the space to move out of the link"),
    }
    assert!(matches!(link_fix("https://a.org\t", "https://a.org\t"), LinkFix::Keep));
}

#[test]
fn typing_notices() {
    let (t, a) = typing_step(false, TypingEvent::Typed, true);
    assert!(t);
    assert_eq!(a.notice, Some(true));
    assert!(a.restart_timer);
    let (t, a) = typing_step(t, TypingEvent::Typed, true);
    assert!(t);
    assert_eq!(a.notice, None);
    assert!(a.restart_timer);
    let (t2, a) = typing_step(t, TypingEvent::Emptied, true);
    assert!(t2);
    assert_eq!(a.notice, Some(false));
    let (t, a) = typing_step(t, TypingEvent::TimerFired, true);
    assert!(!t);
    assert_eq!(a.notice, Some(false));
    assert!(!a.restart_timer);
    let (t, a) = typing_step(t, TypingEvent::Typed, false);
    assert!(!t);
    assert_eq!(a.notice, None);
    assert!(!a.restart_timer);
    let (_, a) = typing_step(false, TypingEvent::Emptied, false);
    assert_eq!(a.notice, None);
}
