use matrix_frontend::composer::menu::EmojiItem;
use matrix_frontend::display::audio::{
    active_device_label, device_menu, toggle_audio_menu, AudioMenu,
};
use matrix_frontend::display::calls::{call_button, tile_width, CallAction};
use matrix_frontend::display::preview::{preview_layout, PreviewData};
use matrix_frontend::display::profile::{no_rooms_found, pill_style, room_picker_matches};
use matrix_frontend::display::sidebar::{
    accept_pinned, highlight_words, member_sections, pins_after_click, should_fetch_pins, pair_less, pinned_heading, search_heading,
    search_room_order, sidebar_panel, sort_chosen_by_key, sort_chosen_by_pair, text_less,
    SidebarPanel,
};
use matrix_frontend::emoji_picker::{
    emoji_records, emojis_in_group, group_from_index, group_name, index_of_group, load_emojis,
    search_emojis, text_contains, EmojiGroup, EmojiPickerView, EmojiRecord,
};
use matrix_frontend::space_search::{same_results, SpaceSearch, SpaceSearchAction};

fn s(x: &str) -> String {
    x.to_string()
}

fn strings(v: &[&str]) -> Vec<String> {
    v.iter().map(|x| x.to_string()).collect()
}

fn record(name: &str, group: EmojiGroup) -> EmojiRecord {
    EmojiRecord {
        item: EmojiItem { name: s(name), shortcodes: vec![], character: s("?") },
        group,
    }
}

#[test]
fn texts_compare_like_strings() {
    assert!(text_less("abc", "abd"));
    assert!(text_less("ab", "abc"));
    assert!(!text_less("abc", "abc"));
    assert!(!text_less("b", "abc"));
    assert!(text_less("", "a"));
    assert!(text_less("Zed", "amy"));
}

#[test]
fn chosen_entries_sort_by_name_keeping_ties_in_order() {
    let keys = strings(&["bob", "alice", "carol", "alice"]);
    let order = sort_chosen_by_key(&keys, &vec![true, true, false, true]);
    assert_eq!(order, vec![1, 3, 0]);
    let none = sort_chosen_by_key(&keys, &vec![false, false, false, false]);
    assert!(none.is_empty());
}

#[test]
fn sidebar_panel_priorities() {
    assert!(matches!(sidebar_panel(true, true, true, true), SidebarPanel::Search));
    assert!(matches!(sidebar_panel(false, true, true, false), SidebarPanel::Pins));
    assert!(matches!(sidebar_panel(false, false, true, true), SidebarPanel::Info { direct: true }));
    assert!(matches!(sidebar_panel(false, false, true, false), SidebarPanel::Info { direct: false }));
    assert!(matches!(sidebar_panel(false, false, false, true), SidebarPanel::Hidden));
}

#[test]
fn member_list_sections() {
    let names = strings(&["zed", "amy", "bo"]);
    let m = member_sections(&names, &vec![false, true, false]);
    assert_eq!(m.online, vec![2, 0]);
    assert_eq!(m.offline, vec![1]);
    assert_eq!(m.online_heading, Some(s("Online — 2")));
    assert_eq!(m.offline_heading, Some(s("Offline — 1")));
    let all_online = member_sections(&names, &vec![false, false, false]);
    assert_eq!(all_online.online, vec![1, 2, 0]);
    assert_eq!(all_online.offline_heading, None);
}

#[test]
fn search_panel_heading() {
    assert_eq!(search_heading(&None), "Type at least three letters to start searching");
    assert_eq!(search_heading(&Some(vec![])), "No results");
    assert_eq!(search_heading(&Some(vec![0, 0])), "No results");
    assert_eq!(search_heading(&Some(vec![1])), "1 Result");
    assert_eq!(search_heading(&Some(vec![0, 4])), "4 Results");
    assert_eq!(search_heading(&Some(vec![2, 0, 3])), "5 Results across 2 rooms");
}

#[test]
fn pinned_panel_heading() {
    assert_eq!(pinned_heading(None), "No pinned messages");
    assert_eq!(pinned_heading(Some(0)), "No pinned messages");
    assert_eq!(pinned_heading(Some(3)), "Pinned Messages (3)");
}

#[test]
fn call_tiles_and_button() {
    assert_eq!(tile_width(1), "w-full max-w-5xl");
    assert_eq!(tile_width(2), "w-[calc(50%-0.5*var(--gap))] max-w-3xl");
    assert_eq!(tile_width(4), "w-[calc(50%-0.5*var(--gap))] max-w-2xl");
    assert_eq!(tile_width(6), "w-[calc(33.33%-0.66*var(--gap))] max-w-xl");
    assert_eq!(tile_width(9), "w-[calc(33.33%-0.66*var(--gap))] max-w-lg");
    assert_eq!(tile_width(12), "w-[calc(25%-0.75*var(--gap))] max-w-md");
    assert_eq!(tile_width(13), "w-[calc(20%-0.8*var(--gap))] max-w-sm");
    assert_eq!(tile_width(0), "w-[calc(20%-0.8*var(--gap))] max-w-sm");
    let people = strings(&["DEV1", "DEV2"]);
    assert!(matches!(call_button(&people, &Some(s("DEV2"))), CallAction::Leave));
    assert!(matches!(call_button(&people, &Some(s("DEV3"))), CallAction::Join));
    assert!(matches!(call_button(&people, &None), CallAction::Join));
}

#[test]
fn link_preview_layout() {
    let bare = PreviewData {
        url: None,
        color: None,
        site_name: None,
        title: Some(s("Title")),
        description: None,
        image_url: Some(s("https://img")),
        image_width: None,
        image_height: None,
    };
    let l = preview_layout(&s("https://example.org"), &bare);
    assert_eq!(l.link_url, "https://example.org");
    assert_eq!(l.accent, "#ffffff");
    assert!(!l.small_image);
    assert_eq!(l.image_size, (400, 300));
    let small = PreviewData {
        url: Some(s("https://canonical")),
        color: Some(s("#123456")),
        image_width: Some(120),
        image_height: Some(80),
        ..bare
    };
    let l = preview_layout(&s("https://example.org"), &small);
    assert_eq!(l.link_url, "https://canonical");
    assert_eq!(l.accent, "#123456");
    assert!(l.small_image);
    assert_eq!(l.image_size, (120, 80));
}

#[test]
fn profile_room_picker() {
    let rooms = vec![
        (s("General"), s("!abc:example.org")),
        (s("Random"), s("!xyz:example.org")),
        (s("Dev talk"), s("!GEN2:example.org")),
    ];
    assert_eq!(room_picker_matches(&rooms, ""), vec![0, 1, 2]);
    assert_eq!(room_picker_matches(&rooms, "GEN"), vec![0, 2]);
    assert_eq!(room_picker_matches(&rooms, "xyz"), vec![1]);
    assert!(!no_rooms_found(&rooms, ""));
    assert!(!no_rooms_found(&rooms, "random"));
    assert!(no_rooms_found(&rooms, "nothing"));
}

#[test]
fn tab_underline_style() {
    assert_eq!(pill_style(12, 80), "left: 12px; width: 80px; opacity: 1;");
    assert_eq!(pill_style(-5, 20), "left: -5px; width: 20px; opacity: 1;");
    assert_eq!(pill_style(3, 0), "opacity: 0;");
}

#[test]
fn emoji_groups_round_trip() {
    for i in 0..9 {
        assert_eq!(index_of_group(&group_from_index(i)), i);
    }
    assert_eq!(group_name(&EmojiGroup::SmileysAndEmotion), "Smileys & Emotion");
    assert_eq!(group_name(&group_from_index(8)), "Flags");
    assert_eq!(group_name(&group_from_index(3)), "Food & Drink");
}

#[test]
fn emoji_table_is_loaded() {
    let all = load_emojis();
    assert!(all.len() > 100);
    let smileys = emojis_in_group(&all, &EmojiGroup::SmileysAndEmotion);
    assert!(!smileys.is_empty());
    let hits = search_emojis(&all, "GRINNING");
    assert!(!hits.is_empty());
    for i in hits {
        assert!(all[i].item.name.to_lowercase().contains("grinning"));
    }
}

#[test]
fn emoji_groups_and_search_on_a_table() {
    let table = vec![
        record("grinning face", EmojiGroup::SmileysAndEmotion),
        record("dog", EmojiGroup::AnimalsAndNature),
        record("Face with tears", EmojiGroup::SmileysAndEmotion),
        record("flag: France", EmojiGroup::Flags),
    ];
    assert_eq!(emojis_in_group(&table, &EmojiGroup::SmileysAndEmotion), vec![0, 2]);
    assert_eq!(emojis_in_group(&table, &EmojiGroup::Objects), Vec::<usize>::new());
    assert_eq!(search_emojis(&table, "FACE"), vec![0, 2]);
    assert_eq!(search_emojis(&table, "france"), vec![3]);
    assert_eq!(search_emojis(&table, ""), vec![0, 1, 2, 3]);
    assert!(text_contains("hello world", "o w"));
    assert!(!text_contains("hello", "hello!"));
}

#[test]
fn emoji_picker_folds_groups() {
    let mut v = EmojiPickerView::opened();
    assert!(v.search.is_empty());
    assert!(v.active_group == EmojiGroup::SmileysAndEmotion);
    assert!(v.collapsed.iter().all(|c| !c));
    v.toggle_group(&EmojiGroup::Symbols);
    assert!(v.collapsed[7]);
    assert_eq!(v.collapsed.iter().filter(|c| **c).count(), 1);
    v.toggle_group(&EmojiGroup::Symbols);
    assert!(v.collapsed.iter().all(|c| !c));
}

#[test]
fn space_search_session() {
    let mut search = SpaceSearch::new();
    assert!(search.reached_end().is_none());
    assert!(matches!(search.set_open(true, 7), Some(SpaceSearchAction::Open(7))));
    assert!(matches!(search.reached_end(), Some(SpaceSearchAction::LoadMore(7))));
    assert!(search.loading);
    assert!(search.reached_end().is_none());
    search.loaded(Some(true));
    assert!(!search.loading);
    assert!(!search.has_more);
    assert!(search.reached_end().is_none());
    match search.typed(s("rust")) {
        Some(SpaceSearchAction::Search(7, Some(t))) => assert_eq!(t, "rust"),
        _ => panic!("expected a search with a term"),
    }
    assert!(search.has_more);
    assert!(matches!(search.typed(s("")), Some(SpaceSearchAction::Search(7, None))));
    assert!(matches!(search.set_open(false, 9), Some(SpaceSearchAction::Close(7))));
    assert!(search.set_open(false, 9).is_none());
    assert!(search.typed(s("x")).is_none());
}

#[test]
fn result_lists_compare_by_rooms() {
    assert!(same_results(&strings(&["!a", "!b"]), &strings(&["!a", "!b"])));
    assert!(!same_results(&strings(&["!a", "!b"]), &strings(&["!b", "!a"])));
    assert!(!same_results(&strings(&["!a"]), &strings(&["!a", "!b"])));
}

#[test]
fn pairs_compare_like_tuples() {
    assert!(pair_less("a", "z", "b", "a"));
    assert!(pair_less("a", "b", "a", "c"));
    assert!(!pair_less("a", "c", "a", "c"));
    assert!(!pair_less("b", "a", "a", "z"));
    let first = strings(&["x", "a", "x", "a"]);
    let second = strings(&["2", "9", "1", "9"]);
    assert_eq!(sort_chosen_by_pair(&first, &second, &vec![true; 4]), vec![1, 3, 2, 0]);
}

#[test]
fn search_rooms_sorted_by_name_then_id() {
    let ids = strings(&["!c", "!a", "!b", "!d"]);
    let names = strings(&["General", "Random", "General", ""]);
    let order = search_room_order(&ids, &names, &vec![2, 1, 5, 0]);
    assert_eq!(order, vec![2, 0, 1]);
    let unnamed = search_room_order(&ids, &strings(&["", "", "", ""]), &vec![1, 1, 1, 1]);
    assert_eq!(unnamed, vec![1, 2, 0, 3]);
}

#[test]
fn search_words_are_lowercased() {
    assert_eq!(highlight_words("  Hello\tWORLD  again "), strings(&["hello", "world", "again"]));
    assert!(highlight_words("   ").is_empty());
    assert_eq!(highlight_words("Ünïcode"), strings(&["ünïcode"]));
}

#[test]
fn audio_menu_toggles() {
    assert!(matches!(toggle_audio_menu(None, AudioMenu::Mute), (Some(AudioMenu::Mute), true)));
    assert!(matches!(toggle_audio_menu(Some(AudioMenu::Mute), AudioMenu::Mute), (None, false)));
    assert!(matches!(
        toggle_audio_menu(Some(AudioMenu::Mute), AudioMenu::Deafen),
        (Some(AudioMenu::Deafen), true)
    ));
}

#[test]
fn audio_device_list() {
    let devices = vec![
        (s("usb"), s("USB Mic")),
        (s("builtin"), s("Built-in")),
        (s("bt"), s("Headset")),
        (s("builtin"), s("Built-in (2)")),
    ];
    let m = device_menu(&devices, &Some(s("bt")), &Some(s("usb")));
    assert_eq!(m.default_id, Some(s("bt")));
    assert_eq!(m.entries, vec![1, 3, 0]);
    let m = device_menu(&devices, &None, &Some(s("builtin")));
    assert_eq!(m.default_id, Some(s("builtin")));
    assert_eq!(m.entries, vec![2, 0]);
    let m = device_menu(&devices, &None, &None);
    assert_eq!(m.default_id, None);
    assert_eq!(m.entries, vec![2, 1, 3, 0]);
    assert_eq!(active_device_label(&devices, &Some(s("builtin"))), "Built-in");
    assert_eq!(active_device_label(&devices, &Some(s("gone"))), "System Default");
    assert_eq!(active_device_label(&devices, &None), "System Default");
}

#[test]
fn emoji_rows_become_records() {
    let table = vec![
        (s("grinning face"), vec![s("grinning")], s("😀"), 0),
        (s("flag: Japan"), vec![s("jp")], s("🇯🇵"), 8),
    ];
    let records = emoji_records(table);
    assert_eq!(records.len(), 2);
    assert_eq!(records[0].item.name, "grinning face");
    assert_eq!(records[0].item.shortcodes, vec![s("grinning")]);
    assert_eq!(records[0].item.character, "😀");
    assert!(records[0].group == EmojiGroup::SmileysAndEmotion);
    assert!(records[1].group == EmojiGroup::Flags);
}

#[test]
fn pinned_panel_toggles_and_accepts_fresh_answers() {
    let opened: Option<Vec<u32>> = pins_after_click(None);
    assert_eq!(opened, Some(vec![]));
    assert_eq!(pins_after_click(Some(vec![1u32])), None);
    assert!(should_fetch_pins(&opened, true));
    assert!(!should_fetch_pins(&opened, false));
    assert!(!should_fetch_pins::<u32>(&None, true));
    assert!(!should_fetch_pins(&Some(vec![5u32]), true));
    assert!(accept_pinned(&opened, &vec![7u32]));
    assert!(!accept_pinned(&opened, &vec![]));
    assert!(!accept_pinned(&None, &vec![7u32]));
    assert!(!accept_pinned(&Some(vec![1u32]), &vec![7u32]));
}
