use matrix_frontend::search::{
    accept_batch, add_batch, edit_search_params, note_batch, prune_results, search_button_action,
    search_key_action, search_step, BatchTracker, SearchBoxAction, SearchParams, SearchStep,
};

#[test]
fn first_batch_replaces_later_batches_extend() {
    let mut tracker = BatchTracker { search_id: 0, seen_rooms: Vec::new() };
    let mut results: Option<Vec<(String, Vec<u32>)>> = Some(vec![("!r".to_string(), vec![1, 2])]);
    assert!(accept_batch(Some(7), &mut tracker, &mut results, 7, "!r".to_string(), vec![10]));
    assert_eq!(results.as_ref().unwrap()[0].1, vec![10]);
    assert!(accept_batch(Some(7), &mut tracker, &mut results, 7, "!r".to_string(), vec![11]));
    assert_eq!(results.as_ref().unwrap()[0].1, vec![10, 11]);
    assert!(accept_batch(Some(7), &mut tracker, &mut results, 7, "!s".to_string(), vec![5]));
    assert_eq!(results.as_ref().unwrap()[1], ("!s".to_string(), vec![5]));
    // A batch of another search is dropped.
    assert!(!accept_batch(Some(7), &mut tracker, &mut results, 8, "!r".to_string(), vec![99]));
    assert_eq!(results.as_ref().unwrap()[0].1, vec![10, 11]);
    // A new search starts afresh.
    assert!(accept_batch(Some(9), &mut tracker, &mut results, 9, "!r".to_string(), vec![1]));
    assert_eq!(results.as_ref().unwrap()[0].1, vec![1]);
    let mut closed: Option<Vec<(String, Vec<u32>)>> = None;
    assert!(accept_batch(Some(9), &mut tracker, &mut closed, 9, "!r".to_string(), vec![1]));
    assert!(closed.is_none());
}

#[test]
fn tracker_forgets_old_searches() {
    let mut tracker = BatchTracker { search_id: 1, seen_rooms: vec!["!a".to_string()] };
    assert!(!note_batch(&mut tracker, 1, &"!a".to_string()));
    assert!(note_batch(&mut tracker, 2, &"!a".to_string()));
    assert_eq!(tracker.seen_rooms, vec!["!a".to_string()]);
    let mut r: Vec<(String, Vec<u8>)> = Vec::new();
    add_batch(&mut r, "!x".to_string(), false, vec![1]);
    add_batch(&mut r, "!x".to_string(), false, vec![2]);
    assert_eq!(r, vec![("!x".to_string(), vec![1, 2])]);
}

#[test]
fn search_box_takes_active_room_when_none_chosen() {
    let p = edit_search_params(None, "hello".to_string(), Some("!room".to_string()));
    assert_eq!(p.text, "hello");
    assert_eq!(p.room_ids, vec!["!room".to_string()]);
    assert_eq!(p.search_id, 0);
    let chosen = SearchParams { text: "he".to_string(), room_ids: vec!["!a".to_string(), "!b".to_string()], search_id: 7 };
    let p = edit_search_params(Some(chosen), "hey".to_string(), Some("!room".to_string()));
    assert_eq!(p.room_ids, vec!["!a".to_string(), "!b".to_string()]);
    assert_eq!(p.search_id, 7);
    let p = edit_search_params(None, "x".to_string(), None);
    assert!(p.room_ids.is_empty());
}

#[test]
fn search_needs_three_bytes() {
    let params = |t: &str| SearchParams { text: t.to_string(), room_ids: vec!["!a".to_string()], search_id: 1 };
    assert!(matches!(search_step(params("ab"), true, 9), SearchStep::ClearAll));
    assert!(matches!(search_step(params("ab"), false, 9), SearchStep::ClearResults));
    // Two characters but three bytes are enough.
    assert!(matches!(search_step(params("\u{e9}a"), false, 9), SearchStep::Start(_)));
    match search_step(params("abc"), false, 9) {
        SearchStep::Start(p) => {
            assert_eq!(p.text, "abc");
            assert_eq!(p.room_ids, vec!["!a".to_string()]);
            assert_eq!(p.search_id, 9);
        }
        _ => panic!("a search of three letters starts"),
    }
}

#[test]
fn new_search_keeps_only_its_rooms() {
    let results = vec![
        ("!a".to_string(), vec![1u32]),
        ("!b".to_string(), vec![2u32, 3]),
        ("!c".to_string(), vec![]),
    ];
    let kept = prune_results(Some(results), &vec!["!c".to_string(), "!a".to_string()]);
    assert_eq!(kept, vec![("!a".to_string(), vec![1u32]), ("!c".to_string(), vec![])]);
    let none: Vec<(String, Vec<u32>)> = prune_results(None, &vec!["!a".to_string()]);
    assert!(none.is_empty());
}

#[test]
fn search_box_keys_and_button() {
    assert!(matches!(search_key_action("Escape"), SearchBoxAction::ClearAndLeave));
    assert!(matches!(search_key_action("Enter"), SearchBoxAction::Leave));
    assert!(matches!(search_key_action("a"), SearchBoxAction::Nothing));
    assert!(matches!(search_button_action(true), SearchBoxAction::Focus));
    assert!(matches!(search_button_action(false), SearchBoxAction::ClearAndLeave));
}
