use matrix_frontend::client::{
    apply_room_map_update, apply_room_map_updates, expire_toast, map_insert, map_remove,
    note_window, order_servers, page_for, push_toast, same_strings, toast_content,
    window_after_restore, CurrentWindow, NotificationEvent, NotificationLevel, Page,
    RestoreResponse, RoomMapUpdate, Toasts, Tone, WindowHistory,
};

fn strings(v: &[&str]) -> Vec<String> {
    v.iter().map(|x| x.to_string()).collect()
}

#[test]
fn servers_follow_saved_order() {
    let (order, changed) = order_servers(&strings(&["!c", "!new", "!a", "!b"]), &strings(&["!a", "!b", "!c"]));
    assert_eq!(order, strings(&["!a", "!b", "!c", "!new"]));
    assert!(changed);
    let (order, changed) = order_servers(&strings(&["!b", "!a"]), &strings(&["!a", "!b"]));
    assert_eq!(order, strings(&["!a", "!b"]));
    assert!(!changed);
    // A server saved twice counts by its last position.
    let (order, _) = order_servers(&strings(&["!a", "!b"]), &strings(&["!a", "!b", "!a"]));
    assert_eq!(order, strings(&["!b", "!a"]));
    // Unknown servers keep the backend's order.
    let (order, _) = order_servers(&strings(&["!y", "!x"]), &strings(&[]));
    assert_eq!(order, strings(&["!y", "!x"]));
    assert!(same_strings(&strings(&["a"]), &strings(&["a"])));
    assert!(!same_strings(&strings(&["a"]), &strings(&["a", "b"])));
}

#[test]
fn room_map_updates() {
    let mut m: Vec<(String, u32)> = Vec::new();
    map_insert(&mut m, "!a".to_string(), 1);
    map_insert(&mut m, "!b".to_string(), 2);
    map_insert(&mut m, "!a".to_string(), 3);
    assert_eq!(m, vec![("!a".to_string(), 3), ("!b".to_string(), 2)]);
    map_remove(&mut m, &"!a".to_string());
    assert_eq!(m, vec![("!b".to_string(), 2)]);
    map_remove(&mut m, &"!zzz".to_string());
    assert_eq!(m.len(), 1);
    apply_room_map_update(&mut m, RoomMapUpdate::Reset { entries: vec![("!x".to_string(), 7), ("!x".to_string(), 8)] });
    assert_eq!(m, vec![("!x".to_string(), 8)]);
    apply_room_map_updates(
        &mut m,
        vec![
            RoomMapUpdate::Insert { key: "!y".to_string(), value: 1 },
            RoomMapUpdate::Remove { key: "!x".to_string() },
        ],
    );
    assert_eq!(m, vec![("!y".to_string(), 1)]);
}

#[test]
fn restore_and_windows() {
    let (w, user) = window_after_restore(&RestoreResponse::Success { user_id: "@me:x".to_string() });
    assert!(w == CurrentWindow::Home);
    assert_eq!(user.as_deref(), Some("@me:x"));
    let (w, _) = window_after_restore(&RestoreResponse::NoSession);
    assert!(w == CurrentWindow::HomeserverDiscovery);
    let (w, _) = window_after_restore(&RestoreResponse::Failed { home_server: "x".to_string() });
    assert!(w == CurrentWindow::Login);
    assert!(matches!(page_for(&CurrentWindow::Login), Page::Authentication));
    assert!(matches!(page_for(&CurrentWindow::Loading), Page::LoadingScreen));
    let mut h = WindowHistory { last: CurrentWindow::Loading, previous: CurrentWindow::Loading };
    assert!(note_window(&mut h, CurrentWindow::Home));
    assert!(h.previous == CurrentWindow::Loading && h.last == CurrentWindow::Home);
    assert!(!note_window(&mut h, CurrentWindow::Home));
}

#[test]
fn toasts_come_and_go() {
    let mut t: Toasts<&str> = Toasts { next_id: 0, active: Vec::new() };
    let a = push_toast(&mut t, "a");
    let b = push_toast(&mut t, "b");
    assert_eq!((a, b), (0, 1));
    expire_toast(&mut t, a);
    assert_eq!(t.active, vec![(1, "b")]);
    expire_toast(&mut t, 42);
    assert_eq!(t.active.len(), 1);
    let mut w: Toasts<u8> = Toasts { next_id: u64::MAX, active: Vec::new() };
    assert_eq!(push_toast(&mut w, 1), u64::MAX);
    assert_eq!(w.next_id, 0);
    let (title, msg, tone) = toast_content(&NotificationEvent::UpdateAvailable);
    assert_eq!(title, "Update Available");
    assert_eq!(msg, "A new version of the app is ready to install, check the settings.");
    assert!(matches!(tone, Tone::Blue));
    let (title, msg, tone) = toast_content(&NotificationEvent::Generic {
        title: "T".to_string(),
        message: "M".to_string(),
        level: NotificationLevel::Warning,
    });
    assert_eq!((title.as_str(), msg.as_str()), ("T", "M"));
    assert!(matches!(tone, Tone::Yellow));
}
