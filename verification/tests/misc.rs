use matrix_frontend::sync_loop::{
    dm_touched, list_step, refresh_order, single_touched, sync_lists_step, touches_any, SentLists,
};
use matrix_frontend::token::TokenInfo;

fn strings(v: &[&str]) -> Vec<String> {
    v.iter().map(|x| x.to_string()).collect()
}

#[test]
fn token_header_and_staleness() {
    let t = TokenInfo::issued("abc".to_string(), "ref".to_string(), 1000, 60);
    assert_eq!(t.expires_at, 1060);
    assert_eq!(t.access_header(), "Bearer abc");
    assert!(!t.is_stale(1000));
    assert!(!t.is_stale(1049));
    assert!(t.is_stale(1050));
    assert!(t.is_stale(2000));
    assert!(t.is_stale(u64::MAX));
}

#[test]
fn sync_touches() {
    let changed = strings(&["!a", "!b"]);
    assert!(touches_any(&changed, &strings(&["!z", "!b"])));
    assert!(!touches_any(&changed, &strings(&["!z"])));
    assert!(dm_touched(&changed, &Some(strings(&["!a"]))));
    assert!(!dm_touched(&changed, &None));
    assert!(single_touched(&changed, &strings(&[]), &strings(&["!b"])));
    assert!(!single_touched(&changed, &strings(&["!c"]), &strings(&["!d"])));
}

#[test]
fn orders_sent_only_when_changed() {
    let mut prev = strings(&["!a", "!b"]);
    assert_eq!(refresh_order(&mut prev, strings(&["!a", "!b"])), None);
    assert_eq!(refresh_order(&mut prev, strings(&["!b", "!a"])), Some(strings(&["!b", "!a"])));
    assert_eq!(prev, strings(&["!b", "!a"]));
}

#[test]
fn list_sent_only_when_touched_and_changed() {
    let mut prev = strings(&["!a"]);
    assert_eq!(list_step(&mut prev, false, strings(&["!b"])), None);
    assert_eq!(prev, strings(&["!a"]));
    assert_eq!(list_step(&mut prev, true, strings(&["!a"])), None);
    assert_eq!(list_step(&mut prev, true, strings(&["!b", "!a"])), Some(strings(&["!b", "!a"])));
    assert_eq!(prev, strings(&["!b", "!a"]));
    assert_eq!(list_step(&mut prev, true, strings(&["!b", "!a"])), None);
}

#[test]
fn successive_syncs_send_each_change_once() {
    let mut lists = SentLists { dm: strings(&["!d1"]), single: strings(&["!s1"]) };
    let dms = Some(strings(&["!d1", "!d2"]));
    // A direct chat changed and its order too; the single rooms were not touched.
    let sent = sync_lists_step(&mut lists, &strings(&["!d2"]), &dms, &strings(&["!s1"]), strings(&["!d2", "!d1"]), strings(&["!x"]));
    assert_eq!(sent, (Some(strings(&["!d2", "!d1"])), None));
    assert_eq!(lists.dm, strings(&["!d2", "!d1"]));
    assert_eq!(lists.single, strings(&["!s1"]));
    // The same order again sends nothing.
    let sent = sync_lists_step(&mut lists, &strings(&["!d2"]), &dms, &strings(&["!s1"]), strings(&["!d2", "!d1"]), strings(&["!s1"]));
    assert_eq!(sent, (None, None));
    // A room among the single rooms last sent is touched, and their order changed.
    let sent = sync_lists_step(&mut lists, &strings(&["!s1"]), &None, &strings(&[]), strings(&[]), strings(&["!s2", "!s1"]));
    assert_eq!(sent, (None, Some(strings(&["!s2", "!s1"]))));
    assert_eq!(lists.single, strings(&["!s2", "!s1"]));
    assert_eq!(lists.dm, strings(&["!d2", "!d1"]));
}
