use matrix_frontend::logs::{
    highlight_segments, highlighted_field, insert_entry, is_at_bottom, level_index, location,
    search_seq, set_threshold, threshold, toggle_level, trim, visible_entries, LogEntry,
};

fn entry(seq: u64, level: &str, path: &str, line: u32, message: &str) -> LogEntry {
    LogEntry {
        seq,
        level: level.to_string(),
        timestamp: "t".to_string(),
        path: path.to_string(),
        line,
        message: message.to_string(),
    }
}

#[test]
fn entries_stay_in_sequence_order() {
    let mut list = Vec::new();
    insert_entry(&mut list, entry(5, "INFO", "a", 1, "five"));
    insert_entry(&mut list, entry(2, "INFO", "a", 1, "two"));
    insert_entry(&mut list, entry(9, "INFO", "a", 1, "nine"));
    insert_entry(&mut list, entry(5, "INFO", "a", 1, "again"));
    let seqs: Vec<u64> = list.iter().map(|e| e.seq).collect();
    assert_eq!(seqs, vec![2, 5, 9]);
    assert_eq!(list[1].message, "five");
    assert_eq!(search_seq(&list, 9), Ok(2));
    assert_eq!(search_seq(&list, 6), Err(2));
    assert_eq!(search_seq(&list, 1), Err(0));
}

#[test]
fn levels_and_threshold() {
    assert_eq!(level_index("ERROR"), 0);
    assert_eq!(level_index("WARN"), 1);
    assert_eq!(level_index("INFO"), 2);
    assert_eq!(level_index("DEBUG"), 3);
    assert_eq!(level_index("TRACE"), 4);
    assert_eq!(level_index("whatever"), 4);
    let enabled = set_threshold(2);
    assert_eq!(enabled, [true, true, true, false, false]);
    assert_eq!(threshold(&enabled), 2);
    assert_eq!(threshold(&[false; 5]), 0);
    assert_eq!(threshold(&[true, false, false, true, false]), 3);
    let mut e = enabled;
    toggle_level(&mut e, 4);
    assert_eq!(e, [true, true, true, false, true]);
    toggle_level(&mut e, 0);
    assert_eq!(e, [false, true, true, false, true]);
}

#[test]
fn bottom_within_forty_pixels() {
    assert!(is_at_bottom(1000, 560, 400));
    assert!(!is_at_bottom(1000, 559, 400));
    assert!(is_at_bottom(100, 0, 400));
}

#[test]
fn trim_like_std() {
    for t in ["", "   ", "  a b  ", "\u{3000}x\t\n", "x", "\u{200B}x\u{200B}"] {
        assert_eq!(trim(t), t.trim());
    }
}

#[test]
fn visible_lines_keep_log_order() {
    let list = vec![
        entry(1, "ERROR", "src/net.rs", 10, "connection lost"),
        entry(2, "DEBUG", "src/ui.rs", 20, "redraw"),
        entry(3, "INFO", "src/net.rs", 30, "reconnected"),
    ];
    assert_eq!(location(&list[0]), "src/net.rs:10");
    let all = [true; 5];
    assert_eq!(visible_entries(&list, &all, "  "), vec![0, 1, 2]);
    assert_eq!(visible_entries(&list, &set_threshold(2), ""), vec![0, 2]);
    assert_eq!(visible_entries(&list, &all, " net "), vec![0, 2]);
    assert_eq!(visible_entries(&list, &all, "redraw"), vec![1]);
    assert_eq!(visible_entries(&list, &all, "qqqq"), Vec::<usize>::new());
}

#[test]
fn highlight_runs() {
    let segs = highlight_segments("abcdef", &vec![1, 2, 4, 2]);
    let expected = vec![
        ("a".to_string(), false),
        ("bc".to_string(), true),
        ("d".to_string(), false),
        ("e".to_string(), true),
        ("f".to_string(), false),
    ];
    assert_eq!(segs, expected);
    assert!(highlight_segments("", &vec![0]).is_empty());
    assert_eq!(highlight_segments("xy", &vec![]), vec![("xy".to_string(), false)]);
    assert_eq!(highlighted_field("plain", "  "), vec![("plain".to_string(), false)]);
    let marked = highlighted_field("connection", "con");
    let joined: String = marked.iter().map(|(t, _)| t.as_str()).collect();
    assert_eq!(joined, "connection");
    assert!(marked.iter().any(|(_, hit)| *hit));
}

#[test]
fn runs_rebuild_the_text() {
    let text = "héllo wörld";
    let segs = highlight_segments(text, &vec![0, 1, 5, 7, 8, 30]);
    let joined: String = segs.iter().map(|(t, _)| t.as_str()).collect();
    assert_eq!(joined, text);
    assert!(segs.iter().all(|(t, _)| !t.is_empty()));
    for w in segs.windows(2) {
        assert_ne!(w[0].1, w[1].1);
    }
    assert_eq!(segs[0], ("hé".to_string(), true));
}
