use rl_core::log_tabs::{LogBuffer, LogTabsState, MAX_BYTES_PER_TAB, MAX_LINES_PER_TAB};

#[test]
fn opening_the_same_pod_reuses_its_tab() {
    let mut s = LogTabsState::new();
    let a = s.open_tab("ctx".into(), "web".into(), "prod".into(), None);
    let b = s.open_tab("ctx".into(), "api".into(), "prod".into(), None);
    assert_eq!((a, b), (0, 1));
    assert_eq!(s.active_id(), Some(1));
    let again = s.open_tab("ctx".into(), "web".into(), "prod".into(), Some("sidecar".into()));
    assert_eq!(again, 0);
    assert_eq!(s.tabs().len(), 2);
    assert_eq!(s.active_id(), Some(0));
    assert_eq!(s.tabs()[0].container.as_deref(), Some("sidecar"));
    let other_ctx = s.open_tab("ctx2".into(), "web".into(), "prod".into(), None);
    assert_eq!(other_ctx, 2);
}

#[test]
fn closing_tabs_moves_focus_to_last_and_never_reuses_ids() {
    let mut s = LogTabsState::new();
    let a = s.open_tab("c".into(), "a".into(), "n".into(), None);
    let b = s.open_tab("c".into(), "b".into(), "n".into(), None);
    let c = s.open_tab("c".into(), "c".into(), "n".into(), None);
    assert_eq!(s.close_tab(c), Some(c));
    assert_eq!(s.active_id(), Some(b));
    assert_eq!(s.close_tab(99), None);
    s.set_active(a);
    assert_eq!(s.active_id(), Some(a));
    s.set_active(42);
    assert_eq!(s.active_id(), Some(a));
    let d = s.open_tab("c".into(), "d".into(), "n".into(), None);
    assert_eq!(d, 3);
    assert_eq!(s.close_tab(a), Some(a));
    assert_eq!(s.active_id(), Some(d));
}

#[test]
fn buffers_keep_the_newest_lines_within_limits() {
    let mut s = LogTabsState::new();
    let id = s.open_tab("c".into(), "p".into(), "n".into(), None);
    for i in 0..(MAX_LINES_PER_TAB + 5) {
        s.push_line(id, format!("line {i}"));
    }
    let tab = s.active_tab().unwrap();
    assert_eq!(tab.line_count(), MAX_LINES_PER_TAB);
    assert_eq!(tab.lines()[0], "line 5");
    assert_eq!(tab.lines()[MAX_LINES_PER_TAB - 1], format!("line {}", MAX_LINES_PER_TAB + 4));
    s.clear_lines(id);
    assert!(s.active_tab().unwrap().is_empty());
    s.push_line(77, "ignored".into());
    assert!(s.active_tab().unwrap().is_empty());
}

#[test]
fn byte_limit_drops_oldest_lines() {
    let mut b = LogBuffer::new();
    // Each line costs its bytes plus one for the newline.
    let big = "x".repeat(MAX_BYTES_PER_TAB / 2 - 1);
    b.push(big.clone());
    b.push(big.clone());
    assert_eq!(b.len(), 2);
    b.push("tail".into());
    assert_eq!(b.len(), 2);
    assert_eq!(b.as_slice()[1], "tail");
    assert!(b.byte_len() <= MAX_BYTES_PER_TAB);
}

#[test]
fn older_lines_are_prepended() {
    let mut s = LogTabsState::new();
    let id = s.open_tab("c".into(), "p".into(), "n".into(), None);
    s.push_line(id, "new".into());
    s.set_loading_older(id, true);
    assert!(s.active_tab().unwrap().loading_older);
    s.apply_older_logs(id, vec!["old1".into(), "old2".into()], false);
    let tab = s.active_tab().unwrap();
    assert_eq!(tab.lines(), &["old1".to_string(), "old2".to_string(), "new".to_string()]);
    assert!(!tab.has_more_older);
    assert!(!tab.loading_older);
}

#[test]
fn search_matches_ignore_case() {
    let mut s = LogTabsState::new();
    let id = s.open_tab("c".into(), "p".into(), "n".into(), None);
    for l in ["ERROR one", "ok", "an error", "fine"] {
        s.push_line(id, l.into());
    }
    let tab = s.active_tab().unwrap();
    assert_eq!(tab.matching_indices("error"), vec![0, 2]);
    assert_eq!(tab.matching_indices(""), (0..tab.line_count()).collect::<Vec<usize>>());
}
