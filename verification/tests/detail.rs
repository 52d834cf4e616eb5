use rl_core::detail::{
    clamp_match_index, empty_hint, find_matches, match_offsets, iter_lines, next_match, prev_match, DetailSearchState,
    DetailState, DetailTab,
};

fn state() -> DetailState {
    DetailState {
        tab: DetailTab::Events,
        yaml: "kind: Pod".into(),
        events: "ev".into(),
        metrics: "m".into(),
        resource_name: "web".into(),
    }
}

#[test]
fn active_text_follows_tab() {
    let mut s = state();
    assert_eq!(s.active_text(), "ev");
    assert!(s.supports_search());
    s.tab = DetailTab::Metrics;
    assert_eq!(s.active_text(), "m");
    assert!(!s.supports_search());
    s.clear();
    assert_eq!(s.active_text(), "");
    assert!(s.yaml.is_empty() && s.resource_name.is_empty());
    assert_eq!(s.tab, DetailTab::Metrics);
    assert_eq!(empty_hint(DetailTab::Describe), "Select a resource to view YAML.");
}

#[test]
fn search_state_steps_and_resets() {
    let mut s = DetailSearchState::default();
    s.open();
    assert!(s.focus_field);
    next_match(&mut s, 3);
    next_match(&mut s, 3);
    assert_eq!(s.match_index, 2);
    next_match(&mut s, 3);
    assert_eq!(s.match_index, 0);
    prev_match(&mut s, 3);
    assert_eq!(s.match_index, 2);
    prev_match(&mut s, 0);
    assert_eq!(s.match_index, 0);
    s.query = "abc".into();
    s.reset();
    assert!(s.query.is_empty() && !s.focus_field && s.match_index == 0);
    assert_eq!(clamp_match_index(5, 3), 2);
    assert_eq!(clamp_match_index(5, 0), 5);
    assert_eq!(clamp_match_index(1, 3), 1);
}

#[test]
fn matches_are_byte_offsets_ignoring_case() {
    assert_eq!(find_matches("Error: an ERROR", "error"), vec![0, 10]);
    assert_eq!(find_matches("aaaa", "aa"), vec![0, 2]);
    assert_eq!(find_matches("héllo hello", "LLO"), vec![3, 9]);
    assert_eq!(find_matches("text", ""), Vec::<usize>::new());
    assert_eq!(find_matches("text", "zz"), Vec::<usize>::new());
}

#[test]
fn lines_with_their_offsets() {
    let lines = iter_lines("ab\nc\n\néd");
    let v: Vec<(usize, &str)> = lines.iter().map(|(o, l)| (*o, l.as_str())).collect();
    assert_eq!(v, vec![(0, "ab"), (3, "c"), (5, ""), (6, "éd")]);
    assert_eq!(iter_lines("").len(), 1);
}

#[test]
fn offsets_of_lowered_text_count_case_and_bytes() {
    assert_eq!(match_offsets("aXbX", "X"), vec![1, 3]);
    assert!(match_offsets("aXbX", "x").is_empty());
    assert_eq!(match_offsets("ééaa", "a"), vec![4, 5]);
    assert_eq!(match_offsets("aaaa", "aa"), vec![0, 2]);
}

#[test]
fn enter_steps_through_detail_matches() {
    let text = "kind: Pod\nname: pod-a\nimage: pod";
    let mut search = DetailSearchState::default();
    search.query = "POD".into();
    search.query_edited();
    assert_eq!(search.match_index, 0);
    search.enter_pressed(text, false);
    assert_eq!(search.match_index, 1);
    search.enter_pressed(text, false);
    assert_eq!(search.match_index, 2);
    search.enter_pressed(text, false);
    assert_eq!(search.match_index, 0);
    search.enter_pressed(text, true);
    assert_eq!(search.match_index, 2);
    search.query = "nothing".into();
    search.enter_pressed(text, true);
    assert_eq!(search.match_index, 0);
}
