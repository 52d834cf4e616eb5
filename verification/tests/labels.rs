use rl_core::labels::{
    context_label_lines, short_context_label, truncate, truncate_context_label,
    truncate_tab_title, wrap_lines,
};

#[test]
fn short_context_is_one_line() {
    assert_eq!(context_label_lines("dev"), vec!["dev"]);
}

#[test]
fn long_context_uses_tail_segments() {
    let lines = context_label_lines("teleport-v2.example.net-tke-rumah123-dev");
    assert!(!lines.is_empty());
    assert!(lines.join("-").contains("rumah123"));
}

#[test]
fn context_label_exact_lines() {
    assert_eq!(
        context_label_lines("teleport-v2.example.net-tke-rumah123-dev"),
        vec!["tke-rumah123-", "dev"]
    );
    assert_eq!(context_label_lines("arn:aws:eks:region:1234:cluster/prod"), vec!["prod"]);
    assert_eq!(context_label_lines("user@host:staging"), vec!["staging"]);
    // One long piece: wrapped into at most three lines, the last marked.
    assert_eq!(
        context_label_lines("abcdefghijklmnopqrstuvwxyzabcdefghijklmnopqrstuvwxyz"),
        vec!["abcdefghijklm", "nopqrstuvwxyz", "abcdefghijklm"]
    );
}

#[test]
fn wrap_lines_marks_truncation() {
    assert_eq!(wrap_lines("abcdefghij", 4, 2), vec!["abcd", "efgh"]);
    assert_eq!(wrap_lines("ab--cd", 2, 3), vec!["ab", "cd"]);
    assert_eq!(wrap_lines("abcdefg", 4, 1), vec!["abcd"]);
    assert_eq!(wrap_lines("abc", 4, 1), vec!["abc..."]);
    assert_eq!(wrap_lines("", 4, 3), Vec::<String>::new());
    // Multi-byte characters are never split.
    assert_eq!(wrap_lines("ééé", 3, 3), vec!["é", "é", "é..."]);
}

#[test]
fn tab_titles_truncate_at_seventeen_bytes() {
    assert_eq!(truncate_tab_title("short-pod"), "short-pod");
    assert_eq!(truncate_tab_title("exactly-eighteen-b"), "exactly-eighteen-b");
    assert_eq!(truncate_tab_title("a-much-longer-pod-name-123"), "a-much-longer-pod...");
}

#[test]
fn context_labels_on_tabs() {
    assert_eq!(short_context_label("arn:aws:eks:x:cluster/prod"), "prod");
    assert_eq!(short_context_label("plain"), "plain");
    assert_eq!(truncate_context_label("org/tiny"), "tiny");
    assert_eq!(truncate_context_label("org/a-long-cluster"), "a-long-cl...");
}

#[test]
fn sidebar_truncation() {
    assert_eq!(truncate("favorite", 10), "favorite");
    assert_eq!(truncate("a-very-long-favorite", 10), "a-very-...");
    assert_eq!(truncate("abcd", 2), "...");
}
