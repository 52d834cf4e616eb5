use rl_core::portforward::{
    detected_terminal_attempts, fallback_terminal_attempts, joined_command,
    kubectl_argv, kubectl_logs_argv, kubectl_port_forward_command, kubectl_selector_logs_argv,
    launch_failure_message, parse_parent_pid, port_forward_argv, quoted_command, shell_quote,
    terminal_from_env, terminal_from_process_name, terminal_launch_attempts, terminal_override,
    TerminalEnv,
};
use rl_core::resources::ResourceKind;

#[test]
fn exec_argv_includes_exec_verb_and_shell() {
    let args = kubectl_argv("exec", "default", "nginx", Some("app"), true);
    assert_eq!(args[0], "exec");
    assert!(args.windows(2).any(|w| w == ["--", "sh"]));
    assert!(args.iter().any(|a| a == "nginx"));
    assert!(args.windows(2).any(|w| w == ["-c", "app"]));
    assert!(args
        .iter()
        .any(|a| a.contains("bash") && a.contains("ash") && a.contains("sh")));
}

#[test]
fn logs_argv_follows_with_context_and_container() {
    let args = kubectl_logs_argv("prod", "default", "nginx-abc", Some("app"));
    assert_eq!(args[0], "logs");
    assert!(args.contains(&"-f".to_string()));
    assert!(args.windows(2).any(|w| w == ["--context", "prod"]));
    assert!(args.windows(2).any(|w| w == ["-n", "default"]));
    assert!(args.windows(2).any(|w| w == ["-c", "app"]));
    assert!(args.iter().any(|a| a == "nginx-abc"));

    let no_container = kubectl_logs_argv("prod", "default", "nginx-abc", None);
    assert!(!no_container.contains(&"-c".to_string()));
}

#[test]
fn detects_terminal_process_names() {
    assert_eq!(terminal_from_process_name("tilix"), Some("tilix"));
    // 15-char kernel truncation of "gnome-terminal-server".
    assert_eq!(
        terminal_from_process_name("gnome-terminal-"),
        Some("gnome-terminal")
    );
    assert_eq!(terminal_from_process_name("wezterm-gui"), Some("wezterm"));
    assert_eq!(terminal_from_process_name("zsh"), None);
}

#[test]
fn shell_quotes_arguments() {
    assert_eq!(shell_quote("nginx-abc"), "'nginx-abc'");
    assert_eq!(shell_quote("a'b c"), "'a'\\''b c'");
}

#[test]
fn detected_attempts_run_through_user_shell() {
    let attempts = detected_terminal_attempts("tilix", "/usr/bin/zsh", "'kubectl' 'logs' '-f'");
    assert!(!attempts.is_empty());
    assert!(attempts.iter().all(|(term, _)| *term == "tilix"));
    assert!(attempts
        .iter()
        .any(|(_, argv)| argv.iter().any(|a| a == "/usr/bin/zsh")));
    assert!(attempts
        .iter()
        .any(|(_, argv)| argv.iter().any(|a| a.contains("'kubectl' 'logs' '-f'"))));
}

#[test]
fn attach_argv_has_no_shell() {
    let args = kubectl_argv("attach", "ns", "pod", None, false);
    assert_eq!(args, vec!["attach", "-it", "-n", "ns", "pod"]);
}

#[test]
fn port_forward_command_targets_service_or_pod() {
    assert_eq!(
        kubectl_port_forward_command("default", ResourceKind::Service, "web", 8080, 80),
        "kubectl port-forward -n default service/web 8080:80"
    );
    assert_eq!(
        kubectl_port_forward_command("default", ResourceKind::Pod, "web-1", 9000, 9090),
        "kubectl port-forward -n default pod/web-1 9000:9090"
    );
    assert_eq!(
        port_forward_argv("ns", ResourceKind::Deployment, "d", 1, 65535),
        vec!["port-forward", "-n", "ns", "pod/d", "1:65535"]
    );
}

#[test]
fn selector_logs_argv_caps_requests() {
    assert_eq!(
        kubectl_selector_logs_argv("prod", "web", "app=web", 10),
        vec!["logs", "-f", "--context", "prod", "-n", "web", "-l", "app=web", "--max-log-requests=10"]
    );
}

#[test]
fn terminal_process_names_cover_the_list() {
    assert_eq!(terminal_from_process_name("mate-terminal"), Some("mate-terminal"));
    assert_eq!(terminal_from_process_name("konsole"), Some("konsole"));
    assert_eq!(terminal_from_process_name("st"), Some("st"));
    assert_eq!(terminal_from_process_name("gnome-terminal"), Some("gnome-terminal"));
    assert_eq!(terminal_from_process_name("Konsole"), None);
    assert_eq!(terminal_from_process_name(""), None);
}

#[test]
fn environment_fingerprints_pick_terminal() {
    let mut env = TerminalEnv::default();
    assert_eq!(terminal_from_env(&env), None);
    env.term_program = Some("wezterm".to_string());
    assert_eq!(terminal_from_env(&env), Some("wezterm"));
    env.konsole_version = true;
    assert_eq!(terminal_from_env(&env), Some("konsole"));
    env.tilix_id = true;
    assert_eq!(terminal_from_env(&env), Some("tilix"));
    let other = TerminalEnv { term_program: Some("vscode".into()), ..TerminalEnv::default() };
    assert_eq!(terminal_from_env(&other), None);
}

#[test]
fn empty_override_is_ignored() {
    assert_eq!(terminal_override(Some(String::new())), None);
    assert_eq!(terminal_override(Some("foot".into())), Some("foot".to_string()));
    assert_eq!(terminal_override(None), None);
}

#[test]
fn parent_pid_read_from_stat() {
    assert_eq!(parse_parent_pid("1234 (bash) S 1200 1234 1234 0"), Some(1200));
    // The process name may hold spaces and parentheses.
    assert_eq!(parse_parent_pid("77 (my (odd) name) R 5 77"), Some(5));
    assert_eq!(parse_parent_pid("77 (x)"), None);
    assert_eq!(parse_parent_pid("no paren here"), None);
    assert_eq!(parse_parent_pid("1 (x) S notanumber"), None);
}

#[test]
fn detected_styles_by_family() {
    let a = detected_terminal_attempts("kitty", "/bin/sh", "CMD");
    assert_eq!(a, vec![("kitty", vec!["/bin/sh".to_string(), "-c".into(), "CMD".into()])]);
    let a = detected_terminal_attempts("wezterm", "sh", "C");
    assert_eq!(a[0].1, vec!["start", "--", "sh", "-c", "C"]);
    let a = detected_terminal_attempts("tilix", "zsh", "'k'");
    assert_eq!(a[0].1, vec!["-e".to_string(), "zsh -c ''\\''k'\\'''".to_string()]);
    assert_eq!(a[1].1, vec!["--", "zsh", "-c", "'k'"]);
    let a = detected_terminal_attempts("unknown-term", "sh", "C");
    assert_eq!(a.len(), 2);
    assert_eq!(a[1].1[0], "-e");
}

#[test]
fn command_lines_for_launching() {
    let args = vec!["logs".to_string(), "a b".to_string()];
    assert_eq!(joined_command(&args), "kubectl logs a b");
    assert_eq!(quoted_command(&args), "'kubectl' 'logs' 'a b'");
    let fb = fallback_terminal_attempts(&args, "Q");
    assert_eq!(fb.len(), 16);
    assert_eq!(fb[0].0, "gnome-terminal");
    assert_eq!(fb[0].1, vec!["--", "kubectl", "logs", "a b"]);
    assert_eq!(fb[9].1, vec!["kubectl", "logs", "a b"]);
    assert_eq!(fb[15].1[3], "Q; echo; echo '[Press enter to close]'; read _");
    let plan = terminal_launch_attempts(Some("foot"), "/bin/zsh", &args);
    assert_eq!(plan.len(), 17);
    assert_eq!(plan[0].0, "foot");
    assert_eq!(plan[0].1, vec!["/bin/zsh", "-c", "'kubectl' 'logs' 'a b'"]);
    assert_eq!(terminal_launch_attempts(None, "sh", &args).len(), 16);
    assert_eq!(
        launch_failure_message("xterm: not found", "kubectl logs"),
        "xterm: not found; tried launching: kubectl logs"
    );
}
