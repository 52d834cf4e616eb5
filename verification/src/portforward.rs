//! kubectl argument lists and the choice of a terminal emulator to run them in.
use vstd::prelude::*;

use crate::ops::POD_SHELL_WRAPPER;
use crate::resources::ResourceKind;
use crate::text::{
    chars_of, decimal, extend_texts, is_whitespace, is_whitespace_exec, join_texts, join_with,
    last_index_of, last_index_of_exec, opt_text, owned, parse_u32, parse_u32_spec, push_char,
    push_decimal, push_text, str_eq, str_starts_with, string_from_chars, texts,
};

verus! {

// ---------------------------------------------------------------------------
// Port forwarding
// ---------------------------------------------------------------------------

/// `service/<name>` for a service, `pod/<name>` for anything else.
pub open spec fn port_forward_target(kind: ResourceKind, name: Seq<char>) -> Seq<char> {
    if kind == ResourceKind::Service {
        "service/"@ + name
    } else {
        "pod/"@ + name
    }
}

/// `<local>:<remote>`.
pub open spec fn port_pair(local_port: u16, remote_port: u16) -> Seq<char> {
    decimal(local_port as nat) + ":"@ + decimal(remote_port as nat)
}

pub open spec fn port_forward_command(
    ns: Seq<char>,
    kind: ResourceKind,
    name: Seq<char>,
    local_port: u16,
    remote_port: u16,
) -> Seq<char> {
    "kubectl port-forward -n "@ + ns + " "@ + port_forward_target(kind, name) + " "@ + port_pair(
        local_port,
        remote_port,
    )
}

fn target_text(kind: ResourceKind, name: &str) -> (r: String)
    ensures
        r@ == port_forward_target(kind, name@),
{
    let mut s = match kind {
        ResourceKind::Service => owned("service/"),
        _ => owned("pod/"),
    };
    s.append(name);
    s
}

fn port_pair_text(local_port: u16, remote_port: u16) -> (r: String)
    ensures
        r@ == port_pair(local_port, remote_port),
{
    let mut s = String::new();
    push_decimal(&mut s, local_port as u64);
    s.append(":");
    push_decimal(&mut s, remote_port as u64);
    assert(s@ =~= port_pair(local_port, remote_port));
    s
}

/// The `kubectl port-forward` command line for a pod or service.
pub fn kubectl_port_forward_command(
    namespace: &str,
    kind: ResourceKind,
    name: &str,
    local_port: u16,
    remote_port: u16,
) -> (r: String)
    ensures
        r@ == port_forward_command(namespace@, kind, name@, local_port, remote_port),
{
    let target = target_text(kind, name);
    let ports = port_pair_text(local_port, remote_port);
    let mut s = owned("kubectl port-forward -n ");
    s.append(namespace);
    s.append(" ");
    s.append(target.as_str());
    s.append(" ");
    s.append(ports.as_str());
    s
}

/// Arguments of `kubectl port-forward` (after the program name).
pub fn port_forward_argv(
    namespace: &str,
    kind: ResourceKind,
    name: &str,
    local_port: u16,
    remote_port: u16,
) -> (r: Vec<String>)
    ensures
        texts(r@) == seq![
            "port-forward"@,
            "-n"@,
            namespace@,
            port_forward_target(kind, name@),
            port_pair(local_port, remote_port),
        ],
{
    let target = target_text(kind, name);
    let ports = port_pair_text(local_port, remote_port);
    let mut v: Vec<String> = Vec::new();
    push_text(&mut v, "port-forward");
    push_text(&mut v, "-n");
    push_text(&mut v, namespace);
    push_text(&mut v, target.as_str());
    push_text(&mut v, ports.as_str());
    v
}

// ---------------------------------------------------------------------------
// kubectl argument lists
// ---------------------------------------------------------------------------

/// `-c <container>` when a container is given.
pub open spec fn container_args(container: Option<Seq<char>>) -> Seq<Seq<char>> {
    match container {
        Some(c) => seq!["-c"@, c],
        None => Seq::empty(),
    }
}

/// `kubectl <subcommand> -it -n <ns> <pod> [-c <container>] [-- sh -c <wrapper>]`.
pub open spec fn kubectl_argv_spec(
    subcommand: Seq<char>,
    ns: Seq<char>,
    pod: Seq<char>,
    container: Option<Seq<char>>,
    with_shell: bool,
) -> Seq<Seq<char>> {
    seq![subcommand, "-it"@, "-n"@, ns, pod] + container_args(container) + if with_shell {
        seq!["--"@, "sh"@, "-c"@, POD_SHELL_WRAPPER@]
    } else {
        Seq::empty()
    }
}

fn push_container_args(v: &mut Vec<String>, container: Option<&str>)
    ensures
        texts(final(v)@) == texts(old(v)@) + container_args(opt_text(container)),
{
    match container {
        Some(c) => {
            push_text(v, "-c");
            push_text(v, c);
            assert(texts(v@) =~= texts(old(v)@) + container_args(opt_text(container)));
        },
        None => {
            assert(texts(v@) =~= texts(old(v)@) + container_args(opt_text(container)));
        },
    }
}

/// Arguments of an interactive `kubectl attach` or `kubectl exec`; with
/// `with_shell` the pod runs the first shell it has.
pub fn kubectl_argv(
    subcommand: &str,
    namespace: &str,
    pod_name: &str,
    container: Option<&str>,
    with_shell: bool,
) -> (r: Vec<String>)
    ensures
        texts(r@) == kubectl_argv_spec(
            subcommand@,
            namespace@,
            pod_name@,
            opt_text(container),
            with_shell,
        ),
{
    let mut v: Vec<String> = Vec::new();
    push_text(&mut v, subcommand);
    push_text(&mut v, "-it");
    push_text(&mut v, "-n");
    push_text(&mut v, namespace);
    push_text(&mut v, pod_name);
    push_container_args(&mut v, container);
    let ghost mid = texts(v@);
    if with_shell {
        push_text(&mut v, "--");
        push_text(&mut v, "sh");
        push_text(&mut v, "-c");
        push_text(&mut v, POD_SHELL_WRAPPER);
    }
    assert(texts(v@) =~= kubectl_argv_spec(
        subcommand@,
        namespace@,
        pod_name@,
        opt_text(container),
        with_shell,
    ));
    v
}

/// `kubectl logs -f --context <ctx> -n <ns> <pod> [-c <container>]`.
pub open spec fn logs_argv_spec(
    context: Seq<char>,
    ns: Seq<char>,
    pod: Seq<char>,
    container: Option<Seq<char>>,
) -> Seq<Seq<char>> {
    seq!["logs"@, "-f"@, "--context"@, context, "-n"@, ns, pod] + container_args(container)
}

/// Arguments of `kubectl logs -f` for one pod in a given context.
pub fn kubectl_logs_argv(
    context: &str,
    namespace: &str,
    pod_name: &str,
    container: Option<&str>,
) -> (r: Vec<String>)
    ensures
        texts(r@) == logs_argv_spec(context@, namespace@, pod_name@, opt_text(container)),
{
    let mut v: Vec<String> = Vec::new();
    push_text(&mut v, "logs");
    push_text(&mut v, "-f");
    push_text(&mut v, "--context");
    push_text(&mut v, context);
    push_text(&mut v, "-n");
    push_text(&mut v, namespace);
    push_text(&mut v, pod_name);
    push_container_args(&mut v, container);
    assert(texts(v@) =~= logs_argv_spec(context@, namespace@, pod_name@, opt_text(container)));
    v
}

/// Arguments of `kubectl logs -f -l <selector>` over all matching pods.
pub fn kubectl_selector_logs_argv(
    context: &str,
    namespace: &str,
    label_selector: &str,
    max_log_requests: usize,
) -> (r: Vec<String>)
    ensures
        texts(r@) == seq![
            "logs"@,
            "-f"@,
            "--context"@,
            context@,
            "-n"@,
            namespace@,
            "-l"@,
            label_selector@,
            "--max-log-requests="@ + decimal(max_log_requests as nat),
        ],
{
    let mut v: Vec<String> = Vec::new();
    push_text(&mut v, "logs");
    push_text(&mut v, "-f");
    push_text(&mut v, "--context");
    push_text(&mut v, context);
    push_text(&mut v, "-n");
    push_text(&mut v, namespace);
    push_text(&mut v, "-l");
    push_text(&mut v, label_selector);
    let mut m = owned("--max-log-requests=");
    push_decimal(&mut m, max_log_requests as u64);
    push_text(&mut v, m.as_str());
    v
}

// ---------------------------------------------------------------------------
// Shell quoting
// ---------------------------------------------------------------------------

/// A character as it stands inside single quotes: a quote closes the
/// quoting, is escaped, and reopens it.
pub open spec fn quote_piece(c: char) -> Seq<char> {
    if c == '\'' {
        "'\\''"@
    } else {
        seq![c]
    }
}

pub open spec fn quote_body(s: Seq<char>) -> Seq<char>
    decreases s.len(),
{
    if s.len() == 0 {
        Seq::empty()
    } else {
        quote_body(s.drop_last()) + quote_piece(s.last())
    }
}

/// `s` as one argument of a POSIX shell command line.
pub open spec fn shell_quoted(s: Seq<char>) -> Seq<char> {
    "'"@ + quote_body(s) + "'"@
}

/// Quotes one argument for POSIX shells.
pub fn shell_quote(arg: &str) -> (r: String)
    ensures
        r@ == shell_quoted(arg@),
{
    let cs = chars_of(arg);
    let mut s = owned("'");
    let mut i: usize = 0;
    proof {
        reveal_strlit("'");
        reveal_strlit("'\\''");
    }
    assert(cs@.take(0) =~= Seq::<char>::empty());
    while i < cs.len()
        invariant
            i <= cs.len(),
            cs@ == arg@,
            s@ == "'"@ + quote_body(cs@.take(i as int)),
        decreases cs.len() - i,
    {
        assert(cs@.take(i + 1).drop_last() =~= cs@.take(i as int));
        let c = cs[i];
        if c == '\'' {
            s.append("'\\''");
        } else {
            push_char(&mut s, c);
        }
        assert(s@ =~= "'"@ + quote_body(cs@.take(i + 1)));
        i = i + 1;
    }
    assert(cs@.take(cs.len() as int) =~= cs@);
    s.append("'");
    s
}

/// The command line `kubectl <args..>` with every word shell-quoted.
pub open spec fn quoted_words(args: Seq<Seq<char>>) -> Seq<Seq<char>> {
    args.map_values(|a: Seq<char>| shell_quoted(a))
}

/// `kubectl <args..>` joined with spaces, as shown to the user.
pub fn joined_command(kubectl_args: &[String]) -> (r: String)
    ensures
        r@ == join_with(seq!["kubectl"@] + texts(kubectl_args@), " "@),
{
    let mut words: Vec<String> = Vec::new();
    assert(texts(words@) =~= Seq::<Seq<char>>::empty());
    push_text(&mut words, "kubectl");
    assert(texts(words@) =~= seq!["kubectl"@]);
    extend_texts(&mut words, kubectl_args);
    join_texts(words.as_slice(), " ")
}

/// `kubectl <args..>` with every word shell-quoted, joined with spaces.
pub fn quoted_command(kubectl_args: &[String]) -> (r: String)
    ensures
        r@ == join_with(quoted_words(seq!["kubectl"@] + texts(kubectl_args@)), " "@),
{
    let ghost all = seq!["kubectl"@] + texts(kubectl_args@);
    let mut words: Vec<String> = Vec::new();
    words.push(shell_quote("kubectl"));
    assert(texts(words@) =~= quoted_words(all).take(1));
    let mut i: usize = 0;
    while i < kubectl_args.len()
        invariant
            i <= kubectl_args.len(),
            all == seq!["kubectl"@] + texts(kubectl_args@),
            texts(words@) == quoted_words(all).take(i + 1),
        decreases kubectl_args.len() - i,
    {
        let q = shell_quote(kubectl_args[i].as_str());
        let ghost before = texts(words@);
        words.push(q);
        assert(texts(words@) =~= before.push(q@));
        assert(all[i + 1] == texts(kubectl_args@)[i as int]);
        assert(texts(words@) =~= quoted_words(all).take(i + 2));
        i = i + 1;
    }
    assert(quoted_words(all).take(kubectl_args.len() + 1) =~= quoted_words(all));
    join_texts(words.as_slice(), " ")
}

// ---------------------------------------------------------------------------
// Which terminal emulator hosts this session
// ---------------------------------------------------------------------------

pub open spec fn has_prefix(s: Seq<char>, p: Seq<char>) -> bool {
    p.len() <= s.len() && s.take(p.len() as int) == p
}

/// The emulator binary a process name belongs to.  The kernel cuts process
/// names to 15 characters, so the long names match by prefix.
pub open spec fn terminal_for_process(comm: Seq<char>) -> Option<Seq<char>> {
    if has_prefix(comm, "gnome-terminal"@) {
        Some("gnome-terminal"@)
    } else if has_prefix(comm, "mate-terminal"@) {
        Some("mate-terminal"@)
    } else if comm == "tilix"@ {
        Some("tilix"@)
    } else if comm == "kgx"@ {
        Some("kgx"@)
    } else if comm == "ptyxis"@ {
        Some("ptyxis"@)
    } else if comm == "xfce4-terminal"@ {
        Some("xfce4-terminal"@)
    } else if comm == "konsole"@ {
        Some("konsole"@)
    } else if comm == "kitty"@ {
        Some("kitty"@)
    } else if comm == "alacritty"@ {
        Some("alacritty"@)
    } else if comm == "wezterm"@ || comm == "wezterm-gui"@ {
        Some("wezterm"@)
    } else if comm == "ghostty"@ {
        Some("ghostty"@)
    } else if comm == "xterm"@ {
        Some("xterm"@)
    } else if comm == "uxterm"@ {
        Some("uxterm"@)
    } else if comm == "foot"@ {
        Some("foot"@)
    } else if comm == "st"@ {
        Some("st"@)
    } else if comm == "terminator"@ {
        Some("terminator"@)
    } else if comm == "urxvt"@ {
        Some("urxvt"@)
    } else if comm == "lxterminal"@ {
        Some("lxterminal"@)
    } else {
        None
    }
}

/// Maps an ancestor process name to a terminal emulator binary.
pub fn terminal_from_process_name(comm: &str) -> (r: Option<&'static str>)
    ensures
        opt_text(r) == terminal_for_process(comm@),
{
    if str_starts_with(comm, "gnome-terminal") {
        return Some("gnome-terminal");
    }
    if str_starts_with(comm, "mate-terminal") {
        return Some("mate-terminal");
    }
    if str_eq(comm, "tilix") {
        Some("tilix")
    } else if str_eq(comm, "kgx") {
        Some("kgx")
    } else if str_eq(comm, "ptyxis") {
        Some("ptyxis")
    } else if str_eq(comm, "xfce4-terminal") {
        Some("xfce4-terminal")
    } else if str_eq(comm, "konsole") {
        Some("konsole")
    } else if str_eq(comm, "kitty") {
        Some("kitty")
    } else if str_eq(comm, "alacritty") {
        Some("alacritty")
    } else if str_eq(comm, "wezterm") || str_eq(comm, "wezterm-gui") {
        Some("wezterm")
    } else if str_eq(comm, "ghostty") {
        Some("ghostty")
    } else if str_eq(comm, "xterm") {
        Some("xterm")
    } else if str_eq(comm, "uxterm") {
        Some("uxterm")
    } else if str_eq(comm, "foot") {
        Some("foot")
    } else if str_eq(comm, "st") {
        Some("st")
    } else if str_eq(comm, "terminator") {
        Some("terminator")
    } else if str_eq(comm, "urxvt") {
        Some("urxvt")
    } else if str_eq(comm, "lxterminal") {
        Some("lxterminal")
    } else {
        None
    }
}

/// Environment fingerprints that terminals export into their child shells:
/// which variables are set, and the value of `TERM_PROGRAM`.
#[derive(Debug, Clone, Default)]
pub struct TerminalEnv {
    pub tilix_id: bool,
    pub konsole_version: bool,
    pub gnome_terminal_service: bool,
    pub kitty_window_id: bool,
    pub wezterm_executable: bool,
    pub ghostty_bin_dir: bool,
    pub alacritty_log: bool,
    pub term_program: Option<String>,
}

pub open spec fn terminal_for_env(env: TerminalEnv) -> Option<Seq<char>> {
    if env.tilix_id {
        Some("tilix"@)
    } else if env.konsole_version {
        Some("konsole"@)
    } else if env.gnome_terminal_service {
        Some("gnome-terminal"@)
    } else if env.kitty_window_id {
        Some("kitty"@)
    } else if env.wezterm_executable {
        Some("wezterm"@)
    } else if env.ghostty_bin_dir {
        Some("ghostty"@)
    } else if env.alacritty_log {
        Some("alacritty"@)
    } else {
        match env.term_program {
            Some(p) => if p@ == "kitty"@ {
                Some("kitty"@)
            } else if p@ == "wezterm"@ {
                Some("wezterm"@)
            } else if p@ == "ghostty"@ {
                Some("ghostty"@)
            } else {
                None
            },
            None => None,
        }
    }
}

/// The terminal named by the environment's fingerprints, if any.
pub fn terminal_from_env(env: &TerminalEnv) -> (r: Option<&'static str>)
    ensures
        opt_text(r) == terminal_for_env(*env),
{
    if env.tilix_id {
        return Some("tilix");
    }
    if env.konsole_version {
        return Some("konsole");
    }
    if env.gnome_terminal_service {
        return Some("gnome-terminal");
    }
    if env.kitty_window_id {
        return Some("kitty");
    }
    if env.wezterm_executable {
        return Some("wezterm");
    }
    if env.ghostty_bin_dir {
        return Some("ghostty");
    }
    if env.alacritty_log {
        return Some("alacritty");
    }
    match &env.term_program {
        Some(p) => if str_eq(p.as_str(), "kitty") {
            Some("kitty")
        } else if str_eq(p.as_str(), "wezterm") {
            Some("wezterm")
        } else if str_eq(p.as_str(), "ghostty") {
            Some("ghostty")
        } else {
            None
        },
        None => None,
    }
}

/// A terminal chosen by the user's override variable, when it is set and
/// not empty.
pub fn terminal_override(value: Option<String>) -> (r: Option<String>)
    ensures
        r == (match value {
            Some(v) => if v@.len() > 0 {
                Some(v)
            } else {
                None
            },
            None => None,
        }),
{
    match value {
        Some(v) => {
            let n = chars_of(v.as_str()).len();
            if n > 0 {
                Some(v)
            } else {
                None
            }
        },
        None => None,
    }
}

// ---------------------------------------------------------------------------
// Parent process id from /proc/<pid>/stat
// ---------------------------------------------------------------------------

/// Whitespace-separated words, split the way `split_whitespace` does:
/// the words closed so far and the word being read.
pub open spec fn split_words(s: Seq<char>) -> (Seq<Seq<char>>, Seq<char>)
    decreases s.len(),
{
    if s.len() == 0 {
        (Seq::empty(), Seq::empty())
    } else {
        let (closed, cur) = split_words(s.drop_last());
        if is_whitespace(s.last()) {
            if cur.len() > 0 {
                (closed.push(cur), Seq::empty())
            } else {
                (closed, cur)
            }
        } else {
            (closed, cur.push(s.last()))
        }
    }
}

pub open spec fn words(s: Seq<char>) -> Seq<Seq<char>> {
    let (closed, cur) = split_words(s);
    if cur.len() > 0 {
        closed.push(cur)
    } else {
        closed
    }
}

/// The part of a stat line after the process name: it starts two bytes
/// after the last `)`, which must fall on a character boundary.
pub open spec fn stat_fields(stat: Seq<char>) -> Option<Seq<char>> {
    match last_index_of(stat, ')') {
        Some(k) => if k + 1 < stat.len() && (stat[k + 1] as u32) <= 0x7F {
            Some(stat.skip(k + 2))
        } else {
            None
        },
        None => None,
    }
}

/// The parent pid: the second field after the process name.
pub open spec fn parent_pid_of(stat: Seq<char>) -> Option<u32> {
    match stat_fields(stat) {
        Some(rest) => if words(rest).len() > 1 {
            parse_u32_spec(words(rest)[1])
        } else {
            None
        },
        None => None,
    }
}

fn split_into_words(s: &[char]) -> (r: Vec<Vec<char>>)
    ensures
        r@.len() == words(s@).len(),
        forall|i: int| 0 <= i < r@.len() ==> (#[trigger] r@[i])@ == words(s@)[i],
{
    let mut closed: Vec<Vec<char>> = Vec::new();
    let mut cur: Vec<char> = Vec::new();
    let mut i: usize = 0;
    while i < s.len()
        invariant
            i <= s.len(),
            closed@.len() == split_words(s@.take(i as int)).0.len(),
            forall|j: int|
                0 <= j < closed@.len() ==> (#[trigger] closed@[j])@ == split_words(
                    s@.take(i as int),
                ).0[j],
            cur@ == split_words(s@.take(i as int)).1,
        decreases s.len() - i,
    {
        assert(s@.take(i + 1).drop_last() =~= s@.take(i as int));
        let c = s[i];
        if is_whitespace_exec(c) {
            if cur.len() > 0 {
                let w = cur;
                closed.push(w);
                cur = Vec::new();
            }
        } else {
            cur.push(c);
        }
        i = i + 1;
    }
    assert(s@.take(s.len() as int) =~= s@);
    if cur.len() > 0 {
        closed.push(cur);
    }
    closed
}

/// Reads the parent pid from the text of `/proc/<pid>/stat`.
pub fn parse_parent_pid(stat: &str) -> (r: Option<u32>)
    ensures
        r == parent_pid_of(stat@),
{
    let cs = chars_of(stat);
    let k = match last_index_of_exec(&cs, ')') {
        Some(k) => k,
        None => return None,
    };
    proof {
        crate::text::lemma_last_index_of(cs@, ')');
        assert(last_index_of(cs@, ')') == Some(k as int));
    }
    assert(k < cs.len());
    if !(k + 1 < cs.len() && (cs[k + 1] as u32) <= 0x7F) {
        return None;
    }
    let mut rest: Vec<char> = Vec::new();
    let mut i: usize = k + 2;
    while i < cs.len()
        invariant
            k + 2 <= i <= cs.len(),
            rest@ == cs@.subrange(k + 2, i as int),
        decreases cs.len() - i,
    {
        rest.push(cs[i]);
        assert(rest@ =~= cs@.subrange(k + 2, i + 1));
        i = i + 1;
    }
    assert(rest@ =~= cs@.skip(k + 2));
    let ws = split_into_words(&rest);
    if ws.len() > 1 {
        parse_u32(&ws[1])
    } else {
        None
    }
}

// ---------------------------------------------------------------------------
// How to launch a command in a terminal emulator
// ---------------------------------------------------------------------------

/// `term -- $SHELL -c '<cmd>'` (GNOME/VTE family).
pub open spec fn dash_dash_args(shell: Seq<char>, cmd: Seq<char>) -> Seq<Seq<char>> {
    seq!["--"@, shell, "-c"@, cmd]
}

/// `term -e $SHELL -c '<cmd>'`: `-e` takes the remaining argv.
pub open spec fn dash_e_args(shell: Seq<char>, cmd: Seq<char>) -> Seq<Seq<char>> {
    seq!["-e"@, shell, "-c"@, cmd]
}

/// `term -e '<shell> -c <cmd>'`: `-e` parses one command string, so the shell
/// invocation gets another layer of quoting.
pub open spec fn dash_e_single_args(shell: Seq<char>, cmd: Seq<char>) -> Seq<Seq<char>> {
    seq!["-e"@, shell + " -c "@ + shell_quoted(cmd)]
}

/// `term $SHELL -c '<cmd>'`.
pub open spec fn bare_args(shell: Seq<char>, cmd: Seq<char>) -> Seq<Seq<char>> {
    seq![shell, "-c"@, cmd]
}

/// `wezterm start -- $SHELL -c '<cmd>'`.
pub open spec fn wezterm_args(shell: Seq<char>, cmd: Seq<char>) -> Seq<Seq<char>> {
    seq!["start"@, "--"@, shell, "-c"@, cmd]
}

pub open spec fn vte_family(t: Seq<char>) -> bool {
    t == "gnome-terminal"@ || t == "kgx"@ || t == "ptyxis"@ || t == "xfce4-terminal"@ || t
        == "mate-terminal"@
}

pub open spec fn dash_e_family(t: Seq<char>) -> bool {
    t == "konsole"@ || t == "xterm"@ || t == "uxterm"@ || t == "alacritty"@ || t == "ghostty"@
        || t == "st"@ || t == "urxvt"@ || t == "lxterminal"@
}

/// The launch styles tried for a known emulator, in order.
pub open spec fn detected_attempts_spec(term: Seq<char>, shell: Seq<char>, cmd: Seq<char>) -> Seq<
    (Seq<char>, Seq<Seq<char>>),
> {
    if vte_family(term) {
        seq![(term, dash_dash_args(shell, cmd))]
    } else if dash_e_family(term) {
        seq![(term, dash_e_args(shell, cmd))]
    } else if term == "kitty"@ || term == "foot"@ {
        seq![(term, bare_args(shell, cmd))]
    } else if term == "wezterm"@ {
        seq![(term, wezterm_args(shell, cmd))]
    } else if term == "tilix"@ || term == "terminator"@ {
        seq![(term, dash_e_single_args(shell, cmd)), (term, dash_dash_args(shell, cmd))]
    } else {
        seq![(term, dash_dash_args(shell, cmd)), (term, dash_e_args(shell, cmd))]
    }
}

/// The texts of a list of launch attempts.
pub open spec fn attempts_view<'a>(v: Seq<(&'a str, Vec<String>)>) -> Seq<
    (Seq<char>, Seq<Seq<char>>),
> {
    v.map_values(|a: (&'a str, Vec<String>)| (a.0@, texts(a.1@)))
}

fn args4(a: &str, b: &str, c: &str, d: &str) -> (r: Vec<String>)
    ensures
        texts(r@) == seq![a@, b@, c@, d@],
{
    let mut v: Vec<String> = Vec::new();
    push_text(&mut v, a);
    push_text(&mut v, b);
    push_text(&mut v, c);
    push_text(&mut v, d);
    v
}

fn is_vte_family(t: &str) -> (r: bool)
    ensures
        r == vte_family(t@),
{
    str_eq(t, "gnome-terminal") || str_eq(t, "kgx") || str_eq(t, "ptyxis") || str_eq(
        t,
        "xfce4-terminal",
    ) || str_eq(t, "mate-terminal")
}

fn is_dash_e_family(t: &str) -> (r: bool)
    ensures
        r == dash_e_family(t@),
{
    str_eq(t, "konsole") || str_eq(t, "xterm") || str_eq(t, "uxterm") || str_eq(t, "alacritty")
        || str_eq(t, "ghostty") || str_eq(t, "st") || str_eq(t, "urxvt") || str_eq(
        t,
        "lxterminal",
    )
}

/// Launch styles for a specific emulator, running the (already quoted)
/// command through the user's shell.
pub fn detected_terminal_attempts<'a>(term: &'a str, shell: &str, quoted_cmd: &str) -> (r: Vec<
    (&'a str, Vec<String>),
>)
    ensures
        attempts_view(r@) == detected_attempts_spec(term@, shell@, quoted_cmd@),
{
    let ghost spec = detected_attempts_spec(term@, shell@, quoted_cmd@);
    let mut v: Vec<(&'a str, Vec<String>)> = Vec::new();
    if is_vte_family(term) {
        let a = args4("--", shell, "-c", quoted_cmd);
        v.push((term, a));
        assert(attempts_view(v@) =~= spec);
    } else if is_dash_e_family(term) {
        let a = args4("-e", shell, "-c", quoted_cmd);
        v.push((term, a));
        assert(attempts_view(v@) =~= spec);
    } else if str_eq(term, "kitty") || str_eq(term, "foot") {
        let mut a: Vec<String> = Vec::new();
        push_text(&mut a, shell);
        push_text(&mut a, "-c");
        push_text(&mut a, quoted_cmd);
        assert(texts(a@) =~= bare_args(shell@, quoted_cmd@));
        v.push((term, a));
        assert(attempts_view(v@) =~= spec);
    } else if str_eq(term, "wezterm") {
        let mut a: Vec<String> = Vec::new();
        push_text(&mut a, "start");
        push_text(&mut a, "--");
        push_text(&mut a, shell);
        push_text(&mut a, "-c");
        push_text(&mut a, quoted_cmd);
        assert(texts(a@) =~= wezterm_args(shell@, quoted_cmd@));
        v.push((term, a));
        assert(attempts_view(v@) =~= spec);
    } else if str_eq(term, "tilix") || str_eq(term, "terminator") {
        let q = shell_quote(quoted_cmd);
        let mut one = owned(shell);
        one.append(" -c ");
        one.append(q.as_str());
        let mut a: Vec<String> = Vec::new();
        push_text(&mut a, "-e");
        push_text(&mut a, one.as_str());
        assert(texts(a@) =~= dash_e_single_args(shell@, quoted_cmd@));
        v.push((term, a));
        let b = args4("--", shell, "-c", quoted_cmd);
        v.push((term, b));
        assert(attempts_view(v@) =~= spec);
    } else {
        let a = args4("--", shell, "-c", quoted_cmd);
        v.push((term, a));
        let b = args4("-e", shell, "-c", quoted_cmd);
        v.push((term, b));
        assert(attempts_view(v@) =~= spec);
    }
    v
}

/// What the last-resort attempts run: the command, then a prompt that keeps
/// the window open.
pub open spec fn hold_open(cmd: Seq<char>) -> Seq<char> {
    cmd + "; echo; echo '[Press enter to close]'; read _"@
}

/// Launch attempts tried after the detected emulator: common emulators with
/// their argument styles, then a shell that waits for Enter.
pub open spec fn fallback_attempts_spec(args: Seq<Seq<char>>, cmd: Seq<char>) -> Seq<
    (Seq<char>, Seq<Seq<char>>),
> {
    let dd = seq!["--"@, "kubectl"@] + args;
    let de = seq!["-e"@, "kubectl"@] + args;
    let hold = hold_open(cmd);
    seq![
        ("gnome-terminal"@, dd),
        ("kgx"@, dd),
        ("ptyxis"@, dd),
        ("xfce4-terminal"@, dd),
        ("konsole"@, de),
        ("xterm"@, de),
        ("alacritty"@, de),
        ("ghostty"@, de),
        ("uxterm"@, de),
        ("kitty"@, seq!["kubectl"@] + args),
        ("wezterm"@, seq!["start"@, "--"@, "kubectl"@] + args),
        ("x-terminal-emulator"@, de),
        ("konsole"@, seq!["-e"@, "sh"@, "-c"@, hold]),
        ("xterm"@, seq!["-e"@, "sh"@, "-c"@, hold]),
        ("alacritty"@, seq!["-e"@, "sh"@, "-c"@, hold]),
        ("gnome-terminal"@, seq!["--"@, "sh"@, "-c"@, hold]),
    ]
}

fn prefixed_args(p1: &str, p2: &str, p3: Option<&str>, args: &[String]) -> (r: Vec<String>)
    ensures
        texts(r@) == (match p3 {
            Some(x) => seq![p1@, p2@, x@],
            None => seq![p1@, p2@],
        }) + texts(args@),
{
    let mut v: Vec<String> = Vec::new();
    push_text(&mut v, p1);
    push_text(&mut v, p2);
    if let Some(x) = p3 {
        push_text(&mut v, x);
    }
    let ghost mid = texts(v@);
    assert(mid =~= (match p3 {
        Some(x) => seq![p1@, p2@, x@],
        None => seq![p1@, p2@],
    }));
    extend_texts(&mut v, args);
    v
}

fn push_attempt(v: &mut Vec<(&'static str, Vec<String>)>, term: &'static str, a: Vec<String>)
    ensures
        attempts_view(final(v)@) == attempts_view(old(v)@).push((term@, texts(a@))),
{
    v.push((term, a));
    assert(attempts_view(v@) =~= attempts_view(old(v)@).push((term@, texts(a@))));
}

/// The fallback launch attempts for `kubectl <args..>`, in order.
pub fn fallback_terminal_attempts(kubectl_args: &[String], quoted_cmd: &str) -> (r: Vec<
    (&'static str, Vec<String>),
>)
    ensures
        attempts_view(r@) == fallback_attempts_spec(texts(kubectl_args@), quoted_cmd@),
{
    let mut v: Vec<(&'static str, Vec<String>)> = Vec::new();
    assert(attempts_view(v@) =~= Seq::empty());
    push_attempt(&mut v, "gnome-terminal", prefixed_args("--", "kubectl", None, kubectl_args));
    push_attempt(&mut v, "kgx", prefixed_args("--", "kubectl", None, kubectl_args));
    push_attempt(&mut v, "ptyxis", prefixed_args("--", "kubectl", None, kubectl_args));
    push_attempt(&mut v, "xfce4-terminal", prefixed_args("--", "kubectl", None, kubectl_args));
    push_attempt(&mut v, "konsole", prefixed_args("-e", "kubectl", None, kubectl_args));
    push_attempt(&mut v, "xterm", prefixed_args("-e", "kubectl", None, kubectl_args));
    push_attempt(&mut v, "alacritty", prefixed_args("-e", "kubectl", None, kubectl_args));
    push_attempt(&mut v, "ghostty", prefixed_args("-e", "kubectl", None, kubectl_args));
    push_attempt(&mut v, "uxterm", prefixed_args("-e", "kubectl", None, kubectl_args));
    let mut kitty: Vec<String> = Vec::new();
    push_text(&mut kitty, "kubectl");
    assert(texts(kitty@) =~= seq!["kubectl"@]);
    extend_texts(&mut kitty, kubectl_args);
    push_attempt(&mut v, "kitty", kitty);
    push_attempt(&mut v, "wezterm", prefixed_args("start", "--", Some("kubectl"), kubectl_args));
    push_attempt(&mut v, "x-terminal-emulator", prefixed_args("-e", "kubectl", None, kubectl_args));
    let mut hold = owned(quoted_cmd);
    hold.append("; echo; echo '[Press enter to close]'; read _");
    push_attempt(&mut v, "konsole", args4("-e", "sh", "-c", hold.as_str()));
    push_attempt(&mut v, "xterm", args4("-e", "sh", "-c", hold.as_str()));
    push_attempt(&mut v, "alacritty", args4("-e", "sh", "-c", hold.as_str()));
    push_attempt(&mut v, "gnome-terminal", args4("--", "sh", "-c", hold.as_str()));
    assert(attempts_view(v@) =~= fallback_attempts_spec(texts(kubectl_args@), quoted_cmd@));
    v
}

/// The texts of a list of launch attempts with owned emulator names.
pub open spec fn owned_attempts_view(v: Seq<(String, Vec<String>)>) -> Seq<
    (Seq<char>, Seq<Seq<char>>),
> {
    v.map_values(|a: (String, Vec<String>)| (a.0@, texts(a.1@)))
}

/// Every attempt to launch `kubectl <args..>` in a terminal, in the order
/// they are tried: the detected emulator's styles through the user's shell,
/// then the fallbacks.
pub open spec fn launch_plan(
    detected: Option<Seq<char>>,
    shell: Seq<char>,
    args: Seq<Seq<char>>,
) -> Seq<(Seq<char>, Seq<Seq<char>>)> {
    let cmd = join_with(quoted_words(seq!["kubectl"@] + args), " "@);
    (match detected {
        Some(t) => detected_attempts_spec(t, shell, cmd),
        None => Seq::empty(),
    }) + fallback_attempts_spec(args, cmd)
}

fn own_attempts<'a>(v: &Vec<(&'a str, Vec<String>)>, out: &mut Vec<(String, Vec<String>)>)
    ensures
        owned_attempts_view(final(out)@) == owned_attempts_view(old(out)@) + attempts_view(v@),
{
    let ghost all = attempts_view(v@);
    let mut i: usize = 0;
    while i < v.len()
        invariant
            i <= v@.len(),
            all == attempts_view(v@),
            owned_attempts_view(out@) == owned_attempts_view(old(out)@) + all.take(i as int),
        decreases v.len() - i,
    {
        let t: &str = v[i].0;
        let a = crate::text::clone_strings(v[i].1.as_slice());
        let ghost before = owned_attempts_view(out@);
        out.push((owned(t), a));
        assert(owned_attempts_view(out@) =~= before.push(all[i as int]));
        assert(all.take(i + 1) =~= all.take(i as int).push(all[i as int]));
        i = i + 1;
    }
    assert(all.take(v@.len() as int) =~= all);
}

/// All launch attempts for `kubectl <args..>`, given the detected emulator
/// (if any) and the user's shell.
pub fn terminal_launch_attempts(detected: Option<&str>, shell: &str, kubectl_args: &[String]) -> (r:
    Vec<(String, Vec<String>)>)
    ensures
        owned_attempts_view(r@) == launch_plan(opt_text(detected), shell@, texts(kubectl_args@)),
{
    let quoted = quoted_command(kubectl_args);
    let mut out: Vec<(String, Vec<String>)> = Vec::new();
    assert(owned_attempts_view(out@) =~= Seq::empty());
    if let Some(term) = detected {
        let d = detected_terminal_attempts(term, shell, quoted.as_str());
        own_attempts(&d, &mut out);
    }
    let ghost mid = owned_attempts_view(out@);
    assert(mid =~= (match opt_text(detected) {
        Some(t) => detected_attempts_spec(t, shell@, quoted@),
        None => Seq::empty(),
    }));
    let f = fallback_terminal_attempts(kubectl_args, quoted.as_str());
    own_attempts(&f, &mut out);
    out
}

/// The error reported when no terminal could be launched.
pub fn launch_failure_message(last_err: &str, joined: &str) -> (r: String)
    ensures
        r@ == last_err@ + "; tried launching: "@ + joined@,
{
    let mut s = owned(last_err);
    s.append("; tried launching: ");
    s.append(joined);
    s
}

} // verus!
