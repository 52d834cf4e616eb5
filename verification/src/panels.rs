//! State of the window's panels and the actions they report.
use vstd::prelude::*;

use crate::log_tabs::{scroll_target_rel, LogTab, LogTabsState};
use crate::resources::{ResourceKind, ResourceRow};
use crate::text::{contains_seq, lowercase, owned, str_contains, str_eq, texts, to_lowercase};

verus! {

// ---------------------------------------------------------------------------
// Theme
// ---------------------------------------------------------------------------

#[derive(Debug, Clone, Copy, PartialEq, Eq, Structural)]
pub enum ThemeMode {
    Dark,
    Light,
}

impl ThemeMode {
    /// The mode named in the settings: light only when it says `light`.
    pub fn from_settings(theme: Option<&str>) -> (r: Self)
        ensures
            r == ThemeMode::from_name(crate::text::opt_text(theme)),
    {
        match theme {
            Some(t) => if str_eq(t, "light") {
                ThemeMode::Light
            } else {
                ThemeMode::Dark
            },
            None => ThemeMode::Dark,
        }
    }

    pub open spec fn name(self) -> Seq<char> {
        match self {
            ThemeMode::Dark => "dark"@,
            ThemeMode::Light => "light"@,
        }
    }

    /// The name stored in the settings.
    pub fn as_str(self) -> (r: &'static str)
        ensures
            r@ == self.name(),
    {
        match self {
            ThemeMode::Dark => "dark",
            ThemeMode::Light => "light",
        }
    }

    pub open spec fn toggled(self) -> Self {
        match self {
            ThemeMode::Dark => ThemeMode::Light,
            ThemeMode::Light => ThemeMode::Dark,
        }
    }

    /// The mode a stored theme name selects.
    pub open spec fn from_name(theme: Option<Seq<char>>) -> Self {
        if theme == Some("light"@) {
            ThemeMode::Light
        } else {
            ThemeMode::Dark
        }
    }

    /// The other mode.
    pub fn toggle(self) -> (r: Self)
        ensures
            r == self.toggled(),
    {
        match self {
            ThemeMode::Dark => ThemeMode::Light,
            ThemeMode::Light => ThemeMode::Dark,
        }
    }
}

/// Toggling twice gives the mode back, and toggling always changes it.
pub proof fn law_toggle_twice(m: ThemeMode)
    ensures
        m.toggled().toggled() == m,
        m.toggled() != m,
{
}

/// A mode saved by name is read back as the same mode.
pub proof fn law_theme_round_trip(m: ThemeMode)
    ensures
        ThemeMode::from_name(Some(m.name())) == m,
{
    reveal_strlit("light");
    reveal_strlit("dark");
    assert("dark"@[0] != "light"@[0]);
}

/// How a status text is coloured.
#[derive(Debug, Clone, Copy, PartialEq, Eq, Structural)]
pub enum StatusTone {
    Success,
    Error,
    Warning,
    Muted,
}

pub open spec fn tone_of(status: Seq<char>) -> StatusTone {
    let s = lowercase(status);
    if contains_seq(s, "running"@) || contains_seq(s, "available"@) || contains_seq(s, "complete"@)
        || contains_seq(s, "succeeded"@) || contains_seq(s, "ready"@) || contains_seq(s, "active"@)
        || s == "true"@ {
        StatusTone::Success
    } else if contains_seq(s, "fail"@) || contains_seq(s, "error"@) {
        StatusTone::Error
    } else if contains_seq(s, "progress"@) || contains_seq(s, "pending"@) || contains_seq(
        s,
        "idle"@,
    ) {
        StatusTone::Warning
    } else {
        StatusTone::Muted
    }
}

/// The colour scheme's rules.
pub struct Theme;

impl Theme {
    /// The tone of a status text, judged case-insensitively by the words it
    /// contains.
    pub fn status_tone(status: &str) -> (r: StatusTone)
        ensures
            r == tone_of(status@),
    {
        let lower = to_lowercase(status);
        let s = lower.as_str();
        if str_contains(s, "running") || str_contains(s, "available") || str_contains(s, "complete")
            || str_contains(s, "succeeded") || str_contains(s, "ready") || str_contains(s, "active")
            || str_eq(s, "true") {
            StatusTone::Success
        } else if str_contains(s, "fail") || str_contains(s, "error") {
            StatusTone::Error
        } else if str_contains(s, "progress") || str_contains(s, "pending") || str_contains(
            s,
            "idle",
        ) {
            StatusTone::Warning
        } else {
            StatusTone::Muted
        }
    }
}

// ---------------------------------------------------------------------------
// Resource table
// ---------------------------------------------------------------------------

pub struct TableState {
    pub selected: Option<usize>,
    pub checked: std::collections::HashSet<usize>,
    pub filter: String,
}

impl TableState {
    /// The name of the selected row, if the selection is within `rows`.
    pub fn selected_name<'a>(&self, rows: &'a [ResourceRow]) -> (r: Option<&'a str>)
        ensures
            match r {
                Some(n) => self.selected matches Some(i) && i < rows@.len() && n@ == rows@[i as int].name@,
                None => !(self.selected matches Some(i) && i < rows@.len()),
            },
    {
        match self.selected {
            Some(i) => if i < rows.len() {
                Some(rows[i].name.as_str())
            } else {
                None
            },
            None => None,
        }
    }

    /// Indices of the rows that pass the filter, in table order.
    pub fn visible_rows(&self, rows: &[ResourceRow]) -> (r: Vec<usize>)
        ensures
            r@.map_values(|i: usize| i as int) == indices_where(
                rows@.len() as int,
                |i: int| row_passes(rows@[i].name@, self.filter@),
            ),
    {
        let mut out: Vec<usize> = Vec::new();
        let mut i: usize = 0;
        let ghost p = |k: int| row_passes(rows@[k].name@, self.filter@);
        while i < rows.len()
            invariant
                i <= rows@.len(),
                p == (|k: int| row_passes(rows@[k].name@, self.filter@)),
                out@.map_values(|x: usize| x as int) == indices_where(i as int, p),
            decreases rows@.len() - i,
        {
            let ghost before = out@.map_values(|x: usize| x as int);
            if row_matches_filter(&rows[i], self.filter.as_str()) {
                out.push(i);
                assert(out@.map_values(|x: usize| x as int) =~= before + seq![i as int]);
            } else {
                assert(out@.map_values(|x: usize| x as int) =~= before + Seq::<int>::empty());
            }
            i = i + 1;
        }
        out
    }

    /// Drops the selection when its row is gone or filtered out.
    pub fn drop_hidden_selection(&mut self, rows: &[ResourceRow])
        ensures
            final(self).selected == match old(self).selected {
                Some(i) => if i < rows@.len() && row_passes(rows@[i as int].name@, old(self).filter@) {
                    Some(i)
                } else {
                    None
                },
                None => None,
            },
            final(self).filter == old(self).filter,
            final(self).checked == old(self).checked,
    {
        match self.selected {
            Some(i) => {
                if i >= rows.len() || !row_matches_filter(&rows[i], self.filter.as_str()) {
                    self.selected = None;
                }
            },
            None => {},
        }
    }

    /// Whether row `idx` is ticked.
    pub fn is_checked(&self, idx: usize) -> (r: bool)
        ensures
            r == self.checked@.contains(idx),
    {
        broadcast use vstd::std_specs::hash::group_hash_axioms;

        self.checked.contains(&idx)
    }

    /// The row's checkbox: ticks or clears row `idx`.
    pub fn set_checked(&mut self, idx: usize, checked: bool)
        ensures
            final(self).checked@ == if checked {
                old(self).checked@.insert(idx)
            } else {
                old(self).checked@.remove(idx)
            },
            final(self).selected == old(self).selected,
            final(self).filter == old(self).filter,
    {
        broadcast use vstd::std_specs::hash::group_hash_axioms;

        if checked {
            self.checked.insert(idx);
        } else {
            self.checked.remove(&idx);
        }
    }
}

#[derive(Debug, Clone)]
pub enum RowContextAction {
    Logs { container: Option<String> },
    Shell { container: Option<String> },
    Attach { container: Option<String> },
    Edit,
    Delete,
    ForceDelete,
    Trigger,
    Suspend,
    Resume,
    Restart,
    Scale,
    PinFavorite,
    PortForward { remote_port: u16 },
}

pub struct OverviewWorkloadCounts {
    pub deployments: usize,
    pub jobs: usize,
    pub cronjobs: usize,
}

/// A row passes the filter when the filter is empty or occurs in its name,
/// ignoring case.
pub open spec fn row_passes(name: Seq<char>, filter: Seq<char>) -> bool {
    filter.len() == 0 || contains_seq(lowercase(name), lowercase(filter))
}

/// Whether a row's name matches the table filter.
pub fn row_matches_filter(row: &ResourceRow, filter: &str) -> (r: bool)
    ensures
        r == row_passes(row.name@, filter@),
{
    let n = crate::text::chars_of(filter).len();
    if n == 0 {
        return true;
    }
    let name = to_lowercase(row.name.as_str());
    let f = to_lowercase(filter);
    str_contains(name.as_str(), f.as_str())
}

/// The indices below `n` that satisfy `p`, in order.
pub open spec fn indices_where(n: int, p: spec_fn(int) -> bool) -> Seq<int>
    decreases n,
{
    if n <= 0 {
        Seq::empty()
    } else {
        indices_where(n - 1, p) + if p(n - 1) {
            seq![n - 1]
        } else {
            Seq::empty()
        }
    }
}

/// The indices picked below `n` are exactly those that satisfy `p`, each
/// once, in increasing order.
pub proof fn law_indices_where(n: int, p: spec_fn(int) -> bool)
    ensures
        forall|i: int| #[trigger] indices_where(n, p).contains(i) <==> 0 <= i < n && p(i),
        forall|a: int, b: int|
            0 <= a < b < indices_where(n, p).len() ==> indices_where(n, p)[a] < indices_where(n, p)[b],
        forall|a: int|
            0 <= a < indices_where(n, p).len() ==> 0 <= #[trigger] indices_where(n, p)[a] < n,
    decreases n,
{
    if n > 0 {
        law_indices_where(n - 1, p);
        let prev = indices_where(n - 1, p);
        let cur = indices_where(n, p);
        if p(n - 1) {
            assert(cur =~= prev.push(n - 1));
        } else {
            assert(cur =~= prev);
        }
        assert forall|i: int| #[trigger] cur.contains(i) <==> 0 <= i < n && p(i) by {
            if p(n - 1) {
                if cur.contains(i) && i != n - 1 {
                    let k = choose|k: int| 0 <= k < cur.len() && cur[k] == i;
                    assert(k < prev.len());
                    assert(prev[k] == i);
                    assert(prev.contains(i));
                }
                if 0 <= i < n - 1 && p(i) {
                    assert(prev.contains(i));
                    let k = choose|k: int| 0 <= k < prev.len() && prev[k] == i;
                    assert(cur[k] == i);
                }
                if i == n - 1 {
                    assert(cur[cur.len() - 1] == i);
                }
            } else {
                if cur.contains(i) {
                    let k = choose|k: int| 0 <= k < cur.len() && cur[k] == i;
                    assert(prev[k] == i);
                    assert(prev.contains(i));
                }
            }
        }
    } else {
        assert(indices_where(n, p) =~= Seq::<int>::empty());
    }
}

/// Whether a pod row's status reads `Running`, in any ASCII case.
pub open spec fn is_running_row() -> spec_fn(ResourceRow) -> bool {
    |r: ResourceRow| crate::text::eq_ignore_ascii_case_spec(r.status@, "running"@)
}

proof fn lemma_running_among(rows: Seq<ResourceRow>, n: int)
    requires
        0 <= n <= rows.len(),
    ensures
        running_among(rows, n) == rows.take(n).filter(is_running_row()).len(),
    decreases n,
{
    if n > 0 {
        lemma_running_among(rows, n - 1);
        assert(rows.take(n - 1).push(rows[n - 1]) =~= rows.take(n));
        rows.take(n - 1).lemma_filter_push(rows[n - 1], is_running_row());
    } else {
        assert(rows.take(n).filter(is_running_row()) =~= Seq::<ResourceRow>::empty()) by {
            reveal(Seq::filter);
        }
    }
}

/// The overview's running count is the number of listed pod rows whose
/// status is `Running` in any ASCII case, wherever they stand.
pub proof fn law_running_count(rows: Seq<ResourceRow>)
    ensures
        running_among(rows, rows.len() as int) == rows.filter(is_running_row()).len(),
{
    lemma_running_among(rows, rows.len() as int);
    assert(rows.take(rows.len() as int) =~= rows);
}

/// The rows of jobs that a cron job started: those whose owner is it.
pub open spec fn jobs_of_spec(rows: Seq<ResourceRow>, cronjob: Seq<char>) -> Seq<int> {
    indices_where(rows.len() as int, |i: int| rows[i].owner@ == cronjob)
}

/// Indices of the job rows owned by `cronjob`, in table order.
pub fn jobs_of_cronjob(rows: &[ResourceRow], cronjob: &str) -> (r: Vec<usize>)
    ensures
        r@.map_values(|i: usize| i as int) == jobs_of_spec(rows@, cronjob@),
{
    let mut out: Vec<usize> = Vec::new();
    let mut i: usize = 0;
    let ghost p = |k: int| rows@[k].owner@ == cronjob@;
    while i < rows.len()
        invariant
            i <= rows@.len(),
            p == (|k: int| rows@[k].owner@ == cronjob@),
            out@.map_values(|x: usize| x as int) == indices_where(i as int, p),
        decreases rows@.len() - i,
    {
        let ghost before = out@.map_values(|x: usize| x as int);
        if str_eq(rows[i].owner.as_str(), cronjob) {
            out.push(i);
            assert(out@.map_values(|x: usize| x as int) =~= before + seq![i as int]);
        } else {
            assert(out@.map_values(|x: usize| x as int) =~= before + Seq::<int>::empty());
        }
        i = i + 1;
    }
    out
}

/// The contexts the rail's search keeps: all when the search is empty,
/// else those containing it, ignoring case.
pub open spec fn contexts_found_spec(contexts: Seq<String>, query: Seq<char>) -> Seq<int> {
    indices_where(contexts.len() as int, |i: int| row_passes(contexts[i]@, query))
}

/// Indices of the contexts that pass the rail's search, in order.
pub fn contexts_matching(contexts: &[String], query: &str) -> (r: Vec<usize>)
    ensures
        r@.map_values(|i: usize| i as int) == contexts_found_spec(contexts@, query@),
{
    let mut out: Vec<usize> = Vec::new();
    let mut i: usize = 0;
    let ghost p = |k: int| row_passes(contexts@[k]@, query@);
    let empty = crate::text::chars_of(query).len() == 0;
    let q = to_lowercase(query);
    while i < contexts.len()
        invariant
            i <= contexts@.len(),
            p == (|k: int| row_passes(contexts@[k]@, query@)),
            empty == (query@.len() == 0),
            q@ == lowercase(query@),
            out@.map_values(|x: usize| x as int) == indices_where(i as int, p),
        decreases contexts@.len() - i,
    {
        let ghost before = out@.map_values(|x: usize| x as int);
        let keep = empty || {
            let c = to_lowercase(contexts[i].as_str());
            str_contains(c.as_str(), q.as_str())
        };
        if keep {
            out.push(i);
            assert(out@.map_values(|x: usize| x as int) =~= before + seq![i as int]);
        } else {
            assert(out@.map_values(|x: usize| x as int) =~= before + Seq::<int>::empty());
        }
        i = i + 1;
    }
    out
}

/// How many of the first `n` rows have the status `Running`, in any ASCII case.
pub open spec fn running_among(rows: Seq<ResourceRow>, n: int) -> nat
    decreases n,
{
    if n <= 0 {
        0
    } else {
        running_among(rows, n - 1) + if crate::text::eq_ignore_ascii_case_spec(
            rows[n - 1].status@,
            "running"@,
        ) {
            1nat
        } else {
            0nat
        }
    }
}

/// The overview's count of running pods among the listed pod rows.
pub fn running_pod_count(pod_rows: &[ResourceRow]) -> (r: usize)
    ensures
        r == running_among(pod_rows@, pod_rows@.len() as int),
{
    let mut count: usize = 0;
    let mut i: usize = 0;
    while i < pod_rows.len()
        invariant
            i <= pod_rows@.len(),
            count == running_among(pod_rows@, i as int),
            count <= i,
        decreases pod_rows@.len() - i,
    {
        if crate::text::eq_ignore_ascii_case(pod_rows[i].status.as_str(), "running") {
            count = count + 1;
        }
        i = i + 1;
    }
    count
}

// ---------------------------------------------------------------------------
// Log panel
// ---------------------------------------------------------------------------

pub struct LogPanelState {
    pub word_wrap: bool,
    pub show_timestamps: bool,
    pub log_filter: String,
    pub follow_tail: bool,
    pub filter_match_index: usize,
    pub focus_filter: bool,
    pub save_dialog_open: bool,
    pub save_path: String,
}

impl Default for LogPanelState {
    fn default() -> (r: Self)
        ensures
            r.word_wrap,
            !r.show_timestamps,
            r.log_filter@.len() == 0,
            r.follow_tail,
            r.filter_match_index == 0,
            !r.focus_filter,
            !r.save_dialog_open,
            r.save_path@.len() == 0,
    {
        LogPanelState {
            word_wrap: true,
            show_timestamps: false,
            log_filter: String::new(),
            follow_tail: true,
            filter_match_index: 0,
            focus_filter: false,
            save_dialog_open: false,
            save_path: String::new(),
        }
    }
}

/// Moves to the next of `count` filter matches, wrapping around.
pub fn next_log_match(state: &mut LogPanelState, count: usize)
    ensures
        final(state).filter_match_index == crate::detail::next_index(
            old(state).filter_match_index,
            count,
        ),
        *final(state) == (LogPanelState { filter_match_index: final(state).filter_match_index, ..*old(state) }),
{
    if count == 0 {
        state.filter_match_index = 0;
        return;
    }
    state.filter_match_index = ((state.filter_match_index as u128 + 1) % count as u128) as usize;
}

/// Moves to the previous of `count` filter matches, wrapping around.
pub fn prev_log_match(state: &mut LogPanelState, count: usize)
    ensures
        final(state).filter_match_index == crate::detail::prev_index(
            old(state).filter_match_index,
            count,
        ),
        *final(state) == (LogPanelState { filter_match_index: final(state).filter_match_index, ..*old(state) }),
{
    if count == 0 {
        state.filter_match_index = 0;
        return;
    }
    state.filter_match_index = if state.filter_match_index == 0 {
        count - 1
    } else {
        state.filter_match_index - 1
    };
}

impl LogPanelState {
    /// Whether the view sticks to the newest line: while following the tail
    /// and no older lines are being loaded.
    pub fn view_follows(&self, tab: &LogTab) -> (r: bool)
        ensures
            r == (self.follow_tail && !tab.loading_older),
    {
        self.follow_tail && !tab.loading_older
    }

    /// Scrolling up or dragging the view leaves follow mode.
    pub fn user_scrolled(&mut self, scrolled_up: bool, dragging: bool)
        ensures
            *final(self) == (LogPanelState {
                follow_tail: old(self).follow_tail && !(scrolled_up || dragging),
                ..*old(self)
            }),
    {
        if self.follow_tail && (scrolled_up || dragging) {
            self.follow_tail = false;
        }
    }

    /// The search text changed: back to the first match, and the tab's view
    /// goes to it.
    pub fn filter_edited(&mut self, tabs: &mut LogTabsState, tab_id: u64)
        ensures
            *final(self) == (LogPanelState { filter_match_index: 0, ..*old(self) }),
            final(tabs)@.wf(),
            scroll_target_rel(old(tabs)@, tab_id, Some(0), final(tabs)@),
    {
        proof {
            use_type_invariant(&*tabs);
        }
        self.filter_match_index = 0;
        tabs.set_scroll_target(tab_id, Some(0));
    }

    /// Enter, Shift+Enter or the arrows: the next or previous of `count`
    /// matches, and the tab's view goes to it.
    pub fn step_match(&mut self, tabs: &mut LogTabsState, tab_id: u64, count: usize, backwards: bool)
        ensures
            final(self).filter_match_index == if backwards {
                crate::detail::prev_index(old(self).filter_match_index, count)
            } else {
                crate::detail::next_index(old(self).filter_match_index, count)
            },
            *final(self) == (LogPanelState { filter_match_index: final(self).filter_match_index, ..*old(self) }),
            final(tabs)@.wf(),
            scroll_target_rel(old(tabs)@, tab_id, Some(final(self).filter_match_index), final(tabs)@),
    {
        proof {
            use_type_invariant(&*tabs);
        }
        if backwards {
            prev_log_match(self, count);
        } else {
            next_log_match(self, count);
        }
        tabs.set_scroll_target(tab_id, Some(self.filter_match_index));
    }

    /// Keeps the current match among the `count` there are.
    pub fn clamp_match_index(&mut self, count: usize)
        ensures
            final(self).filter_match_index == if old(self).filter_match_index >= count && count > 0 {
                (count - 1) as usize
            } else {
                old(self).filter_match_index
            },
            *final(self) == (LogPanelState { filter_match_index: final(self).filter_match_index, ..*old(self) }),
    {
        if self.filter_match_index >= count && count > 0 {
            self.filter_match_index = count - 1;
        }
    }

    /// The match counter: `No matches`, or the current match's position among
    /// them, such as `2 / 5`.
    pub fn match_counter(&self, count: usize) -> (r: String)
        requires
            count == 0 || self.filter_match_index < count,
        ensures
            r@ == if count == 0 {
                "No matches"@
            } else {
                crate::text::decimal(self.filter_match_index as nat + 1) + " / "@ + crate::text::decimal(
                    count as nat,
                )
            },
    {
        if count == 0 {
            return owned("No matches");
        }
        let mut s = String::new();
        crate::text::push_decimal(&mut s, self.filter_match_index as u64 + 1);
        s.append(" / ");
        crate::text::push_decimal(&mut s, count as u64);
        s
    }

    /// The clear button: no search, first match.
    pub fn clear_filter(&mut self)
        ensures
            final(self).log_filter@.len() == 0,
            final(self).filter_match_index == 0,
            *final(self) == (LogPanelState {
                log_filter: final(self).log_filter,
                filter_match_index: 0,
                ..*old(self)
            }),
    {
        self.log_filter = String::new();
        self.filter_match_index = 0;
    }

    /// The Save button: opens the dialog, on the pod's default file unless a
    /// path was typed before.
    pub fn open_save_dialog(&mut self, home: Option<&str>, pod_name: &str)
        ensures
            final(self).save_dialog_open,
            final(self).save_path@ == if old(self).save_path@.len() == 0 {
                crate::paths::join_path(
                    crate::paths::home_or(crate::text::opt_text(home), "."@),
                    "rusticlens-"@ + pod_name@.map_values(|c: char| safe_char(c)) + ".log"@,
                )
            } else {
                old(self).save_path@
            },
            *final(self) == (LogPanelState {
                save_dialog_open: true,
                save_path: final(self).save_path,
                ..*old(self)
            }),
    {
        self.save_dialog_open = true;
        if crate::text::chars_of(self.save_path.as_str()).len() == 0 {
            self.save_path = log_save_path(home, pod_name);
        }
    }

    /// What writing the tab's lines to the save path led to: the status to
    /// show; the dialog closes on success and stays open on failure.
    pub fn save_finished(&mut self, result: Result<(), String>, line_count: usize) -> (status: String)
        ensures
            status@ == match result {
                Ok(()) => "Saved "@ + crate::text::decimal(line_count as nat) + " line(s) to "@
                    + old(self).save_path@,
                Err(e) => "Failed to save logs: "@ + e@,
            },
            *final(self) == (LogPanelState {
                save_dialog_open: old(self).save_dialog_open && result is Err,
                ..*old(self)
            }),
    {
        match result {
            Ok(()) => {
                let mut s = owned("Saved ");
                crate::text::push_decimal(&mut s, line_count as u64);
                s.append(" line(s) to ");
                s.append(self.save_path.as_str());
                self.save_dialog_open = false;
                s
            },
            Err(e) => crate::text::concat2("Failed to save logs: ", e.as_str()),
        }
    }

    /// The line shown in row `row` of the view: the row itself without a
    /// search, else the row-th matching line.
    pub fn row_line(&self, row: usize, matches: &[usize]) -> (r: usize)
        ensures
            r == if self.log_filter@.len() == 0 || row >= matches@.len() {
                row
            } else {
                matches@[row as int]
            },
    {
        if crate::text::chars_of(self.log_filter.as_str()).len() == 0 || row >= matches.len() {
            row
        } else {
            matches[row]
        }
    }

    /// The line of the current match, highlighted as such; none without a
    /// search.
    pub fn current_match_line(&self, matches: &[usize]) -> (r: Option<usize>)
        ensures
            r == if self.log_filter@.len() == 0 || self.filter_match_index >= matches@.len() {
                None
            } else {
                Some(matches@[self.filter_match_index as int])
            },
    {
        if crate::text::chars_of(self.log_filter.as_str()).len() == 0 || self.filter_match_index
            >= matches.len() {
            None
        } else {
            Some(matches[self.filter_match_index])
        }
    }
}

/// The note beside a tab's pod name: older lines loading, or the start of
/// the pod's log reached.
pub fn log_tab_notice(tab: &LogTab) -> (r: Option<&'static str>)
    ensures
        match r {
            Some(t) => (tab.loading_older && t@ == "Loading older logs..."@) || (!tab.loading_older
                && !tab.has_more_older && tab.lines@.len() > 0 && t@ == "Beginning of log"@),
            None => !tab.loading_older && (tab.has_more_older || tab.lines@.len() == 0),
        },
{
    if tab.loading_older {
        Some("Loading older logs...")
    } else if !tab.has_more_older && !tab.is_empty() {
        Some("Beginning of log")
    } else {
        None
    }
}

#[derive(Debug, Default)]
pub struct LogPanelAction {
    pub select_tab: Option<u64>,
    pub close_tab: Option<u64>,
}

#[derive(Debug, Default)]
pub struct LogContentAction {
    pub container: Option<(u64, String)>,
    pub restart_stream: bool,
    pub load_older: Option<u64>,
    pub export_logs: bool,
    pub status_message: Option<String>,
}

/// A pod name made safe for a file name: ASCII letters, digits, `-` and `_`
/// stay, anything else becomes `_`.
pub open spec fn safe_char(c: char) -> char {
    if ('a' <= c && c <= 'z') || ('A' <= c && c <= 'Z') || ('0' <= c && c <= '9') || c == '-'
        || c == '_' {
        c
    } else {
        '_'
    }
}

/// Where a pod's logs are saved by default: `rusticlens-<pod>.log` in the
/// home directory (`.` when unset).
pub fn log_save_path(home: Option<&str>, pod_name: &str) -> (r: String)
    ensures
        r@ == crate::paths::join_path(
            crate::paths::home_or(crate::text::opt_text(home), "."@),
            "rusticlens-"@ + pod_name@.map_values(|c: char| safe_char(c)) + ".log"@,
        ),
{
    let cs = crate::text::chars_of(pod_name);
    let mut file = owned("rusticlens-");
    let mut i: usize = 0;
    while i < cs.len()
        invariant
            i <= cs@.len(),
            cs@ == pod_name@,
            file@ == "rusticlens-"@ + cs@.take(i as int).map_values(|c: char| safe_char(c)),
        decreases cs@.len() - i,
    {
        let c = cs[i];
        let safe = if ('a' <= c && c <= 'z') || ('A' <= c && c <= 'Z') || ('0' <= c && c <= '9')
            || c == '-' || c == '_' {
            c
        } else {
            '_'
        };
        crate::text::push_char(&mut file, safe);
        assert(cs@.take(i + 1).map_values(|c: char| safe_char(c)) =~= cs@.take(i as int).map_values(
            |c: char| safe_char(c),
        ).push(safe_char(cs@[i as int])));
        i = i + 1;
    }
    assert(cs@.take(cs@.len() as int) =~= cs@);
    file.append(".log");
    proof {
        reveal_strlit("rusticlens-");
    }
    let base = match home {
        Some(h) => owned(h),
        None => owned("."),
    };
    crate::paths::join(base.as_str(), file.as_str())
}

// ---------------------------------------------------------------------------
// Embedded terminal
// ---------------------------------------------------------------------------

pub struct EmbeddedTerminalState {
    pub open: bool,
    pub pod_name: String,
    pub lines: Vec<String>,
    pub input: String,
    pub running: bool,
}

impl EmbeddedTerminalState {
    /// A closed, empty terminal.
    pub fn new() -> (r: Self)
        ensures
            !r.open,
            r.pod_name@.len() == 0,
            r.lines@.len() == 0,
            r.input@.len() == 0,
            !r.running,
    {
        EmbeddedTerminalState {
            open: false,
            pod_name: String::new(),
            lines: Vec::new(),
            input: String::new(),
            running: false,
        }
    }

    /// Opens the terminal on a pod, with no output or input yet.
    pub fn open_for_pod(&mut self, pod_name: String)
        ensures
            final(self).open,
            final(self).pod_name == pod_name,
            final(self).lines@.len() == 0,
            final(self).input@.len() == 0,
            !final(self).running,
    {
        self.open = true;
        self.pod_name = pod_name;
        self.lines = Vec::new();
        self.input = String::new();
        self.running = false;
    }

    /// Closes the terminal and drops its output and input.
    pub fn close(&mut self)
        ensures
            !final(self).open,
            !final(self).running,
            final(self).lines@.len() == 0,
            final(self).input@.len() == 0,
            final(self).pod_name == old(self).pod_name,
    {
        self.open = false;
        self.running = false;
        self.lines = Vec::new();
        self.input = String::new();
    }
}

pub enum EmbeddedTerminalAction {
    NoAction,
    Start,
    Stop,
    SendInput(Vec<u8>),
}

// ---------------------------------------------------------------------------
// Sidebar, rail, settings dialog, cluster tabs
// ---------------------------------------------------------------------------

/// A resource pinned to the sidebar.
#[derive(Debug, Clone)]
pub struct FavoriteResource {
    pub kind: String,
    pub namespace: String,
    pub name: String,
}

#[derive(Debug, Default)]
pub struct SidebarAction {
    pub selected_favorite: Option<FavoriteResource>,
    pub unpin_favorite: Option<FavoriteResource>,
}

pub struct SidebarState {
    pub show_overview: bool,
    pub selected_kind: ResourceKind,
    pub workloads_open: bool,
    pub config_open: bool,
    pub network_open: bool,
    pub storage_open: bool,
    pub access_open: bool,
    pub cluster_open: bool,
    pub helm_open: bool,
}

impl Default for SidebarState {
    /// Pods selected, only the workloads section open.
    fn default() -> (r: Self)
        ensures
            !r.show_overview,
            r.selected_kind == ResourceKind::Pod,
            r.workloads_open,
            !r.config_open && !r.network_open && !r.storage_open && !r.access_open
                && !r.cluster_open && !r.helm_open,
    {
        SidebarState {
            show_overview: false,
            selected_kind: ResourceKind::Pod,
            workloads_open: true,
            config_open: false,
            network_open: false,
            storage_open: false,
            access_open: false,
            cluster_open: false,
            helm_open: false,
        }
    }
}

impl SidebarState {
    /// A click on a kind in the sidebar or on a workload tab: that kind's
    /// list is shown.
    pub fn select_kind(&mut self, kind: ResourceKind)
        ensures
            *final(self) == (SidebarState { show_overview: false, selected_kind: kind, ..*old(self) }),
    {
        self.show_overview = false;
        self.selected_kind = kind;
    }

    /// A click on Overview in the Workloads section.
    pub fn select_overview(&mut self)
        ensures
            *final(self) == (SidebarState { show_overview: true, ..*old(self) }),
    {
        self.show_overview = true;
    }

    /// The Overview tab above the workload lists; it also sets the kind back
    /// to pods.
    pub fn select_overview_tab(&mut self)
        ensures
            *final(self) == (SidebarState {
                show_overview: true,
                selected_kind: ResourceKind::Pod,
                ..*old(self)
            }),
    {
        self.show_overview = true;
        self.selected_kind = ResourceKind::Pod;
    }

    /// Whether the entry of `kind` is highlighted: in the Workloads section
    /// and the workload tabs only while the overview is hidden, elsewhere
    /// whenever it is the selected kind.
    pub fn is_highlighted(&self, kind: ResourceKind, in_workloads: bool) -> (r: bool)
        ensures
            r == (self.selected_kind == kind && (!in_workloads || !self.show_overview)),
    {
        self.selected_kind == kind && (!in_workloads || !self.show_overview)
    }
}

/// `s` without the copies of `c` at its end.
pub open spec fn trim_end_char(s: Seq<char>, c: char) -> Seq<char>
    decreases s.len(),
{
    if s.len() > 0 && s.last() == c {
        trim_end_char(s.drop_last(), c)
    } else {
        s
    }
}

/// A workload tab's caption: the kind's label without its trailing `s`.
pub fn workload_tab_caption(kind: ResourceKind) -> (r: String)
    ensures
        r@ == trim_end_char(crate::resources::kind_label(kind), 's'),
{
    let chars = crate::text::chars_of(kind.label());
    let mut n: usize = chars.len();
    assert(chars@.take(n as int) =~= chars@);
    while n > 0 && chars[n - 1] == 's'
        invariant
            n <= chars@.len(),
            trim_end_char(chars@.take(n as int), 's') == trim_end_char(chars@, 's'),
        decreases n,
    {
        assert(chars@.take(n as int).drop_last() =~= chars@.take(n - 1));
        n = n - 1;
    }
    assert(chars@.take(n as int) =~= chars@.subrange(0, n as int));
    crate::text::string_from_range(chars.as_slice(), 0, n)
}

/// A favorite's entry in the sidebar: its kind and name.
pub fn favorite_entry(fav: &FavoriteResource) -> (r: String)
    ensures
        r@ == "  "@ + fav.kind@ + " / "@ + fav.name@,
{
    let mut s = crate::text::concat2("  ", fav.kind.as_str());
    s.append(" / ");
    s.append(fav.name.as_str());
    s
}

#[derive(Debug, Default)]
pub struct IconRailState {
    pub context_menu_open: bool,
    pub context_search: String,
}

#[derive(Debug, Default)]
pub struct IconRailAction {
    pub switch_to: Option<String>,
    pub show_overview: bool,
    pub pin: Option<String>,
    pub unpin: Option<String>,
    pub open_settings: bool,
}

#[derive(Debug, Default)]
pub struct SettingsDialogState {
    pub open: bool,
    pub extra_paths: Vec<String>,
    pub new_path: String,
    pub focus_new_path: bool,
    pub use_native_port_forward: bool,
    pub status: Option<String>,
}

impl SettingsDialogState {
    /// Opens the dialog on the saved kubeconfig paths and port-forward
    /// choice, with an empty new-path field and no status.
    pub fn open_from_settings(&mut self, extra_paths: Vec<String>, use_native_port_forward: bool)
        ensures
            final(self).open,
            final(self).extra_paths == extra_paths,
            final(self).use_native_port_forward == use_native_port_forward,
            final(self).new_path@.len() == 0,
            final(self).status is None,
            final(self).focus_new_path == old(self).focus_new_path,
    {
        self.open = true;
        self.extra_paths = extra_paths;
        self.use_native_port_forward = use_native_port_forward;
        self.new_path = String::new();
        self.status = None;
    }

    /// The Add button: the typed path, trimmed, joins the list unless it is
    /// blank or listed already; then the field is cleared.  Otherwise nothing
    /// changes.
    pub fn add_new_path(&mut self)
        ensures
            ({
                let t = crate::text::trim(old(self).new_path@);
                if t.len() > 0 && !texts(old(self).extra_paths@).contains(t) {
                    &&& texts(final(self).extra_paths@) == texts(old(self).extra_paths@).push(t)
                    &&& final(self).new_path@.len() == 0
                    &&& final(self).open == old(self).open
                    &&& final(self).focus_new_path == old(self).focus_new_path
                    &&& final(self).use_native_port_forward == old(self).use_native_port_forward
                    &&& final(self).status == old(self).status
                } else {
                    *final(self) == *old(self)
                }
            }),
    {
        let chars = crate::text::chars_of(self.new_path.as_str());
        let trimmed_chars = crate::text::trim_chars(chars.as_slice());
        let trimmed = crate::text::string_from_chars(trimmed_chars.as_slice());
        if trimmed_chars.len() > 0 && !crate::text::contains_text(self.extra_paths.as_slice(), trimmed.as_str()) {
            let ghost before = texts(self.extra_paths@);
            self.extra_paths.push(trimmed);
            assert(texts(self.extra_paths@) =~= before.push(trimmed_chars@));
            self.new_path = String::new();
        }
    }

    /// The Remove button of path `idx`.
    pub fn remove_path(&mut self, idx: usize)
        requires
            idx < old(self).extra_paths@.len(),
        ensures
            final(self).extra_paths@ == old(self).extra_paths@.remove(idx as int),
            final(self).new_path == old(self).new_path,
            final(self).open == old(self).open,
            final(self).focus_new_path == old(self).focus_new_path,
            final(self).use_native_port_forward == old(self).use_native_port_forward,
            final(self).status == old(self).status,
    {
        self.extra_paths.remove(idx);
    }

    /// What saving the settings led to: on success the dialog reports that it
    /// saved and asks for the contexts to be reloaded, then closes keeping its
    /// status; on failure it stays open and shows the error.
    pub fn save_finished(&mut self, result: Result<(), String>) -> (action: SettingsDialogAction)
        ensures
            match result {
                Ok(()) => {
                    &&& action.saved && action.reload_contexts
                    &&& !final(self).open
                    &&& final(self).status matches Some(m) && m@ == "Saved. Reloading contexts..."@
                },
                Err(e) => {
                    &&& !action.saved && !action.reload_contexts
                    &&& final(self).open == old(self).open
                    &&& final(self).status matches Some(m) && m@ == "Failed to save settings: "@ + e@
                },
            },
            final(self).extra_paths == old(self).extra_paths,
            final(self).new_path == old(self).new_path,
            final(self).focus_new_path == old(self).focus_new_path,
            final(self).use_native_port_forward == old(self).use_native_port_forward,
    {
        match result {
            Ok(()) => {
                self.status = Some(owned("Saved. Reloading contexts..."));
                self.open = false;
                SettingsDialogAction { saved: true, reload_contexts: true }
            },
            Err(e) => {
                self.status = Some(crate::text::concat2("Failed to save settings: ", e.as_str()));
                SettingsDialogAction { saved: false, reload_contexts: false }
            },
        }
    }

    /// Cancel, or the window's close button: the dialog closes and drops its
    /// status.
    pub fn dismiss(&mut self)
        ensures
            !final(self).open,
            final(self).status is None,
            final(self).extra_paths == old(self).extra_paths,
            final(self).new_path == old(self).new_path,
            final(self).focus_new_path == old(self).focus_new_path,
            final(self).use_native_port_forward == old(self).use_native_port_forward,
    {
        self.open = false;
        self.status = None;
    }
}

#[derive(Debug, Default)]
pub struct SettingsDialogAction {
    pub saved: bool,
    pub reload_contexts: bool,
}

pub enum ClusterTabAction {
    NoAction,
    Select(String),
    Close(String),
    Add(String),
}

/// What the list's header shows and edits: the kind, how many rows pass the
/// filter, the namespace picker and the filter text.
pub struct ListHeader<'a, F: FnMut(String)> {
    pub kind: ResourceKind,
    pub row_count: usize,
    pub namespace: &'a str,
    pub namespaces: &'a [String],
    pub filter: &'a mut String,
    pub on_namespace: &'a mut F,
}

impl<'a, F: FnMut(String)> ListHeader<'a, F> {
    /// The count beside the kind's label, such as `3 items`.
    pub fn count_text(&self) -> (r: String)
        ensures
            r@ == crate::text::decimal(self.row_count as nat) + " items"@,
    {
        let n = crate::text::fmt_u64(self.row_count as u64);
        crate::text::concat2(n.as_str(), " items")
    }

    /// The filter box's hint, such as `Search Pods...`.
    pub fn search_hint(&self) -> (r: String)
        ensures
            r@ == "Search "@ + crate::resources::kind_label(self.kind) + "..."@,
    {
        let head = crate::text::concat2("Search ", self.kind.label());
        crate::text::concat2(head.as_str(), "...")
    }

    /// Whether the picker's entry `i` is the namespace shown now.
    pub fn is_current(&self, i: usize) -> (r: bool)
        requires
            i < self.namespaces@.len(),
        ensures
            r == (self.namespaces@[i as int]@ == self.namespace@),
    {
        str_eq(self.namespace, self.namespaces[i].as_str())
    }

    /// Hands the picker's entry `i` to the header's owner.
    pub fn pick(&mut self, i: usize)
        requires
            i < old(self).namespaces@.len(),
            forall|s: String| call_requires(*old(self).on_namespace, (s,)),
        ensures
            exists|s: String|
                s@ == old(self).namespaces@[i as int]@ && call_ensures(
                    *old(self).on_namespace,
                    (s,),
                    (),
                ),
    {
        let ns = self.namespaces[i].clone();
        (self.on_namespace)(ns);
    }
}

} // verus!
