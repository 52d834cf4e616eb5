//! Bounded per-pod log buffers shown as tabs.
//!
//! Every tab keeps at most `MAX_LINES_PER_TAB` lines and at most
//! `MAX_BYTES_PER_TAB` bytes (each line counts its UTF-8 length plus one for
//! the newline).  When a line arrives or older lines are loaded, the oldest
//! lines are dropped until both limits hold again: a tab always holds the
//! longest suffix of its history that fits.
use vstd::prelude::*;

use crate::containers::{default_container, default_container_exec, ContainerInfo};
use crate::text::{
    byte_len, chars_of, contains_chars, contains_seq, lowercase, str_eq, to_lowercase, utf8_len,
};

verus! {

/// Hard cap on raw log text kept per tab (1 MiB).
pub const MAX_BYTES_PER_TAB: usize = 1_048_576;

/// Secondary cap on line count per tab.
pub const MAX_LINES_PER_TAB: usize = 2_000;

// ---------------------------------------------------------------------------
// Buffer limits
// ---------------------------------------------------------------------------

/// Bytes a line occupies in the buffer: its text plus a newline.
pub open spec fn line_cost(l: String) -> nat {
    utf8_len(l@) + 1
}

/// Bytes occupied by a sequence of lines.
pub open spec fn lines_bytes(ls: Seq<String>) -> nat
    decreases ls.len(),
{
    if ls.len() == 0 {
        0
    } else {
        line_cost(ls[0]) + lines_bytes(ls.drop_first())
    }
}

/// Both per-tab limits hold.
pub open spec fn within_limits(ls: Seq<String>) -> bool {
    ls.len() <= MAX_LINES_PER_TAB && lines_bytes(ls) <= MAX_BYTES_PER_TAB
}

/// `ls` after dropping its oldest lines until both limits hold.
pub open spec fn trim_to_limits(ls: Seq<String>) -> Seq<String>
    decreases ls.len(),
{
    if ls.len() == 0 || within_limits(ls) {
        ls
    } else {
        trim_to_limits(ls.drop_first())
    }
}

proof fn lemma_lines_bytes_skip_mono(ls: Seq<String>, i: int, j: int)
    requires
        0 <= i <= j <= ls.len(),
    ensures
        lines_bytes(ls.skip(j)) <= lines_bytes(ls.skip(i)),
    decreases j - i,
{
    if i < j {
        assert(ls.skip(i).drop_first() =~= ls.skip(i + 1));
        lemma_lines_bytes_skip_mono(ls, i + 1, j);
    }
}

proof fn lemma_within_skip_mono(ls: Seq<String>, i: int, j: int)
    requires
        0 <= i <= j <= ls.len(),
        within_limits(ls.skip(i)),
    ensures
        within_limits(ls.skip(j)),
{
    lemma_lines_bytes_skip_mono(ls, i, j);
}

/// The trimmed buffer is the suffix starting at the first index from which the
/// limits hold.
proof fn lemma_trim_is_skip(ls: Seq<String>, k: int)
    requires
        0 <= k <= ls.len(),
        within_limits(ls.skip(k)),
        k > 0 ==> !within_limits(ls.skip(k - 1)),
    ensures
        trim_to_limits(ls) == ls.skip(k),
    decreases k,
{
    if k == 0 {
        assert(ls.skip(0) =~= ls);
    } else {
        assert(ls.skip(0) =~= ls);
        if within_limits(ls) {
            lemma_within_skip_mono(ls, 0, k - 1);
        }
        let t = ls.drop_first();
        assert(t.skip(k - 1) =~= ls.skip(k));
        if k > 1 {
            assert(t.skip(k - 2) =~= ls.skip(k - 1));
        }
        lemma_trim_is_skip(t, k - 1);
    }
}

/// Trimming always ends within the limits and keeps a suffix.
pub proof fn lemma_trim_within_limits(ls: Seq<String>)
    ensures
        within_limits(trim_to_limits(ls)),
        trim_to_limits(ls).len() <= ls.len(),
        trim_to_limits(ls) == ls.skip(ls.len() - trim_to_limits(ls).len()),
    decreases ls.len(),
{
    if ls.len() == 0 {
        assert(ls.skip(0) =~= ls);
    } else if within_limits(ls) {
        assert(ls.skip(0) =~= ls);
    } else {
        lemma_trim_within_limits(ls.drop_first());
        let t = ls.drop_first();
        let r = trim_to_limits(t);
        assert(t.skip(t.len() - r.len()) =~= ls.skip(ls.len() - r.len()));
    }
}

/// A buffer that already fits is left alone.
pub proof fn law_trim_keeps_fitting_buffer(ls: Seq<String>)
    requires
        within_limits(ls),
    ensures
        trim_to_limits(ls) == ls,
{
}

/// Start index of the longest suffix of `lines` within the limits.
fn keep_start(lines: &Vec<String>) -> (k: usize)
    ensures
        k <= lines@.len(),
        trim_to_limits(lines@) == lines@.skip(k as int),
{
    let ghost ls = lines@;
    let mut i: usize = lines.len();
    let mut acc: usize = 0;
    assert(ls.skip(ls.len() as int) =~= Seq::<String>::empty());
    loop
        invariant
            i <= lines.len(),
            ls == lines@,
            acc == lines_bytes(ls.skip(i as int)),
            acc <= MAX_BYTES_PER_TAB,
            lines.len() - i <= MAX_LINES_PER_TAB,
        decreases i,
    {
        if i == 0 {
            assert(ls.skip(0) =~= ls);
            proof {
                lemma_trim_is_skip(ls, 0);
            }
            return 0;
        }
        assert(ls.skip(i - 1).drop_first() =~= ls.skip(i as int));
        assert(ls.skip(i - 1)[0] == ls[i - 1]);
        if lines.len() - i >= MAX_LINES_PER_TAB {
            proof {
                lemma_trim_is_skip(ls, i as int);
            }
            return i;
        }
        let w = byte_len(lines[i - 1].as_str());
        if acc >= MAX_BYTES_PER_TAB || w > MAX_BYTES_PER_TAB - acc - 1 {
            proof {
                lemma_trim_is_skip(ls, i as int);
            }
            return i;
        }
        acc = acc + w + 1;
        i = i - 1;
    }
}

// ---------------------------------------------------------------------------
// A single tab
// ---------------------------------------------------------------------------

/// The bounded line buffer of a tab, oldest line first.
#[derive(Debug, Clone)]
pub struct LogBuffer {
    lines: Vec<String>,
}

impl View for LogBuffer {
    type V = Seq<String>;

    closed spec fn view(&self) -> Seq<String> {
        self.lines@
    }
}

impl LogBuffer {
    /// The buffer respects both limits.
    pub closed spec fn wf(&self) -> bool {
        within_limits(self.lines@)
    }

    pub fn new() -> (r: Self)
        ensures
            r@.len() == 0,
            r.wf(),
    {
        LogBuffer { lines: Vec::new() }
    }

    pub fn as_slice(&self) -> (r: &[String])
        ensures
            r@ == self@,
    {
        self.lines.as_slice()
    }

    pub fn len(&self) -> (r: usize)
        ensures
            r == self@.len(),
    {
        self.lines.len()
    }

    pub fn is_empty(&self) -> (r: bool)
        ensures
            r == (self@.len() == 0),
    {
        self.lines.is_empty()
    }

    /// Bytes held by the buffer (text plus one newline per line).
    pub fn byte_len(&self) -> (r: usize)
        requires
            self.wf(),
        ensures
            r == lines_bytes(self@),
    {
        let ghost ls = self.lines@;
        let mut i: usize = self.lines.len();
        let mut acc: usize = 0;
        assert(ls.skip(ls.len() as int) =~= Seq::<String>::empty());
        while i > 0
            invariant
                i <= self.lines.len(),
                ls == self.lines@,
                within_limits(ls),
                acc == lines_bytes(ls.skip(i as int)),
            decreases i,
        {
            assert(ls.skip(i - 1).drop_first() =~= ls.skip(i as int));
            assert(ls.skip(i - 1)[0] == ls[i - 1]);
            proof {
                lemma_lines_bytes_skip_mono(ls, 0, i - 1);
                assert(ls.skip(0) =~= ls);
            }
            let w = byte_len(self.lines[i - 1].as_str());
            acc = acc + w + 1;
            i = i - 1;
        }
        assert(ls.skip(0) =~= ls);
        acc
    }

    /// Append a line, then drop the oldest lines until the limits hold.
    pub fn push(&mut self, line: String)
        ensures
            final(self)@ == trim_to_limits(old(self)@.push(line)),
            final(self).wf(),
    {
        self.lines.push(line);
        let k = keep_start(&self.lines);
        let tail = self.lines.split_off(k);
        self.lines = tail;
        proof {
            lemma_trim_within_limits(old(self)@.push(line));
        }
    }

    /// Put older lines in front, then drop the oldest lines until the limits hold.
    pub fn prepend(&mut self, lines: Vec<String>)
        requires
            old(self).wf(),
        ensures
            final(self)@ == trim_to_limits(lines@ + old(self)@),
            final(self).wf(),
    {
        if lines.is_empty() {
            assert(lines@ + self.lines@ =~= self.lines@);
            return;
        }
        let mut merged = lines;
        let mut old_lines: Vec<String> = Vec::new();
        std::mem::swap(&mut old_lines, &mut self.lines);
        merged.append(&mut old_lines);
        let ghost m = merged@;
        let k = keep_start(&merged);
        let tail = merged.split_off(k);
        self.lines = tail;
        proof {
            lemma_trim_within_limits(m);
        }
    }

    /// Remove every line.
    pub fn clear(&mut self)
        ensures
            final(self)@.len() == 0,
            final(self).wf(),
    {
        self.lines.clear();
        assert(within_limits(Seq::<String>::empty()));
        assert(self.lines@ =~= Seq::<String>::empty());
    }
}

/// Log buffer and view state of one pod tab.
#[derive(Debug, Clone)]
pub struct LogTab {
    pub id: u64,
    pub context: String,
    pub pod_name: String,
    pub namespace: String,
    pub container: Option<String>,
    pub containers: Vec<ContainerInfo>,
    pub lines: LogBuffer,
    pub has_more_older: bool,
    pub loading_older: bool,
    /// Re-armed when leaving the top; used when content fits without scrolling (wheel-up).
    pub older_fetch_armed: bool,
    /// After prepending older lines, bump scroll offset by this many rows once.
    pub scroll_compensate_rows: usize,
    /// Virtual row index to scroll into view (log search navigation).
    pub scroll_to_match_row: Option<usize>,
}

/// Line indices whose lowercase text contains `needle`, among the first `n` lines.
pub open spec fn matching_lines(ls: Seq<String>, needle: Seq<char>, n: int) -> Seq<int>
    decreases n,
{
    if n <= 0 {
        Seq::empty()
    } else if contains_seq(lowercase(ls[n - 1]@), needle) {
        matching_lines(ls, needle, n - 1).push(n - 1)
    } else {
        matching_lines(ls, needle, n - 1)
    }
}

/// The lines found among the first `n` are exactly those, below `n`, whose
/// lowercase text contains the needle; they come in increasing order.
proof fn lemma_matching_lines(ls: Seq<String>, needle: Seq<char>, n: int)
    requires
        0 <= n <= ls.len(),
    ensures
        forall|i: int|
            #[trigger] matching_lines(ls, needle, n).contains(i) <==> 0 <= i < n && contains_seq(
                lowercase(ls[i]@),
                needle,
            ),
        forall|a: int, b: int|
            0 <= a < b < matching_lines(ls, needle, n).len() ==> matching_lines(ls, needle, n)[a]
                < matching_lines(ls, needle, n)[b],
        forall|a: int|
            0 <= a < matching_lines(ls, needle, n).len() ==> 0 <= #[trigger] matching_lines(
                ls,
                needle,
                n,
            )[a] < n,
    decreases n,
{
    if n > 0 {
        lemma_matching_lines(ls, needle, n - 1);
        let prev = matching_lines(ls, needle, n - 1);
        let cur = matching_lines(ls, needle, n);
        assert forall|i: int| #[trigger] cur.contains(i) <==> 0 <= i < n && contains_seq(
            lowercase(ls[i]@),
            needle,
        ) by {
            if contains_seq(lowercase(ls[n - 1]@), needle) {
                assert(cur == prev.push(n - 1));
                if cur.contains(i) && i != n - 1 {
                    let k = choose|k: int| 0 <= k < cur.len() && cur[k] == i;
                    assert(k < prev.len());
                    assert(prev[k] == i);
                    assert(prev.contains(i));
                }
                if 0 <= i < n - 1 && contains_seq(lowercase(ls[i]@), needle) {
                    assert(prev.contains(i));
                    let k = choose|k: int| 0 <= k < prev.len() && prev[k] == i;
                    assert(cur[k] == i);
                }
                if i == n - 1 {
                    assert(cur[cur.len() - 1] == i);
                }
            } else {
                assert(cur == prev);
            }
        }
    }
}

/// Searching a tab's lines: a line is found exactly when its lowercase text
/// contains the (lowercase) needle, whichever line it is, the newest
/// included; the found lines come in order.
pub proof fn law_matching_lines_found(ls: Seq<String>, needle: Seq<char>)
    ensures
        forall|i: int|
            #[trigger] matching_lines(ls, needle, ls.len() as int).contains(i) <==> 0 <= i < ls.len()
                && contains_seq(lowercase(ls[i]@), needle),
        forall|a: int, b: int|
            0 <= a < b < matching_lines(ls, needle, ls.len() as int).len() ==> matching_lines(
                ls,
                needle,
                ls.len() as int,
            )[a] < matching_lines(ls, needle, ls.len() as int)[b],
{
    lemma_matching_lines(ls, needle, ls.len() as int);
}

impl LogTab {
    pub fn is_empty(&self) -> (r: bool)
        ensures
            r == (self.lines@.len() == 0),
    {
        self.lines.is_empty()
    }

    pub fn line_count(&self) -> (r: usize)
        ensures
            r == self.lines@.len(),
    {
        self.lines.len()
    }

    pub fn lines(&self) -> (r: &[String])
        ensures
            r@ == self.lines@,
    {
        self.lines.as_slice()
    }

    /// Bytes held by the buffer (text plus one newline per line).
    pub fn byte_len(&self) -> (r: usize)
        requires
            self.lines.wf(),
        ensures
            r == lines_bytes(self.lines@),
    {
        self.lines.byte_len()
    }

    /// Line indices whose lowercase text contains the lowercase `filter`;
    /// an empty filter matches every line.
    pub fn matching_indices(&self, filter: &str) -> (r: Vec<usize>)
        ensures
            filter@.len() == 0 ==> r@.map_values(|i: usize| i as int) == Seq::new(
                self.lines@.len(),
                |i: int| i,
            ),
            filter@.len() > 0 ==> r@.map_values(|i: usize| i as int) == matching_lines(
                self.lines@,
                lowercase(filter@),
                self.lines@.len() as int,
            ),
    {
        let mut out: Vec<usize> = Vec::new();
        if filter.is_empty() {
            let n = self.lines.as_slice().len();
            let mut i: usize = 0;
            while i < n
                invariant
                    i <= n,
                    n == self.lines@.len(),
                    out@.map_values(|i: usize| i as int) == Seq::new(i as nat, |k: int| k),
                decreases n - i,
            {
                let ghost before = out@;
                out.push(i);
                assert(before.map_values(|x: usize| x as int).len() == i);
                assert(before.len() == i);
                assert(out@ == before.push(i));
                assert forall|k: int| 0 <= k < i + 1 implies #[trigger] out@[k] as int == k by {
                    if k < i {
                        assert(out@[k] == before[k]);
                        assert(before.map_values(|i: usize| i as int)[k] == Seq::new(i as nat, |j: int| j)[k]);
                    }
                }
                assert(out@.map_values(|i: usize| i as int) =~= Seq::new((i + 1) as nat, |k: int| k));
                i = i + 1;
            }
            return out;
        }
        let needle_s = to_lowercase(filter);
        let needle = chars_of(needle_s.as_str());
        let lines = self.lines.as_slice();
        let mut i: usize = 0;
        while i < lines.len()
            invariant
                i <= lines.len(),
                lines@ == self.lines@,
                needle@ == lowercase(filter@),
                out@.map_values(|i: usize| i as int) == matching_lines(
                    self.lines@,
                    lowercase(filter@),
                    i as int,
                ),
            decreases lines.len() - i,
        {
            let low = to_lowercase(lines[i].as_str());
            let hay = chars_of(low.as_str());
            let ghost before = out@;
            if contains_chars(&hay, &needle) {
                out.push(i);
                assert(out@.map_values(|i: usize| i as int) =~= before.map_values(
                    |i: usize| i as int,
                ).push(i as int));
            }
            i = i + 1;
        }
        out
    }
}

// ---------------------------------------------------------------------------
// The tab set
// ---------------------------------------------------------------------------

/// All open log tabs, the focused one, and the next id to hand out.
#[derive(Debug)]
pub struct LogTabsState {
    tabs: Vec<LogTab>,
    active_id: Option<u64>,
    next_id: u64,
}

/// Abstract state of the tab set.
pub struct LogTabsView {
    pub tabs: Seq<LogTab>,
    pub active: Option<u64>,
    pub next_id: u64,
}

/// Some tab has this id.
pub open spec fn has_tab(tabs: Seq<LogTab>, id: u64) -> bool {
    exists|i: int| 0 <= i < tabs.len() && tabs[i].id == id
}

/// Index of the tab with this id.
pub open spec fn tab_index(tabs: Seq<LogTab>, id: u64) -> Option<int>
    decreases tabs.len(),
{
    if tabs.len() == 0 {
        None
    } else if tabs.last().id == id {
        Some(tabs.len() - 1)
    } else {
        tab_index(tabs.drop_last(), id)
    }
}

/// Index of the first tab showing this pod of this context.
pub open spec fn pod_tab_index(
    tabs: Seq<LogTab>,
    context: Seq<char>,
    pod_name: Seq<char>,
    namespace: Seq<char>,
) -> Option<int>
    decreases tabs.len(),
{
    if tabs.len() == 0 {
        None
    } else if tabs[0].context@ == context && tabs[0].pod_name@ == pod_name && tabs[0].namespace@
        == namespace {
        Some(0)
    } else {
        match pod_tab_index(tabs.drop_first(), context, pod_name, namespace) {
            Some(i) => Some(i + 1),
            None => None,
        }
    }
}

impl LogTabsView {
    /// Every tab fits its limits, ids are unique and below `next_id`, and the
    /// active id, when set, names an open tab.
    pub open spec fn wf(self) -> bool {
        &&& forall|i: int| 0 <= i < self.tabs.len() ==> #[trigger] self.tabs[i].lines.wf()
        &&& forall|i: int, j: int|
            0 <= i < self.tabs.len() && 0 <= j < self.tabs.len() && i != j ==> self.tabs[i].id
                != self.tabs[j].id
        &&& forall|i: int| 0 <= i < self.tabs.len() ==> #[trigger] self.tabs[i].id < self.next_id
        &&& (self.active matches Some(a) ==> has_tab(self.tabs, a))
    }
}

/// A tab as `open_tab` creates it.
pub open spec fn is_fresh_tab(
    t: LogTab,
    id: u64,
    context: Seq<char>,
    pod_name: Seq<char>,
    namespace: Seq<char>,
    container: Option<String>,
) -> bool {
    &&& t.id == id
    &&& t.context@ == context
    &&& t.pod_name@ == pod_name
    &&& t.namespace@ == namespace
    &&& t.container == container
    &&& t.containers@.len() == 0
    &&& t.lines@.len() == 0
    &&& t.has_more_older
    &&& !t.loading_older
    &&& !t.older_fetch_armed
    &&& t.scroll_compensate_rows == 0
    &&& t.scroll_to_match_row is None
}

/// What `open_tab` does: focus the existing tab for the pod (replacing its
/// container when one is given) or append a fresh tab with the next id.
pub open spec fn open_tab_rel(
    old: LogTabsView,
    context: Seq<char>,
    pod_name: Seq<char>,
    namespace: Seq<char>,
    container: Option<String>,
    new: LogTabsView,
    id: u64,
) -> bool {
    match pod_tab_index(old.tabs, context, pod_name, namespace) {
        Some(i) => {
            let t = old.tabs[i];
            &&& id == t.id
            &&& new.tabs == old.tabs.update(
                i,
                match container {
                    Some(c) => LogTab { container: Some(c), ..t },
                    None => t,
                },
            )
            &&& new.active == Some(id)
            &&& new.next_id == old.next_id
        },
        None => {
            &&& id == old.next_id
            &&& new.tabs.len() == old.tabs.len() + 1
            &&& new.tabs.drop_last() == old.tabs
            &&& is_fresh_tab(new.tabs.last(), id, context, pod_name, namespace, container)
            &&& new.active == Some(id)
            &&& new.next_id == old.next_id + 1
        },
    }
}

/// What `close_tab` does.
pub open spec fn close_tab_rel(old: LogTabsView, id: u64, new: LogTabsView, r: Option<u64>) -> bool {
    match tab_index(old.tabs, id) {
        Some(i) => {
            &&& r == Some(id)
            &&& new.tabs == old.tabs.remove(i)
            &&& new.next_id == old.next_id
            &&& new.active == if old.active == Some(id) {
                if new.tabs.len() > 0 {
                    Some(new.tabs.last().id)
                } else {
                    None
                }
            } else {
                old.active
            }
        },
        None => r is None && new == old,
    }
}

/// The tab at `i` after its lines were replaced by `lines`; nothing else changes.
pub open spec fn lines_replaced(old: LogTab, new: LogTab, lines: Seq<String>) -> bool {
    &&& new.lines@ == lines
    &&& new.id == old.id
    &&& new.context == old.context
    &&& new.pod_name == old.pod_name
    &&& new.namespace == old.namespace
    &&& new.container == old.container
    &&& new.containers == old.containers
    &&& new.has_more_older == old.has_more_older
    &&& new.loading_older == old.loading_older
    &&& new.older_fetch_armed == old.older_fetch_armed
    &&& new.scroll_compensate_rows == old.scroll_compensate_rows
    &&& new.scroll_to_match_row == old.scroll_to_match_row
}

/// What `push_line` does: the line is appended to the tab with that id and
/// the buffer is trimmed; an unknown id changes nothing.
pub open spec fn push_line_rel(old: LogTabsView, id: u64, line: String, new: LogTabsView) -> bool {
    match tab_index(old.tabs, id) {
        Some(i) => {
            &&& new.tabs.len() == old.tabs.len()
            &&& forall|j: int| 0 <= j < old.tabs.len() && j != i ==> new.tabs[j] == old.tabs[j]
            &&& lines_replaced(
                old.tabs[i],
                new.tabs[i],
                trim_to_limits(old.tabs[i].lines@.push(line)),
            )
            &&& new.active == old.active
            &&& new.next_id == old.next_id
        },
        None => new == old,
    }
}

/// What `set_active` does: focus the tab with this id when it is open.
pub open spec fn set_active_rel(old: LogTabsView, id: u64, new: LogTabsView) -> bool {
    &&& new.tabs == old.tabs
    &&& new.next_id == old.next_id
    &&& new.active == if has_tab(old.tabs, id) {
        Some(id)
    } else {
        old.active
    }
}

/// What `set_loading_older` does to the tab with this id.
pub open spec fn loading_rel(old: LogTabsView, id: u64, loading: bool, new: LogTabsView) -> bool {
    &&& new.active == old.active
    &&& new.next_id == old.next_id
    &&& match tab_index(old.tabs, id) {
        Some(i) => new.tabs == old.tabs.update(i, LogTab { loading_older: loading, ..old.tabs[i] }),
        None => new == old,
    }
}

/// Where a tab's view stood when a frame was drawn, as the drawing measured
/// it.
#[derive(Debug, Clone, Copy)]
pub struct LogScrollReading {
    /// The view is within the loading threshold of the top.
    pub at_top: bool,
    /// The view was below that threshold in the frame before (or there was
    /// no frame before).
    pub came_from_below: bool,
    /// The lines are taller than the view.
    pub content_overflows: bool,
    /// The wheel turned upwards in this frame.
    pub wheel_up: bool,
}

/// What a tab's scroll position asks for: whether to request older lines,
/// and whether a wheel turn at the top may request them again.  Leaving the
/// top re-arms the wheel; a request made by the wheel disarms it.
pub open spec fn older_logs_decision(tab: LogTab, follow_tail: bool, r: LogScrollReading) -> (
    bool,
    bool,
) {
    let armed = tab.older_fetch_armed || !r.at_top;
    let wheel_at_top = r.at_top && !r.content_overflows && r.wheel_up && armed;
    let scrolled_to_top = r.at_top && r.came_from_below;
    let request = tab.has_more_older && !tab.loading_older && !follow_tail && (scrolled_to_top
        || wheel_at_top);
    (request, if request && wheel_at_top {
        false
    } else {
        armed
    })
}

/// What `scroll_settled` does to the tab with this id, and what it returns.
pub open spec fn scroll_rel(
    old: LogTabsView,
    id: u64,
    follow_tail: bool,
    reading: LogScrollReading,
    new: LogTabsView,
    r: Option<u64>,
) -> bool {
    &&& new.active == old.active
    &&& new.next_id == old.next_id
    &&& match tab_index(old.tabs, id) {
        Some(i) => {
            let d = older_logs_decision(old.tabs[i], follow_tail, reading);
            &&& new.tabs == old.tabs.update(i, LogTab { older_fetch_armed: d.1, ..old.tabs[i] })
            &&& r == if d.0 {
                Some(id)
            } else {
                None::<u64>
            }
        },
        None => new == old && r is None,
    }
}

/// What `set_scroll_target` does to the tab with this id.
pub open spec fn scroll_target_rel(old: LogTabsView, id: u64, row: Option<usize>, new: LogTabsView) -> bool {
    &&& new.active == old.active
    &&& new.next_id == old.next_id
    &&& match tab_index(old.tabs, id) {
        Some(i) => new.tabs == old.tabs.update(i, LogTab { scroll_to_match_row: row, ..old.tabs[i] }),
        None => new == old,
    }
}

/// What `choose_container` does to the tab with this id.
pub open spec fn container_choice_rel(old: LogTabsView, id: u64, container: String, new: LogTabsView) -> bool {
    &&& new.active == old.active
    &&& new.next_id == old.next_id
    &&& match tab_index(old.tabs, id) {
        Some(i) => new.tabs == old.tabs.update(i, LogTab { container: Some(container), ..old.tabs[i] }),
        None => new == old,
    }
}

/// What `take_scroll_compensation` does to the tab with this id, and what it
/// returns.
pub open spec fn compensation_rel(old: LogTabsView, id: u64, new: LogTabsView, r: usize) -> bool {
    &&& new.active == old.active
    &&& new.next_id == old.next_id
    &&& match tab_index(old.tabs, id) {
        Some(i) => {
            &&& new.tabs == old.tabs.update(i, LogTab { scroll_compensate_rows: 0, ..old.tabs[i] })
            &&& r == old.tabs[i].scroll_compensate_rows
        },
        None => new == old && r == 0,
    }
}

/// What `set_containers` does: the tab with this id records the containers
/// and, when it had none chosen, takes the default one.
pub open spec fn containers_rel(
    old: LogTabsView,
    id: u64,
    containers: Vec<ContainerInfo>,
    new: LogTabsView,
) -> bool {
    &&& new.active == old.active
    &&& new.next_id == old.next_id
    &&& new.tabs.len() == old.tabs.len()
    &&& match tab_index(old.tabs, id) {
        Some(i) => {
            let o = old.tabs[i];
            let n = new.tabs[i];
            &&& forall|j: int| 0 <= j < old.tabs.len() && j != i ==> new.tabs[j] == old.tabs[j]
            &&& n.containers == containers
            &&& match o.container {
                Some(c) => n.container == Some(c),
                None => match n.container {
                    Some(c) => default_container(containers@) == Some(c@),
                    None => default_container(containers@) is None,
                },
            }
            &&& n.lines@ == o.lines@
            &&& n.id == o.id && n.context == o.context && n.pod_name == o.pod_name && n.namespace
                == o.namespace
            &&& n.has_more_older == o.has_more_older && n.loading_older == o.loading_older
                && n.older_fetch_armed == o.older_fetch_armed && n.scroll_compensate_rows
                == o.scroll_compensate_rows && n.scroll_to_match_row == o.scroll_to_match_row
        },
        None => new == old,
    }
}

/// What `apply_older_logs` does: the chunk goes before the tab's lines
/// (then the buffer is trimmed), paging state is updated, nothing else
/// changes.
pub open spec fn older_logs_rel(
    old: LogTabsView,
    id: u64,
    prepended: Seq<String>,
    has_more: bool,
    new: LogTabsView,
) -> bool {
    &&& new.active == old.active
    &&& new.next_id == old.next_id
    &&& new.tabs.len() == old.tabs.len()
    &&& match tab_index(old.tabs, id) {
        Some(i) => {
            let o = old.tabs[i];
            let n = new.tabs[i];
            &&& forall|j: int| 0 <= j < old.tabs.len() && j != i ==> new.tabs[j] == old.tabs[j]
            &&& n.lines@ == trim_to_limits(prepended + o.lines@)
            &&& n.has_more_older == has_more
            &&& !n.loading_older
            &&& n.scroll_compensate_rows == prepended.len()
            &&& n.id == o.id && n.context == o.context && n.pod_name == o.pod_name && n.namespace
                == o.namespace && n.container == o.container && n.containers == o.containers
            &&& n.older_fetch_armed == o.older_fetch_armed
            &&& n.scroll_to_match_row == o.scroll_to_match_row
        },
        None => new == old,
    }
}

/// What `clear_lines` does: the tab's lines go and its older-log paging
/// starts over.
pub open spec fn cleared_rel(old: LogTabsView, id: u64, new: LogTabsView) -> bool {
    &&& new.active == old.active
    &&& new.next_id == old.next_id
    &&& new.tabs.len() == old.tabs.len()
    &&& match tab_index(old.tabs, id) {
        Some(i) => {
            let o = old.tabs[i];
            let n = new.tabs[i];
            &&& forall|j: int| 0 <= j < old.tabs.len() && j != i ==> new.tabs[j] == old.tabs[j]
            &&& n.lines@.len() == 0
            &&& n.has_more_older
            &&& !n.loading_older
            &&& !n.older_fetch_armed
            &&& n.id == o.id && n.context == o.context && n.pod_name == o.pod_name && n.namespace
                == o.namespace && n.container == o.container && n.containers == o.containers
            &&& n.scroll_compensate_rows == o.scroll_compensate_rows
            &&& n.scroll_to_match_row == o.scroll_to_match_row
        },
        None => new == old,
    }
}

pub proof fn lemma_tab_index(tabs: Seq<LogTab>, id: u64)
    ensures
        tab_index(tabs, id) matches Some(i) ==> 0 <= i < tabs.len() && tabs[i].id == id,
        tab_index(tabs, id) is None <==> !has_tab(tabs, id),
    decreases tabs.len(),
{
    if tabs.len() > 0 && tabs.last().id != id {
        lemma_tab_index(tabs.drop_last(), id);
        if has_tab(tabs, id) {
            let j = choose|j: int| 0 <= j < tabs.len() && tabs[j].id == id;
            assert(tabs.drop_last()[j].id == id);
        }
    }
}

proof fn lemma_pod_tab_index(
    tabs: Seq<LogTab>,
    context: Seq<char>,
    pod_name: Seq<char>,
    namespace: Seq<char>,
)
    ensures
        pod_tab_index(tabs, context, pod_name, namespace) matches Some(i) ==> 0 <= i < tabs.len()
            && tabs[i].context@ == context && tabs[i].pod_name@ == pod_name
            && tabs[i].namespace@ == namespace,
    decreases tabs.len(),
{
    if tabs.len() > 0 {
        lemma_pod_tab_index(tabs.drop_first(), context, pod_name, namespace);
    }
}

impl View for LogTabsState {
    type V = LogTabsView;

    closed spec fn view(&self) -> LogTabsView {
        LogTabsView { tabs: self.tabs@, active: self.active_id, next_id: self.next_id }
    }
}

/// Replacing one tab by one with the same id and lines within the limits
/// keeps the set well-formed.
proof fn lemma_replaced_keeps_wf(old: LogTabsView, nt: Seq<LogTab>, i: int)
    requires
        old.wf(),
        0 <= i < old.tabs.len(),
        nt == old.tabs.update(i, nt[i]),
        nt[i].id == old.tabs[i].id,
        nt[i].lines.wf(),
    ensures
        (LogTabsView { tabs: nt, ..old }).wf(),
{
    assert forall|a: int| 0 <= a < nt.len() implies #[trigger] nt[a].lines.wf() by {
        if a != i {
            assert(nt[a] == old.tabs[a]);
        }
    }
    assert forall|a: int| 0 <= a < nt.len() implies #[trigger] nt[a].id < old.next_id by {
        if a != i {
            assert(nt[a] == old.tabs[a]);
        } else {
            assert(old.tabs[a].id < old.next_id);
        }
    }
    assert forall|a: int, b: int|
        0 <= a < nt.len() && 0 <= b < nt.len() && a != b implies nt[a].id != nt[b].id by {
        assert(nt[a].id == old.tabs[a].id);
        assert(nt[b].id == old.tabs[b].id);
    }
    if let Some(act) = old.active {
        let k = choose|k: int| 0 <= k < old.tabs.len() && old.tabs[k].id == act;
        assert(nt[k].id == act);
    }
}

impl LogTabsState {
    /// Every tab set is well-formed.
    #[verifier::type_invariant]
    pub open spec fn inv(self) -> bool {
        self@.wf()
    }
}

impl Default for LogTabsState {
    fn default() -> (r: Self)
        ensures
            r@.tabs.len() == 0,
            r@.active is None,
            r@.next_id == 0,
            r@.wf(),
    {
        LogTabsState { tabs: Vec::new(), active_id: None, next_id: 0 }
    }
}

impl LogTabsState {
    pub fn new() -> (r: Self)
        ensures
            r@.tabs.len() == 0,
            r@.active is None,
            r@.next_id == 0,
            r@.wf(),
    {
        LogTabsState { tabs: Vec::new(), active_id: None, next_id: 0 }
    }

    pub fn active_id(&self) -> (r: Option<u64>)
        ensures
            r == self@.active,
    {
        self.active_id
    }

    /// The id the next new tab gets.
    pub fn next_tab_id(&self) -> (r: u64)
        ensures
            r == self@.next_id,
    {
        self.next_id
    }

    pub fn tabs(&self) -> (r: &[LogTab])
        ensures
            r@ == self@.tabs,
    {
        self.tabs.as_slice()
    }

    fn index_of(&self, id: u64) -> (r: Option<usize>)
        ensures
            match r {
                Some(i) => tab_index(self@.tabs, id) == Some(i as int),
                None => tab_index(self@.tabs, id) is None,
            },
    {
        let mut i = self.tabs.len();
        assert(self.tabs@.take(i as int) =~= self.tabs@);
        while i > 0
            invariant
                i <= self.tabs.len(),
                tab_index(self.tabs@, id) == tab_index(self.tabs@.take(i as int), id),
            decreases i,
        {
            assert(self.tabs@.take(i as int).drop_last() =~= self.tabs@.take(i - 1));
            if self.tabs[i - 1].id == id {
                return Some(i - 1);
            }
            i = i - 1;
        }
        None
    }

    /// The focused tab.
    pub fn active_tab(&self) -> (r: Option<&LogTab>)
        ensures
            match self@.active {
                Some(a) => {
                    &&& has_tab(self@.tabs, a)
                    &&& r is Some
                    &&& r->0.id == a
                    &&& tab_index(self@.tabs, a) is Some
                    &&& *r->0 == self@.tabs[tab_index(self@.tabs, a)->0]
                },
                None => r is None,
            },
    {
        proof {
            use_type_invariant(&*self);
        }
        match self.active_id {
            Some(a) => {
                proof {
                    lemma_tab_index(self@.tabs, a);
                }
                match self.index_of(a) {
                    Some(i) => Some(&self.tabs[i]),
                    None => None,
                }
            },
            None => None,
        }
    }

    /// The tab with this id, if it is open.
    pub fn tab(&self, id: u64) -> (r: Option<&LogTab>)
        ensures
            match r {
                Some(t) => tab_index(self@.tabs, id) matches Some(i) && *t == self@.tabs[i],
                None => tab_index(self@.tabs, id) is None,
            },
    {
        proof {
            lemma_tab_index(self@.tabs, id);
        }
        match self.index_of(id) {
            Some(i) => Some(&self.tabs[i]),
            None => None,
        }
    }

    /// Open or focus the tab for this pod; returns the tab's id.
    pub fn open_tab(
        &mut self,
        context: String,
        pod_name: String,
        namespace: String,
        container: Option<String>,
    ) -> (id: u64)
        requires
            pod_tab_index(old(self)@.tabs, context@, pod_name@, namespace@) is None
                ==> old(self)@.next_id < u64::MAX,
        ensures
            open_tab_rel(
                old(self)@,
                context@,
                pod_name@,
                namespace@,
                container,
                final(self)@,
                id,
            ),
            final(self)@.wf(),
    {
        proof {
            use_type_invariant(&*self);
        }
        let mut i: usize = 0;
        proof {
            assert(self.tabs@.skip(0) =~= self.tabs@);
        }
        while i < self.tabs.len()
            invariant
                i <= self.tabs.len(),
                self@ == old(self)@,
                old(self)@.wf(),
                pod_tab_index(self.tabs@, context@, pod_name@, namespace@) == (match pod_tab_index(
                    self.tabs@.skip(i as int),
                    context@,
                    pod_name@,
                    namespace@,
                ) {
                    Some(k) => Some(k + i),
                    None => None::<int>,
                }),
            decreases self.tabs.len() - i,
        {
            assert(self.tabs@.skip(i as int).drop_first() =~= self.tabs@.skip(i + 1));
            assert(self.tabs@.skip(i as int)[0] == self.tabs@[i as int]);
            if str_eq(self.tabs[i].context.as_str(), context.as_str()) && str_eq(
                self.tabs[i].pod_name.as_str(),
                pod_name.as_str(),
            ) && str_eq(self.tabs[i].namespace.as_str(), namespace.as_str()) {
                let existing = self.tabs[i].id;
                self.active_id = Some(existing);
                if let Some(c) = container {
                    let (mut tabs, active) = self.take_parts();
                    let mut t = tabs.remove(i);
                    t.container = Some(c);
                    tabs.insert(i, t);
                    proof {
                        assert(tabs@ =~= old(self).tabs@.update(i as int, t));
                        lemma_replaced_keeps_wf(old(self)@, tabs@, i as int);
                        assert(has_tab(tabs@, existing)) by {
                            assert(tabs@[i as int].id == existing);
                        }
                    }
                    self.put_parts(tabs, active);
                    assert(self.tabs@ =~= old(self).tabs@.update(i as int, t));
                } else {
                    assert(self.tabs@ =~= old(self).tabs@.update(i as int, old(self).tabs@[i as int]));
                }
                proof {
                    assert(has_tab(self.tabs@, existing)) by {
                        assert(self.tabs@[i as int].id == existing);
                    }
                    assert forall|a: int| 0 <= a < self.tabs@.len() implies #[trigger] self.tabs@[a].lines.wf() by {
                        assert(old(self).tabs@[a].lines.wf());
                    }
                    assert forall|a: int| 0 <= a < self.tabs@.len() implies #[trigger] self.tabs@[a].id < self.next_id by {
                        assert(old(self).tabs@[a].id < old(self).next_id);
                    }
                    assert forall|a: int, b: int|
                        0 <= a < self.tabs@.len() && 0 <= b < self.tabs@.len() && a != b implies self.tabs@[a].id
                        != self.tabs@[b].id by {
                        assert(self.tabs@[a].id == old(self).tabs@[a].id);
                        assert(self.tabs@[b].id == old(self).tabs@[b].id);
                    }
                }
                return existing;
            }
            i = i + 1;
        }
        let id = self.next_id;
        self.next_id = self.next_id + 1;
        let t = LogTab {
            id,
            context,
            pod_name,
            namespace,
            container,
            containers: Vec::new(),
            lines: LogBuffer::new(),
            has_more_older: true,
            loading_older: false,
            older_fetch_armed: false,
            scroll_compensate_rows: 0,
            scroll_to_match_row: None,
        };
        let (mut tabs, _focus) = self.take_parts();
        tabs.push(t);
        proof {
            assert(tabs@.drop_last() =~= old(self).tabs@);
            assert(tabs@.last() == t);
            assert(has_tab(tabs@, id)) by {
                assert(tabs@[tabs@.len() - 1].id == id);
            }
            assert(within_limits(Seq::<String>::empty()));
            assert forall|a: int| 0 <= a < tabs@.len() implies #[trigger] tabs@[a].lines.wf() by {
                if a < old(self).tabs@.len() {
                    assert(tabs@[a] == old(self).tabs@[a]);
                }
            }
            assert forall|a: int| 0 <= a < tabs@.len() implies #[trigger] tabs@[a].id < self.next_id by {
                if a < old(self).tabs@.len() {
                    assert(tabs@[a] == old(self).tabs@[a]);
                }
            }
            assert forall|a: int, b: int|
                0 <= a < tabs@.len() && 0 <= b < tabs@.len() && a != b implies tabs@[a].id
                != tabs@[b].id by {
                if a < old(self).tabs@.len() {
                    assert(tabs@[a] == old(self).tabs@[a]);
                }
                if b < old(self).tabs@.len() {
                    assert(tabs@[b] == old(self).tabs@[b]);
                }
            }
        }
        self.put_parts(tabs, Some(id));
        id
    }

    /// Focus the tab with this id, if it is open.
    pub fn set_active(&mut self, id: u64)
        ensures
            set_active_rel(old(self)@, id, final(self)@),
            final(self)@.wf(),
    {
        proof {
            use_type_invariant(&*self);
        }
        proof {
            lemma_tab_index(self@.tabs, id);
        }
        if self.index_of(id).is_some() {
            self.active_id = Some(id);
        }
    }

    /// Remove the tab and return its id so the backend can stop the stream.
    pub fn close_tab(&mut self, id: u64) -> (r: Option<u64>)
        ensures
            close_tab_rel(old(self)@, id, final(self)@, r),
            final(self)@.wf(),
    {
        proof {
            use_type_invariant(&*self);
        }
        proof {
            lemma_tab_index(self@.tabs, id);
        }
        let idx = match self.index_of(id) {
            Some(i) => i,
            None => {
                return None;
            },
        };
        let (mut tabs, active) = self.take_parts();
        let _removed = tabs.remove(idx);
        let focus = if active == Some(id) {
            if tabs.len() > 0 {
                Some(tabs[tabs.len() - 1].id)
            } else {
                None
            }
        } else {
            active
        };
        proof {
            let ot = old(self).tabs@;
            let nt = tabs@;
            assert forall|a: int| 0 <= a < nt.len() implies #[trigger] nt[a].lines.wf() by {
                if a < idx {
                    assert(nt[a] == ot[a]);
                } else {
                    assert(nt[a] == ot[a + 1]);
                }
            }
            assert forall|a: int| 0 <= a < nt.len() implies #[trigger] nt[a].id < self.next_id by {
                if a < idx {
                    assert(nt[a] == ot[a]);
                } else {
                    assert(nt[a] == ot[a + 1]);
                }
            }
            assert forall|a: int, b: int|
                0 <= a < nt.len() && 0 <= b < nt.len() && a != b implies nt[a].id != nt[b].id by {
                let oa = if a < idx {
                    a
                } else {
                    a + 1
                };
                let ob = if b < idx {
                    b
                } else {
                    b + 1
                };
                assert(nt[a] == ot[oa]);
                assert(nt[b] == ot[ob]);
            }
            if let Some(act) = focus {
                if old(self).active_id == Some(id) {
                    assert(nt[nt.len() - 1].id == act);
                } else {
                    let k = choose|k: int| 0 <= k < ot.len() && ot[k].id == act;
                    assert(k != idx);
                    if k < idx {
                        assert(nt[k] == ot[k]);
                    } else {
                        assert(nt[k - 1] == ot[k]);
                    }
                }
            }
        }
        self.put_parts(tabs, focus);
        Some(id)
    }

    /// Append a live log line to the tab with this id.
    pub fn push_line(&mut self, tab_id: u64, line: String)
        ensures
            push_line_rel(old(self)@, tab_id, line, final(self)@),
            final(self)@.wf(),
    {
        proof {
            use_type_invariant(&*self);
        }
        proof {
            lemma_tab_index(self@.tabs, tab_id);
        }
        let idx = match self.index_of(tab_id) {
            Some(i) => i,
            None => {
                return ;
            },
        };
        let (mut tabs, active) = self.take_parts();
        let mut t = tabs.remove(idx);
        t.lines.push(line);
        tabs.insert(idx, t);
        proof {
            assert(tabs@ =~= old(self).tabs@.update(idx as int, t));
            lemma_replaced_keeps_wf(old(self)@, tabs@, idx as int);
        }
        self.put_parts(tabs, active);
    }

    /// Moves the tabs and the focus out, leaving no tab and no focus.
    fn take_parts(&mut self) -> (r: (Vec<LogTab>, Option<u64>))
        ensures
            r.0@ == old(self).tabs@,
            r.1 == old(self).active_id,
            final(self).tabs@.len() == 0,
            final(self).active_id is None,
            final(self).next_id == old(self).next_id,
    {
        proof {
            use_type_invariant(&*self);
        }
        let active = self.active_id;
        self.active_id = None;
        let mut tabs: Vec<LogTab> = Vec::new();
        std::mem::swap(&mut tabs, &mut self.tabs);
        (tabs, active)
    }

    /// Puts tabs and the focus back into a set emptied by `take_parts`.
    fn put_parts(&mut self, tabs: Vec<LogTab>, active: Option<u64>)
        requires
            old(self).tabs@.len() == 0,
            old(self).active_id is None,
            (LogTabsView { tabs: tabs@, active, next_id: old(self).next_id }).wf(),
        ensures
            final(self).tabs@ == tabs@,
            final(self).active_id == active,
            final(self).next_id == old(self).next_id,
    {
        let mut tabs = tabs;
        std::mem::swap(&mut tabs, &mut self.tabs);
        self.active_id = active;
    }

    /// Drop all buffered lines of a tab and reset its older-log paging state.
    pub fn clear_lines(&mut self, tab_id: u64)
        ensures
            final(self)@.wf(),
            cleared_rel(old(self)@, tab_id, final(self)@),
    {
        proof {
            use_type_invariant(&*self);
        }
        proof {
            lemma_tab_index(self@.tabs, tab_id);
        }
        let idx = match self.index_of(tab_id) {
            Some(i) => i,
            None => {
                return ;
            },
        };
        let (mut tabs, active) = self.take_parts();
        let mut t = tabs.remove(idx);
        t.lines.clear();
        t.has_more_older = true;
        t.loading_older = false;
        t.older_fetch_armed = false;
        tabs.insert(idx, t);
        proof {
            assert(tabs@ =~= old(self).tabs@.update(idx as int, t));
            lemma_replaced_keeps_wf(old(self)@, tabs@, idx as int);
        }
        self.put_parts(tabs, active);
    }

    /// Mark whether an older-log fetch is in flight for a tab.
    pub fn set_loading_older(&mut self, tab_id: u64, loading: bool)
        ensures
            final(self)@.wf(),
            loading_rel(old(self)@, tab_id, loading, final(self)@),
    {
        proof {
            use_type_invariant(&*self);
        }
        proof {
            lemma_tab_index(self@.tabs, tab_id);
        }
        let idx = match self.index_of(tab_id) {
            Some(i) => i,
            None => {
                return ;
            },
        };
        let (mut tabs, active) = self.take_parts();
        let mut t = tabs.remove(idx);
        t.loading_older = loading;
        tabs.insert(idx, t);
        proof {
            assert(tabs@ =~= old(self).tabs@.update(idx as int, t));
            lemma_replaced_keeps_wf(old(self)@, tabs@, idx as int);
        }
        self.put_parts(tabs, active);
    }

    /// After a frame of the tab's view: re-arms or disarms the wheel and says
    /// whether older lines should be requested for the tab.
    pub fn scroll_settled(&mut self, tab_id: u64, follow_tail: bool, reading: &LogScrollReading) -> (r:
        Option<u64>)
        ensures
            final(self)@.wf(),
            scroll_rel(old(self)@, tab_id, follow_tail, *reading, final(self)@, r),
    {
        proof {
            use_type_invariant(&*self);
        }
        proof {
            lemma_tab_index(self@.tabs, tab_id);
        }
        let idx = match self.index_of(tab_id) {
            Some(i) => i,
            None => {
                return None;
            },
        };
        let (mut tabs, active) = self.take_parts();
        let mut t = tabs.remove(idx);
        let armed = t.older_fetch_armed || !reading.at_top;
        let wheel_at_top = reading.at_top && !reading.content_overflows && reading.wheel_up && armed;
        let scrolled_to_top = reading.at_top && reading.came_from_below;
        let request = t.has_more_older && !t.loading_older && !follow_tail && (scrolled_to_top
            || wheel_at_top);
        t.older_fetch_armed = if request && wheel_at_top {
            false
        } else {
            armed
        };
        tabs.insert(idx, t);
        proof {
            assert(tabs@ =~= old(self).tabs@.update(idx as int, t));
            lemma_replaced_keeps_wf(old(self)@, tabs@, idx as int);
        }
        self.put_parts(tabs, active);
        if request {
            Some(tab_id)
        } else {
            None
        }
    }

    /// The container whose log the tab shows is switched.
    pub fn choose_container(&mut self, tab_id: u64, container: String)
        ensures
            final(self)@.wf(),
            container_choice_rel(old(self)@, tab_id, container, final(self)@),
    {
        proof {
            use_type_invariant(&*self);
        }
        proof {
            lemma_tab_index(self@.tabs, tab_id);
        }
        let idx = match self.index_of(tab_id) {
            Some(i) => i,
            None => {
                return ;
            },
        };
        let (mut tabs, active) = self.take_parts();
        let mut t = tabs.remove(idx);
        t.container = Some(container);
        tabs.insert(idx, t);
        proof {
            assert(tabs@ =~= old(self).tabs@.update(idx as int, t));
            lemma_replaced_keeps_wf(old(self)@, tabs@, idx as int);
        }
        self.put_parts(tabs, active);
    }

    /// Sets the row the tab's view scrolls to next (`None` once it has).
    pub fn set_scroll_target(&mut self, tab_id: u64, row: Option<usize>)
        ensures
            final(self)@.wf(),
            scroll_target_rel(old(self)@, tab_id, row, final(self)@),
    {
        proof {
            use_type_invariant(&*self);
        }
        proof {
            lemma_tab_index(self@.tabs, tab_id);
        }
        let idx = match self.index_of(tab_id) {
            Some(i) => i,
            None => {
                return ;
            },
        };
        let (mut tabs, active) = self.take_parts();
        let mut t = tabs.remove(idx);
        t.scroll_to_match_row = row;
        tabs.insert(idx, t);
        proof {
            assert(tabs@ =~= old(self).tabs@.update(idx as int, t));
            lemma_replaced_keeps_wf(old(self)@, tabs@, idx as int);
        }
        self.put_parts(tabs, active);
    }

    /// The rows the view must move down by after older lines were put on
    /// top; the count is then cleared.
    pub fn take_scroll_compensation(&mut self, tab_id: u64) -> (r: usize)
        ensures
            final(self)@.wf(),
            compensation_rel(old(self)@, tab_id, final(self)@, r),
    {
        proof {
            use_type_invariant(&*self);
        }
        proof {
            lemma_tab_index(self@.tabs, tab_id);
        }
        let idx = match self.index_of(tab_id) {
            Some(i) => i,
            None => {
                return 0;
            },
        };
        let (mut tabs, active) = self.take_parts();
        let mut t = tabs.remove(idx);
        let rows = t.scroll_compensate_rows;
        t.scroll_compensate_rows = 0;
        tabs.insert(idx, t);
        proof {
            assert(tabs@ =~= old(self).tabs@.update(idx as int, t));
            lemma_replaced_keeps_wf(old(self)@, tabs@, idx as int);
        }
        self.put_parts(tabs, active);
        rows
    }

    /// Prepend an older chunk of lines to a tab (then trim to the limits).
    pub fn apply_older_logs(&mut self, tab_id: u64, prepended: Vec<String>, has_more: bool)
        ensures
            final(self)@.wf(),
            older_logs_rel(old(self)@, tab_id, prepended@, has_more, final(self)@),
    {
        proof {
            use_type_invariant(&*self);
        }
        proof {
            lemma_tab_index(self@.tabs, tab_id);
        }
        let idx = match self.index_of(tab_id) {
            Some(i) => i,
            None => {
                return ;
            },
        };
        let count = prepended.len();
        let (mut tabs, active) = self.take_parts();
        let mut t = tabs.remove(idx);
        proof {
            assert(t == old(self).tabs@[idx as int]);
            assert(old(self).tabs@[idx as int].lines.wf());
        }
        t.lines.prepend(prepended);
        t.has_more_older = has_more;
        t.loading_older = false;
        t.scroll_compensate_rows = count;
        tabs.insert(idx, t);
        proof {
            assert(tabs@ =~= old(self).tabs@.update(idx as int, t));
            lemma_replaced_keeps_wf(old(self)@, tabs@, idx as int);
        }
        self.put_parts(tabs, active);
    }

    /// Record the pod's containers; a tab without a chosen container takes
    /// the default one (first ready, else first).
    pub fn set_containers(&mut self, tab_id: u64, containers: Vec<ContainerInfo>)
        ensures
            final(self)@.wf(),
            containers_rel(old(self)@, tab_id, containers, final(self)@),
    {
        proof {
            use_type_invariant(&*self);
        }
        proof {
            lemma_tab_index(self@.tabs, tab_id);
        }
        let idx = match self.index_of(tab_id) {
            Some(i) => i,
            None => {
                return ;
            },
        };
        let (mut tabs, active) = self.take_parts();
        let mut t = tabs.remove(idx);
        if t.container.is_none() {
            t.container = default_container_exec(containers.as_slice());
        }
        t.containers = containers;
        tabs.insert(idx, t);
        proof {
            assert(tabs@ =~= old(self).tabs@.update(idx as int, t));
            lemma_replaced_keeps_wf(old(self)@, tabs@, idx as int);
        }
        self.put_parts(tabs, active);
    }
}

// ---------------------------------------------------------------------------
// Laws
// ---------------------------------------------------------------------------

/// Every tab of a well-formed tab set holds at most `MAX_LINES_PER_TAB`
/// lines and at most `MAX_BYTES_PER_TAB` bytes.
pub proof fn law_tabs_within_limits(v: LogTabsView, i: int)
    requires
        v.wf(),
        0 <= i < v.tabs.len(),
    ensures
        v.tabs[i].lines@.len() <= MAX_LINES_PER_TAB,
        lines_bytes(v.tabs[i].lines@) <= MAX_BYTES_PER_TAB,
{
    assert(v.tabs[i].lines.wf());
}

/// After a line is pushed, the buffer is the longest suffix of the old
/// buffer plus that line that fits the limits: older lines are dropped first,
/// and a line that fits on its own is always kept as the newest line.
pub proof fn law_push_keeps_newest(old_lines: Seq<String>, line: String)
    requires
        within_limits(old_lines),
    ensures
        ({
            let r = trim_to_limits(old_lines.push(line));
            &&& within_limits(r)
            &&& r == old_lines.push(line).skip(old_lines.len() + 1 - r.len())
            &&& line_cost(line) <= MAX_BYTES_PER_TAB ==> r.len() > 0 && r.last() == line
        }),
{
    let ls = old_lines.push(line);
    lemma_trim_within_limits(ls);
    let r = trim_to_limits(ls);
    if line_cost(line) <= MAX_BYTES_PER_TAB {
        let last = ls.skip(ls.len() - 1);
        assert(last =~= seq![line]);
        assert(last.drop_first() =~= Seq::<String>::empty());
        assert(last[0] == line);
        assert(lines_bytes(last.drop_first()) == 0);
        assert(lines_bytes(last) == line_cost(line));
        assert(within_limits(last));
        if r.len() == 0 {
            // the empty suffix is reached only after skipping a fitting one
            let k = ls.len() as int;
            assert(r == ls.skip(k));
            lemma_trim_minimal(ls, ls.len() - 1);
        }
        assert(r.len() > 0);
        assert(r.last() == ls.last());
    }
}

/// Trimming never drops a suffix that already fits.
proof fn lemma_trim_minimal(ls: Seq<String>, j: int)
    requires
        0 <= j <= ls.len(),
        within_limits(ls.skip(j)),
    ensures
        trim_to_limits(ls).len() >= ls.len() - j,
    decreases ls.len(),
{
    if ls.len() == 0 || within_limits(ls) {
    } else {
        if j == 0 {
            assert(ls.skip(0) =~= ls);
        } else {
            assert(ls.drop_first().skip(j - 1) =~= ls.skip(j));
            lemma_trim_minimal(ls.drop_first(), j - 1);
        }
    }
}

/// Opening the same pod twice focuses the tab the first call created and
/// opens no second tab.
pub proof fn law_open_tab_idempotent(
    v0: LogTabsView,
    v1: LogTabsView,
    v2: LogTabsView,
    context: Seq<char>,
    pod_name: Seq<char>,
    namespace: Seq<char>,
    container: Option<String>,
    id1: u64,
    id2: u64,
)
    requires
        v0.wf(),
        open_tab_rel(v0, context, pod_name, namespace, container, v1, id1),
        open_tab_rel(v1, context, pod_name, namespace, None, v2, id2),
    ensures
        id2 == id1,
        v2.tabs.len() == v1.tabs.len(),
        v2.active == Some(id1),
{
    lemma_pod_tab_index(v0.tabs, context, pod_name, namespace);
    match pod_tab_index(v0.tabs, context, pod_name, namespace) {
        Some(i) => {
            lemma_pod_tab_index_stable_update(v0.tabs, i, v1.tabs[i], context, pod_name, namespace);
        },
        None => {
            lemma_pod_tab_index_push(v0.tabs, v1.tabs.last(), context, pod_name, namespace);
            assert(v1.tabs =~= v0.tabs.push(v1.tabs.last()));
        },
    }
}

proof fn lemma_pod_tab_index_stable_update(
    tabs: Seq<LogTab>,
    i: int,
    t: LogTab,
    context: Seq<char>,
    pod_name: Seq<char>,
    namespace: Seq<char>,
)
    requires
        pod_tab_index(tabs, context, pod_name, namespace) == Some(i),
        t.context == tabs[i].context,
        t.pod_name == tabs[i].pod_name,
        t.namespace == tabs[i].namespace,
        t.id == tabs[i].id,
    ensures
        pod_tab_index(tabs.update(i, t), context, pod_name, namespace) == Some(i),
    decreases tabs.len(),
{
    lemma_pod_tab_index(tabs, context, pod_name, namespace);
    if i > 0 {
        assert(tabs.update(i, t).drop_first() =~= tabs.drop_first().update(i - 1, t));
        lemma_pod_tab_index_stable_update(tabs.drop_first(), i - 1, t, context, pod_name, namespace);
    }
}

proof fn lemma_pod_tab_index_push(
    tabs: Seq<LogTab>,
    t: LogTab,
    context: Seq<char>,
    pod_name: Seq<char>,
    namespace: Seq<char>,
)
    requires
        pod_tab_index(tabs, context, pod_name, namespace) is None,
        t.context@ == context,
        t.pod_name@ == pod_name,
        t.namespace@ == namespace,
    ensures
        pod_tab_index(tabs.push(t), context, pod_name, namespace) == Some(tabs.len() as int),
    decreases tabs.len(),
{
    if tabs.len() > 0 {
        assert(tabs.push(t).drop_first() =~= tabs.drop_first().push(t));
        lemma_pod_tab_index_push(tabs.drop_first(), t, context, pod_name, namespace);
    }
}

/// A tab opened after another was closed gets a new id: ids are never
/// reused within one tab set.
pub proof fn law_ids_not_reused(
    v0: LogTabsView,
    v1: LogTabsView,
    closed_id: u64,
    r: Option<u64>,
    v2: LogTabsView,
    context: Seq<char>,
    pod_name: Seq<char>,
    namespace: Seq<char>,
    container: Option<String>,
    id: u64,
)
    requires
        v0.wf(),
        has_tab(v0.tabs, closed_id),
        close_tab_rel(v0, closed_id, v1, r),
        open_tab_rel(v1, context, pod_name, namespace, container, v2, id),
    ensures
        id != closed_id,
{
    lemma_tab_index(v0.tabs, closed_id);
    let i = tab_index(v0.tabs, closed_id)->0;
    assert(v0.tabs[i].id < v0.next_id);
    lemma_pod_tab_index(v1.tabs, context, pod_name, namespace);
    match pod_tab_index(v1.tabs, context, pod_name, namespace) {
        Some(k) => {
            let ok = if k < i {
                k
            } else {
                k + 1
            };
            assert(v1.tabs[k] == v0.tabs[ok]);
            assert(ok != i);
        },
        None => {},
    }
}

} // verus!
