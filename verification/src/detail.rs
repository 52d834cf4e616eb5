//! The detail pane: which text it shows, and searching in it.
use vstd::prelude::*;

use crate::text::{
    byte_len, char_width, char_width_exec, chars_of, find_from, lemma_next_occurrence,
    lemma_utf8_len_push, lemma_utf8_len_take_mono, lowercase, next_occurrence, string_from_range,
    to_lowercase, utf8_len,
};

verus! {

#[derive(Debug, Clone, Copy, PartialEq, Eq, Structural)]
pub enum DetailTab {
    Describe,
    Events,
    Metrics,
}

pub struct DetailState {
    pub tab: DetailTab,
    pub yaml: String,
    pub events: String,
    pub metrics: String,
    pub resource_name: String,
}

#[derive(Debug)]
pub struct DetailSearchState {
    pub query: String,
    pub match_index: usize,
    pub focus_field: bool,
}

impl Default for DetailSearchState {
    fn default() -> (r: Self)
        ensures
            r.query@.len() == 0,
            r.match_index == 0,
            !r.focus_field,
    {
        DetailSearchState { query: String::new(), match_index: 0, focus_field: false }
    }
}

impl DetailState {
    /// The text of the tab shown.
    pub open spec fn active_text_spec(&self) -> Seq<char> {
        match self.tab {
            DetailTab::Describe => self.yaml@,
            DetailTab::Events => self.events@,
            DetailTab::Metrics => self.metrics@,
        }
    }

    /// Empties every text; the tab stays.
    pub fn clear(&mut self)
        ensures
            final(self).tab == old(self).tab,
            final(self).yaml@.len() == 0,
            final(self).events@.len() == 0,
            final(self).metrics@.len() == 0,
            final(self).resource_name@.len() == 0,
    {
        self.yaml = String::new();
        self.events = String::new();
        self.metrics = String::new();
        self.resource_name = String::new();
    }

    /// The text of the tab shown.
    pub fn active_text(&self) -> (r: &str)
        ensures
            r@ == self.active_text_spec(),
    {
        match self.tab {
            DetailTab::Describe => self.yaml.as_str(),
            DetailTab::Events => self.events.as_str(),
            DetailTab::Metrics => self.metrics.as_str(),
        }
    }

    /// Search is offered on the YAML and events tabs.
    pub fn supports_search(&self) -> (r: bool)
        ensures
            r == (self.tab == DetailTab::Describe || self.tab == DetailTab::Events),
    {
        match self.tab {
            DetailTab::Describe | DetailTab::Events => true,
            DetailTab::Metrics => false,
        }
    }
}

/// The hint shown when a tab has no text.
pub fn empty_hint(tab: DetailTab) -> (r: &'static str)
    ensures
        r@ == match tab {
            DetailTab::Describe => "Select a resource to view YAML."@,
            DetailTab::Events => "Select a resource to view events."@,
            DetailTab::Metrics => "Pod metrics (requires metrics-server). Select pods and open Metrics."@,
        },
{
    match tab {
        DetailTab::Describe => "Select a resource to view YAML.",
        DetailTab::Events => "Select a resource to view events.",
        DetailTab::Metrics => "Pod metrics (requires metrics-server). Select pods and open Metrics.",
    }
}

impl DetailSearchState {
    /// Back to an empty search.
    pub fn reset(&mut self)
        ensures
            final(self).query@.len() == 0,
            final(self).match_index == 0,
            !final(self).focus_field,
    {
        *self = Self::default();
    }

    /// Asks for the search field to take the focus.
    pub fn open(&mut self)
        ensures
            final(self).focus_field,
            final(self).query == old(self).query,
            final(self).match_index == old(self).match_index,
    {
        self.focus_field = true;
    }
}

impl DetailSearchState {
    /// The search text was edited: back to the first match.
    pub fn query_edited(&mut self)
        ensures
            final(self).match_index == 0,
            final(self).query == old(self).query,
            final(self).focus_field == old(self).focus_field,
    {
        self.match_index = 0;
    }

    /// Enter in the search field steps to the next match in `text`, and
    /// Shift+Enter to the previous one, wrapping around.
    pub fn enter_pressed(&mut self, text: &str, shift: bool)
        ensures
            final(self).match_index == if shift {
                prev_index(old(self).match_index, find_matches_spec(text@, old(self).query@).len() as usize)
            } else {
                next_index(old(self).match_index, find_matches_spec(text@, old(self).query@).len() as usize)
            },
            final(self).query == old(self).query,
            final(self).focus_field == old(self).focus_field,
    {
        let matches = find_matches(text, self.query.as_str());
        let count = matches.len();
        assert(matches@.map_values(|x: usize| x as int).len() == matches@.len());
        if shift {
            prev_match(self, count);
        } else {
            next_match(self, count);
        }
    }
}

// ---------------------------------------------------------------------------
// Stepping through matches
// ---------------------------------------------------------------------------

/// The match after `index` among `count`, wrapping around.
pub open spec fn next_index(index: usize, count: usize) -> usize {
    if count == 0 {
        0
    } else {
        ((index + 1) % (count as int)) as usize
    }
}

/// The match before `index` among `count`, wrapping around.
pub open spec fn prev_index(index: usize, count: usize) -> usize {
    if count == 0 {
        0
    } else if index == 0 {
        (count - 1) as usize
    } else {
        (index - 1) as usize
    }
}

/// Moves to the next of `count` matches.
pub fn next_match(search: &mut DetailSearchState, count: usize)
    ensures
        final(search).match_index == next_index(old(search).match_index, count),
        final(search).query == old(search).query,
        final(search).focus_field == old(search).focus_field,
{
    if count == 0 {
        search.match_index = 0;
        return;
    }
    search.match_index = ((search.match_index as u128 + 1) % count as u128) as usize;
}

/// Moves to the previous of `count` matches.
pub fn prev_match(search: &mut DetailSearchState, count: usize)
    ensures
        final(search).match_index == prev_index(old(search).match_index, count),
        final(search).query == old(search).query,
        final(search).focus_field == old(search).focus_field,
{
    if count == 0 {
        search.match_index = 0;
        return;
    }
    search.match_index = if search.match_index == 0 {
        count - 1
    } else {
        search.match_index - 1
    };
}

/// The match index to show: the last match when the index ran past the end.
pub fn clamp_match_index(index: usize, count: usize) -> (r: usize)
    ensures
        r == (if index >= count && count > 0 {
            (count - 1) as usize
        } else {
            index
        }),
{
    if index >= count && count > 0 {
        count - 1
    } else {
        index
    }
}

/// Stepping back undoes stepping forward, for any index among the matches.
pub proof fn law_prev_undoes_next(index: usize, count: usize)
    requires
        index < count,
    ensures
        prev_index(next_index(index, count), count) == index,
{
    if index + 1 < count {
        assert((index + 1) % (count as int) == index + 1) by (nonlinear_arith)
            requires
                0 <= index + 1 < count,
        ;
    } else {
        assert((index + 1) % (count as int) == 0) by (nonlinear_arith)
            requires
                index + 1 == count,
                count > 0,
        ;
    }
}

/// Stepping forward from any match stays among the matches.
pub proof fn law_next_in_range(index: usize, count: usize)
    requires
        count > 0,
    ensures
        next_index(index, count) < count,
        prev_index(index, count) < count || index > count,
{
    assert((index + 1) % (count as int) < count) by (nonlinear_arith)
        requires
            count > 0,
    ;
}

// ---------------------------------------------------------------------------
// Finding matches
// ---------------------------------------------------------------------------

/// Character positions of the non-overlapping occurrences of `n` in `h` from
/// `i` on, each search starting after the previous match.
pub open spec fn match_positions(h: Seq<char>, n: Seq<char>, i: int) -> Seq<int>
    decreases h.len() + 1 - i,
{
    if n.len() == 0 || i < 0 || i > h.len() {
        Seq::empty()
    } else {
        match next_occurrence(h, n, i) {
            Some(k) => if i <= k && k + n.len() <= h.len() {
                seq![k] + match_positions(h, n, k + n.len())
            } else {
                Seq::empty()
            },
            None => Seq::empty(),
        }
    }
}

/// The matches found from `i` on are the leftmost non-overlapping
/// occurrences of `n`: each is an occurrence at or after `i`, each starts
/// at or after the end of the one before, and no occurrence is skipped in
/// between them, before the first, or after the last.
pub proof fn law_match_positions(h: Seq<char>, n: Seq<char>, i: int)
    requires
        n.len() > 0,
        0 <= i <= h.len(),
    ensures
        forall|j: int|
            0 <= j < match_positions(h, n, i).len() ==> i <= #[trigger] match_positions(h, n, i)[j]
                && crate::text::occurs_at(h, n, match_positions(h, n, i)[j]),
        forall|j: int|
            0 <= j < match_positions(h, n, i).len() - 1 ==> #[trigger] match_positions(h, n, i)[j]
                + n.len() <= match_positions(h, n, i)[j + 1],
        forall|q: int|
            i <= q && (match_positions(h, n, i).len() == 0 || q < match_positions(h, n, i)[0])
                ==> !#[trigger] crate::text::occurs_at(h, n, q),
        forall|j: int, q: int|
            #![trigger match_positions(h, n, i)[j], crate::text::occurs_at(h, n, q)]
            0 <= j < match_positions(h, n, i).len() - 1 && match_positions(h, n, i)[j] + n.len() <= q
                < match_positions(h, n, i)[j + 1] ==> !crate::text::occurs_at(h, n, q),
        match_positions(h, n, i).len() > 0 ==> forall|q: int|
            match_positions(h, n, i).last() + n.len() <= q ==> !#[trigger] crate::text::occurs_at(
                h,
                n,
                q,
            ),
    decreases h.len() + 1 - i,
{
    crate::text::lemma_next_occurrence(h, n, i);
    let r = match_positions(h, n, i);
    match crate::text::next_occurrence(h, n, i) {
        None => {
            assert(r =~= Seq::<int>::empty());
        },
        Some(k) => {
            let e = k + n.len();
            law_match_positions(h, n, e);
            let rest = match_positions(h, n, e);
            assert(r =~= seq![k] + rest);
            assert forall|j: int| 0 <= j < r.len() implies i <= #[trigger] r[j]
                && crate::text::occurs_at(h, n, r[j]) by {
                if j > 0 {
                    assert(r[j] == rest[j - 1]);
                }
            }
            assert forall|j: int| 0 <= j < r.len() - 1 implies #[trigger] r[j] + n.len() <= r[j + 1] by {
                assert(r[j + 1] == rest[j]);
                if j > 0 {
                    assert(r[j] == rest[j - 1]);
                }
            }
            assert forall|j: int, q: int|
                #![trigger r[j], crate::text::occurs_at(h, n, q)]
                0 <= j < r.len() - 1 && r[j] + n.len() <= q < r[j + 1] implies !crate::text::occurs_at(h, n, q) by {
                assert(r[j + 1] == rest[j]);
                if j > 0 {
                    assert(r[j] == rest[j - 1]);
                }
            }
            if r.len() > 0 {
                if rest.len() > 0 {
                    assert(r.last() == rest.last());
                }
            }
        },
    }
}

/// Byte offsets in `h` of the given character positions.
pub open spec fn byte_offsets(h: Seq<char>, ks: Seq<int>) -> Seq<int> {
    ks.map_values(|k: int| utf8_len(h.take(k)) as int)
}

/// Byte offsets of the case-insensitive matches of `query` in `text`: the
/// positions of the non-overlapping matches of the lower-cased query in the
/// lower-cased text.
pub open spec fn find_matches_spec(text: Seq<char>, query: Seq<char>) -> Seq<int> {
    if query.len() == 0 {
        Seq::empty()
    } else {
        byte_offsets(lowercase(text), match_positions(lowercase(text), lowercase(query), 0))
    }
}

/// Advances a byte offset over `h[from..to]`.
fn advance_bytes(h: &[char], from: usize, to: usize, bytes: usize, Ghost(total): Ghost<nat>) -> (r:
    usize)
    requires
        from <= to <= h@.len(),
        bytes == utf8_len(h@.take(from as int)),
        total == utf8_len(h@),
        total <= usize::MAX,
    ensures
        r == utf8_len(h@.take(to as int)),
{
    let mut j: usize = from;
    let mut b: usize = bytes;
    while j < to
        invariant
            from <= j <= to <= h@.len(),
            b == utf8_len(h@.take(j as int)),
            total == utf8_len(h@),
            total <= usize::MAX,
        decreases to - j,
    {
        proof {
            assert(h@.take(j + 1) =~= h@.take(j as int).push(h@[j as int]));
            lemma_utf8_len_push(h@.take(j as int), h@[j as int]);
            lemma_utf8_len_take_mono(h@, j + 1, h@.len() as int);
        }
        let w = char_width_exec(h[j]);
        b = b + w;
        j = j + 1;
    }
    b
}

/// Byte offsets of the case-insensitive, non-overlapping matches of `query`
/// in `text`.
pub fn find_matches(text: &str, query: &str) -> (r: Vec<usize>)
    ensures
        r@.map_values(|x: usize| x as int) == find_matches_spec(text@, query@),
{
    let qs = chars_of(query);
    if qs.len() == 0 {
        let r: Vec<usize> = Vec::new();
        assert(r@.map_values(|x: usize| x as int) =~= Seq::<int>::empty());
        return r;
    }
    let haystack = to_lowercase(text);
    let needle = to_lowercase(query);
    match_offsets(haystack.as_str(), needle.as_str())
}

/// Byte offsets of the non-overlapping matches of `query` in `text`, as
/// found from the start; the case of the letters counts.
pub fn match_offsets(text: &str, query: &str) -> (r: Vec<usize>)
    requires
        query@.len() > 0,
    ensures
        r@.map_values(|x: usize| x as int) == byte_offsets(text@, match_positions(text@, query@, 0)),
{
    let total = byte_len(text);
    let h = chars_of(text);
    let n = chars_of(query);
    let ghost all = match_positions(h@, n@, 0);
    let ghost done: Seq<int> = Seq::empty();
    let mut out: Vec<usize> = Vec::new();
    let mut pos: usize = 0;
    let mut bytes: usize = 0;
    assert(h@.take(0) =~= Seq::<char>::empty());
    let mut searching = true;
    while searching
        invariant
            n@.len() > 0,
            !searching ==> match_positions(h@, n@, pos as int) == Seq::<int>::empty(),
            pos <= h@.len(),
            total == utf8_len(h@),
            bytes == utf8_len(h@.take(pos as int)),
            all == done + match_positions(h@, n@, pos as int),
            out@.map_values(|x: usize| x as int) == byte_offsets(h@, done),
        decreases h@.len() - pos + (if searching {
            1int
        } else {
            0int
        }),
    {
        match find_from(&h, &n, pos) {
            Some(k) => {
                proof {
                    lemma_next_occurrence(h@, n@, pos as int);
                    assert(next_occurrence(h@, n@, pos as int) == Some(k as int));
                    assert(crate::text::occurs_at(h@, n@, k as int));
                }
                let kb = advance_bytes(&h, pos, k, bytes, Ghost(utf8_len(h@)));
                let hl = h.len();
                let nl = n.len();
                assert(k + nl <= hl);
                let end = k + nl;
                let eb = advance_bytes(&h, k, end, kb, Ghost(utf8_len(h@)));
                let ghost before = out@.map_values(|x: usize| x as int);
                out.push(kb);
                proof {
                    assert(match_positions(h@, n@, pos as int) == seq![k as int] + match_positions(
                        h@,
                        n@,
                        end as int,
                    ));
                    assert(out@.map_values(|x: usize| x as int) =~= before.push(kb as int));
                    assert(byte_offsets(h@, done.push(k as int)) =~= byte_offsets(h@, done).push(
                        utf8_len(h@.take(k as int)) as int,
                    ));
                    assert(done + match_positions(h@, n@, pos as int) =~= done.push(k as int)
                        + match_positions(h@, n@, end as int));
                    done = done.push(k as int);
                }
                pos = end;
                bytes = eb;
            },
            None => {
                assert(match_positions(h@, n@, pos as int) =~= Seq::<int>::empty());
                searching = false;
            },
        }
    }
    assert(all =~= done + Seq::<int>::empty());
    assert(all =~= done);
    out
}

// ---------------------------------------------------------------------------
// Lines with their byte offsets
// ---------------------------------------------------------------------------

/// Splits `s` at `\n` as `split('\n')` does, recording each line's byte
/// offset: the finished lines, and the offset and text of the current one.
pub open spec fn split_lines(s: Seq<char>) -> (Seq<(int, Seq<char>)>, int, Seq<char>)
    decreases s.len(),
{
    if s.len() == 0 {
        (Seq::empty(), 0, Seq::empty())
    } else {
        let (done, start, cur) = split_lines(s.drop_last());
        if s.last() == '\n' {
            (done.push((start, cur)), utf8_len(s) as int, Seq::empty())
        } else {
            (done, start, cur.push(s.last()))
        }
    }
}

/// Every line of `s` with the byte offset where it starts.
pub open spec fn lines_with_offsets(s: Seq<char>) -> Seq<(int, Seq<char>)> {
    let (done, start, cur) = split_lines(s);
    done.push((start, cur))
}

pub open spec fn lines_view(v: Seq<(usize, String)>) -> Seq<(int, Seq<char>)> {
    v.map_values(|p: (usize, String)| (p.0 as int, p.1@))
}

proof fn lemma_split_lines_bounds(s: Seq<char>)
    ensures
        0 <= split_lines(s).1 <= utf8_len(s),
        split_lines(s).1 + utf8_len(split_lines(s).2) == utf8_len(s),
        forall|k: int|
            0 <= k < split_lines(s).0.len() ==> 0 <= (#[trigger] split_lines(s).0[k]).0 <= utf8_len(s),
    decreases s.len(),
{
    if s.len() > 0 {
        let p = s.drop_last();
        lemma_split_lines_bounds(p);
        assert(s =~= p.push(s.last()));
        lemma_utf8_len_push(p, s.last());
        lemma_utf8_len_push(split_lines(p).2, s.last());
    }
}

/// The lines of `text` (split at `\n`) with the byte offset of each.
pub fn iter_lines(text: &str) -> (r: Vec<(usize, String)>)
    ensures
        lines_view(r@) == lines_with_offsets(text@),
{
    let total = byte_len(text);
    let cs = chars_of(text);
    let mut done: Vec<(usize, String)> = Vec::new();
    let mut start: usize = 0;
    let mut line_from: usize = 0;
    let mut bytes: usize = 0;
    let mut i: usize = 0;
    assert(cs@.take(0) =~= Seq::<char>::empty());
    while i < cs.len()
        invariant
            i <= cs@.len(),
            cs@ == text@,
            total == utf8_len(cs@),
            line_from <= i,
            bytes == utf8_len(cs@.take(i as int)),
            lines_view(done@) == split_lines(cs@.take(i as int)).0,
            start == split_lines(cs@.take(i as int)).1,
            cs@.subrange(line_from as int, i as int) == split_lines(cs@.take(i as int)).2,
        decreases cs@.len() - i,
    {
        let ghost p = cs@.take(i as int);
        proof {
            assert(cs@.take(i + 1) =~= p.push(cs@[i as int]));
            assert(cs@.take(i + 1).drop_last() =~= p);
            lemma_utf8_len_push(p, cs@[i as int]);
            lemma_utf8_len_take_mono(cs@, i + 1, cs@.len() as int);
        }
        let w = char_width_exec(cs[i]);
        bytes = bytes + w;
        if cs[i] == '\n' {
            let line = string_from_range(&cs, line_from, i);
            let ghost before = lines_view(done@);
            done.push((start, line));
            assert(lines_view(done@) =~= before.push((start as int, line@)));
            start = bytes;
            line_from = i + 1;
            assert(cs@.subrange(line_from as int, i + 1) =~= Seq::<char>::empty());
        } else {
            assert(cs@.subrange(line_from as int, i + 1) =~= cs@.subrange(line_from as int, i as int).push(
                cs@[i as int],
            ));
        }
        i = i + 1;
    }
    assert(cs@.take(cs@.len() as int) =~= cs@);
    let last = string_from_range(&cs, line_from, cs.len());
    let ghost before = lines_view(done@);
    done.push((start, last));
    assert(lines_view(done@) =~= before.push((start as int, last@)));
    done
}

} // verus!
