//! Short labels: context names fitted to narrow places, truncated titles,
//! file names derived from pod names.
use vstd::prelude::*;

use crate::text::{
    after_last, after_last_exec, char_width, char_width_exec, chars_of, join_with,
    last_index_of, last_index_of_exec, lemma_last_index_of, lemma_utf8_len_bounds,
    lemma_utf8_len_push, lemma_utf8_len_take_mono, owned, push_char, string_from_chars,
    string_from_range, texts, utf8_len,
};

verus! {

// ---------------------------------------------------------------------------
// Byte positions
// ---------------------------------------------------------------------------

/// Byte offset `b` of `s` falls between two characters.
pub open spec fn is_char_boundary(s: Seq<char>, b: int) -> bool {
    exists|k: int| 0 <= k <= s.len() && #[trigger] utf8_len(s.take(k)) == b
}

proof fn lemma_prefix_bytes_strict(s: Seq<char>, i: int, j: int)
    requires
        0 <= i < j <= s.len(),
    ensures
        utf8_len(s.take(i)) < utf8_len(s.take(j)),
{
    assert(s.take(i + 1) =~= s.take(i).push(s[i]));
    lemma_utf8_len_push(s.take(i), s[i]);
    lemma_utf8_len_take_mono(s, i + 1, j);
}

/// The number of characters in the first `b` bytes of `s`.
fn chars_in_bytes(s: &[char], b: usize) -> (k: usize)
    requires
        is_char_boundary(s@, b as int),
    ensures
        k <= s@.len(),
        utf8_len(s@.take(k as int)) == b,
{
    let ghost kk = choose|k: int| 0 <= k <= s@.len() && #[trigger] utf8_len(s@.take(k)) == b;
    let mut j: usize = 0;
    let mut acc: usize = 0;
    assert(s@.take(0) =~= Seq::<char>::empty());
    while acc < b
        invariant
            j <= s@.len(),
            acc == utf8_len(s@.take(j as int)),
            acc <= b,
            0 <= kk <= s@.len(),
            utf8_len(s@.take(kk)) == b,
            j <= kk,
        decreases s@.len() - j,
    {
        proof {
            if kk <= j {
                assert(kk == j);
            }
            assert(s@.take(j + 1) =~= s@.take(j as int).push(s@[j as int]));
            lemma_utf8_len_push(s@.take(j as int), s@[j as int]);
            if j + 1 < kk {
                lemma_prefix_bytes_strict(s@, j + 1, kk);
            }
        }
        let w = char_width_exec(s[j]);
        acc = acc + w;
        j = j + 1;
    }
    proof {
        if j < kk {
            lemma_prefix_bytes_strict(s@, j as int, kk);
        }
    }
    j
}

/// `s[..b]` followed by `...`.
pub open spec fn cut_with_ellipsis(s: Seq<char>, b: int) -> Seq<char> {
    s.take(choose|k: int| 0 <= k <= s.len() && #[trigger] utf8_len(s.take(k)) == b) + "..."@
}

proof fn lemma_boundary_unique(s: Seq<char>, b: int, k: int)
    requires
        0 <= k <= s.len(),
        utf8_len(s.take(k)) == b,
    ensures
        cut_with_ellipsis(s, b) == s.take(k) + "..."@,
{
    let c = choose|k: int| 0 <= k <= s.len() && #[trigger] utf8_len(s.take(k)) == b;
    if c < k {
        lemma_prefix_bytes_strict(s, c, k);
    } else if k < c {
        lemma_prefix_bytes_strict(s, k, c);
    }
}

/// `s` when it has at most `max` bytes, else its first `cut` bytes and `...`.
fn fit_or_cut(s: &str, max: usize, cut: usize) -> (r: String)
    requires
        utf8_len(s@) > max ==> is_char_boundary(s@, cut as int),
    ensures
        r@ == if utf8_len(s@) <= max {
            s@
        } else {
            cut_with_ellipsis(s@, cut as int)
        },
{
    let cs = chars_of(s);
    let n = crate::text::byte_len(s);
    if n <= max {
        return owned(s);
    }
    let k = chars_in_bytes(&cs, cut);
    proof {
        lemma_boundary_unique(s@, cut as int, k as int);
    }
    let mut r = string_from_range(&cs, 0, k);
    assert(cs@.subrange(0, k as int) =~= cs@.take(k as int));
    r.append("...");
    r
}

/// A log tab's title: names over 18 bytes are cut to 17 and marked.
pub fn truncate_tab_title(name: &str) -> (r: String)
    requires
        utf8_len(name@) > 18 ==> is_char_boundary(name@, 17),
    ensures
        r@ == if utf8_len(name@) <= 18 {
            name@
        } else {
            cut_with_ellipsis(name@, 17)
        },
{
    fit_or_cut(name, 18, 17)
}

/// The last `/`-separated segment of a context name.
pub open spec fn last_segment(s: Seq<char>) -> Seq<char> {
    after_last(s, '/')
}

/// The part of a context name after its last `/` (all of it when there is
/// none).
pub fn short_context_label(context: &str) -> (r: String)
    ensures
        r@ == last_segment(context@),
{
    let cs = chars_of(context);
    let t = after_last_exec(&cs, '/');
    string_from_chars(&t)
}

/// A context's label on a log tab: its last segment, cut to 9 bytes and
/// marked when over 10.
pub fn truncate_context_label(context: &str) -> (r: String)
    requires
        utf8_len(last_segment(context@)) > 10 ==> is_char_boundary(last_segment(context@), 9),
    ensures
        r@ == if utf8_len(last_segment(context@)) <= 10 {
            last_segment(context@)
        } else {
            cut_with_ellipsis(last_segment(context@), 9)
        },
{
    let short = short_context_label(context);
    fit_or_cut(short.as_str(), 10, 9)
}

/// A label cut to `max` bytes: over that, its first `max - 3` bytes (or
/// none) and `...`.
pub fn truncate(s: &str, max: usize) -> (r: String)
    requires
        utf8_len(s@) > max ==> is_char_boundary(s@, if max >= 3 { max - 3 } else { 0 }),
    ensures
        r@ == if utf8_len(s@) <= max {
            s@
        } else {
            cut_with_ellipsis(s@, if max >= 3 { max - 3 } else { 0 })
        },
{
    let cut: usize = if max >= 3 {
        max - 3
    } else {
        0
    };
    fit_or_cut(s, max, cut)
}

// ---------------------------------------------------------------------------
// Context names on the narrow rail
// ---------------------------------------------------------------------------

/// Characters of the longest prefix of `s` that fits in `max` bytes.
pub open spec fn fit_chars(s: Seq<char>, max: int) -> nat
    decreases s.len(),
{
    if s.len() == 0 || char_width(s[0]) > max {
        0
    } else {
        1 + fit_chars(s.drop_first(), max - char_width(s[0]))
    }
}

/// Number of leading `-` characters.
pub open spec fn leading_dashes(s: Seq<char>) -> nat
    decreases s.len(),
{
    if s.len() > 0 && s[0] == '-' {
        1 + leading_dashes(s.drop_first())
    } else {
        0
    }
}

/// `s` without its leading dashes.
pub open spec fn trim_dashes(s: Seq<char>) -> Seq<char> {
    s.skip(leading_dashes(s) as int)
}

/// Breaks `rest` into lines of at most `max_line` bytes (each cut at a
/// character boundary, the next line starting after any dashes), up to
/// `max_lines` lines.  Gives the lines and the text left over; a last piece
/// that fits whole is taken and also left over.
pub open spec fn wrap_go(rest: Seq<char>, max_line: nat, max_lines: nat, lines: Seq<Seq<char>>) -> (
    Seq<Seq<char>>,
    Seq<char>,
)
    decreases max_lines - lines.len(),
{
    if lines.len() >= max_lines || rest.len() == 0 {
        (lines, rest)
    } else if utf8_len(rest) <= max_line {
        (lines.push(rest), rest)
    } else {
        let k = fit_chars(rest, max_line as int);
        if k == 0 {
            (lines, rest)
        } else {
            wrap_go(trim_dashes(rest.skip(k as int)), max_line, max_lines, lines.push(rest.take(k as int)))
        }
    }
}

/// The wrapped lines; when all lines are used and text is left over, a last
/// line with room gets `...`.
pub open spec fn wrap_spec(text: Seq<char>, max_line: nat, max_lines: nat) -> Seq<Seq<char>> {
    let (lines, rest) = wrap_go(text, max_line, max_lines, Seq::empty());
    if lines.len() == max_lines && rest.len() > 0 && lines.len() > 0 && utf8_len(lines.last())
        < max_line {
        lines.update(lines.len() - 1, lines.last() + "..."@)
    } else {
        lines
    }
}

fn fit_chars_exec(s: &[char], from: usize, max: usize) -> (k: usize)
    requires
        from <= s@.len(),
    ensures
        k == fit_chars(s@.skip(from as int), max as int),
        from + k <= s@.len(),
{
    let mut j: usize = from;
    let mut room: usize = max;
    assert(s@.skip(from as int).skip(0) =~= s@.skip(from as int));
    while j < s.len() && char_width_exec(s[j]) <= room
        invariant
            from <= j <= s@.len(),
            room <= max,
            fit_chars(s@.skip(from as int), max as int) == (j - from) + fit_chars(
                s@.skip(j as int),
                room as int,
            ),
        decreases s@.len() - j,
    {
        assert(s@.skip(j as int)[0] == s@[j as int]);
        assert(s@.skip(j as int).drop_first() =~= s@.skip(j + 1));
        let w = char_width_exec(s[j]);
        room = room - w;
        j = j + 1;
    }
    if j < s.len() {
        assert(s@.skip(j as int)[0] == s@[j as int]);
    } else {
        assert(s@.skip(j as int) =~= Seq::<char>::empty());
    }
    j - from
}

fn skip_dashes(s: &[char], from: usize) -> (r: usize)
    requires
        from <= s@.len(),
    ensures
        r == from + leading_dashes(s@.skip(from as int)),
        r <= s@.len(),
{
    let mut j = from;
    while j < s.len() && s[j] == '-'
        invariant
            from <= j <= s@.len(),
            leading_dashes(s@.skip(from as int)) == (j - from) + leading_dashes(s@.skip(j as int)),
        decreases s@.len() - j,
    {
        assert(s@.skip(j as int)[0] == s@[j as int]);
        assert(s@.skip(j as int).drop_first() =~= s@.skip(j + 1));
        j = j + 1;
    }
    if j < s.len() {
        assert(s@.skip(j as int)[0] == s@[j as int]);
    }
    j
}

/// Bytes of `s[from..]`.
fn suffix_bytes(s: &[char], from: usize, total: usize) -> (r: usize)
    requires
        from <= s@.len(),
        total == utf8_len(s@),
    ensures
        r == utf8_len(s@.skip(from as int)),
{
    let mut j: usize = from;
    let mut acc: usize = 0;
    proof {
        assert(s@.subrange(from as int, from as int) =~= Seq::<char>::empty());
        assert(s@ =~= s@.take(from as int) + s@.skip(from as int));
        crate::text::lemma_utf8_len_concat(s@.take(from as int), s@.skip(from as int));
    }
    while j < s.len()
        invariant
            from <= j <= s@.len(),
            total == utf8_len(s@),
            utf8_len(s@.skip(from as int)) <= total,
            acc == utf8_len(s@.subrange(from as int, j as int)),
        decreases s@.len() - j,
    {
        proof {
            assert(s@.subrange(from as int, j + 1) =~= s@.subrange(from as int, j as int).push(
                s@[j as int],
            ));
            lemma_utf8_len_push(s@.subrange(from as int, j as int), s@[j as int]);
            let t = s@.skip(from as int);
            assert(s@.subrange(from as int, j + 1) =~= t.take(j + 1 - from));
            lemma_utf8_len_take_mono(t, j + 1 - from, t.len() as int);
        }
        let w = char_width_exec(s[j]);
        acc = acc + w;
        j = j + 1;
    }
    assert(s@.subrange(from as int, s@.len() as int) =~= s@.skip(from as int));
    acc
}

/// Wraps `text` into at most `max_lines` lines of at most `max_line` bytes.
pub fn wrap_lines(text: &str, max_line: usize, max_lines: usize) -> (r: Vec<String>)
    ensures
        texts(r@) == wrap_spec(text@, max_line as nat, max_lines as nat),
{
    let cs = chars_of(text);
    let total = crate::text::byte_len(text);
    let mut lines: Vec<String> = Vec::new();
    let mut from: usize = 0;
    assert(cs@.skip(0) =~= cs@);
    assert(texts(lines@) =~= Seq::<Seq<char>>::empty());
    let mut done = false;
    while !done && lines.len() < max_lines && from < cs.len()
        invariant
            from <= cs@.len(),
            cs@ == text@,
            total == utf8_len(cs@),
            texts(lines@).len() <= max_lines,
            !done ==> wrap_go(text@, max_line as nat, max_lines as nat, Seq::empty()) == wrap_go(
                cs@.skip(from as int),
                max_line as nat,
                max_lines as nat,
                texts(lines@),
            ),
            done ==> wrap_go(text@, max_line as nat, max_lines as nat, Seq::empty()) == (
                texts(lines@),
                cs@.skip(from as int),
            ),
        decreases max_lines - lines@.len() + (if done {
            0int
        } else {
            1int
        }),
    {
        let ghost rest = cs@.skip(from as int);
        let rest_bytes = suffix_bytes(&cs, from, total);
        if rest_bytes <= max_line {
            let piece = string_from_range(&cs, from, cs.len());
            assert(cs@.subrange(from as int, cs@.len() as int) =~= rest);
            let ghost before = texts(lines@);
            lines.push(piece);
            assert(texts(lines@) =~= before.push(rest));
            done = true;
        } else {
            let k = fit_chars_exec(&cs, from, max_line);
            if k == 0 {
                done = true;
            } else {
                let piece = string_from_range(&cs, from, from + k);
                assert(cs@.subrange(from as int, from + k) =~= rest.take(k as int));
                let ghost before = texts(lines@);
                lines.push(piece);
                assert(texts(lines@) =~= before.push(rest.take(k as int)));
                let next = skip_dashes(&cs, from + k);
                proof {
                    assert(rest.skip(k as int) =~= cs@.skip(from + k));
                    assert(cs@.skip(from + k).skip(leading_dashes(cs@.skip(from + k)) as int)
                        =~= cs@.skip(next as int));
                }
                from = next;
            }
        }
    }
    let ghost wr = wrap_go(text@, max_line as nat, max_lines as nat, Seq::empty());
    proof {
        if !done {
            assert(cs@.skip(from as int).len() == 0 || texts(lines@).len() >= max_lines);
        }
    }
    // When every line is used and text is left over, mark the last line.
    let n = lines.len();
    if n == max_lines && from < cs.len() && n > 0 {
        let last_bytes = crate::text::byte_len(lines[n - 1].as_str());
        if last_bytes < max_line {
            let mut last = owned(lines[n - 1].as_str());
            last.append("...");
            let ghost before = texts(lines@);
            lines.set(n - 1, last);
            assert(texts(lines@) =~= before.update(n - 1, before.last() + "..."@));
        }
    }
    lines
}

/// The most specific part of a context name: after the last `/`, else
/// after the last `:`, else all of it.
pub open spec fn rail_short_name(name: Seq<char>) -> Seq<char> {
    match last_index_of(name, '/') {
        Some(i) => name.skip(i + 1),
        None => after_last(name, ':'),
    }
}

/// Splits at `-`, keeping the non-empty pieces: the pieces closed so far and
/// the one being read.
pub open spec fn dash_split(s: Seq<char>) -> (Seq<Seq<char>>, Seq<char>)
    decreases s.len(),
{
    if s.len() == 0 {
        (Seq::empty(), Seq::empty())
    } else {
        let (closed, cur) = dash_split(s.drop_last());
        if s.last() == '-' {
            if cur.len() > 0 {
                (closed.push(cur), Seq::empty())
            } else {
                (closed, cur)
            }
        } else {
            (closed, cur.push(s.last()))
        }
    }
}

/// The non-empty `-`-separated pieces of `s`.
pub open spec fn dash_parts(s: Seq<char>) -> Seq<Seq<char>> {
    let (closed, cur) = dash_split(s);
    if cur.len() > 0 {
        closed.push(cur)
    } else {
        closed
    }
}

/// The last three pieces (or all, when fewer) joined with `-`.
pub open spec fn tail_pieces(parts: Seq<Seq<char>>) -> Seq<char> {
    join_with(parts.skip(if parts.len() >= 3 { parts.len() - 3 } else { 0 }), "-"@)
}

/// One to three short lines naming a context on the narrow rail, preferring
/// its most specific suffix.
pub open spec fn context_label_spec(name: Seq<char>) -> Seq<Seq<char>> {
    let short = rail_short_name(name);
    if utf8_len(short) <= 13 {
        seq![short]
    } else {
        let parts = dash_parts(short);
        if parts.len() >= 2 && utf8_len(tail_pieces(parts)) <= 39 {
            wrap_spec(tail_pieces(parts), 13, 3)
        } else {
            wrap_spec(short, 13, 3)
        }
    }
}

fn dash_parts_exec(s: &[char]) -> (r: Vec<String>)
    ensures
        texts(r@) == dash_parts(s@),
{
    let mut closed: Vec<String> = Vec::new();
    let mut cur: Vec<char> = Vec::new();
    let mut i: usize = 0;
    assert(texts(closed@) =~= Seq::<Seq<char>>::empty());
    assert(s@.take(0) =~= Seq::<char>::empty());
    while i < s.len()
        invariant
            i <= s.len(),
            texts(closed@) == dash_split(s@.take(i as int)).0,
            cur@ == dash_split(s@.take(i as int)).1,
        decreases s.len() - i,
    {
        assert(s@.take(i + 1).drop_last() =~= s@.take(i as int));
        let c = s[i];
        if c == '-' {
            if cur.len() > 0 {
                let w = string_from_chars(&cur);
                let ghost before = texts(closed@);
                closed.push(w);
                assert(texts(closed@) =~= before.push(cur@));
                cur = Vec::new();
                assert(cur@ =~= Seq::<char>::empty());
            }
        } else {
            cur.push(c);
        }
        i = i + 1;
    }
    assert(s@.take(s.len() as int) =~= s@);
    if cur.len() > 0 {
        let w = string_from_chars(&cur);
        let ghost before = texts(closed@);
        closed.push(w);
        assert(texts(closed@) =~= before.push(cur@));
    }
    closed
}

/// Builds one to three short lines for the narrow rail, preferring the most
/// specific suffix of the context name.
pub fn context_label_lines(name: &str) -> (r: Vec<String>)
    ensures
        texts(r@) == context_label_spec(name@),
{
    let cs = chars_of(name);
    let short_chars: Vec<char> = match last_index_of_exec(&cs, '/') {
        Some(i) => {
            proof {
                lemma_last_index_of(cs@, '/');
                assert(last_index_of(cs@, '/') == Some(i as int));
            }
            assert(i < cs.len());
            let mut v: Vec<char> = Vec::new();
            let mut j: usize = i + 1;
            while j < cs.len()
                invariant
                    i + 1 <= j <= cs@.len(),
                    v@ == cs@.subrange(i + 1, j as int),
                decreases cs@.len() - j,
            {
                v.push(cs[j]);
                assert(v@ =~= cs@.subrange(i + 1, j + 1));
                j = j + 1;
            }
            assert(v@ =~= cs@.skip(i + 1));
            v
        },
        None => after_last_exec(&cs, ':'),
    };
    let short = string_from_chars(&short_chars);
    assert(short@ == rail_short_name(name@));
    let n = crate::text::byte_len(short.as_str());
    if n <= 13 {
        let mut v: Vec<String> = Vec::new();
        v.push(short);
        assert(texts(v@) =~= seq![rail_short_name(name@)]);
        return v;
    }
    let parts = dash_parts_exec(&short_chars);
    if parts.len() >= 2 {
        let start: usize = if parts.len() >= 3 {
            parts.len() - 3
        } else {
            0
        };
        let mut tail_parts: Vec<String> = Vec::new();
        let mut j: usize = start;
        assert(texts(tail_parts@) =~= texts(parts@).subrange(start as int, start as int));
        while j < parts.len()
            invariant
                start <= j <= parts@.len(),
                texts(tail_parts@) == texts(parts@).subrange(start as int, j as int),
            decreases parts@.len() - j,
        {
            let ghost before = texts(tail_parts@);
            tail_parts.push(owned(parts[j].as_str()));
            assert(texts(tail_parts@) =~= before.push(parts@[j as int]@));
            assert(texts(parts@).subrange(start as int, j + 1) =~= texts(parts@).subrange(
                start as int,
                j as int,
            ).push(parts@[j as int]@));
            j = j + 1;
        }
        assert(texts(parts@).subrange(start as int, parts@.len() as int) =~= texts(parts@).skip(
            start as int,
        ));
        let tail = crate::text::join_texts(tail_parts.as_slice(), "-");
        let tn = crate::text::byte_len(tail.as_str());
        if tn <= 39 {
            return wrap_lines(tail.as_str(), 13, 3);
        }
    }
    wrap_lines(short.as_str(), 13, 3)
}

} // verus!
