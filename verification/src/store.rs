//! Watch stores: rows keyed by name, kept in name order, and per-kind snapshots.
use vstd::prelude::*;

use crate::resources::{copy_row, copy_rows, ResourceKind, ResourceRow, RowView, rows_view};
use crate::text::chars_of;

verus! {

// ---------------------------------------------------------------------------
// Name order
// ---------------------------------------------------------------------------

/// Lexicographic order of texts by code point.  It is the order of `String`'s
/// `Ord`, which compares UTF-8 bytes: UTF-8 preserves code point order.
pub open spec fn text_lt(a: Seq<char>, b: Seq<char>) -> bool
    decreases a.len(),
{
    if a.len() == 0 {
        b.len() > 0
    } else if b.len() == 0 {
        false
    } else if (a[0] as u32) < (b[0] as u32) {
        true
    } else if a[0] == b[0] {
        text_lt(a.drop_first(), b.drop_first())
    } else {
        false
    }
}

proof fn lemma_char_u32_injective(x: char, y: char)
    ensures
        (x as u32) == (y as u32) ==> x == y,
{
    broadcast use vstd::utf8::char_u32_cast;

    if (x as u32) == (y as u32) {
        let u = x as u32;
        assert((u as char) == x);
        assert((u as char) == y);
    }
}

pub proof fn lemma_text_lt_irreflexive(a: Seq<char>)
    ensures
        !text_lt(a, a),
    decreases a.len(),
{
    if a.len() > 0 {
        lemma_text_lt_irreflexive(a.drop_first());
    }
}

pub proof fn lemma_text_lt_transitive(a: Seq<char>, b: Seq<char>, c: Seq<char>)
    requires
        text_lt(a, b),
        text_lt(b, c),
    ensures
        text_lt(a, c),
    decreases a.len(),
{
    if a.len() > 0 && b.len() > 0 && c.len() > 0 {
        if a[0] == b[0] && b[0] == c[0] {
            lemma_text_lt_transitive(a.drop_first(), b.drop_first(), c.drop_first());
        }
    }
}

pub proof fn lemma_text_lt_total(a: Seq<char>, b: Seq<char>)
    ensures
        a == b || text_lt(a, b) || text_lt(b, a),
    decreases a.len(),
{
    if a.len() > 0 && b.len() > 0 {
        lemma_char_u32_injective(a[0], b[0]);
        if a[0] == b[0] {
            lemma_text_lt_total(a.drop_first(), b.drop_first());
            if a.drop_first() == b.drop_first() {
                assert(a =~= seq![a[0]] + a.drop_first());
                assert(b =~= seq![b[0]] + b.drop_first());
            }
        }
    } else if a.len() == 0 && b.len() == 0 {
        assert(a =~= b);
    }
}

pub proof fn lemma_text_lt_asymmetric(a: Seq<char>, b: Seq<char>)
    requires
        text_lt(a, b),
    ensures
        !text_lt(b, a),
{
    if text_lt(b, a) {
        lemma_text_lt_transitive(a, b, a);
        lemma_text_lt_irreflexive(a);
    }
}

/// Compares two texts: negative, zero or positive as `a` sorts before,
/// equal to, or after `b`.
pub fn compare_text(a: &[char], b: &[char]) -> (r: i8)
    ensures
        r < 0 <==> text_lt(a@, b@),
        r == 0 <==> a@ == b@,
        r > 0 <==> text_lt(b@, a@),
{
    let mut i: usize = 0;
    assert(a@.skip(0) =~= a@);
    assert(b@.skip(0) =~= b@);
    assert(a@.take(0) =~= b@.take(0));
    while i < a.len() && i < b.len()
        invariant
            i <= a.len(),
            i <= b.len(),
            a@.take(i as int) == b@.take(i as int),
            text_lt(a@, b@) == text_lt(a@.skip(i as int), b@.skip(i as int)),
            text_lt(b@, a@) == text_lt(b@.skip(i as int), a@.skip(i as int)),
        decreases a.len() - i,
    {
        assert(a@.skip(i as int)[0] == a@[i as int]);
        assert(b@.skip(i as int)[0] == b@[i as int]);
        assert(a@.skip(i as int).drop_first() =~= a@.skip(i + 1));
        assert(b@.skip(i as int).drop_first() =~= b@.skip(i + 1));
        let x = a[i] as u32;
        let y = b[i] as u32;
        if x < y {
            proof {
                lemma_text_lt_asymmetric(a@, b@);
                if a@ == b@ {
                    lemma_text_lt_irreflexive(a@);
                }
            }
            return -1;
        }
        if y < x {
            proof {
                lemma_text_lt_asymmetric(b@, a@);
                if a@ == b@ {
                    lemma_text_lt_irreflexive(a@);
                }
            }
            return 1;
        }
        proof {
            lemma_char_u32_injective(a@[i as int], b@[i as int]);
        }
        assert(a@.take(i + 1) =~= a@.take(i as int).push(a@[i as int]));
        assert(b@.take(i + 1) =~= b@.take(i as int).push(b@[i as int]));
        i = i + 1;
    }
    proof {
        assert(a@.take(i as int) =~= a@.subrange(0, i as int));
        if a.len() == b.len() {
            assert(a@ =~= a@.take(i as int));
            assert(b@ =~= b@.take(i as int));
            lemma_text_lt_irreflexive(a@);
        } else if i == a.len() {
            assert(a@ =~= a@.take(i as int));
            assert(a@.skip(i as int).len() == 0);
            assert(a@ != b@);
        } else {
            assert(b@ =~= b@.take(i as int));
            assert(b@.skip(i as int).len() == 0);
            assert(a@ != b@);
        }
    }
    if a.len() == b.len() {
        0
    } else if i == a.len() {
        -1
    } else {
        1
    }
}

// ---------------------------------------------------------------------------
// Rows keyed by name
// ---------------------------------------------------------------------------

/// Names are strictly increasing (hence distinct).
pub open spec fn sorted_by_name(rows: Seq<RowView>) -> bool {
    forall|i: int, j: int| 0 <= i < j < rows.len() ==> text_lt(rows[i].name, rows[j].name)
}

/// The map from name to row that a sequence of rows represents.
pub open spec fn rows_map(rows: Seq<RowView>) -> Map<Seq<char>, RowView>
    decreases rows.len(),
{
    if rows.len() == 0 {
        Map::empty()
    } else {
        rows_map(rows.drop_last()).insert(rows.last().name, rows.last())
    }
}

proof fn lemma_rows_map(rows: Seq<RowView>)
    requires
        sorted_by_name(rows),
    ensures
        forall|k: Seq<char>|
            rows_map(rows).dom().contains(k) <==> exists|i: int|
                0 <= i < rows.len() && #[trigger] rows[i].name == k,
        forall|i: int| 0 <= i < rows.len() ==> rows_map(rows)[#[trigger] rows[i].name] == rows[i],
    decreases rows.len(),
{
    if rows.len() > 0 {
        let p = rows.drop_last();
        assert(sorted_by_name(p));
        lemma_rows_map(p);
        let n = rows.len() - 1;
        assert forall|k: Seq<char>|
            rows_map(rows).dom().contains(k) <==> exists|i: int|
                0 <= i < rows.len() && #[trigger] rows[i].name == k by {
            if rows_map(rows).dom().contains(k) {
                if k == rows.last().name {
                    assert(rows[n].name == k);
                } else {
                    assert(rows_map(p).dom().contains(k));
                    let i = choose|i: int| 0 <= i < p.len() && #[trigger] p[i].name == k;
                    assert(p[i] == rows[i]);
                    assert(rows[i].name == k);
                }
            }
            if exists|i: int| 0 <= i < rows.len() && #[trigger] rows[i].name == k {
                let i = choose|i: int| 0 <= i < rows.len() && #[trigger] rows[i].name == k;
                if i < n {
                    assert(p[i].name == k);
                }
            }
        }
        assert forall|i: int| 0 <= i < rows.len() implies rows_map(rows)[#[trigger] rows[i].name]
            == rows[i] by {
            if i < n {
                assert(text_lt(rows[i].name, rows[n].name));
                lemma_text_lt_irreflexive(rows[i].name);
                assert(p[i] == rows[i]);
            }
        }
    }
}

/// What a watch event does to the rows of one kind.
pub enum WatchDelta {
    /// An object was added or changed.
    Upsert(ResourceRow),
    /// An object with this name was deleted.
    Remove(String),
    /// Nothing to apply (bookmarks, errors).
    Noop,
}

/// Rows of one kind keyed by name, held in name order.
pub struct RowMap {
    rows: Vec<ResourceRow>,
}

impl View for RowMap {
    type V = Seq<RowView>;

    closed spec fn view(&self) -> Seq<RowView> {
        rows_view(self.rows@)
    }
}

impl RowMap {
    /// Names are strictly increasing.
    pub closed spec fn wf(&self) -> bool {
        sorted_by_name(rows_view(self.rows@))
    }

    pub fn new() -> (r: Self)
        ensures
            r@.len() == 0,
            r.wf(),
    {
        RowMap { rows: Vec::new() }
    }

    /// The rows, sorted by name.
    pub fn sorted_rows(&self) -> (r: Vec<ResourceRow>)
        requires
            self.wf(),
        ensures
            rows_view(r@) == self@,
            sorted_by_name(rows_view(r@)),
    {
        copy_rows(self.rows.as_slice())
    }

    /// Index of the first row whose name does not sort before `name`.
    fn position(&self, name: &[char]) -> (p: usize)
        requires
            self.wf(),
        ensures
            p <= self@.len(),
            forall|i: int| 0 <= i < p ==> text_lt(#[trigger] self@[i].name, name@),
            p < self@.len() ==> !text_lt(self@[p as int].name, name@),
    {
        let mut i: usize = 0;
        while i < self.rows.len()
            invariant
                i <= self.rows.len(),
                forall|j: int| 0 <= j < i ==> text_lt(#[trigger] self@[j].name, name@),
            decreases self.rows.len() - i,
        {
            let n = chars_of(self.rows[i].name.as_str());
            if compare_text(&n, name) >= 0 {
                return i;
            }
            i = i + 1;
        }
        i
    }

    /// Apply one watch event: upsert or remove by name.  Rows with an empty
    /// name, and removals of an empty name, are ignored.
    pub fn apply_delta(&mut self, delta: WatchDelta)
        requires
            old(self).wf(),
        ensures
            final(self).wf(),
            match delta {
                WatchDelta::Upsert(row) => if row.name@.len() > 0 {
                    rows_map(final(self)@) == rows_map(old(self)@).insert(row.name@, row@)
                } else {
                    final(self)@ == old(self)@
                },
                WatchDelta::Remove(name) => if name@.len() > 0 {
                    rows_map(final(self)@) == rows_map(old(self)@).remove(name@)
                } else {
                    final(self)@ == old(self)@
                },
                WatchDelta::Noop => final(self)@ == old(self)@,
            },
    {
        proof {
            lemma_rows_map(old(self)@);
        }
        match delta {
            WatchDelta::Upsert(row) => {
                if row.name.as_str().is_empty() {
                    return ;
                }
                let name = chars_of(row.name.as_str());
                let p = self.position(&name);
                let mut exists_at = false;
                if p < self.rows.len() {
                    let n = chars_of(self.rows[p].name.as_str());
                    if compare_text(&n, &name) == 0 {
                        exists_at = true;
                    }
                }
                let ghost rv = row@;
                assert(exists_at ==> p < old(self)@.len() && old(self)@[p as int].name == rv.name);
                assert(!exists_at && p < old(self)@.len() ==> old(self)@[p as int].name != rv.name);
                if exists_at {
                    let _old_row = self.rows.remove(p);
                    self.rows.insert(p, row);
                    proof {
                        let o = old(self)@;
                        let n = self@;
                        assert(n =~= o.update(p as int, rv));
                        assert forall|i: int, j: int| 0 <= i < j < n.len() implies text_lt(
                            n[i].name,
                            n[j].name,
                        ) by {
                            assert(n[i].name == o[i].name);
                            assert(n[j].name == o[j].name);
                        }
                        lemma_rows_map(n);
                        assert forall|k: Seq<char>| #[trigger] rows_map(n).dom().contains(k) <==> rows_map(o).insert(rv.name, rv).dom().contains(k) by {
                            if rows_map(n).dom().contains(k) {
                                let i = choose|i: int| 0 <= i < n.len() && #[trigger] n[i].name == k;
                                assert(o[i].name == k);
                            }
                            if rows_map(o).dom().contains(k) {
                                let i = choose|i: int| 0 <= i < o.len() && #[trigger] o[i].name == k;
                                assert(n[i].name == k);
                            }
                            if k == rv.name {
                                assert(n[p as int].name == k);
                            }
                        }
                        assert forall|k: Seq<char>| #[trigger] rows_map(n).dom().contains(k) implies rows_map(n)[k] == rows_map(o).insert(rv.name, rv)[k] by {
                            let i = choose|i: int| 0 <= i < n.len() && #[trigger] n[i].name == k;
                            if i != p {
                                assert(o[i] == n[i]);
                                assert(o[i].name != rv.name) by {
                                    if i < p {
                                        assert(text_lt(o[i].name, o[p as int].name));
                                    } else {
                                        assert(text_lt(o[p as int].name, o[i].name));
                                    }
                                    lemma_text_lt_irreflexive(o[i].name);
                                }
                            }
                        }
                        assert(rows_map(n) =~= rows_map(o).insert(rv.name, rv));
                    }
                } else {
                    self.rows.insert(p, row);
                    proof {
                        let o = old(self)@;
                        let n = self@;
                        assert(n =~= o.insert(p as int, rv));
                        if p < o.len() {
                            lemma_text_lt_total(o[p as int].name, rv.name);
                        }
                        assert forall|i: int, j: int| 0 <= i < j < n.len() implies text_lt(
                            n[i].name,
                            n[j].name,
                        ) by {
                            if j < p {
                                assert(n[i] == o[i] && n[j] == o[j]);
                            } else if j == p {
                                assert(n[i] == o[i]);
                            } else if i == p {
                                assert(n[j] == o[j - 1]);
                                if j - 1 > p {
                                    lemma_text_lt_transitive(rv.name, o[p as int].name, o[j - 1].name);
                                }
                            } else if i < p {
                                assert(n[i] == o[i] && n[j] == o[j - 1]);
                                if j - 1 >= p {
                                    if j - 1 > p {
                                        lemma_text_lt_transitive(rv.name, o[p as int].name, o[j - 1].name);
                                    }
                                    lemma_text_lt_transitive(o[i].name, rv.name, o[j - 1].name);
                                }
                            } else {
                                assert(n[i] == o[i - 1] && n[j] == o[j - 1]);
                            }
                        }
                        lemma_rows_map(n);
                        assert forall|i: int| 0 <= i < o.len() implies o[i].name != rv.name by {
                            if i < p {
                                lemma_text_lt_irreflexive(rv.name);
                            } else if i == p {
                            } else {
                                lemma_text_lt_transitive(rv.name, o[p as int].name, o[i].name);
                                lemma_text_lt_irreflexive(rv.name);
                            }
                        }
                        assert forall|k: Seq<char>| #[trigger] rows_map(n).dom().contains(k) <==> rows_map(o).insert(rv.name, rv).dom().contains(k) by {
                            if rows_map(n).dom().contains(k) {
                                let i = choose|i: int| 0 <= i < n.len() && #[trigger] n[i].name == k;
                                if i < p {
                                    assert(o[i].name == k);
                                } else if i > p {
                                    assert(o[i - 1].name == k);
                                }
                            }
                            if rows_map(o).dom().contains(k) {
                                let i = choose|i: int| 0 <= i < o.len() && #[trigger] o[i].name == k;
                                if i < p {
                                    assert(n[i].name == k);
                                } else {
                                    assert(n[i + 1].name == k);
                                }
                            }
                            if k == rv.name {
                                assert(n[p as int].name == k);
                            }
                        }
                        assert forall|k: Seq<char>| #[trigger] rows_map(n).dom().contains(k) implies rows_map(n)[k] == rows_map(o).insert(rv.name, rv)[k] by {
                            let i = choose|i: int| 0 <= i < n.len() && #[trigger] n[i].name == k;
                            if i < p {
                                assert(o[i] == n[i]);
                            } else if i > p {
                                assert(o[i - 1] == n[i]);
                            }
                        }
                        assert(rows_map(n) =~= rows_map(o).insert(rv.name, rv));
                    }
                }
            },
            WatchDelta::Remove(name) => {
                if name.as_str().is_empty() {
                    return ;
                }
                let key = chars_of(name.as_str());
                let p = self.position(&key);
                if p < self.rows.len() {
                    let n = chars_of(self.rows[p].name.as_str());
                    if compare_text(&n, &key) == 0 {
                        let _removed = self.rows.remove(p);
                        proof {
                            let o = old(self)@;
                            let nw = self@;
                            assert(nw =~= o.remove(p as int));
                            assert forall|i: int, j: int| 0 <= i < j < nw.len() implies text_lt(
                                nw[i].name,
                                nw[j].name,
                            ) by {
                                let oi = if i < p {
                                    i
                                } else {
                                    i + 1
                                };
                                let oj = if j < p {
                                    j
                                } else {
                                    j + 1
                                };
                                assert(nw[i] == o[oi] && nw[j] == o[oj]);
                            }
                            lemma_rows_map(nw);
                            assert forall|k: Seq<char>| #[trigger] rows_map(nw).dom().contains(k) <==> rows_map(o).remove(key@).dom().contains(k) by {
                                if rows_map(nw).dom().contains(k) {
                                    let i = choose|i: int| 0 <= i < nw.len() && #[trigger] nw[i].name == k;
                                    let oi = if i < p {
                                        i
                                    } else {
                                        i + 1
                                    };
                                    assert(o[oi].name == k);
                                    if oi != p {
                                        if oi < p {
                                            assert(text_lt(o[oi].name, o[p as int].name));
                                        } else {
                                            assert(text_lt(o[p as int].name, o[oi].name));
                                        }
                                        lemma_text_lt_irreflexive(k);
                                    }
                                }
                                if rows_map(o).dom().contains(k) && k != key@ {
                                    let i = choose|i: int| 0 <= i < o.len() && #[trigger] o[i].name == k;
                                    assert(i != p);
                                    if i < p {
                                        assert(nw[i].name == k);
                                    } else {
                                        assert(nw[i - 1].name == k);
                                    }
                                }
                            }
                            assert forall|k: Seq<char>| #[trigger] rows_map(nw).dom().contains(k) implies rows_map(nw)[k] == rows_map(o).remove(key@)[k] by {
                                let i = choose|i: int| 0 <= i < nw.len() && #[trigger] nw[i].name == k;
                                let oi = if i < p {
                                    i
                                } else {
                                    i + 1
                                };
                                assert(o[oi] == nw[i]);
                            }
                            assert(rows_map(nw) =~= rows_map(o).remove(key@));
                        }
                        return ;
                    }
                }
                proof {
                    let o = old(self)@;
                    assert forall|i: int| 0 <= i < o.len() implies o[i].name != key@ by {
                        if i < p {
                            lemma_text_lt_irreflexive(key@);
                        } else if i == p {
                        } else {
                            lemma_text_lt_total(o[p as int].name, key@);
                            lemma_text_lt_transitive(key@, o[p as int].name, o[i].name);
                            lemma_text_lt_irreflexive(key@);
                        }
                    }
                    assert(!rows_map(o).dom().contains(key@));
                    assert(rows_map(o) =~= rows_map(o).remove(key@));
                }
            },
            WatchDelta::Noop => {},
        }
    }
}

// ---------------------------------------------------------------------------
// Per-kind snapshots
// ---------------------------------------------------------------------------

/// Rows of one kind for UI rendering, with the store revision they were read at.
#[derive(Debug, Clone, Default)]
pub struct ResourceSnapshot {
    pub rows: Vec<ResourceRow>,
    pub revision: u64,
}

/// Position of a kind among the store's slots.
pub open spec fn kind_slot(k: ResourceKind) -> int {
    match k {
        ResourceKind::Pod => 0,
        ResourceKind::Deployment => 1,
        ResourceKind::StatefulSet => 2,
        ResourceKind::Job => 3,
        ResourceKind::CronJob => 4,
        ResourceKind::Service => 5,
        ResourceKind::Ingress => 6,
        ResourceKind::NetworkPolicy => 7,
        ResourceKind::PersistentVolumeClaim => 8,
        ResourceKind::StorageClass => 9,
        ResourceKind::Role => 10,
        ResourceKind::RoleBinding => 11,
        ResourceKind::ClusterRole => 12,
        ResourceKind::ClusterRoleBinding => 13,
        ResourceKind::ConfigMap => 14,
        ResourceKind::Secret => 15,
        ResourceKind::Namespace => 16,
        ResourceKind::Node => 17,
        ResourceKind::HelmRelease => 18,
        ResourceKind::Crd => 19,
    }
}

fn kind_slot_exec(k: ResourceKind) -> (r: usize)
    ensures
        r == kind_slot(k),
        r < 20,
{
    match k {
        ResourceKind::Pod => 0,
        ResourceKind::Deployment => 1,
        ResourceKind::StatefulSet => 2,
        ResourceKind::Job => 3,
        ResourceKind::CronJob => 4,
        ResourceKind::Service => 5,
        ResourceKind::Ingress => 6,
        ResourceKind::NetworkPolicy => 7,
        ResourceKind::PersistentVolumeClaim => 8,
        ResourceKind::StorageClass => 9,
        ResourceKind::Role => 10,
        ResourceKind::RoleBinding => 11,
        ResourceKind::ClusterRole => 12,
        ResourceKind::ClusterRoleBinding => 13,
        ResourceKind::ConfigMap => 14,
        ResourceKind::Secret => 15,
        ResourceKind::Namespace => 16,
        ResourceKind::Node => 17,
        ResourceKind::HelmRelease => 18,
        ResourceKind::Crd => 19,
    }
}

/// Abstract state of the store: the rows of each kind slot and the revision.
pub struct StoreView {
    pub slots: Seq<Seq<RowView>>,
    pub revision: u64,
}

/// The rows a snapshot of `kind` shows: Helm releases and custom resources
/// are listed on demand and never come from the store.
pub open spec fn snapshot_rows(v: StoreView, kind: ResourceKind) -> Seq<RowView> {
    if kind == ResourceKind::HelmRelease || kind == ResourceKind::Crd {
        Seq::empty()
    } else {
        v.slots[kind_slot(kind)]
    }
}

/// Latest rows of every watched kind, and a revision counter bumped on
/// every update.
pub struct StoreState {
    slots: Vec<Vec<ResourceRow>>,
    revision: u64,
}

impl View for StoreState {
    type V = StoreView;

    closed spec fn view(&self) -> StoreView {
        StoreView {
            slots: self.slots@.map_values(|v: Vec<ResourceRow>| rows_view(v@)),
            revision: self.revision,
        }
    }
}

impl StoreState {
    /// One slot per kind.
    pub closed spec fn wf(&self) -> bool {
        self.slots@.len() == 20
    }

    /// An empty store at revision zero.
    pub fn new() -> (r: Self)
        ensures
            r.wf(),
            r@.revision == 0,
            r@.slots.len() == 20,
            forall|i: int| 0 <= i < 20 ==> #[trigger] r@.slots[i].len() == 0,
    {
        let mut slots: Vec<Vec<ResourceRow>> = Vec::new();
        let mut i: usize = 0;
        while i < 20
            invariant
                i <= 20,
                slots@.len() == i,
                forall|j: int| 0 <= j < i ==> #[trigger] slots@[j]@.len() == 0,
            decreases 20 - i,
        {
            slots.push(Vec::new());
            i = i + 1;
        }
        StoreState { slots, revision: 0 }
    }

    /// Replace the rows of one kind and bump the revision.
    pub fn set_rows(&mut self, kind: ResourceKind, rows: Vec<ResourceRow>)
        requires
            old(self).wf(),
            old(self)@.revision < u64::MAX,
        ensures
            final(self).wf(),
            final(self)@.slots == old(self)@.slots.update(kind_slot(kind), rows_view(rows@)),
            final(self)@.revision == old(self)@.revision + 1,
    {
        let i = kind_slot_exec(kind);
        let _old_rows = self.slots.remove(i);
        self.slots.insert(i, rows);
        self.revision = self.revision + 1;
        proof {
            assert(self@.slots =~= old(self)@.slots.update(kind_slot(kind), rows_view(rows@)));
        }
    }

    /// The revision: how many times rows were replaced.
    pub fn revision(&self) -> (r: u64)
        ensures
            r == self@.revision,
    {
        self.revision
    }

    /// A copy of the whole store.
    pub fn duplicate(&self) -> (r: Self)
        ensures
            r@ == self@,
            r.wf() == self.wf(),
    {
        let mut slots: Vec<Vec<ResourceRow>> = Vec::new();
        let mut i: usize = 0;
        while i < self.slots.len()
            invariant
                i <= self.slots@.len(),
                slots@.len() == i,
                forall|j: int| 0 <= j < i ==> rows_view(#[trigger] slots@[j]@) == rows_view(self.slots@[j]@),
            decreases self.slots@.len() - i,
        {
            slots.push(copy_rows(self.slots[i].as_slice()));
            i = i + 1;
        }
        let r = StoreState { slots, revision: self.revision };
        assert(r@.slots =~= self@.slots);
        r
    }

    /// The rows of one kind with the current revision.
    pub fn snapshot(&self, kind: ResourceKind) -> (r: ResourceSnapshot)
        requires
            self.wf(),
        ensures
            rows_view(r.rows@) == snapshot_rows(self@, kind),
            r.revision == self@.revision,
    {
        if kind == ResourceKind::HelmRelease || kind == ResourceKind::Crd {
            let r = ResourceSnapshot { rows: Vec::new(), revision: self.revision };
            assert(rows_view(r.rows@) =~= Seq::<RowView>::empty());
            return r;
        }
        let i = kind_slot_exec(kind);
        ResourceSnapshot { rows: copy_rows(self.slots[i].as_slice()), revision: self.revision }
    }
}

// ---------------------------------------------------------------------------
// Laws
// ---------------------------------------------------------------------------

/// After an upsert of a named row, looking the name up gives that row; after
/// a removal, the name is gone; other names keep their rows.
pub proof fn law_delta_read_back(before: Seq<RowView>, after: Seq<RowView>, row: RowView, other: Seq<char>)
    requires
        rows_map(after) == rows_map(before).insert(row.name, row),
        other != row.name,
    ensures
        rows_map(after).dom().contains(row.name),
        rows_map(after)[row.name] == row,
        rows_map(after).dom().contains(other) == rows_map(before).dom().contains(other),
        rows_map(before).dom().contains(other) ==> rows_map(after)[other] == rows_map(before)[other],
{
}

/// A removed name is absent afterwards and every other row is kept.
pub proof fn law_delta_remove(before: Seq<RowView>, after: Seq<RowView>, name: Seq<char>, other: Seq<char>)
    requires
        rows_map(after) == rows_map(before).remove(name),
        other != name,
    ensures
        !rows_map(after).dom().contains(name),
        rows_map(after).dom().contains(other) == rows_map(before).dom().contains(other),
        rows_map(before).dom().contains(other) ==> rows_map(after)[other] == rows_map(before)[other],
{
}

/// The rows of a kind read back after an update are the rows written;
/// other kinds are unaffected, and the revision moves forward.
pub proof fn law_snapshot_after_set(
    before: StoreView,
    after: StoreView,
    kind: ResourceKind,
    rows: Seq<RowView>,
    other: ResourceKind,
)
    requires
        before.slots.len() == 20,
        after.slots == before.slots.update(kind_slot(kind), rows),
        after.revision == before.revision + 1,
        other != kind,
    ensures
        kind != ResourceKind::HelmRelease && kind != ResourceKind::Crd ==> snapshot_rows(
            after,
            kind,
        ) == rows,
        snapshot_rows(after, other) == snapshot_rows(before, other),
        after.revision > before.revision,
{
}

} // verus!
