//! Cached lists per (context, namespace) scope, so that returning to a scope
//! shows its rows at once, and cached custom resource kinds per context.
use vstd::prelude::*;

use crate::resources::CrdTarget;
use crate::store::{StoreState, StoreView};
use crate::text::{owned, str_eq};

verus! {

/// The store saved for a scope, the first entry for a scope being the one
/// that counts.
pub open spec fn scope_lookup(entries: Seq<(Seq<char>, Seq<char>, StoreView)>, context: Seq<char>, namespace: Seq<char>) -> Option<StoreView>
    decreases entries.len(),
{
    if entries.len() == 0 {
        None
    } else if entries[0].0 == context && entries[0].1 == namespace {
        Some(entries[0].2)
    } else {
        scope_lookup(entries.drop_first(), context, namespace)
    }
}

/// The custom resource kinds saved for a context.
pub open spec fn crd_lookup(entries: Seq<(Seq<char>, Seq<CrdTarget>)>, context: Seq<char>) -> Option<Seq<CrdTarget>>
    decreases entries.len(),
{
    if entries.len() == 0 {
        None
    } else if entries[0].0 == context {
        Some(entries[0].1)
    } else {
        crd_lookup(entries.drop_first(), context)
    }
}

/// `after` is `before` with the store view `v` saved for scope `(c, n)`:
/// that scope now gives `v`, every other scope what it gave before.
pub open spec fn saves(before: ScopeCache, after: ScopeCache, c: Seq<char>, n: Seq<char>, v: StoreView) -> bool {
    &&& after.saved(c, n) == Some(v)
    &&& forall|c2: Seq<char>, n2: Seq<char>|
        !(c2 == c && n2 == n) ==> #[trigger] after.saved(c2, n2) == before.saved(c2, n2)
}

/// Returning to a scope restores exactly what was last saved for it, and
/// saving one scope leaves the others' saved stores alone.
pub proof fn law_restore_after_save(
    before: ScopeCache,
    after: ScopeCache,
    c: Seq<char>,
    n: Seq<char>,
    v: StoreView,
    c2: Seq<char>,
    n2: Seq<char>,
)
    requires
        saves(before, after, c, n, v),
    ensures
        after.saved(c, n) == Some(v),
        !(c2 == c && n2 == n) ==> after.saved(c2, n2) == before.saved(c2, n2),
{
}

/// Saved stores per scope and custom resource kinds per context.
pub struct ScopeCache {
    scopes: Vec<(String, String, StoreState)>,
    crds: Vec<(String, Vec<CrdTarget>)>,
}

impl ScopeCache {
    pub closed spec fn scopes_view(&self) -> Seq<(Seq<char>, Seq<char>, StoreView)> {
        self.scopes@.map_values(|e: (String, String, StoreState)| (e.0@, e.1@, e.2@))
    }

    pub closed spec fn crds_view(&self) -> Seq<(Seq<char>, Seq<CrdTarget>)> {
        self.crds@.map_values(|e: (String, Vec<CrdTarget>)| (e.0@, e.1@))
    }

    /// Every saved store has one slot per kind.
    pub closed spec fn wf(&self) -> bool {
        forall|i: int| 0 <= i < self.scopes@.len() ==> (#[trigger] self.scopes@[i]).2.wf()
    }

    /// The store saved for a scope.
    pub open spec fn saved(&self, context: Seq<char>, namespace: Seq<char>) -> Option<StoreView> {
        scope_lookup(self.scopes_view(), context, namespace)
    }

    /// The custom resource kinds saved for a context.
    pub open spec fn saved_crds(&self, context: Seq<char>) -> Option<Seq<CrdTarget>> {
        crd_lookup(self.crds_view(), context)
    }

    /// An empty cache.
    pub fn new() -> (r: Self)
        ensures
            r.wf(),
            forall|c: Seq<char>, n: Seq<char>| r.saved(c, n) is None,
            forall|c: Seq<char>| r.saved_crds(c) is None,
    {
        let r = ScopeCache { scopes: Vec::new(), crds: Vec::new() };
        assert(r.scopes_view() =~= Seq::empty());
        assert(r.crds_view() =~= Seq::empty());
        r
    }

    fn find_scope(&self, context: &str, namespace: &str) -> (r: Option<usize>)
        ensures
            match r {
                Some(i) => i < self.scopes@.len() && self.scopes@[i as int].0@ == context@
                    && self.scopes@[i as int].1@ == namespace@ && forall|j: int|
                    0 <= j < i ==> !((#[trigger] self.scopes@[j]).0@ == context@
                        && self.scopes@[j].1@ == namespace@),
                None => forall|j: int|
                    0 <= j < self.scopes@.len() ==> !((#[trigger] self.scopes@[j]).0@ == context@
                        && self.scopes@[j].1@ == namespace@),
            },
    {
        let mut i: usize = 0;
        while i < self.scopes.len()
            invariant
                i <= self.scopes@.len(),
                forall|j: int|
                    0 <= j < i ==> !((#[trigger] self.scopes@[j]).0@ == context@
                        && self.scopes@[j].1@ == namespace@),
            decreases self.scopes@.len() - i,
        {
            if str_eq(self.scopes[i].0.as_str(), context) && str_eq(self.scopes[i].1.as_str(), namespace) {
                return Some(i);
            }
            i = i + 1;
        }
        None
    }

    /// Saves a copy of `store` for a scope, replacing what was saved for it.
    pub fn save(&mut self, context: &str, namespace: &str, store: &StoreState)
        requires
            old(self).wf(),
            store.wf(),
        ensures
            final(self).wf(),
            saves(*old(self), *final(self), context@, namespace@, store@),
            forall|c: Seq<char>| #[trigger] final(self).saved_crds(c) == old(self).saved_crds(c),
    {
        let copy = store.duplicate();
        let ghost before = self.scopes_view();
        let entry = (owned(context), owned(namespace), copy);
        let ghost ev = (context@, namespace@, store@);
        match self.find_scope(context, namespace) {
            Some(i) => {
                self.scopes.set(i, entry);
                proof {
                    assert(self.scopes_view() =~= before.update(i as int, ev));
                    assert forall|j: int| 0 <= j < i implies !((#[trigger] before[j]).0 == context@ && before[j].1 == namespace@) by {
                        assert(before[j] == (old(self).scopes@[j].0@, old(self).scopes@[j].1@, old(self).scopes@[j].2@));
                    }
                    lemma_scope_update(before, i as int, ev);
                }
            },
            None => {
                self.scopes.push(entry);
                proof {
                    assert(self.scopes_view() =~= before.push(ev));
                    assert forall|j: int| 0 <= j < before.len() implies !((#[trigger] before[j]).0 == context@ && before[j].1 == namespace@) by {
                        assert(before[j] == (old(self).scopes@[j].0@, old(self).scopes@[j].1@, old(self).scopes@[j].2@));
                    }
                    lemma_scope_push(before, ev);
                }
            },
        }
        assert(self.crds_view() == old(self).crds_view());
    }

    /// A copy of the store saved for a scope, if any.
    pub fn restore(&self, context: &str, namespace: &str) -> (r: Option<StoreState>)
        requires
            self.wf(),
        ensures
            match r {
                Some(s) => s.wf() && self.saved(context@, namespace@) == Some(s@),
                None => self.saved(context@, namespace@) is None,
            },
    {
        let ghost v = self.scopes_view();
        match self.find_scope(context, namespace) {
            Some(i) => {
                proof {
                    assert forall|j: int| 0 <= j < i implies !((#[trigger] v[j]).0 == context@ && v[j].1 == namespace@) by {
                        assert(v[j] == (self.scopes@[j].0@, self.scopes@[j].1@, self.scopes@[j].2@));
                    }
                    lemma_scope_found(v, i as int, context@, namespace@);
                }
                Some(self.scopes[i].2.duplicate())
            },
            None => {
                proof {
                    assert forall|j: int| 0 <= j < v.len() implies !((#[trigger] v[j]).0 == context@ && v[j].1 == namespace@) by {
                        assert(v[j] == (self.scopes@[j].0@, self.scopes@[j].1@, self.scopes@[j].2@));
                    }
                    lemma_scope_absent(v, context@, namespace@);
                }
                None
            },
        }
    }

    /// Saves the custom resource kinds of a context, replacing earlier ones.
    pub fn save_crds(&mut self, context: &str, targets: Vec<CrdTarget>)
        ensures
            final(self).wf() == old(self).wf(),
            final(self).saved_crds(context@) == Some(targets@),
            forall|c: Seq<char>| c != context@ ==> #[trigger] final(self).saved_crds(c) == old(self).saved_crds(c),
            forall|c: Seq<char>, n: Seq<char>| #[trigger] final(self).saved(c, n) == old(self).saved(c, n),
    {
        let ghost before = self.crds_view();
        let ghost ev = (context@, targets@);
        let mut found: Option<usize> = None;
        let mut i: usize = 0;
        while i < self.crds.len() && found.is_none()
            invariant
                i <= self.crds@.len(),
                before == self.crds_view(),
                found matches Some(k) ==> k < self.crds@.len() && self.crds@[k as int].0@ == context@ && forall|j: int| 0 <= j < k ==> (#[trigger] self.crds@[j]).0@ != context@,
                found is None ==> forall|j: int| 0 <= j < i ==> (#[trigger] self.crds@[j]).0@ != context@,
            decreases self.crds@.len() - i,
        {
            if str_eq(self.crds[i].0.as_str(), context) {
                found = Some(i);
            }
            i = i + 1;
        }
        let entry = (owned(context), targets);
        match found {
            Some(k) => {
                self.crds.set(k, entry);
                proof {
                    assert(self.crds_view() =~= before.update(k as int, ev));
                    assert forall|j: int| 0 <= j < k implies (#[trigger] before[j]).0 != context@ by {
                        assert(before[j] == (old(self).crds@[j].0@, old(self).crds@[j].1@));
                    }
                    lemma_crd_update(before, k as int, ev);
                }
            },
            None => {
                self.crds.push(entry);
                proof {
                    assert(self.crds_view() =~= before.push(ev));
                    assert forall|j: int| 0 <= j < before.len() implies (#[trigger] before[j]).0 != context@ by {
                        assert(before[j] == (old(self).crds@[j].0@, old(self).crds@[j].1@));
                    }
                    lemma_crd_push(before, ev);
                }
            },
        }
        assert(self.scopes_view() == old(self).scopes_view());
    }

    /// The custom resource kinds saved for a context, if any.
    pub fn restore_crds(&self, context: &str) -> (r: Option<Vec<CrdTarget>>)
        ensures
            match r {
                Some(t) => self.saved_crds(context@) matches Some(s) && s.map_values(|x: CrdTarget| crate::crd::target_view(x)) == t@.map_values(|x: CrdTarget| crate::crd::target_view(x)),
                None => self.saved_crds(context@) is None,
            },
    {
        let ghost v = self.crds_view();
        let mut i: usize = 0;
        assert(v.skip(0) =~= v);
        while i < self.crds.len()
            invariant
                i <= self.crds@.len(),
                v == self.crds_view(),
                crd_lookup(v, context@) == crd_lookup(v.skip(i as int), context@),
            decreases self.crds@.len() - i,
        {
            assert(v.skip(i as int)[0] == (self.crds@[i as int].0@, self.crds@[i as int].1@));
            assert(v.skip(i as int).drop_first() =~= v.skip(i + 1));
            if str_eq(self.crds[i].0.as_str(), context) {
                return Some(copy_targets(self.crds[i].1.as_slice()));
            }
            i = i + 1;
        }
        assert(v.skip(i as int) =~= Seq::<(Seq<char>, Seq<CrdTarget>)>::empty());
        None
    }
}

fn copy_targets(ts: &[CrdTarget]) -> (r: Vec<CrdTarget>)
    ensures
        r@.map_values(|x: CrdTarget| crate::crd::target_view(x)) == ts@.map_values(|x: CrdTarget| crate::crd::target_view(x)),
{
    let mut out: Vec<CrdTarget> = Vec::new();
    let mut i: usize = 0;
    while i < ts.len()
        invariant
            i <= ts.len(),
            out@.map_values(|x: CrdTarget| crate::crd::target_view(x)) == ts@.take(i as int).map_values(|x: CrdTarget| crate::crd::target_view(x)),
        decreases ts.len() - i,
    {
        let t = &ts[i];
        let c = CrdTarget {
            group: owned(t.group.as_str()),
            version: owned(t.version.as_str()),
            plural: owned(t.plural.as_str()),
            display_name: owned(t.display_name.as_str()),
        };
        let ghost before = out@.map_values(|x: CrdTarget| crate::crd::target_view(x));
        out.push(c);
        assert(out@.map_values(|x: CrdTarget| crate::crd::target_view(x)) =~= before.push(crate::crd::target_view(c)));
        assert(ts@.take(i + 1).map_values(|x: CrdTarget| crate::crd::target_view(x)) =~= ts@.take(i as int).map_values(|x: CrdTarget| crate::crd::target_view(x)).push(crate::crd::target_view(ts@[i as int])));
        i = i + 1;
    }
    assert(ts@.take(ts@.len() as int) =~= ts@);
    out
}

proof fn lemma_scope_found(v: Seq<(Seq<char>, Seq<char>, StoreView)>, i: int, c: Seq<char>, n: Seq<char>)
    requires
        0 <= i < v.len(),
        v[i].0 == c && v[i].1 == n,
        forall|j: int| 0 <= j < i ==> !((#[trigger] v[j]).0 == c && v[j].1 == n),
    ensures
        scope_lookup(v, c, n) == Some(v[i].2),
    decreases i,
{
    if i > 0 {
        assert forall|j: int| 0 <= j < i - 1 implies !((#[trigger] v.drop_first()[j]).0 == c && v.drop_first()[j].1 == n) by {
            assert(v.drop_first()[j] == v[j + 1]);
        }
        lemma_scope_found(v.drop_first(), i - 1, c, n);
    }
}

proof fn lemma_scope_absent(v: Seq<(Seq<char>, Seq<char>, StoreView)>, c: Seq<char>, n: Seq<char>)
    requires
        forall|j: int| 0 <= j < v.len() ==> !((#[trigger] v[j]).0 == c && v[j].1 == n),
    ensures
        scope_lookup(v, c, n) is None,
    decreases v.len(),
{
    if v.len() > 0 {
        assert forall|j: int| 0 <= j < v.len() - 1 implies !((#[trigger] v.drop_first()[j]).0 == c && v.drop_first()[j].1 == n) by {
            assert(v.drop_first()[j] == v[j + 1]);
        }
        lemma_scope_absent(v.drop_first(), c, n);
    }
}

proof fn lemma_scope_update(v: Seq<(Seq<char>, Seq<char>, StoreView)>, i: int, e: (Seq<char>, Seq<char>, StoreView))
    requires
        0 <= i < v.len(),
        v[i].0 == e.0 && v[i].1 == e.1,
        forall|j: int| 0 <= j < i ==> !((#[trigger] v[j]).0 == e.0 && v[j].1 == e.1),
    ensures
        scope_lookup(v.update(i, e), e.0, e.1) == Some(e.2),
        forall|c: Seq<char>, n: Seq<char>| !(c == e.0 && n == e.1) ==> #[trigger] scope_lookup(v.update(i, e), c, n) == scope_lookup(v, c, n),
    decreases i,
{
    let u = v.update(i, e);
    if i > 0 {
        assert(u.drop_first() =~= v.drop_first().update(i - 1, e));
        assert forall|j: int| 0 <= j < i - 1 implies !((#[trigger] v.drop_first()[j]).0 == e.0 && v.drop_first()[j].1 == e.1) by {
            assert(v.drop_first()[j] == v[j + 1]);
        }
        lemma_scope_update(v.drop_first(), i - 1, e);
    } else {
        assert(u.drop_first() =~= v.drop_first());
    }
    assert forall|c: Seq<char>, n: Seq<char>| !(c == e.0 && n == e.1) implies #[trigger] scope_lookup(u, c, n) == scope_lookup(v, c, n) by {
        if i > 0 {
            assert(u.drop_first() =~= v.drop_first().update(i - 1, e));
            assert(u[0] == v[0]);
            if !(v[0].0 == c && v[0].1 == n) {
                assert(scope_lookup(u, c, n) == scope_lookup(u.drop_first(), c, n));
                assert(scope_lookup(v, c, n) == scope_lookup(v.drop_first(), c, n));
                assert(scope_lookup(v.drop_first().update(i - 1, e), c, n) == scope_lookup(v.drop_first(), c, n));
            }
        } else {
            assert(u.drop_first() =~= v.drop_first());
            assert(u[0] == e);
            assert(scope_lookup(u, c, n) == scope_lookup(u.drop_first(), c, n));
            assert(scope_lookup(v, c, n) == scope_lookup(v.drop_first(), c, n));
        }
    }
}

proof fn lemma_scope_push(v: Seq<(Seq<char>, Seq<char>, StoreView)>, e: (Seq<char>, Seq<char>, StoreView))
    requires
        forall|j: int| 0 <= j < v.len() ==> !((#[trigger] v[j]).0 == e.0 && v[j].1 == e.1),
    ensures
        scope_lookup(v.push(e), e.0, e.1) == Some(e.2),
        forall|c: Seq<char>, n: Seq<char>| !(c == e.0 && n == e.1) ==> #[trigger] scope_lookup(v.push(e), c, n) == scope_lookup(v, c, n),
    decreases v.len(),
{
    let u = v.push(e);
    if v.len() > 0 {
        assert(u.drop_first() =~= v.drop_first().push(e));
        assert forall|j: int| 0 <= j < v.len() - 1 implies !((#[trigger] v.drop_first()[j]).0 == e.0 && v.drop_first()[j].1 == e.1) by {
            assert(v.drop_first()[j] == v[j + 1]);
        }
        lemma_scope_push(v.drop_first(), e);
    } else {
        assert(u.drop_first() =~= Seq::<(Seq<char>, Seq<char>, StoreView)>::empty());
    }
    assert forall|c: Seq<char>, n: Seq<char>| !(c == e.0 && n == e.1) implies #[trigger] scope_lookup(u, c, n) == scope_lookup(v, c, n) by {
        if v.len() > 0 {
            assert(u.drop_first() =~= v.drop_first().push(e));
            assert(u[0] == v[0]);
            if !(v[0].0 == c && v[0].1 == n) {
                assert(scope_lookup(u, c, n) == scope_lookup(u.drop_first(), c, n));
                assert(scope_lookup(v, c, n) == scope_lookup(v.drop_first(), c, n));
                assert(scope_lookup(v.drop_first().push(e), c, n) == scope_lookup(v.drop_first(), c, n));
            }
        } else {
            assert(u.drop_first() =~= Seq::<(Seq<char>, Seq<char>, StoreView)>::empty());
            assert(u[0] == e);
            assert(scope_lookup(u, c, n) == scope_lookup(u.drop_first(), c, n));
        }
    }
}

proof fn lemma_crd_update(v: Seq<(Seq<char>, Seq<CrdTarget>)>, i: int, e: (Seq<char>, Seq<CrdTarget>))
    requires
        0 <= i < v.len(),
        v[i].0 == e.0,
        forall|j: int| 0 <= j < i ==> (#[trigger] v[j]).0 != e.0,
    ensures
        crd_lookup(v.update(i, e), e.0) == Some(e.1),
        forall|c: Seq<char>| c != e.0 ==> #[trigger] crd_lookup(v.update(i, e), c) == crd_lookup(v, c),
    decreases i,
{
    let u = v.update(i, e);
    if i > 0 {
        assert(u.drop_first() =~= v.drop_first().update(i - 1, e));
        assert forall|j: int| 0 <= j < i - 1 implies (#[trigger] v.drop_first()[j]).0 != e.0 by {
            assert(v.drop_first()[j] == v[j + 1]);
        }
        lemma_crd_update(v.drop_first(), i - 1, e);
    } else {
        assert(u.drop_first() =~= v.drop_first());
    }
    assert forall|c: Seq<char>| c != e.0 implies #[trigger] crd_lookup(u, c) == crd_lookup(v, c) by {
        if i > 0 {
            assert(u.drop_first() =~= v.drop_first().update(i - 1, e));
            assert(u[0] == v[0]);
            if v[0].0 != c {
                assert(crd_lookup(u, c) == crd_lookup(u.drop_first(), c));
                assert(crd_lookup(v, c) == crd_lookup(v.drop_first(), c));
                assert(crd_lookup(v.drop_first().update(i - 1, e), c) == crd_lookup(v.drop_first(), c));
            }
        } else {
            assert(u.drop_first() =~= v.drop_first());
            assert(u[0] == e);
            assert(crd_lookup(u, c) == crd_lookup(u.drop_first(), c));
            assert(crd_lookup(v, c) == crd_lookup(v.drop_first(), c));
        }
    }
}

proof fn lemma_crd_push(v: Seq<(Seq<char>, Seq<CrdTarget>)>, e: (Seq<char>, Seq<CrdTarget>))
    requires
        forall|j: int| 0 <= j < v.len() ==> (#[trigger] v[j]).0 != e.0,
    ensures
        crd_lookup(v.push(e), e.0) == Some(e.1),
        forall|c: Seq<char>| c != e.0 ==> #[trigger] crd_lookup(v.push(e), c) == crd_lookup(v, c),
    decreases v.len(),
{
    let u = v.push(e);
    if v.len() > 0 {
        assert(u.drop_first() =~= v.drop_first().push(e));
        assert forall|j: int| 0 <= j < v.len() - 1 implies (#[trigger] v.drop_first()[j]).0 != e.0 by {
            assert(v.drop_first()[j] == v[j + 1]);
        }
        lemma_crd_push(v.drop_first(), e);
    } else {
        assert(u.drop_first() =~= Seq::<(Seq<char>, Seq<CrdTarget>)>::empty());
    }
    assert forall|c: Seq<char>| c != e.0 implies #[trigger] crd_lookup(u, c) == crd_lookup(v, c) by {
        if v.len() > 0 {
            assert(u.drop_first() =~= v.drop_first().push(e));
            assert(u[0] == v[0]);
            if v[0].0 != c {
                assert(crd_lookup(u, c) == crd_lookup(u.drop_first(), c));
                assert(crd_lookup(v, c) == crd_lookup(v.drop_first(), c));
                assert(crd_lookup(v.drop_first().push(e), c) == crd_lookup(v.drop_first(), c));
            }
        } else {
            assert(u.drop_first() =~= Seq::<(Seq<char>, Seq<CrdTarget>)>::empty());
            assert(u[0] == e);
            assert(crd_lookup(u, c) == crd_lookup(u.drop_first(), c));
        }
    }
}

/// Context and namespace lists kept on disk between runs.
#[derive(Debug, Clone, Default)]
pub struct ClusterCache {
    pub contexts: Vec<String>,
    /// Namespaces per context (the first entry for a context counts).
    pub namespaces_by_context: Vec<(String, Vec<String>)>,
}

} // verus!
