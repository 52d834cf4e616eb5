//! The namespace remembered for each kubeconfig context.
use vstd::prelude::*;

use crate::store::{compare_text, lemma_text_lt_irreflexive, lemma_text_lt_transitive, text_lt};
use crate::text::{chars_of, contains_text, owned, str_eq, texts};

verus! {

/// The saved namespace choices: the last context and namespace used, and
/// the last namespace chosen per context (the first entry for a context is
/// the one that counts).
#[derive(Debug, Clone, Default)]
pub struct SavedNamespaces {
    pub last_context: Option<String>,
    pub last_namespace: Option<String>,
    pub context_namespaces: Vec<(String, String)>,
}

/// The namespace recorded for `ctx` in the per-context list.
pub open spec fn lookup(entries: Seq<(String, String)>, ctx: Seq<char>) -> Option<Seq<char>>
    decreases entries.len(),
{
    if entries.len() == 0 {
        None
    } else if entries[0].0@ == ctx {
        Some(entries[0].1@)
    } else {
        lookup(entries.drop_first(), ctx)
    }
}

pub open spec fn opt_string_text(o: Option<String>) -> Option<Seq<char>> {
    match o {
        Some(s) => Some(s@),
        None => None,
    }
}

/// The namespace saved for `ctx`: its own entry, else the last namespace if
/// `ctx` was the last context used.
pub open spec fn saved_for(s: SavedNamespaces, ctx: Seq<char>) -> Option<Seq<char>> {
    match lookup(s.context_namespaces@, ctx) {
        Some(n) => Some(n),
        None => if opt_string_text(s.last_context) == Some(ctx) {
            opt_string_text(s.last_namespace)
        } else {
            None
        },
    }
}

/// The first of the texts in alphabetical order (by character codes, as
/// strings compare); the first listed among equal ones.
pub open spec fn first_in_order(s: Seq<Seq<char>>) -> Seq<char>
    decreases s.len(),
{
    if s.len() <= 1 {
        s[0]
    } else {
        let m = first_in_order(s.drop_last());
        if text_lt(s.last(), m) {
            s.last()
        } else {
            m
        }
    }
}

/// The first in order is listed, and no listed text comes before it.
pub proof fn lemma_first_in_order(s: Seq<Seq<char>>)
    requires
        s.len() > 0,
    ensures
        s.contains(first_in_order(s)),
        forall|i: int| 0 <= i < s.len() ==> !text_lt(#[trigger] s[i], first_in_order(s)),
    decreases s.len(),
{
    if s.len() == 1 {
        assert(s[0] == s[0]);
        lemma_text_lt_irreflexive(s[0]);
    } else {
        let rest = s.drop_last();
        lemma_first_in_order(rest);
        let m = first_in_order(rest);
        let k = choose|k: int| 0 <= k < rest.len() && rest[k] == m;
        assert(s[k] == m);
        if text_lt(s.last(), m) {
            assert(s[s.len() - 1] == s.last());
            assert forall|i: int| 0 <= i < s.len() implies !text_lt(#[trigger] s[i], s.last()) by {
                if i < s.len() - 1 {
                    assert(s[i] == rest[i]);
                    if text_lt(s[i], s.last()) {
                        lemma_text_lt_transitive(s[i], s.last(), m);
                    }
                } else {
                    lemma_text_lt_irreflexive(s.last());
                }
            }
        } else {
            assert forall|i: int| 0 <= i < s.len() implies !text_lt(#[trigger] s[i], m) by {
                if i < s.len() - 1 {
                    assert(s[i] == rest[i]);
                }
            }
        }
    }
}

/// The namespace to open: the saved one if the cluster still has it (or
/// lists none), else the first listed in alphabetical order, else
/// `default`.
pub open spec fn pick_for(saved: Option<Seq<char>>, available: Seq<Seq<char>>) -> Seq<char> {
    match saved {
        Some(n) => if available.len() == 0 || available.contains(n) {
            n
        } else {
            first_in_order(available)
        },
        None => if available.len() > 0 {
            first_in_order(available)
        } else {
            "default"@
        },
    }
}

/// The first of the listed texts in alphabetical order.
fn first_in_order_exec(v: &[String]) -> (r: String)
    requires
        v@.len() > 0,
    ensures
        r@ == first_in_order(texts(v@)),
{
    let mut best: usize = 0;
    let mut best_chars = chars_of(v[0].as_str());
    let mut i: usize = 1;
    assert(texts(v@).take(1) =~= seq![v@[0]@]);
    while i < v.len()
        invariant
            1 <= i <= v@.len(),
            best < v@.len(),
            best_chars@ == v@[best as int]@,
            v@[best as int]@ == first_in_order(texts(v@).take(i as int)),
        decreases v@.len() - i,
    {
        let c = chars_of(v[i].as_str());
        assert(texts(v@).take(i + 1).drop_last() =~= texts(v@).take(i as int));
        assert(texts(v@).take(i + 1).last() == v@[i as int]@);
        if compare_text(&c, &best_chars) < 0 {
            best = i;
            best_chars = c;
        }
        i = i + 1;
    }
    assert(texts(v@).take(v@.len() as int) =~= texts(v@));
    owned(v[best].as_str())
}

fn lookup_index(entries: &Vec<(String, String)>, ctx: &str) -> (r: Option<usize>)
    ensures
        match r {
            Some(i) => i < entries@.len() && entries@[i as int].0@ == ctx@ && lookup(
                entries@,
                ctx@,
            ) == Some(entries@[i as int].1@) && forall|j: int|
                0 <= j < i ==> (#[trigger] entries@[j]).0@ != ctx@,
            None => lookup(entries@, ctx@) is None,
        },
{
    let mut i: usize = 0;
    assert(entries@.skip(0) =~= entries@);
    while i < entries.len()
        invariant
            i <= entries@.len(),
            lookup(entries@, ctx@) == lookup(entries@.skip(i as int), ctx@),
            forall|j: int| 0 <= j < i ==> (#[trigger] entries@[j]).0@ != ctx@,
        decreases entries@.len() - i,
    {
        assert(entries@.skip(i as int)[0] == entries@[i as int]);
        assert(entries@.skip(i as int).drop_first() =~= entries@.skip(i + 1));
        if str_eq(entries[i].0.as_str(), ctx) {
            return Some(i);
        }
        i = i + 1;
    }
    assert(entries@.skip(i as int) =~= Seq::<(String, String)>::empty());
    None
}

/// The namespace saved for `context`, if any.
pub fn saved_namespace_for_context(saved: &SavedNamespaces, context: &str) -> (r: Option<String>)
    ensures
        opt_string_text(r) == saved_for(*saved, context@),
{
    match lookup_index(&saved.context_namespaces, context) {
        Some(i) => Some(owned(saved.context_namespaces[i].1.as_str())),
        None => {
            match (&saved.last_context, &saved.last_namespace) {
                (Some(c), ns) => if str_eq(c.as_str(), context) {
                    match ns {
                        Some(n) => Some(owned(n.as_str())),
                        None => None,
                    }
                } else {
                    None
                },
                (None, _) => None,
            }
        },
    }
}

/// Picks the namespace to open for `context` among `available`.
pub fn pick_namespace_for_context(saved: &SavedNamespaces, context: &str, available: &[String]) -> (r:
    String)
    ensures
        r@ == pick_for(saved_for(*saved, context@), texts(available@)),
{
    if let Some(n) = saved_namespace_for_context(saved, context) {
        if available.len() == 0 || contains_text(available, n.as_str()) {
            return n;
        }
    }
    if available.len() > 0 {
        return first_in_order_exec(available);
    }
    owned("default")
}

/// `after` is `before` with `namespace` recorded for `context`: both are
/// the last used, the context's entry holds the namespace, and every other
/// context's entry is unchanged.
pub open spec fn remembers(
    before: SavedNamespaces,
    after: SavedNamespaces,
    context: Seq<char>,
    namespace: Seq<char>,
) -> bool {
    &&& opt_string_text(after.last_context) == Some(context)
    &&& opt_string_text(after.last_namespace) == Some(namespace)
    &&& lookup(after.context_namespaces@, context) == Some(namespace)
    &&& forall|c: Seq<char>|
        c != context ==> lookup(#[trigger] after.context_namespaces@, c) == lookup(
            before.context_namespaces@,
            c,
        )
}

/// Records `namespace` as the choice for `context`, and both as the last
/// used.
pub fn remember_namespace_for_context(saved: &mut SavedNamespaces, context: &str, namespace: &str)
    ensures
        remembers(*old(saved), *final(saved), context@, namespace@),
{
    saved.last_context = Some(owned(context));
    saved.last_namespace = Some(owned(namespace));
    let ghost old_entries = saved.context_namespaces@;
    match lookup_index(&saved.context_namespaces, context) {
        Some(i) => {
            let entry = (owned(context), owned(namespace));
            saved.context_namespaces.set(i, entry);
            proof {
                lemma_lookup_update(old_entries, i as int, entry);
            }
            assert(saved.context_namespaces@ == old_entries.update(i as int, entry));
        },
        None => {
            let entry = (owned(context), owned(namespace));
            saved.context_namespaces.push(entry);
            proof {
                lemma_lookup_push(old_entries, entry);
            }
        },
    }
}

proof fn lemma_lookup_update(entries: Seq<(String, String)>, i: int, e: (String, String))
    requires
        0 <= i < entries.len(),
        entries[i].0@ == e.0@,
        forall|j: int| 0 <= j < i ==> (#[trigger] entries[j]).0@ != e.0@,
    ensures
        lookup(entries.update(i, e), e.0@) == Some(e.1@),
        forall|c: Seq<char>|
            c != e.0@ ==> lookup(#[trigger] entries.update(i, e), c) == lookup(entries, c),
    decreases entries.len(),
{
    let u = entries.update(i, e);
    if i > 0 {
        assert(u.drop_first() =~= entries.drop_first().update(i - 1, e));
        assert(u[0] == entries[0]);
        assert forall|j: int| 0 <= j < i - 1 implies (#[trigger] entries.drop_first()[j]).0@ != e.0@ by {
            assert(entries.drop_first()[j] == entries[j + 1]);
        }
        lemma_lookup_update(entries.drop_first(), i - 1, e);
    } else {
        assert(u.drop_first() =~= entries.drop_first());
        assert(u[0] == e);
    }
    assert forall|c: Seq<char>| c != e.0@ implies lookup(#[trigger] entries.update(i, e), c)
        == lookup(entries, c) by {
        if i > 0 {
            assert(u.drop_first() =~= entries.drop_first().update(i - 1, e));
            if entries[0].0@ != c {
                assert(lookup(u, c) == lookup(u.drop_first(), c));
                assert(lookup(entries, c) == lookup(entries.drop_first(), c));
            }
        } else {
            assert(lookup(u, c) == lookup(u.drop_first(), c));
            assert(lookup(entries, c) == lookup(entries.drop_first(), c));
        }
    }
}

proof fn lemma_lookup_push(entries: Seq<(String, String)>, e: (String, String))
    requires
        lookup(entries, e.0@) is None,
    ensures
        lookup(entries.push(e), e.0@) == Some(e.1@),
        forall|c: Seq<char>| c != e.0@ ==> lookup(#[trigger] entries.push(e), c) == lookup(entries, c),
    decreases entries.len(),
{
    let u = entries.push(e);
    if entries.len() > 0 {
        assert(u.drop_first() =~= entries.drop_first().push(e));
        assert(u[0] == entries[0]);
        lemma_lookup_push(entries.drop_first(), e);
    } else {
        assert(u.drop_first() =~= Seq::<(String, String)>::empty());
        assert(u[0] == e);
    }
    assert forall|c: Seq<char>| c != e.0@ implies lookup(#[trigger] entries.push(e), c) == lookup(
        entries,
        c,
    ) by {
        if entries.len() > 0 {
            assert(u.drop_first() =~= entries.drop_first().push(e));
            if entries[0].0@ != c {
                assert(lookup(u, c) == lookup(u.drop_first(), c));
                assert(lookup(entries, c) == lookup(entries.drop_first(), c));
            }
        } else {
            assert(u.drop_first() =~= Seq::<(String, String)>::empty());
            assert(lookup(u, c) == lookup(u.drop_first(), c));
        }
    }
}

// ---------------------------------------------------------------------------
// Laws
// ---------------------------------------------------------------------------

/// What was remembered for a context is what is read back for it.
pub proof fn law_remember_then_saved(
    before: SavedNamespaces,
    after: SavedNamespaces,
    context: Seq<char>,
    namespace: Seq<char>,
)
    requires
        remembers(before, after, context, namespace),
    ensures
        saved_for(after, context) == Some(namespace),
{
}

/// Remembering a choice for one context leaves the recorded choice of
/// every other context that has one as it was.
pub proof fn law_remember_keeps_others(
    before: SavedNamespaces,
    after: SavedNamespaces,
    context: Seq<char>,
    namespace: Seq<char>,
    other: Seq<char>,
)
    requires
        remembers(before, after, context, namespace),
        other != context,
        lookup(before.context_namespaces@, other) is Some,
    ensures
        saved_for(after, other) == saved_for(before, other),
{
    assert(lookup(after.context_namespaces@, other) == lookup(before.context_namespaces@, other));
}

/// After a context's namespace is remembered, opening that context picks
/// it whenever the cluster still lists it.
pub proof fn law_remembered_is_picked(
    before: SavedNamespaces,
    after: SavedNamespaces,
    context: Seq<char>,
    namespace: Seq<char>,
    available: Seq<Seq<char>>,
)
    requires
        remembers(before, after, context, namespace),
        available.contains(namespace),
    ensures
        pick_for(saved_for(after, context), available) == namespace,
{
}

/// When the cluster lists namespaces, the one picked is among them.
pub proof fn law_pick_is_available(saved: Option<Seq<char>>, available: Seq<Seq<char>>)
    requires
        available.len() > 0,
    ensures
        available.contains(pick_for(saved, available)),
{
    lemma_first_in_order(available);
}

/// When no saved namespace is listed, the one picked is listed and no
/// listed namespace comes before it alphabetically.
pub proof fn law_fallback_is_first_alphabetically(saved: Option<Seq<char>>, available: Seq<Seq<char>>)
    requires
        available.len() > 0,
        !(saved matches Some(n) && available.contains(n)),
    ensures
        available.contains(pick_for(saved, available)),
        forall|i: int| 0 <= i < available.len() ==> !text_lt(#[trigger] available[i], pick_for(saved, available)),
{
    lemma_first_in_order(available);
}

} // verus!
