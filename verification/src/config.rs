//! The parts of a kubeconfig that the context list reads.
use vstd::prelude::*;

use crate::error::Error;
use crate::text::{contains_text, owned, str_eq, texts};

verus! {

/// The cluster and user a context refers to.
#[derive(Debug, Clone)]
pub struct ContextRef {
    pub cluster: String,
    pub user: Option<String>,
}

/// A named context.
#[derive(Debug, Clone)]
pub struct NamedContext {
    pub name: String,
    pub context: Option<ContextRef>,
}

/// Context, cluster and user names of a (merged) kubeconfig.
#[derive(Debug, Clone, Default)]
pub struct KubeconfigSummary {
    pub contexts: Vec<NamedContext>,
    pub clusters: Vec<String>,
    pub users: Vec<String>,
    pub current_context: Option<String>,
}

/// The first context named `name`.
pub open spec fn find_context(cs: Seq<NamedContext>, name: Seq<char>) -> Option<NamedContext>
    decreases cs.len(),
{
    if cs.len() == 0 {
        None
    } else if cs[0].name@ == name {
        Some(cs[0])
    } else {
        find_context(cs.drop_first(), name)
    }
}

/// A context is usable when it exists, refers to a cluster entry that
/// exists, and names a user entry that exists.
pub open spec fn usable(kc: KubeconfigSummary, name: Seq<char>) -> bool {
    match find_context(kc.contexts@, name) {
        Some(ctx) => match ctx.context {
            Some(inner) => {
                &&& texts(kc.clusters@).contains(inner.cluster@)
                &&& match inner.user {
                    Some(u) => texts(kc.users@).contains(u@),
                    None => false,
                }
            },
            None => false,
        },
        None => false,
    }
}

fn contains_name(v: &Vec<String>, x: &str) -> (r: bool)
    ensures
        r == texts(v@).contains(x@),
{
    let mut i: usize = 0;
    while i < v.len()
        invariant
            i <= v.len(),
            forall|j: int| 0 <= j < i ==> v@[j]@ != x@,
        decreases v.len() - i,
    {
        if str_eq(v[i].as_str(), x) {
            assert(texts(v@)[i as int] == x@);
            return true;
        }
        i = i + 1;
    }
    proof {
        if texts(v@).contains(x@) {
            let k = choose|k: int| 0 <= k < texts(v@).len() && texts(v@)[k] == x@;
            assert(v@[k]@ == x@);
        }
    }
    false
}

/// Whether a context's cluster and user entries exist in the kubeconfig.
pub fn kubeconfig_context_is_usable(kc: &KubeconfigSummary, context: &str) -> (r: bool)
    ensures
        r == usable(*kc, context@),
{
    let cs = &kc.contexts;
    let mut i: usize = 0;
    assert(cs@.skip(0) =~= cs@);
    while i < cs.len()
        invariant
            i <= cs@.len(),
            *cs == kc.contexts,
            find_context(cs@, context@) == find_context(cs@.skip(i as int), context@),
        decreases cs@.len() - i,
    {
        assert(cs@.skip(i as int)[0] == cs@[i as int]);
        assert(cs@.skip(i as int).drop_first() =~= cs@.skip(i + 1));
        if str_eq(cs[i].name.as_str(), context) {
            return match &cs[i].context {
                Some(inner) => {
                    let cluster_ok = contains_name(&kc.clusters, inner.cluster.as_str());
                    let user_ok = match &inner.user {
                        Some(u) => contains_name(&kc.users, u.as_str()),
                        None => false,
                    };
                    cluster_ok && user_ok
                },
                None => false,
            };
        }
        i = i + 1;
    }
    assert(cs@.skip(i as int) =~= Seq::<NamedContext>::empty());
    false
}

/// Whether a context is usable; `false` when the kubeconfig could not be
/// loaded.
pub fn context_is_usable(kubeconfig: Option<&KubeconfigSummary>, context: &str) -> (r: bool)
    ensures
        r == match kubeconfig {
            Some(kc) => usable(*kc, context@),
            None => false,
        },
{
    match kubeconfig {
        Some(kc) => kubeconfig_context_is_usable(kc, context),
        None => false,
    }
}

/// The context names, in kubeconfig order.
pub fn list_contexts(kc: &KubeconfigSummary) -> (r: Vec<String>)
    ensures
        texts(r@) == kc.contexts@.map_values(|c: NamedContext| c.name@),
{
    let mut out: Vec<String> = Vec::new();
    let mut i: usize = 0;
    while i < kc.contexts.len()
        invariant
            i <= kc.contexts@.len(),
            texts(out@) == kc.contexts@.take(i as int).map_values(|c: NamedContext| c.name@),
        decreases kc.contexts@.len() - i,
    {
        let ghost before = texts(out@);
        out.push(owned(kc.contexts[i].name.as_str()));
        assert(texts(out@) =~= before.push(kc.contexts@[i as int].name@));
        assert(kc.contexts@.take(i + 1).map_values(|c: NamedContext| c.name@) =~= kc.contexts@.take(
            i as int,
        ).map_values(|c: NamedContext| c.name@).push(kc.contexts@[i as int].name@));
        i = i + 1;
    }
    assert(kc.contexts@.take(kc.contexts@.len() as int) =~= kc.contexts@);
    out
}

/// The kubeconfig's current context, if set.
pub fn current_context_name(kc: &KubeconfigSummary) -> (r: Option<String>)
    ensures
        match r {
            Some(s) => kc.current_context matches Some(c) && s@ == c@,
            None => kc.current_context is None,
        },
{
    match &kc.current_context {
        Some(c) => Some(owned(c.as_str())),
        None => None,
    }
}

/// The context a default connection goes to: the last one used when it
/// still exists, else the kubeconfig's current context, else the first one.
pub open spec fn default_context(
    last: Option<Seq<char>>,
    contexts: Seq<Seq<char>>,
    current: Option<Seq<char>>,
) -> Option<Seq<char>> {
    if last is Some && contexts.contains(last->0) {
        last
    } else if current is Some {
        current
    } else if contexts.len() > 0 {
        Some(contexts[0])
    } else {
        None
    }
}

/// Chooses the context of a default connection; there is none to choose
/// when no context exists and none is current.
pub fn choose_default_context(last: Option<&str>, contexts: &[String], current: Option<&str>) -> (r: Result<
    String,
    Error,
>)
    ensures
        match r {
            Ok(c) => default_context(crate::text::opt_text(last), texts(contexts@), crate::text::opt_text(current))
                == Some(c@),
            Err(e) => default_context(crate::text::opt_text(last), texts(contexts@), crate::text::opt_text(current))
                is None && e == Error::NoActiveContext,
        },
{
    if let Some(l) = last {
        if contains_text(contexts, l) {
            return Ok(owned(l));
        }
    }
    if let Some(c) = current {
        return Ok(owned(c));
    }
    if contexts.len() > 0 {
        assert(texts(contexts@)[0] == contexts@[0]@);
        Ok(owned(contexts[0].as_str()))
    } else {
        Err(Error::NoActiveContext)
    }
}

} // verus!
