//! Cluster operations: the kubectl command lines offered to the user and the
//! planning of log requests.
use vstd::prelude::*;

use crate::error::Error;
use crate::resources::{CrdTarget, ResourceKind};
use crate::store::text_lt;
use crate::workspace::kind_is_cluster_scoped;
use crate::text::{lowercase, opt_text, owned, texts, to_lowercase};

verus! {

/// Lines requested per older-log chunk.
pub const LOG_CHUNK_LINES: i64 = 500;

/// Lines a log tab keeps; bounds how far back an older-log request reaches.
pub const LOG_BUFFER_MAX_LINES: usize = 2000;

/// Shell snippet run in a pod: clears the screen, then runs the first shell
/// that starts among bash, ash and sh.
pub const POD_SHELL_WRAPPER: &'static str = "clear; (bash || ash || sh)";

// ---------------------------------------------------------------------------
// kubectl command lines
// ---------------------------------------------------------------------------

/// ` -c <container>` when a container is given.
pub open spec fn container_flag(container: Option<Seq<char>>) -> Seq<char> {
    match container {
        Some(c) => " -c "@ + c,
        None => Seq::empty(),
    }
}

pub open spec fn exec_command(ns: Seq<char>, pod: Seq<char>, container: Option<Seq<char>>) -> Seq<
    char,
> {
    "kubectl exec -it -n "@ + ns + " "@ + pod + container_flag(container) + " -- /bin/sh"@
}

pub open spec fn attach_command(ns: Seq<char>, pod: Seq<char>, container: Option<Seq<char>>) -> Seq<
    char,
> {
    "kubectl attach -it -n "@ + ns + " "@ + pod + container_flag(container)
}

pub open spec fn edit_command(ns: Seq<char>, kind: Seq<char>, name: Seq<char>) -> Seq<char> {
    "kubectl edit -n "@ + ns + " "@ + lowercase(kind) + " "@ + name
}

pub open spec fn rollout_restart_command(ns: Seq<char>, name: Seq<char>) -> Seq<char> {
    "kubectl rollout restart deployment/"@ + name + " -n "@ + ns
}

fn push_container_flag(s: &mut String, container: Option<&str>)
    ensures
        final(s)@ == old(s)@ + container_flag(opt_text(container)),
{
    if let Some(c) = container {
        s.append(" -c ");
        s.append(c);
    }
}

/// `kubectl exec` into a pod's shell, as a command line.
pub fn kubectl_exec_command(namespace: &str, pod_name: &str, container: Option<&str>) -> (r:
    String)
    ensures
        r@ == exec_command(namespace@, pod_name@, opt_text(container)),
{
    let mut s = owned("kubectl exec -it -n ");
    s.append(namespace);
    s.append(" ");
    s.append(pod_name);
    push_container_flag(&mut s, container);
    s.append(" -- /bin/sh");
    s
}

/// `kubectl attach` to a pod, as a command line.
pub fn kubectl_attach_command(namespace: &str, pod_name: &str, container: Option<&str>) -> (r:
    String)
    ensures
        r@ == attach_command(namespace@, pod_name@, opt_text(container)),
{
    let mut s = owned("kubectl attach -it -n ");
    s.append(namespace);
    s.append(" ");
    s.append(pod_name);
    push_container_flag(&mut s, container);
    s
}

/// `kubectl edit` of a resource; the kind is written in lower case.
pub fn kubectl_edit_command(namespace: &str, resource_kind: &str, name: &str) -> (r: String)
    ensures
        r@ == edit_command(namespace@, resource_kind@, name@),
{
    let kind = to_lowercase(resource_kind);
    let mut s = owned("kubectl edit -n ");
    s.append(namespace);
    s.append(" ");
    s.append(kind.as_str());
    s.append(" ");
    s.append(name);
    s
}

/// `kubectl rollout restart` of a deployment, as a command line.
pub fn kubectl_rollout_restart_command(namespace: &str, name: &str) -> (r: String)
    ensures
        r@ == rollout_restart_command(namespace@, name@),
{
    let mut s = owned("kubectl rollout restart deployment/");
    s.append(name);
    s.append(" -n ");
    s.append(namespace);
    s
}

// ---------------------------------------------------------------------------
// Older log chunks
// ---------------------------------------------------------------------------

/// The lines of an older-log request: how many the tab already holds (at
/// most the buffer cap) and how many to ask the API for.
pub open spec fn older_logs_plan(tail_loaded: usize) -> (usize, i64) {
    let buffered = if tail_loaded < LOG_BUFFER_MAX_LINES {
        tail_loaded
    } else {
        LOG_BUFFER_MAX_LINES
    };
    (buffered, (buffered + LOG_CHUNK_LINES) as i64)
}

/// Plans an older-log request for a tab that has loaded `tail_loaded` lines:
/// `(lines already buffered, tail size to request)`.
pub fn plan_older_logs(tail_loaded: usize) -> (r: (usize, i64))
    ensures
        r == older_logs_plan(tail_loaded),
        r.0 <= LOG_BUFFER_MAX_LINES,
        r.1 == r.0 + LOG_CHUNK_LINES,
{
    let buffered: usize = if tail_loaded < LOG_BUFFER_MAX_LINES {
        tail_loaded
    } else {
        LOG_BUFFER_MAX_LINES
    };
    let request_tail: i64 = buffered as i64 + LOG_CHUNK_LINES;
    (buffered, request_tail)
}

/// Splits an older-log response: the lines before the `buffered` newest
/// ones (which the tab already holds) are prepended; more may exist when the
/// response filled the whole request.
pub fn split_older_logs(fetched: Vec<String>, buffered: usize, request_tail: i64) -> (r: (
    Vec<String>,
    bool,
))
    ensures
        r.0@ == (if fetched@.len() > buffered {
            fetched@.take(fetched@.len() - buffered)
        } else {
            Seq::<String>::empty()
        }),
        r.1 == (fetched@.len() > 0 && fetched@.len() >= request_tail),
{
    let n = fetched.len();
    let has_more = n > 0 && (n as u64) as i128 >= request_tail as i128;
    if n > buffered {
        let mut kept = fetched;
        kept.truncate(n - buffered);
        (kept, has_more)
    } else {
        (Vec::new(), has_more)
    }
}

/// The time stamp that the API put in front of the last of some log lines
/// (fetched with time stamps): the last line's first word.  The next poll
/// asks for the lines written after it.
pub fn last_line_stamp(lines: &[String]) -> (r: Option<String>)
    ensures
        crate::text::opt_text_of(r) == if lines@.len() == 0 {
            None
        } else {
            crate::text::first_word(lines@.last()@)
        },
{
    if lines.len() == 0 {
        return None;
    }
    crate::text::first_word_of(lines[lines.len() - 1].as_str())
}

/// Where an applied document goes: nowhere in particular for a
/// cluster-wide kind (`None`), else the namespace the document names, or the
/// current one when it names none.
pub fn apply_namespace(cluster_scoped: bool, doc_namespace: Option<&str>, current: &str) -> (r: Option<
    String,
>)
    ensures
        crate::text::opt_text_of(r) == if cluster_scoped {
            None
        } else {
            Some(
                match doc_namespace {
                    Some(n) => n@,
                    None => current@,
                },
            )
        },
{
    if cluster_scoped {
        None
    } else {
        match doc_namespace {
            Some(n) => Some(owned(n)),
            None => Some(owned(current)),
        }
    }
}

/// How an applied object is reported: `Kind/name`.
pub fn applied_label(kind: &str, name: &str) -> (r: String)
    ensures
        r@ == kind@ + "/"@ + name@,
{
    let mut s = owned(kind);
    s.append("/");
    s.append(name);
    s
}

// ---------------------------------------------------------------------------
// Manual runs of a cron job
// ---------------------------------------------------------------------------

/// Name of a job started by hand from a cron job, given a time stamp.
pub fn manual_job_name(cronjob: &str, stamp: &str) -> (r: String)
    ensures
        r@ == cronjob@ + "-manual-"@ + stamp@,
{
    let mut s = owned(cronjob);
    s.append("-manual-");
    s.append(stamp);
    s
}

/// Where a request about one object of a kind is addressed.
#[derive(Debug)]
pub enum ObjectTarget {
    /// A built-in API: the object's kind (Helm releases are secrets), and
    /// whether the object lives in the namespace or cluster-wide.
    Typed { kind: ResourceKind, namespaced: bool },
    /// A custom resource, looked up by its API group and kind name.
    Custom { group: String, kind_name: String },
}

/// The target of a request (read as YAML, delete) about an object of
/// `kind`; custom resources need the chosen custom resource type.
pub fn object_target(kind: ResourceKind, crd: Option<&CrdTarget>) -> (r: Result<ObjectTarget, Error>)
    ensures
        match kind {
            ResourceKind::Crd => match crd {
                Some(t) => r == Ok::<ObjectTarget, Error>(
                    ObjectTarget::Custom { group: t.group, kind_name: t.display_name },
                ),
                None => r matches Err(Error::Message(m)) && m@ == "no CRD type selected"@,
            },
            ResourceKind::HelmRelease => r == Ok::<ObjectTarget, Error>(
                ObjectTarget::Typed { kind: ResourceKind::Secret, namespaced: true },
            ),
            _ => r == Ok::<ObjectTarget, Error>(
                ObjectTarget::Typed { kind, namespaced: !kind_is_cluster_scoped(kind) },
            ),
        },
{
    match kind {
        ResourceKind::Crd => match crd {
            Some(t) => Ok(ObjectTarget::Custom { group: t.group.clone(), kind_name: t.display_name.clone() }),
            None => Err(Error::Message(owned("no CRD type selected"))),
        },
        ResourceKind::HelmRelease => Ok(ObjectTarget::Typed { kind: ResourceKind::Secret, namespaced: true }),
        _ => Ok(ObjectTarget::Typed { kind, namespaced: !kind.is_cluster_scoped() }),
    }
}

/// Where the rows of a kind come from.
#[derive(Debug, Clone, Copy, PartialEq, Eq, Structural)]
pub enum RowSource {
    /// The watch store's snapshot.
    Watched,
    /// Helm release secrets, listed on demand.
    HelmReleases,
    /// Instances of the chosen custom resource type, listed on demand.
    CustomResources,
    /// No custom resource type is chosen: no rows.
    Nothing,
}

/// Where the rows of `kind` come from, given whether a custom resource
/// type is chosen.
pub fn row_source(kind: ResourceKind, crd_chosen: bool) -> (r: RowSource)
    ensures
        r == match kind {
            ResourceKind::HelmRelease => RowSource::HelmReleases,
            ResourceKind::Crd => if crd_chosen {
                RowSource::CustomResources
            } else {
                RowSource::Nothing
            },
            _ => RowSource::Watched,
        },
{
    match kind {
        ResourceKind::HelmRelease => RowSource::HelmReleases,
        ResourceKind::Crd => if crd_chosen {
            RowSource::CustomResources
        } else {
            RowSource::Nothing
        },
        _ => RowSource::Watched,
    }
}

/// Grace period of a delete request: immediate when forced, the server's
/// default otherwise.
pub fn delete_grace_period(force: bool) -> (r: Option<i64>)
    ensures
        r == (if force {
            Some(0i64)
        } else {
            None
        }),
{
    if force {
        Some(0)
    } else {
        None
    }
}

// ---------------------------------------------------------------------------
// Sorted text lists
// ---------------------------------------------------------------------------

/// No text in `v` sorts before one that precedes it.
pub open spec fn texts_sorted(v: Seq<Seq<char>>) -> bool {
    forall|i: int, j: int| 0 <= i < j < v.len() ==> !text_lt(#[trigger] v[j], #[trigger] v[i])
}

/// The texts of the `Some` entries, in order.
pub open spec fn present_texts(v: Seq<Option<String>>) -> Seq<Seq<char>>
    decreases v.len(),
{
    if v.len() == 0 {
        Seq::empty()
    } else {
        let rest = present_texts(v.drop_last());
        match v.last() {
            Some(s) => rest.push(s@),
            None => rest,
        }
    }
}

/// Inserts `x` into a sorted vector after every text not after it.
pub fn insert_sorted(v: &mut Vec<String>, x: String)
    requires
        texts_sorted(texts(old(v)@)),
    ensures
        texts_sorted(texts(final(v)@)),
        texts(final(v)@).to_multiset() == texts(old(v)@).to_multiset().insert(x@),
        final(v)@.len() == old(v)@.len() + 1,
{
    let ghost xv = x@;
    let mut pos: usize = v.len();
    // Find the first element after which x no longer comes: the last
    // position whose predecessor is not after x.
    let xs = crate::text::chars_of(x.as_str());
    let mut stop = false;
    while pos > 0 && !stop
        invariant
            pos <= v@.len(),
            *v == *old(v),
            xs@ == xv,
            texts_sorted(texts(v@)),
            forall|k: int| pos <= k < v@.len() ==> text_lt(xv, #[trigger] v@[k]@),
            stop ==> pos > 0 && !text_lt(xv, v@[pos - 1]@),
        decreases pos + (if stop { 0int } else { 1int }),
    {
        let ys = crate::text::chars_of(v[pos - 1].as_str());
        let c = crate::store::compare_text(&xs, &ys);
        if c < 0 {
            pos = pos - 1;
        } else {
            stop = true;
        }
    }
    let ghost before = texts(v@);
    v.insert(pos, x);
    proof {
        assert(texts(v@) =~= before.insert(pos as int, xv));
        vstd::seq_lib::to_multiset_insert(before, pos as int, xv);
        assert forall|i: int, j: int| 0 <= i < j < texts(v@).len() implies !text_lt(
            #[trigger] texts(v@)[j],
            #[trigger] texts(v@)[i],
        ) by {
            let t = texts(v@);
            if i < pos && j == pos {
                crate::store::lemma_text_lt_total(before[pos - 1], xv);
                if text_lt(xv, before[i]) {
                    if i < pos - 1 {
                        assert(!text_lt(before[pos - 1], before[i]));
                        crate::store::lemma_text_lt_total(before[i], before[pos - 1]);
                        if text_lt(before[i], before[pos - 1]) {
                            crate::store::lemma_text_lt_transitive(xv, before[i], before[pos - 1]);
                        }
                    }
                }
            } else if i == pos && j > pos {
                assert(t[j] == before[j - 1]);
                crate::store::lemma_text_lt_asymmetric(xv, before[j - 1]);
            } else if i < pos && j > pos {
                assert(t[i] == before[i]);
                assert(t[j] == before[j - 1]);
            } else if j < pos {
                assert(t[i] == before[i]);
                assert(t[j] == before[j]);
            } else {
                assert(t[i] == before[i - 1]);
                assert(t[j] == before[j - 1]);
            }
        }
    }
}

/// Namespace names in name order, from the namespaces that have one.
pub fn sorted_names(names: Vec<Option<String>>) -> (r: Vec<String>)
    ensures
        texts_sorted(texts(r@)),
        texts(r@).to_multiset() == present_texts(names@).to_multiset(),
{
    let mut r: Vec<String> = Vec::new();
    let mut i: usize = 0;
    let ghost all = names@;
    let rest = names;
    assert(texts(r@) =~= Seq::<Seq<char>>::empty());
    assert(all.take(0) =~= Seq::<Option<String>>::empty());
    while i < rest.len()
        invariant
            i <= all.len(),
            rest@ == all,
            texts_sorted(texts(r@)),
            texts(r@).to_multiset() == present_texts(all.take(i as int)).to_multiset(),
        decreases all.len() - i,
    {
        assert(all.take(i + 1).drop_last() =~= all.take(i as int));
        match &rest[i] {
            Some(s) => {
                proof {
                    vstd::seq_lib::to_multiset_build(present_texts(all.take(i as int)), s@);
                }
                insert_sorted(&mut r, owned(s.as_str()));
            },
            None => {},
        }
        i = i + 1;
    }
    assert(all.take(all.len() as int) =~= all);
    r
}

} // verus!
