//! Containers of a pod and the choice of a default container.
use vstd::prelude::*;

use crate::error::Error;
use crate::text::{chars_eq, chars_of, concat2, owned, str_eq};

verus! {

/// A container of a pod, as the UI lists it.
#[derive(Debug, Clone)]
pub struct ContainerInfo {
    pub name: String,
    pub ready: bool,
    pub image: String,
}

/// A container declared in a pod spec.
#[derive(Debug, Clone)]
pub struct ContainerSpec {
    pub name: String,
    pub image: Option<String>,
}

/// A container status reported for a pod.
#[derive(Debug, Clone)]
pub struct ContainerStatus {
    pub name: String,
    pub ready: bool,
}

/// Readiness reported for `name`: the last status with that name wins (as
/// when collecting the statuses into a map); `false` when there is none.
pub open spec fn status_ready(statuses: Seq<ContainerStatus>, name: Seq<char>) -> bool
    decreases statuses.len(),
{
    if statuses.len() == 0 {
        false
    } else if statuses.last().name@ == name {
        statuses.last().ready
    } else {
        status_ready(statuses.drop_last(), name)
    }
}

/// The `ContainerInfo` listed for one declared container.
pub open spec fn container_info_spec(c: ContainerSpec, statuses: Seq<ContainerStatus>) -> (
    Seq<char>,
    bool,
    Seq<char>,
) {
    (
        c.name@,
        status_ready(statuses, c.name@),
        match c.image {
            Some(i) => i@,
            None => "-"@,
        },
    )
}

/// The container list expected for the declared containers `cs`.
pub open spec fn infos_expected(cs: Seq<ContainerSpec>, statuses: Seq<ContainerStatus>) -> Seq<
    (Seq<char>, bool, Seq<char>),
> {
    cs.map_values(|c: ContainerSpec| container_info_spec(c, statuses))
}

/// The view of a container list: name, readiness and image of each entry.
pub open spec fn infos_view(v: Seq<ContainerInfo>) -> Seq<(Seq<char>, bool, Seq<char>)> {
    v.map_values(|c: ContainerInfo| (c.name@, c.ready, c.image@))
}

fn status_ready_exec(statuses: &[ContainerStatus], name: &str) -> (r: bool)
    ensures
        r == status_ready(statuses@, name@),
{
    let mut i = statuses.len();
    assert(statuses@.take(i as int) =~= statuses@);
    while i > 0
        invariant
            i <= statuses.len(),
            status_ready(statuses@, name@) == status_ready(statuses@.take(i as int), name@),
        decreases i,
    {
        assert(statuses@.take(i as int).drop_last() =~= statuses@.take(i - 1));
        if str_eq(statuses[i - 1].name.as_str(), name) {
            return statuses[i - 1].ready;
        }
        i = i - 1;
    }
    false
}

/// Containers of a pod with readiness taken from its statuses and `-` for a
/// missing image.  A pod without a spec has no containers.
pub fn extract_containers(
    containers: Option<&[ContainerSpec]>,
    statuses: Option<&[ContainerStatus]>,
) -> (r: Vec<ContainerInfo>)
    ensures
        containers is None ==> r@.len() == 0,
        containers matches Some(cs) ==> infos_view(r@) == infos_expected(
            cs@,
            match statuses {
                Some(s) => s@,
                None => Seq::empty(),
            },
        ),
{
    let empty: Vec<ContainerStatus> = Vec::new();
    let st: &[ContainerStatus] = match statuses {
        Some(s) => s,
        None => empty.as_slice(),
    };
    let mut out: Vec<ContainerInfo> = Vec::new();
    match containers {
        None => out,
        Some(cs) => {
            let mut i: usize = 0;
            while i < cs.len()
                invariant
                    i <= cs.len(),
                    out@.len() == i,
                    st@ == (match statuses {
                        Some(s) => s@,
                        None => Seq::<ContainerStatus>::empty(),
                    }),
                    infos_view(out@) == infos_expected(cs@.take(i as int), st@),
                decreases cs.len() - i,
            {
                let c = &cs[i];
                let ready = status_ready_exec(st, c.name.as_str());
                let image = match &c.image {
                    Some(img) => owned(img.as_str()),
                    None => owned("-"),
                };
                let ghost prev = out@;
                out.push(ContainerInfo { name: owned(c.name.as_str()), ready, image });
                assert(cs@.take(i + 1) =~= cs@.take(i as int).push(cs@[i as int]));
                assert(out@ =~= prev.push(out@[i as int]));
                assert(infos_view(out@)[i as int] == container_info_spec(cs@[i as int], st@));
                assert forall|j: int| 0 <= j < i + 1 implies infos_view(out@)[j] == infos_expected(
                    cs@.take(i + 1),
                    st@,
                )[j] by {
                    if j < i {
                        assert(infos_view(out@)[j] == infos_view(prev)[j]);
                        assert(infos_view(prev)[j] == infos_expected(cs@.take(i as int), st@)[j]);
                    }
                }
                assert(infos_view(out@) =~= infos_expected(cs@.take(i + 1), st@));
                i = i + 1;
            }
            assert(cs@.take(cs@.len() as int) =~= cs@);
            out
        },
    }
}

/// Index of the first ready container, if any.
pub open spec fn first_ready(cs: Seq<ContainerInfo>) -> Option<int>
    decreases cs.len(),
{
    if cs.len() == 0 {
        None
    } else if cs[0].ready {
        Some(0)
    } else {
        match first_ready(cs.drop_first()) {
            Some(i) => Some(i + 1),
            None => None,
        }
    }
}

/// The container used when none is named: the first ready one, else the
/// first one.
pub open spec fn default_container(cs: Seq<ContainerInfo>) -> Option<Seq<char>> {
    match first_ready(cs) {
        Some(i) => Some(cs[i].name@),
        None => if cs.len() > 0 {
            Some(cs[0].name@)
        } else {
            None
        },
    }
}

proof fn lemma_first_ready(cs: Seq<ContainerInfo>)
    ensures
        first_ready(cs) matches Some(i) ==> 0 <= i < cs.len() && cs[i].ready,
    decreases cs.len(),
{
    if cs.len() > 0 && !cs[0].ready {
        lemma_first_ready(cs.drop_first());
    }
}

/// Name of the default container: first ready, else first.
pub fn default_container_exec(cs: &[ContainerInfo]) -> (r: Option<String>)
    ensures
        match r {
            Some(s) => default_container(cs@) == Some(s@),
            None => default_container(cs@) is None,
        },
{
    let mut i: usize = 0;
    assert(cs@.skip(0) =~= cs@);
    while i < cs.len()
        invariant
            i <= cs.len(),
            forall|j: int| 0 <= j < i ==> !cs@[j].ready,
            first_ready(cs@) == (match first_ready(cs@.skip(i as int)) {
                Some(k) => Some(k + i),
                None => None::<int>,
            }),
        decreases cs.len() - i,
    {
        assert(cs@.skip(i as int).drop_first() =~= cs@.skip(i + 1));
        assert(cs@.skip(i as int)[0] == cs@[i as int]);
        if cs[i].ready {
            return Some(owned(cs[i].name.as_str()));
        }
        i = i + 1;
    }
    proof {
        assert(cs@.skip(0) =~= cs@);
    }
    if cs.len() > 0 {
        Some(owned(cs[0].name.as_str()))
    } else {
        None
    }
}

/// Whether some container is named `name`.
pub open spec fn has_container(cs: Seq<ContainerInfo>, name: Seq<char>) -> bool {
    exists|i: int| 0 <= i < cs.len() && cs[i].name@ == name
}

/// The container to use for a pod: the preferred one when the pod has it,
/// else the default container; an error when the pod has no containers.
pub fn resolve_container(cs: &[ContainerInfo], pod_name: &str, preferred: Option<&str>) -> (r:
    Result<String, Error>)
    ensures
        match r {
            Ok(name) => match preferred {
                Some(p) => if has_container(cs@, p@) {
                    name@ == p@
                } else {
                    default_container(cs@) == Some(name@)
                },
                None => default_container(cs@) == Some(name@),
            },
            Err(e) => cs@.len() == 0 && (e matches Error::Message(m) && m@
                == "no container found for pod "@ + pod_name@),
        },
{
    if let Some(p) = preferred {
        let mut i: usize = 0;
        while i < cs.len()
            invariant
                i <= cs.len(),
                preferred == Some(p),
                forall|j: int| 0 <= j < i ==> cs@[j].name@ != p@,
            decreases cs.len() - i,
        {
            if str_eq(cs[i].name.as_str(), p) {
                assert(0 <= i < cs@.len() && cs@[i as int].name@ == p@);
                assert(has_container(cs@, p@));
                let name = owned(p);
                assert(name@ == p@);
                let res: Result<String, Error> = Ok(name);
                assert(res matches Ok(n) && n@ == p@);
                return res;
            }
            i = i + 1;
        }
    }
    match default_container_exec(cs) {
        Some(name) => Ok(name),
        None => Err(Error::Message(concat2("no container found for pod ", pod_name))),
    }
}

// ---------------------------------------------------------------------------
// The container picker of a pod's menu
// ---------------------------------------------------------------------------

/// A container's entry in the picker: its name, then a check mark when it
/// is ready or `(not ready)`.
pub open spec fn menu_label(c: ContainerInfo) -> Seq<char> {
    c.name@ + if c.ready {
        "  \u{2713}"@
    } else {
        "  (not ready)"@
    }
}

/// The picker's entries as `(label, container chosen)`: none while the
/// containers are loading, else the default container (no choice) followed
/// by one entry per container.
pub open spec fn menu_entries(cs: Seq<ContainerInfo>) -> Seq<(Seq<char>, Option<Seq<char>>)> {
    if cs.len() == 0 {
        Seq::empty()
    } else {
        seq![("Default container"@, None::<Seq<char>>)] + cs.map_values(
            |c: ContainerInfo| (menu_label(c), Some(c.name@)),
        )
    }
}

pub open spec fn entries_view(v: Seq<(String, Option<String>)>) -> Seq<(Seq<char>, Option<Seq<char>>)> {
    v.map_values(
        |e: (String, Option<String>)|
            (
                e.0@,
                match e.1 {
                    Some(n) => Some(n@),
                    None => None,
                },
            ),
    )
}

/// The entries of the container picker of a pod's menu.
pub fn container_menu(cs: &[ContainerInfo]) -> (r: Vec<(String, Option<String>)>)
    ensures
        entries_view(r@) == menu_entries(cs@),
{
    let mut out: Vec<(String, Option<String>)> = Vec::new();
    if cs.len() == 0 {
        assert(entries_view(out@) =~= menu_entries(cs@));
        return out;
    }
    out.push((owned("Default container"), None));
    let mut i: usize = 0;
    while i < cs.len()
        invariant
            i <= cs@.len(),
            cs@.len() > 0,
            entries_view(out@) == seq![("Default container"@, None::<Seq<char>>)] + cs@.take(
                i as int,
            ).map_values(|c: ContainerInfo| (menu_label(c), Some(c.name@))),
        decreases cs.len() - i,
    {
        let c = &cs[i];
        let suffix = if c.ready {
            "  \u{2713}"
        } else {
            "  (not ready)"
        };
        let label = concat2(c.name.as_str(), suffix);
        let ghost before = entries_view(out@);
        out.push((label, Some(owned(c.name.as_str()))));
        assert(cs@.take(i + 1) =~= cs@.take(i as int).push(cs@[i as int]));
        assert(entries_view(out@) =~= before.push((menu_label(cs@[i as int]), Some(cs@[i as int].name@))));
        assert(cs@.take(i + 1).map_values(|c: ContainerInfo| (menu_label(c), Some(c.name@))) =~= cs@.take(
            i as int,
        ).map_values(|c: ContainerInfo| (menu_label(c), Some(c.name@))).push(
            (menu_label(cs@[i as int]), Some(cs@[i as int].name@)),
        ));
        i = i + 1;
    }
    assert(cs@.take(cs@.len() as int) =~= cs@);
    out
}

} // verus!
