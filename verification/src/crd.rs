//! Custom resource definitions offered as browsable kinds.
use vstd::prelude::*;

use crate::resources::CrdTarget;
use crate::store::{compare_text, lemma_text_lt_asymmetric, lemma_text_lt_total, lemma_text_lt_transitive, text_lt};
use crate::filters::{lemma_filter_insert, lemma_filter_none, lemma_filter_single};
use crate::text::{chars_of, owned};

verus! {

/// One served version of a definition.
#[derive(Debug, Clone)]
pub struct CrdVersionInfo {
    pub name: String,
    /// Whether objects are stored in this version.
    pub storage: bool,
}

/// What the kind list reads from a definition.
#[derive(Debug, Clone)]
pub struct CrdInfo {
    pub group: String,
    pub versions: Vec<CrdVersionInfo>,
    pub plural: String,
    pub kind: String,
}

/// `(group, version, plural, display name)`.
pub open spec fn target_view(t: CrdTarget) -> (Seq<char>, Seq<char>, Seq<char>, Seq<char>) {
    (t.group@, t.version@, t.plural@, t.display_name@)
}

pub open spec fn targets_view(v: Seq<CrdTarget>) -> Seq<(Seq<char>, Seq<char>, Seq<char>, Seq<char>)> {
    v.map_values(|t: CrdTarget| target_view(t))
}

/// The name of the first storage version.
pub open spec fn storage_version(vs: Seq<CrdVersionInfo>) -> Option<Seq<char>>
    decreases vs.len(),
{
    if vs.len() == 0 {
        None
    } else if vs[0].storage {
        Some(vs[0].name@)
    } else {
        storage_version(vs.drop_first())
    }
}

proof fn lemma_storage_version_first(vs: Seq<CrdVersionInfo>, k: int)
    requires
        0 <= k < vs.len(),
        vs[k].storage,
        forall|j: int| 0 <= j < k ==> !(#[trigger] vs[j]).storage,
    ensures
        storage_version(vs) == Some(vs[k].name@),
    decreases k,
{
    if k > 0 {
        assert forall|j: int| 0 <= j < k - 1 implies !(#[trigger] vs.drop_first()[j]).storage by {
            assert(vs.drop_first()[j] == vs[j + 1]);
        }
        assert(!vs[0].storage);
        lemma_storage_version_first(vs.drop_first(), k - 1);
    }
}

proof fn lemma_storage_version_none(vs: Seq<CrdVersionInfo>)
    requires
        forall|j: int| 0 <= j < vs.len() ==> !(#[trigger] vs[j]).storage,
    ensures
        storage_version(vs) is None,
    decreases vs.len(),
{
    if vs.len() > 0 {
        assert(!vs[0].storage);
        assert forall|j: int| 0 <= j < vs.len() - 1 implies !(#[trigger] vs.drop_first()[j]).storage by {
            assert(vs.drop_first()[j] == vs[j + 1]);
        }
        lemma_storage_version_none(vs.drop_first());
    }
}

/// The version a definition is browsed in is the first listed version that
/// stores objects, wherever it stands in the list (the first one
/// included); when none stores objects, it is the first version listed.
pub proof fn law_browsed_version(vs: Seq<CrdVersionInfo>, k: int)
    ensures
        (0 <= k < vs.len() && vs[k].storage && forall|j: int| 0 <= j < k ==> !(#[trigger] vs[j]).storage)
            ==> browse_version(vs) == Some(vs[k].name@),
        (vs.len() > 0 && forall|j: int| 0 <= j < vs.len() ==> !(#[trigger] vs[j]).storage)
            ==> browse_version(vs) == Some(vs[0].name@),
        vs.len() == 0 ==> browse_version(vs) is None,
{
    if 0 <= k < vs.len() && vs[k].storage && forall|j: int| 0 <= j < k ==> !(#[trigger] vs[j]).storage {
        lemma_storage_version_first(vs, k);
    }
    if forall|j: int| 0 <= j < vs.len() ==> !(#[trigger] vs[j]).storage {
        lemma_storage_version_none(vs);
    }
}

/// The version browsed: the storage version, else the first one listed.
pub open spec fn browse_version(vs: Seq<CrdVersionInfo>) -> Option<Seq<char>> {
    match storage_version(vs) {
        Some(v) => Some(v),
        None => if vs.len() > 0 {
            Some(vs[0].name@)
        } else {
            None
        },
    }
}

pub open spec fn crd_target_of(c: CrdInfo) -> Option<(Seq<char>, Seq<char>, Seq<char>, Seq<char>)> {
    match browse_version(c.versions@) {
        Some(v) => Some((c.group@, v, c.plural@, c.kind@)),
        None => None,
    }
}

/// The browsable kind of a definition; `None` when it lists no version.
pub fn crd_target(c: &CrdInfo) -> (r: Option<CrdTarget>)
    ensures
        match r {
            Some(t) => crd_target_of(*c) == Some(target_view(t)),
            None => crd_target_of(*c) is None,
        },
{
    let vs = &c.versions;
    let mut i: usize = 0;
    let mut found: Option<usize> = None;
    assert(vs@.skip(0) =~= vs@);
    while i < vs.len() && found.is_none()
        invariant
            i <= vs@.len(),
            found matches Some(k) ==> k < vs@.len() && vs@[k as int].storage && storage_version(vs@)
                == Some(vs@[k as int].name@),
            found is None ==> storage_version(vs@) == storage_version(vs@.skip(i as int)),
        decreases vs@.len() - i,
    {
        assert(vs@.skip(i as int)[0] == vs@[i as int]);
        assert(vs@.skip(i as int).drop_first() =~= vs@.skip(i + 1));
        if vs[i].storage {
            found = Some(i);
        }
        i = i + 1;
    }
    if found.is_none() {
        assert(vs@.skip(i as int) =~= Seq::<CrdVersionInfo>::empty());
    }
    let version = match found {
        Some(k) => owned(vs[k].name.as_str()),
        None => {
            if vs.len() == 0 {
                return None;
            }
            owned(vs[0].name.as_str())
        },
    };
    Some(
        CrdTarget {
            group: owned(c.group.as_str()),
            version,
            plural: owned(c.plural.as_str()),
            display_name: owned(c.kind.as_str()),
        },
    )
}

/// No target's display name sorts before that of a target before it.
pub open spec fn names_ascending(v: Seq<CrdTarget>) -> bool {
    forall|i: int, j: int|
        0 <= i < j < v.len() ==> !text_lt(#[trigger] v[j].display_name@, #[trigger] v[i].display_name@)
}

/// Whether a target's texts carry this display name.
pub open spec fn has_name(name: Seq<char>) -> spec_fn((Seq<char>, Seq<char>, Seq<char>, Seq<char>)) -> bool {
    |t: (Seq<char>, Seq<char>, Seq<char>, Seq<char>)| t.3 == name
}

/// The targets with this display name, in their order.
pub open spec fn with_name(v: Seq<(Seq<char>, Seq<char>, Seq<char>, Seq<char>)>, name: Seq<char>) -> Seq<
    (Seq<char>, Seq<char>, Seq<char>, Seq<char>),
> {
    v.filter(has_name(name))
}

/// Inserts `x` after every target whose name is not after its own, so equal
/// names keep their order.
fn insert_by_name(v: &mut Vec<CrdTarget>, x: CrdTarget)
    requires
        names_ascending(old(v)@),
    ensures
        names_ascending(final(v)@),
        targets_view(final(v)@).to_multiset() == targets_view(old(v)@).to_multiset().insert(
            target_view(x),
        ),
        forall|name: Seq<char>|
            #[trigger] with_name(targets_view(final(v)@), name) == with_name(
                targets_view(old(v)@).push(target_view(x)),
                name,
            ),
{
    let ghost xn = x.display_name@;
    let xs = chars_of(x.display_name.as_str());
    let mut pos: usize = v.len();
    let mut stop = false;
    while pos > 0 && !stop
        invariant
            pos <= v@.len(),
            *v == *old(v),
            xs@ == xn,
            names_ascending(v@),
            forall|k: int| pos <= k < v@.len() ==> text_lt(xn, #[trigger] v@[k].display_name@),
            stop ==> pos > 0 && !text_lt(xn, v@[pos - 1].display_name@),
        decreases pos + (if stop {
            0int
        } else {
            1int
        }),
    {
        let ys = chars_of(v[pos - 1].display_name.as_str());
        if compare_text(&xs, &ys) < 0 {
            pos = pos - 1;
        } else {
            stop = true;
        }
    }
    let ghost before = v@;
    let ghost xe = x;
    v.insert(pos, x);
    proof {
        assert(targets_view(v@) =~= targets_view(before).insert(pos as int, target_view(xe)));
        vstd::seq_lib::to_multiset_insert(targets_view(before), pos as int, target_view(xe));
        let sb = targets_view(before);
        let tx = target_view(xe);
        assert forall|name: Seq<char>| #[trigger]
            with_name(targets_view(v@), name) == with_name(sb.push(tx), name) by {
            let p = has_name(name);
            lemma_filter_insert(sb, pos as int, tx, p);
            lemma_filter_single(tx, p);
            if p(tx) {
                assert forall|k: int| 0 <= k < sb.skip(pos as int).len() implies !p(
                    #[trigger] sb.skip(pos as int)[k],
                ) by {
                    assert(sb.skip(pos as int)[k] == target_view(before[pos + k]));
                    assert(text_lt(xn, before[pos + k].display_name@));
                    crate::store::lemma_text_lt_irreflexive(xn);
                }
                lemma_filter_none(sb.skip(pos as int), p);
            }
            assert(with_name(targets_view(v@), name) =~= with_name(sb.push(tx), name));
        }
        assert forall|i: int, j: int| 0 <= i < j < v@.len() implies !text_lt(
            #[trigger] v@[j].display_name@,
            #[trigger] v@[i].display_name@,
        ) by {
            if i < pos && j == pos {
                lemma_text_lt_total(before[pos - 1].display_name@, xn);
                if text_lt(xn, before[i].display_name@) && i < pos - 1 {
                    assert(!text_lt(before[pos - 1].display_name@, before[i].display_name@));
                    lemma_text_lt_total(before[i].display_name@, before[pos - 1].display_name@);
                    if text_lt(before[i].display_name@, before[pos - 1].display_name@) {
                        lemma_text_lt_transitive(
                            xn,
                            before[i].display_name@,
                            before[pos - 1].display_name@,
                        );
                    }
                }
            } else if i == pos && j > pos {
                assert(v@[j] == before[j - 1]);
                lemma_text_lt_asymmetric(xn, before[j - 1].display_name@);
            } else if i < pos && j > pos {
                assert(v@[i] == before[i]);
                assert(v@[j] == before[j - 1]);
            } else if j < pos {
                assert(v@[i] == before[i]);
                assert(v@[j] == before[j]);
            } else {
                assert(v@[i] == before[i - 1]);
                assert(v@[j] == before[j - 1]);
            }
        }
    }
}

/// The targets of the definitions that list a version.
pub open spec fn listed_targets(cs: Seq<CrdInfo>) -> Seq<(Seq<char>, Seq<char>, Seq<char>, Seq<char>)>
    decreases cs.len(),
{
    if cs.len() == 0 {
        Seq::empty()
    } else {
        let rest = listed_targets(cs.drop_last());
        match crd_target_of(cs.last()) {
            Some(t) => rest.push(t),
            None => rest,
        }
    }
}

/// The browsable kinds of the cluster's definitions, ordered by kind name.
pub fn crd_targets(crds: &[CrdInfo]) -> (r: Vec<CrdTarget>)
    ensures
        names_ascending(r@),
        targets_view(r@).to_multiset() == listed_targets(crds@).to_multiset(),
        forall|name: Seq<char>| #[trigger]
            with_name(targets_view(r@), name) == with_name(listed_targets(crds@), name),
{
    let mut out: Vec<CrdTarget> = Vec::new();
    let mut i: usize = 0;
    assert(targets_view(out@) =~= Seq::empty());
    assert(crds@.take(0) =~= Seq::<CrdInfo>::empty());
    while i < crds.len()
        invariant
            i <= crds.len(),
            names_ascending(out@),
            targets_view(out@).to_multiset() == listed_targets(crds@.take(i as int)).to_multiset(),
            forall|name: Seq<char>| #[trigger]
                with_name(targets_view(out@), name) == with_name(listed_targets(crds@.take(i as int)), name),
        decreases crds.len() - i,
    {
        assert(crds@.take(i + 1).drop_last() =~= crds@.take(i as int));
        match crd_target(&crds[i]) {
            Some(t) => {
                proof {
                    vstd::seq_lib::to_multiset_build(
                        listed_targets(crds@.take(i as int)),
                        target_view(t),
                    );
                }
                let ghost prev = targets_view(out@);
                insert_by_name(&mut out, t);
                proof {
                    let done = listed_targets(crds@.take(i as int));
                    let tv = target_view(t);
                    assert forall|name: Seq<char>| #[trigger]
                        with_name(targets_view(out@), name) == with_name(
                            listed_targets(crds@.take(i + 1)),
                            name,
                        ) by {
                        prev.lemma_filter_push(tv, has_name(name));
                        done.lemma_filter_push(tv, has_name(name));
                        assert(with_name(prev, name) == with_name(done, name));
                        assert(listed_targets(crds@.take(i + 1)) == done.push(tv));
                        assert(with_name(targets_view(out@), name) == with_name(prev.push(tv), name));
                    }
                }
            },
            None => {},
        }
        i = i + 1;
    }
    assert(crds@.take(crds.len() as int) =~= crds@);
    out
}

} // verus!
