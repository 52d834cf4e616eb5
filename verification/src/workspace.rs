//! The window's bookkeeping: pinned contexts, open cluster tabs, favorites,
//! and what a selection means for port forwarding.
use vstd::prelude::*;

use crate::panels::FavoriteResource;
use crate::resources::{all_kinds, first_kind_with, kind_api_kind, ResourceKind, ResourceRow};
use crate::text::{contains_text, owned, str_eq, texts};

verus! {

// ---------------------------------------------------------------------------
// Lists of context names
// ---------------------------------------------------------------------------

/// `v` without the entries equal to `x`, in order.
pub open spec fn remove_all(v: Seq<Seq<char>>, x: Seq<char>) -> Seq<Seq<char>>
    decreases v.len(),
{
    if v.len() == 0 {
        v
    } else {
        let r = remove_all(v.drop_last(), x);
        if v.last() == x {
            r
        } else {
            r.push(v.last())
        }
    }
}

/// The entries of `v` that occur in `known`, in order.
pub open spec fn keep_known(v: Seq<Seq<char>>, known: Seq<Seq<char>>) -> Seq<Seq<char>>
    decreases v.len(),
{
    if v.len() == 0 {
        v
    } else {
        let r = keep_known(v.drop_last(), known);
        if known.contains(v.last()) {
            r.push(v.last())
        } else {
            r
        }
    }
}

proof fn lemma_remove_all(v: Seq<Seq<char>>, x: Seq<char>)
    ensures
        !remove_all(v, x).contains(x),
        forall|y: Seq<char>| y != x ==> (v.contains(y) <==> #[trigger] remove_all(v, x).contains(y)),
    decreases v.len(),
{
    if v.len() > 0 {
        let p = v.drop_last();
        lemma_remove_all(p, x);
        assert forall|y: Seq<char>| y != x implies (v.contains(y) <==> #[trigger] remove_all(
            v,
            x,
        ).contains(y)) by {
            if v.contains(y) {
                let k = choose|k: int| 0 <= k < v.len() && v[k] == y;
                if k < v.len() - 1 {
                    assert(p[k] == y);
                    assert(p.contains(y));
                    assert(remove_all(p, x).contains(y));
                    let rp = remove_all(p, x);
                    let j = choose|j: int| 0 <= j < rp.len() && rp[j] == y;
                    assert(remove_all(v, x)[j] == y);
                } else {
                    assert(remove_all(v, x).last() == y);
                }
            }
            if remove_all(v, x).contains(y) {
                let r = remove_all(v, x);
                let k = choose|k: int| 0 <= k < r.len() && r[k] == y;
                if v.last() != x && k == r.len() - 1 {
                    assert(v[v.len() - 1] == y);
                } else {
                    assert(remove_all(p, x)[k] == y);
                    assert(remove_all(p, x).contains(y));
                    assert(p.contains(y));
                    let j = choose|j: int| 0 <= j < p.len() && p[j] == y;
                    assert(v[j] == y);
                }
            }
        }
        if remove_all(v, x).contains(x) {
            let r = remove_all(v, x);
            let k = choose|k: int| 0 <= k < r.len() && r[k] == x;
            if v.last() != x && k == r.len() - 1 {
            } else {
                assert(remove_all(p, x)[k] == x);
            }
        }
    }
}

proof fn lemma_keep_known(v: Seq<Seq<char>>, known: Seq<Seq<char>>)
    ensures
        forall|y: Seq<char>| #[trigger] keep_known(v, known).contains(y) ==> known.contains(y) && v.contains(y),
        forall|y: Seq<char>| v.contains(y) && known.contains(y) ==> #[trigger] keep_known(v, known).contains(y),
    decreases v.len(),
{
    if v.len() > 0 {
        let p = v.drop_last();
        lemma_keep_known(p, known);
        let r = keep_known(v, known);
        assert forall|y: Seq<char>| #[trigger] r.contains(y) implies known.contains(y) && v.contains(y) by {
            let k = choose|k: int| 0 <= k < r.len() && r[k] == y;
            if known.contains(v.last()) && k == r.len() - 1 {
                assert(v[v.len() - 1] == y);
            } else {
                assert(keep_known(p, known)[k] == y);
                assert(keep_known(p, known).contains(y));
                let j = choose|j: int| 0 <= j < p.len() && p[j] == y;
                assert(v[j] == y);
            }
        }
        assert forall|y: Seq<char>| v.contains(y) && known.contains(y) implies #[trigger] r.contains(y) by {
            let k = choose|k: int| 0 <= k < v.len() && v[k] == y;
            if k < v.len() - 1 {
                assert(p[k] == y);
                assert(p.contains(y));
                assert(keep_known(p, known).contains(y));
                let rp = keep_known(p, known);
                let j = choose|j: int| 0 <= j < rp.len() && rp[j] == y;
                assert(r[j] == y);
            } else {
                assert(r.last() == y);
            }
        }
    }
}

fn remove_all_exec(v: &[String], x: &str) -> (r: Vec<String>)
    ensures
        texts(r@) == remove_all(texts(v@), x@),
{
    let mut out: Vec<String> = Vec::new();
    let mut i: usize = 0;
    assert(texts(out@) =~= remove_all(texts(v@).take(0), x@));
    while i < v.len()
        invariant
            i <= v.len(),
            texts(out@) == remove_all(texts(v@).take(i as int), x@),
        decreases v.len() - i,
    {
        assert(texts(v@).take(i + 1).drop_last() =~= texts(v@).take(i as int));
        if !str_eq(v[i].as_str(), x) {
            let ghost before = texts(out@);
            out.push(owned(v[i].as_str()));
            assert(texts(out@) =~= before.push(v@[i as int]@));
        }
        i = i + 1;
    }
    assert(texts(v@).take(v.len() as int) =~= texts(v@));
    out
}

/// The pinned contexts after the context list is (re)loaded: those that
/// still exist, with the active context put first when it was not pinned.
pub open spec fn synced_pins(pinned: Seq<Seq<char>>, contexts: Seq<Seq<char>>, active: Seq<char>) -> Seq<
    Seq<char>,
> {
    let kept = keep_known(pinned, contexts);
    if kept.contains(active) {
        kept
    } else {
        seq![active] + kept
    }
}

/// Keeps the pinned contexts that still exist and makes sure the active one
/// is pinned.
pub fn sync_pinned_contexts(pinned: &[String], contexts: &[String], active: &str) -> (r: Vec<String>)
    ensures
        texts(r@) == synced_pins(texts(pinned@), texts(contexts@), active@),
{
    let mut kept: Vec<String> = Vec::new();
    let mut i: usize = 0;
    assert(texts(kept@) =~= keep_known(texts(pinned@).take(0), texts(contexts@)));
    while i < pinned.len()
        invariant
            i <= pinned.len(),
            texts(kept@) == keep_known(texts(pinned@).take(i as int), texts(contexts@)),
        decreases pinned.len() - i,
    {
        assert(texts(pinned@).take(i + 1).drop_last() =~= texts(pinned@).take(i as int));
        if contains_text(contexts, pinned[i].as_str()) {
            let ghost before = texts(kept@);
            kept.push(owned(pinned[i].as_str()));
            assert(texts(kept@) =~= before.push(pinned@[i as int]@));
        }
        i = i + 1;
    }
    assert(texts(pinned@).take(pinned.len() as int) =~= texts(pinned@));
    if !contains_text(&kept, active) {
        let ghost before = texts(kept@);
        kept.insert(0, owned(active));
        assert(texts(kept@) =~= seq![active@] + before);
    }
    kept
}

/// After syncing, the active context is pinned, the list is not empty, and
/// every other pinned context is one that exists.
pub proof fn law_synced_pins(pinned: Seq<Seq<char>>, contexts: Seq<Seq<char>>, active: Seq<char>)
    ensures
        synced_pins(pinned, contexts, active).contains(active),
        synced_pins(pinned, contexts, active).len() > 0,
        forall|c: Seq<char>|
            #[trigger] synced_pins(pinned, contexts, active).contains(c) && c != active
                ==> contexts.contains(c),
{
    lemma_keep_known(pinned, contexts);
    let kept = keep_known(pinned, contexts);
    let r = synced_pins(pinned, contexts, active);
    if !kept.contains(active) {
        assert(r[0] == active);
        assert forall|c: Seq<char>| #[trigger] r.contains(c) && c != active implies contexts.contains(c) by {
            let k = choose|k: int| 0 <= k < r.len() && r[k] == c;
            assert(k > 0);
            assert(kept[k - 1] == c);
            assert(kept.contains(c));
        }
    }
}

/// Pins a context unless it is pinned already.
pub fn pin_context(pinned: &mut Vec<String>, context: &str)
    ensures
        texts(final(pinned)@) == if texts(old(pinned)@).contains(context@) {
            texts(old(pinned)@)
        } else {
            texts(old(pinned)@).push(context@)
        },
{
    if !contains_text(pinned, context) {
        let ghost before = texts(pinned@);
        pinned.push(owned(context));
        assert(texts(pinned@) =~= before.push(context@));
    }
}

/// Unpins a context, unless it is the only one left.
pub fn unpin_context(pinned: &mut Vec<String>, context: &str)
    ensures
        texts(final(pinned)@) == if old(pinned)@.len() > 1 {
            remove_all(texts(old(pinned)@), context@)
        } else {
            texts(old(pinned)@)
        },
{
    if pinned.len() > 1 {
        let r = remove_all_exec(pinned, context);
        *pinned = r;
    }
}

// ---------------------------------------------------------------------------
// Cluster tabs
// ---------------------------------------------------------------------------

/// The cluster tabs open at start: the saved ones, else the last context
/// used, else none.
pub fn initial_cluster_tabs(saved: Vec<String>, last_context: Option<String>) -> (r: Vec<String>)
    ensures
        r@ == if saved@.len() > 0 {
            saved@
        } else {
            match last_context {
                Some(c) => seq![c],
                None => Seq::empty(),
            }
        },
{
    if saved.len() > 0 {
        return saved;
    }
    let mut r: Vec<String> = Vec::new();
    match last_context {
        Some(c) => {
            r.push(c);
            assert(r@ =~= seq![c]);
        },
        None => {},
    }
    r
}

/// Opens a tab for `context` unless one is open.
pub fn ensure_cluster_tab(tabs: &mut Vec<String>, context: &str)
    ensures
        texts(final(tabs)@) == if texts(old(tabs)@).contains(context@) {
            texts(old(tabs)@)
        } else {
            texts(old(tabs)@).push(context@)
        },
{
    pin_context(tabs, context);
}

/// The tabs after closing `closing`: never none, the active context's tab
/// coming back when every tab was closed.
pub open spec fn tabs_after_close(tabs: Seq<Seq<char>>, closing: Seq<char>, active: Seq<char>) -> Seq<
    Seq<char>,
> {
    let rest = remove_all(tabs, closing);
    if rest.len() == 0 {
        seq![active]
    } else {
        rest
    }
}

/// Closes a cluster tab.  When the active context's tab closes, returns the
/// context to switch to: the first remaining tab.
pub fn close_cluster_tab(tabs: &mut Vec<String>, closing: &str, active: &str) -> (r: Option<String>)
    ensures
        texts(final(tabs)@) == tabs_after_close(texts(old(tabs)@), closing@, active@),
        match r {
            Some(next) => closing@ == active@ && next == final(tabs)@[0],
            None => closing@ != active@,
        },
{
    let mut rest = remove_all_exec(tabs, closing);
    if rest.len() == 0 {
        rest.push(owned(active));
        assert(texts(rest@) =~= seq![active@]);
    }
    *tabs = rest;
    if str_eq(closing, active) {
        Some(tabs[0].clone())
    } else {
        None
    }
}

/// Closing a tab never leaves none, and the closed context's tab is gone
/// unless it is the active one coming back as the last.
pub proof fn law_close_tab(tabs: Seq<Seq<char>>, closing: Seq<char>, active: Seq<char>)
    ensures
        tabs_after_close(tabs, closing, active).len() > 0,
        tabs_after_close(tabs, closing, active).contains(closing) ==> closing == active
            && tabs_after_close(tabs, closing, active) == seq![active],
        forall|c: Seq<char>|
            c != closing && #[trigger] tabs.contains(c) ==> tabs_after_close(tabs, closing, active).contains(c),
{
    lemma_remove_all(tabs, closing);
    let rest = remove_all(tabs, closing);
    if rest.len() == 0 {
        let r = seq![active];
        if r.contains(closing) {
            let k = choose|k: int| 0 <= k < r.len() && r[k] == closing;
            assert(k == 0);
        }
        assert forall|c: Seq<char>| c != closing && #[trigger] tabs.contains(c) implies r.contains(c) by {
            assert(rest.contains(c));
        }
    }
}

/// Opening a tab that is already open changes nothing.
pub proof fn law_ensure_tab_idempotent(tabs: Seq<Seq<char>>, context: Seq<char>)
    ensures
        ({
            let once = if tabs.contains(context) {
                tabs
            } else {
                tabs.push(context)
            };
            once.contains(context) && (if once.contains(context) {
                once
            } else {
                once.push(context)
            }) == once
        }),
{
    if !tabs.contains(context) {
        assert(tabs.push(context)[tabs.len() as int] == context);
    }
}

// ---------------------------------------------------------------------------
// Favorites
// ---------------------------------------------------------------------------

/// `(kind, namespace, name)` of a favorite.
pub open spec fn fav_view(f: FavoriteResource) -> (Seq<char>, Seq<char>, Seq<char>) {
    (f.kind@, f.namespace@, f.name@)
}

pub open spec fn favs_view(v: Seq<FavoriteResource>) -> Seq<(Seq<char>, Seq<char>, Seq<char>)> {
    v.map_values(|f: FavoriteResource| fav_view(f))
}

fn same_favorite(a: &FavoriteResource, b: &FavoriteResource) -> (r: bool)
    ensures
        r == (fav_view(*a) == fav_view(*b)),
{
    str_eq(a.kind.as_str(), b.kind.as_str()) && str_eq(a.namespace.as_str(), b.namespace.as_str())
        && str_eq(a.name.as_str(), b.name.as_str())
}

fn copy_favorite(f: &FavoriteResource) -> (r: FavoriteResource)
    ensures
        fav_view(r) == fav_view(*f),
{
    FavoriteResource {
        kind: owned(f.kind.as_str()),
        namespace: owned(f.namespace.as_str()),
        name: owned(f.name.as_str()),
    }
}

/// Adds a favorite unless it is there already; tells whether it was added.
pub fn pin_favorite(favorites: &mut Vec<FavoriteResource>, fav: FavoriteResource) -> (added: bool)
    ensures
        added == !favs_view(old(favorites)@).contains(fav_view(fav)),
        favs_view(final(favorites)@) == if added {
            favs_view(old(favorites)@).push(fav_view(fav))
        } else {
            favs_view(old(favorites)@)
        },
{
    let mut i: usize = 0;
    while i < favorites.len()
        invariant
            i <= favorites.len(),
            *favorites == *old(favorites),
            forall|j: int| 0 <= j < i ==> fav_view(favorites@[j]) != fav_view(fav),
        decreases favorites.len() - i,
    {
        if same_favorite(&favorites[i], &fav) {
            assert(favs_view(favorites@)[i as int] == fav_view(fav));
            return false;
        }
        i = i + 1;
    }
    proof {
        if favs_view(favorites@).contains(fav_view(fav)) {
            let k = choose|k: int|
                0 <= k < favs_view(favorites@).len() && favs_view(favorites@)[k] == fav_view(fav);
            assert(fav_view(favorites@[k]) == fav_view(fav));
        }
    }
    let ghost before = favs_view(favorites@);
    let ghost fv = fav_view(fav);
    favorites.push(fav);
    assert(favs_view(favorites@) =~= before.push(fv));
    true
}

/// Removes every copy of a favorite.
pub fn unpin_favorite(favorites: &mut Vec<FavoriteResource>, fav: &FavoriteResource)
    ensures
        favs_view(final(favorites)@) == favs_view(old(favorites)@).filter(
            |f: (Seq<char>, Seq<char>, Seq<char>)| f != fav_view(*fav),
        ),
{
    let ghost src = favs_view(favorites@);
    let mut out: Vec<FavoriteResource> = Vec::new();
    let mut i: usize = 0;
    assert(src.take(0).filter(|f: (Seq<char>, Seq<char>, Seq<char>)| f != fav_view(*fav))
        =~= Seq::empty());
    while i < favorites.len()
        invariant
            i <= favorites.len(),
            src == favs_view(favorites@),
            favs_view(out@) == src.take(i as int).filter(
                |f: (Seq<char>, Seq<char>, Seq<char>)| f != fav_view(*fav),
            ),
        decreases favorites.len() - i,
    {
        proof {
            assert(src.take(i + 1).drop_last() =~= src.take(i as int));
            reveal(Seq::filter);
        }
        if !same_favorite(&favorites[i], fav) {
            let ghost before = favs_view(out@);
            let c = copy_favorite(&favorites[i]);
            out.push(c);
            assert(favs_view(out@) =~= before.push(fav_view(c)));
        }
        i = i + 1;
    }
    assert(src.take(src.len() as int) =~= src);
    *favorites = out;
}

/// Kinds whose objects live outside namespaces.
pub open spec fn kind_is_cluster_scoped(k: ResourceKind) -> bool {
    k == ResourceKind::Namespace || k == ResourceKind::Node || k == ResourceKind::StorageClass || k
        == ResourceKind::ClusterRole || k == ResourceKind::ClusterRoleBinding
}

/// Where opening a favorite leads: its kind, the namespace to switch to
/// (for a namespaced kind in another real namespace), and the row to select.
pub struct FavoriteNavigation {
    pub kind: ResourceKind,
    pub switch_namespace: Option<String>,
    pub select: String,
}

/// Plans the navigation to a favorite; `None` when its kind is unknown.
pub fn navigate_to_favorite(fav: &FavoriteResource, active_namespace: &str) -> (r: Option<
    FavoriteNavigation,
>)
    ensures
        match r {
            Some(nav) => {
                &&& first_kind_with(all_kinds(), |k: ResourceKind| kind_api_kind(k), fav.kind@)
                    == Some(nav.kind)
                &&& nav.select@ == fav.name@
                &&& match nav.switch_namespace {
                    Some(ns) => ns@ == fav.namespace@ && !kind_is_cluster_scoped(nav.kind)
                        && fav.namespace@ != "-"@ && fav.namespace@ != active_namespace@,
                    None => kind_is_cluster_scoped(nav.kind) || fav.namespace@ == "-"@
                        || fav.namespace@ == active_namespace@,
                }
            },
            None => first_kind_with(all_kinds(), |k: ResourceKind| kind_api_kind(k), fav.kind@) is None,
        },
{
    let kind = match ResourceKind::from_api_kind(fav.kind.as_str()) {
        Some(k) => k,
        None => return None,
    };
    let switch = if !kind.is_cluster_scoped() && !str_eq(fav.namespace.as_str(), "-") && !str_eq(
        fav.namespace.as_str(),
        active_namespace,
    ) {
        Some(owned(fav.namespace.as_str()))
    } else {
        None
    };
    Some(FavoriteNavigation { kind, switch_namespace: switch, select: owned(fav.name.as_str()) })
}

// ---------------------------------------------------------------------------
// Port forwarding from the table
// ---------------------------------------------------------------------------

/// Local and remote ports for forwarding the selected row: a service's
/// first port on both sides, else 8080 to 80.
pub open spec fn selection_ports(selected: Option<usize>, rows: Seq<ResourceRow>) -> (u16, u16) {
    match selected {
        Some(i) => if i < rows.len() && rows[i as int].service_ports@.len() > 0 {
            (rows[i as int].service_ports@[0], rows[i as int].service_ports@[0])
        } else {
            (8080u16, 80u16)
        },
        None => (8080u16, 80u16),
    }
}

/// Forwarding the selection: a selected row that lists service ports, at
/// any position in the table (the last one included), is forwarded from and
/// to its first port; without such a row, local 8080 goes to remote 80.
pub proof fn law_forwarded_ports(selected: Option<usize>, rows: Seq<ResourceRow>)
    ensures
        (selected matches Some(i) && i < rows.len() && rows[i as int].service_ports@.len() > 0)
            ==> selection_ports(selected, rows).0 == rows[selected->0 as int].service_ports@[0]
            && selection_ports(selected, rows).1 == rows[selected->0 as int].service_ports@[0],
        !(selected matches Some(i) && i < rows.len() && rows[i as int].service_ports@.len() > 0)
            ==> selection_ports(selected, rows) == (8080u16, 80u16),
        0 < rows.len() <= usize::MAX && rows.last().service_ports@.len() > 0 ==> selection_ports(
            Some((rows.len() - 1) as usize),
            rows,
        ) == (rows.last().service_ports@[0], rows.last().service_ports@[0]),
{
    if 0 < rows.len() <= usize::MAX {
        assert(rows[((rows.len() - 1) as usize) as int] == rows.last());
    }
}

/// Local and remote ports for forwarding the selected row.
pub fn port_forward_ports_for_selection(selected: Option<usize>, rows: &[ResourceRow]) -> (r: (
    u16,
    u16,
))
    ensures
        r == selection_ports(selected, rows@),
{
    match selected {
        Some(i) => {
            if i < rows.len() && rows[i].service_ports.len() > 0 {
                let p = rows[i].service_ports[0];
                (p, p)
            } else {
                (8080, 80)
            }
        },
        None => (8080, 80),
    }
}

} // verus!
