//! The cache's laws: how event application, scope-aware lookup, the entry
//! count and the readiness signal relate, stated over the mathematical
//! models and proved once and for all.

use vstd::prelude::*;
use crate::cache::{
    find_outcome, lemma_list_to_map_contains, lemma_list_to_map_len, lemma_list_to_map_value,
    scope_lookup,
};
use crate::event::EventView;
use crate::resource::{key_of, Object, ObjectRefView, ObjectView, TypeDescriptorView};
use crate::store::{apply_to_map, apply_transition, readiness_outcome, CacheStateView};

verus! {

/// Upsert, then get: after an upsert of `o`, the scope-aware lookup with the
/// key computed for `o` returns `o`, whatever was stored before.
pub proof fn law_upsert_then_get(
    m: Map<ObjectRefView, ObjectView>,
    o: ObjectView,
    dt: TypeDescriptorView,
)
    ensures
        scope_lookup(apply_to_map(m, EventView::Applied(o), dt), key_of(o, dt)) == Some(o),
{
}

/// Delete, then get: after an upsert of `o` followed by a delete of `o`, the
/// scope-aware lookup with the key computed for `o` returns absent. For a
/// namespaced `o` the backing map must hold no cluster-scoped entry under
/// the same name, since the lookup's fallback would find such an entry.
pub proof fn law_delete_then_get(
    m: Map<ObjectRefView, ObjectView>,
    o: ObjectView,
    dt: TypeDescriptorView,
)
    requires
        key_of(o, dt).namespace is Some ==> !m.contains_key(key_of(o, dt).cluster_scoped()),
    ensures
        scope_lookup(
            apply_to_map(apply_to_map(m, EventView::Applied(o), dt), EventView::Deleted(o), dt),
            key_of(o, dt),
        ) == None::<ObjectView>,
{
    let k = key_of(o, dt);
    let post = apply_to_map(apply_to_map(m, EventView::Applied(o), dt), EventView::Deleted(o), dt);
    assert(!post.contains_key(k));
    if k.namespace is Some {
        assert(k.cluster_scoped() != k);
        assert(!post.contains_key(k.cluster_scoped()));
    }
}

/// Resync atomicity: after a resync with `list`, the backing map holds
/// exactly the entries computed from `list` — every listed object is present
/// under its computed key, nothing else is present, and when the computed
/// keys are pairwise distinct there is exactly one entry per listed object.
pub proof fn law_resync_exact(
    m: Map<ObjectRefView, ObjectView>,
    list: Seq<ObjectView>,
    dt: TypeDescriptorView,
)
    ensures
        forall|k: ObjectRefView|
            apply_to_map(m, EventView::Restarted(list), dt).contains_key(k) <==> exists|i: int|
                0 <= i < list.len() && key_of(#[trigger] list[i], dt) == k,
        forall|k: ObjectRefView|
            #[trigger] apply_to_map(m, EventView::Restarted(list), dt).contains_key(k)
                ==> exists|i: int|
                0 <= i < list.len() && key_of(#[trigger] list[i], dt) == k && apply_to_map(
                    m,
                    EventView::Restarted(list),
                    dt,
                )[k] == list[i],
        (forall|i: int, j: int|
            0 <= i < j < list.len() ==> key_of(#[trigger] list[i], dt) != key_of(
                #[trigger] list[j],
                dt,
            )) ==> apply_to_map(m, EventView::Restarted(list), dt).dom().len() == list.len(),
{
    let post = apply_to_map(m, EventView::Restarted(list), dt);
    assert forall|k: ObjectRefView| post.contains_key(k) <==> exists|i: int|
        0 <= i < list.len() && key_of(#[trigger] list[i], dt) == k by {
        lemma_list_to_map_contains(list, dt, k);
    }
    assert forall|k: ObjectRefView| #[trigger] post.contains_key(k) implies exists|i: int|
        0 <= i < list.len() && key_of(#[trigger] list[i], dt) == k && post[k] == list[i] by {
        lemma_list_to_map_value(list, dt, k);
    }
    if forall|i: int, j: int|
        0 <= i < j < list.len() ==> key_of(#[trigger] list[i], dt) != key_of(
            #[trigger] list[j],
            dt,
        ) {
        lemma_list_to_map_len(list, dt);
    }
}

/// Scope fallback, first half: a cluster-scoped object `o`, once upserted,
/// is found by a query that carries the same name but any namespace — unless
/// an exact entry under that namespaced key shadows the fallback.
pub proof fn law_namespaced_query_finds_cluster_entry(
    m: Map<ObjectRefView, ObjectView>,
    o: ObjectView,
    dt: TypeDescriptorView,
    ns: Seq<char>,
)
    requires
        o.namespace is None,
        !m.contains_key(
            ObjectRefView { dyntype: dt, name: o.name, namespace: Some(ns) },
        ),
    ensures
        scope_lookup(
            apply_to_map(m, EventView::Applied(o), dt),
            ObjectRefView { dyntype: dt, name: o.name, namespace: Some(ns) },
        ) == Some(o),
{
    let query = ObjectRefView { dyntype: dt, name: o.name, namespace: Some(ns) };
    assert(query.cluster_scoped() =~= key_of(o, dt));
}

/// Scope fallback, second half: a namespaced object `o`, once upserted, is
/// never found by a cluster-scoped query for the same name — there is no
/// fallback in that direction — unless the backing map itself holds a
/// cluster-scoped entry under that name.
pub proof fn law_cluster_query_ignores_namespaced_entry(
    m: Map<ObjectRefView, ObjectView>,
    o: ObjectView,
    dt: TypeDescriptorView,
)
    requires
        o.namespace is Some,
        !m.contains_key(ObjectRefView { dyntype: dt, name: o.name, namespace: None }),
    ensures
        scope_lookup(
            apply_to_map(m, EventView::Applied(o), dt),
            ObjectRefView { dyntype: dt, name: o.name, namespace: None },
        ) == None::<ObjectView>,
{
    let query = ObjectRefView { dyntype: dt, name: o.name, namespace: None };
    assert(query != key_of(o, dt));
}

/// Readiness release: after any applied event — the first one in particular —
/// the readiness flag is set, and every readiness check from then on
/// resolves successfully, whether or not the writer is still alive.
pub proof fn law_ready_after_apply(
    pre: CacheStateView,
    ev: EventView,
    dt: TypeDescriptorView,
    writer_alive: bool,
)
    ensures
        apply_transition(pre, ev, dt).ready,
        readiness_outcome(apply_transition(pre, ev, dt).ready, writer_alive) == Some(
            Ok::<(), crate::store::WriterDropped>(()),
        ),
{
}

/// Readiness abandonment: while no event has ever been applied, a readiness
/// check with the writer gone resolves with the abandonment error, and one
/// with the writer still alive keeps waiting.
pub proof fn law_abandoned_when_writer_gone(ready: bool)
    ensures
        !ready ==> readiness_outcome(ready, false) == Some(
            Err::<(), crate::store::WriterDropped>(crate::store::WriterDropped),
        ),
        !ready ==> readiness_outcome(ready, true) == None::<Result<(), crate::store::WriterDropped>>,
{
}

/// Find correctness: for a predicate that decides the point function `sat`,
/// any result `r` that meets the find contract ([`find_outcome`]) over the
/// snapshots `objs` is absent when nothing satisfies `sat`, and is exactly
/// the unique satisfying snapshot when there is exactly one.
pub proof fn law_find_determined<P: Fn(&Object) -> bool>(
    pred: P,
    objs: Seq<Object>,
    r: Option<Object>,
    sat: spec_fn(Object) -> bool,
)
    requires
        forall|o: Object, b: bool| #[trigger] pred.ensures((&o,), b) ==> b == sat(o),
        find_outcome(pred, r, objs),
    ensures
        (forall|i: int| 0 <= i < objs.len() ==> !sat(#[trigger] objs[i])) ==> r is None,
        forall|i: int|
            (0 <= i < objs.len() && sat(#[trigger] objs[i]) && (forall|j: int|
                0 <= j < objs.len() && j != i ==> !sat(#[trigger] objs[j]))) ==> r == Some(objs[i]),
{
    if r is Some {
        let witness = choose|i: int|
            0 <= i < objs.len() && r->Some_0 == #[trigger] objs[i] && pred.ensures(
                (&objs[i],),
                true,
            );
        assert(sat(objs[witness]));
    }
    assert forall|i: int|
        (0 <= i < objs.len() && sat(#[trigger] objs[i]) && (forall|j: int|
            0 <= j < objs.len() && j != i ==> !sat(#[trigger] objs[j]))) implies r == Some(
        objs[i],
    ) by {
        match r {
            Some(o) => {
                let witness = choose|w: int|
                    0 <= w < objs.len() && o == #[trigger] objs[w] && pred.ensures(
                        (&objs[w],),
                        true,
                    );
                assert(sat(objs[witness]));
                assert(witness == i);
            },
            None => {
                assert(pred.ensures((&objs[i],), false));
                assert(!sat(objs[i]));
            },
        }
    }
}

/// Entry-count dynamics: the count after an event is the count before, plus
/// one for an upsert under a fresh key, unchanged for an upsert under a
/// present key or a delete of an absent key, minus one for a delete of a
/// present key, and exactly the listing's length for a resync with pairwise
/// distinct computed keys.
pub proof fn law_len_dynamics(
    m: Map<ObjectRefView, ObjectView>,
    o: ObjectView,
    dt: TypeDescriptorView,
)
    requires
        m.dom().finite(),
    ensures
        !m.contains_key(key_of(o, dt)) ==> apply_to_map(
            m,
            EventView::Applied(o),
            dt,
        ).dom().len() == m.dom().len() + 1,
        m.contains_key(key_of(o, dt)) ==> apply_to_map(m, EventView::Applied(o), dt).dom().len()
            == m.dom().len(),
        m.contains_key(key_of(o, dt)) ==> apply_to_map(m, EventView::Deleted(o), dt).dom().len()
            == m.dom().len() - 1,
        !m.contains_key(key_of(o, dt)) ==> apply_to_map(m, EventView::Deleted(o), dt).dom().len()
            == m.dom().len(),
{
    let k = key_of(o, dt);
    assert(apply_to_map(m, EventView::Applied(o), dt).dom() =~= m.dom().insert(k));
    assert(apply_to_map(m, EventView::Deleted(o), dt).dom() =~= m.dom().remove(k));
    if m.contains_key(k) {
        assert(m.dom().insert(k) =~= m.dom());
    } else {
        assert(m.dom().remove(k) =~= m.dom());
    }
}

} // verus!
