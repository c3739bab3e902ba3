//! The writer and reader handles over a shared backing map, and the one-shot
//! readiness signal.
//!
//! The backing map and the readiness flag sit behind a reader-writer lock,
//! jointly owned by the one [`Writer`] and every [`Store`] derived from it.
//! Each operation takes the lock once, so it observes (or produces) one
//! point-in-time state; the contracts on [`crate::cache::CacheMap`] and
//! [`CacheState`] pin down exactly what happens to that state, and the
//! handle methods witness the state they acted on where they can.

use vstd::prelude::*;
use vstd::rwlock::{RwLock, RwLockPredicate};
use std::sync::Arc;
use std::sync::Weak;
use crate::cache::{find_outcome, list_to_map, listing_matches, map_has_value, scope_lookup, CacheMap};
use crate::event::{Event, EventView};
use crate::resource::{
    key_of, opt_object_view, Object, ObjectRef, ObjectRefView, ObjectView, TypeDescriptor,
    TypeDescriptorView,
};

verus! {

/// The marker whose lifetime tracks the writer: the writer owns the one
/// strong handle to it, and every reader holds a weak one, so once the
/// writer is gone, upgrading fails forever.
pub struct WriterToken {}

/// A reader's non-owning probe of the writer's lifetime.
///
/// Holds a `std::sync::Weak<WriterToken>`. The field stays opaque because
/// `Weak` cannot be declared to Verus here: naming its allocator parameter
/// needs an unstable feature.
#[verifier::external_body]
pub struct WriterProbe {
    weak: Weak<WriterToken>,
}

/// Relies on std::sync::Arc::downgrade: creates a non-owning handle to the
/// same allocation. Whether it can later be upgraded depends on when the
/// strong handles are dropped, so nothing is promised of it.
#[verifier::external_body]
fn probe_writer(token: &Arc<WriterToken>) -> WriterProbe {
    WriterProbe { weak: Arc::downgrade(token) }
}

/// Relies on std::sync::Weak::upgrade: it returns a strong handle while the
/// pointed-to value is still live, and `None` once every strong handle has
/// been dropped. The outcome depends on the runtime state of the other
/// handles, so nothing is promised of it.
#[verifier::external_body]
fn probe_upgrade(probe: &WriterProbe) -> Option<Arc<WriterToken>> {
    probe.weak.upgrade()
}

/// Relies on std::sync::Weak::clone: the clone observes the same allocation.
#[verifier::external_body]
fn clone_probe(probe: &WriterProbe) -> WriterProbe {
    WriterProbe { weak: probe.weak.clone() }
}

/// The state behind the lock: the backing map plus the readiness flag, which
/// is set by the first applied event and never cleared again.
pub struct CacheState {
    pub map: CacheMap,
    pub ready: bool,
}

/// The mathematical value of a [`CacheState`].
#[verifier::ext_equal]
pub struct CacheStateView {
    pub map: Map<ObjectRefView, ObjectView>,
    pub ready: bool,
}

impl View for CacheState {
    type V = CacheStateView;

    open spec fn view(&self) -> CacheStateView {
        CacheStateView { map: self.map@, ready: self.ready }
    }
}

impl CacheState {
    /// Well-formed: the backing map has unique keys.
    pub open spec fn wf(&self) -> bool {
        self.map.wf()
    }
}

/// What one event does to the backing map, keyed under `dt`: an upsert
/// inserts or overwrites, a delete removes (absent keys are a no-op), and a
/// resync replaces the whole contents with the listing.
pub open spec fn apply_to_map(
    m: Map<ObjectRefView, ObjectView>,
    ev: EventView,
    dt: TypeDescriptorView,
) -> Map<ObjectRefView, ObjectView> {
    match ev {
        EventView::Applied(o) => m.insert(key_of(o, dt), o),
        EventView::Deleted(o) => m.remove(key_of(o, dt)),
        EventView::Restarted(list) => list_to_map(list, dt),
    }
}

/// What one event does to the whole cache state: the map steps by
/// [`apply_to_map`] and the readiness flag is set (it stays set afterwards).
pub open spec fn apply_transition(
    pre: CacheStateView,
    ev: EventView,
    dt: TypeDescriptorView,
) -> CacheStateView {
    CacheStateView { map: apply_to_map(pre.map, ev, dt), ready: true }
}

impl CacheState {
    /// Applies one event to this state, keyed under `dt`.
    pub fn apply(&mut self, event: &Event, dt: &TypeDescriptor)
        requires
            old(self).wf(),
        ensures
            final(self).wf(),
            final(self)@ == apply_transition(old(self)@, event@, dt@),
    {
        let ghost pre = self@;
        match event {
            Event::Applied(obj) => {
                let key = ObjectRef::from_obj_with(obj, dt.clone());
                self.map.insert(key, obj.clone());
            },
            Event::Deleted(obj) => {
                let key = ObjectRef::from_obj_with(obj, dt.clone());
                self.map.remove(&key);
            },
            Event::Restarted(new_objs) => {
                self.map.replace_all(new_objs, dt);
            },
        }
        if !self.ready {
            self.ready = true;
        }
        proof {
            assert(self@ =~= apply_transition(pre, event@, dt@));
        }
    }
}

/// The lock invariant of the shared state: the backing map is well-formed.
pub struct WellFormed {}

impl RwLockPredicate<CacheState> for WellFormed {
    open spec fn inv(self, v: CacheState) -> bool {
        v.wf()
    }
}

/// Relies on std::sync::Arc::clone: the clone is another handle to the same
/// allocation, so it carries the same lock.
#[verifier::external_body]
fn clone_backing(a: &Arc<RwLock<CacheState, WellFormed>>) -> (r: Arc<
    RwLock<CacheState, WellFormed>,
>)
    ensures
        r == *a,
{
    Arc::clone(a)
}

/// The error returned by readiness checks when the writer was dropped before
/// any event was ever applied: nothing will ever feed this cache.
#[derive(Debug, Clone, Copy, PartialEq, Eq, Structural)]
pub struct WriterDropped;

impl WriterDropped {
    /// A human-readable description of the error.
    pub fn message(&self) -> (r: &'static str)
        ensures
            r@ == "writer was dropped before store became ready"@,
    {
        "writer was dropped before store became ready"
    }
}

/// What a readiness check returns, given the readiness flag and whether the
/// writer was still alive: a set flag means ready, an unset flag with a live
/// writer means keep waiting (`None`), and an unset flag with no writer left
/// means the signal was abandoned.
pub open spec fn readiness_outcome(ready: bool, writer_alive: bool) -> Option<
    Result<(), WriterDropped>,
> {
    if ready {
        Some(Ok(()))
    } else if writer_alive {
        None
    } else {
        Some(Err(WriterDropped))
    }
}

/// Decides a readiness check from the two observations.
fn decide_readiness(ready: bool, writer_alive: bool) -> (r: Option<Result<(), WriterDropped>>)
    ensures
        r == readiness_outcome(ready, writer_alive),
{
    if ready {
        Some(Ok(()))
    } else if writer_alive {
        None
    } else {
        Some(Err(WriterDropped))
    }
}

/// A writable handle to a cache.
///
/// This is the single mutation path: it is not cloneable, so exactly one
/// writer exists per cache, which keeps resyncs from clobbering each other
/// and keeps the readiness flag single-assignment.
pub struct Writer {
    shared: Arc<RwLock<CacheState, WellFormed>>,
    token: Arc<WriterToken>,
    dyntype: TypeDescriptor,
    init: Ghost<CacheStateView>,
}

/// A readable handle to a cache of resources.
///
/// Cloning produces a new handle to the same backing map. It cannot be
/// constructed directly, since one writer handle is required: use
/// [`Writer::as_reader`] instead.
pub struct Store {
    shared: Arc<RwLock<CacheState, WellFormed>>,
    token: WriterProbe,
}

impl Writer {
    /// The kind descriptor all entries are keyed under.
    pub closed spec fn descriptor(&self) -> TypeDescriptorView {
        self.dyntype@
    }

    /// The shared lock this handle mutates.
    pub closed spec fn backing(&self) -> Arc<RwLock<CacheState, WellFormed>> {
        self.shared
    }

    /// The state this writer's cache was constructed with, as deposited in
    /// the lock by [`Writer::new`].
    pub closed spec fn initial_state(&self) -> CacheStateView {
        self.init@
    }

    /// Creates a new writer with the given kind descriptor, over a fresh,
    /// empty backing map with the readiness flag unset.
    pub fn new(dyntype: TypeDescriptor) -> (r: Writer)
        ensures
            r.descriptor() == dyntype@,
            r.initial_state() == (CacheStateView {
                map: Map::<ObjectRefView, ObjectView>::empty(),
                ready: false,
            }),
    {
        let state = CacheState { map: CacheMap::new(), ready: false };
        let ghost init = state@;
        let r = Writer {
            shared: Arc::new(RwLock::new(state, Ghost(WellFormed {}))),
            token: Arc::new(WriterToken {}),
            dyntype,
            init: Ghost(init),
        };
        proof {
            assert(r.initial_state() =~= CacheStateView {
                map: Map::<ObjectRefView, ObjectView>::empty(),
                ready: false,
            });
        }
        r
    }

    /// Returns a read handle bound to the same backing map and readiness
    /// flag. May be called any number of times; all resulting handles are
    /// equivalent, and further ones can be had from `Store::clone`.
    pub fn as_reader(&self) -> (r: Store)
        ensures
            r.backing() == self.backing(),
    {
        Store { shared: clone_backing(&self.shared), token: probe_writer(&self.token) }
    }

    /// Applies a single watcher event to the backing map and sets the
    /// readiness flag.
    ///
    /// The returned ghost pair witnesses the one atomic transition performed
    /// under the write lock: the state found there, and the state left
    /// behind, which is exactly [`apply_transition`] of the two.
    pub fn apply_watcher_event(&mut self, event: &Event) -> (t: Ghost<
        (CacheStateView, CacheStateView),
    >)
        ensures
            final(self).descriptor() == old(self).descriptor(),
            final(self).backing() == old(self).backing(),
            final(self).initial_state() == old(self).initial_state(),
            t@.1 == apply_transition(t@.0, event@, old(self).descriptor()),
    {
        let (mut state, write_handle) = self.shared.acquire_write();
        let ghost pre = state@;
        state.apply(event, &self.dyntype);
        let ghost post = state@;
        write_handle.release_write(state);
        Ghost((pre, post))
    }
}

impl Default for Writer {
    /// A writer keyed under the default descriptor, for resource kinds whose
    /// descriptor is naturally defaultable.
    fn default() -> (r: Self)
        ensures
            r.descriptor().api_group == Seq::<char>::empty(),
            r.descriptor().kind == Seq::<char>::empty(),
            r.initial_state() == (CacheStateView {
                map: Map::<ObjectRefView, ObjectView>::empty(),
                ready: false,
            }),
    {
        Writer::new(TypeDescriptor::default())
    }
}

impl Clone for Store {
    /// Another handle to the identical backing map and readiness flag: a
    /// cheap reference copy, not a copy of the cache.
    fn clone(&self) -> (r: Self)
        ensures
            r.backing() == self.backing(),
    {
        Store { shared: clone_backing(&self.shared), token: clone_probe(&self.token) }
    }
}

impl Store {
    /// The shared lock this handle reads.
    pub closed spec fn backing(&self) -> Arc<RwLock<CacheState, WellFormed>> {
        self.shared
    }

    /// The snapshot stored under `key` in the point-in-time state observed
    /// under the read lock, looked up with the scope-aware fallback of
    /// [`scope_lookup`]: `key.namespace` is ignored for cluster-scoped
    /// entries. The returned ghost map witnesses that state's contents.
    ///
    /// This is a cache and may be stale: deleted objects may still be
    /// returned, and new objects may not be present yet.
    pub fn get(&self, key: &ObjectRef) -> (r: (Option<Object>, Ghost<
        Map<ObjectRefView, ObjectView>,
    >))
        ensures
            opt_object_view(r.0) == scope_lookup(r.1@, key@),
    {
        let read_handle = self.shared.acquire_read();
        let state = read_handle.borrow();
        let found = state.map.get_scoped(key);
        let ghost snapshot = state.map@;
        read_handle.release_read();
        (found, Ghost(snapshot))
    }

    /// Owned copies of all entries in the point-in-time state observed under
    /// the read lock.
    ///
    /// The returned ghost pair witnesses that state's contents twice over:
    /// as the unique-keyed entry sequence, which the listing copies value
    /// for value ([`listing_matches`] — so the listing repeats or drops
    /// nothing), and as the denoted map, with exactly one listed value per
    /// key.
    pub fn state(&self) -> (r: (Vec<Object>, Ghost<
        (Seq<(ObjectRefView, ObjectView)>, Map<ObjectRefView, ObjectView>),
    >))
        ensures
            listing_matches(r.1@.0, r.1@.1, r.0@),
            r.0@.len() == r.1@.1.dom().len(),
            forall|i: int| 0 <= i < r.0@.len() ==> map_has_value(r.1@.1, (#[trigger] r.0@[i])@),
            forall|k: ObjectRefView| #[trigger] r.1@.1.contains_key(k) ==> exists|i: int|
                0 <= i < r.0@.len() && (#[trigger] r.0@[i])@ == r.1@.1[k],
    {
        let read_handle = self.shared.acquire_read();
        let state = read_handle.borrow();
        let listing = state.map.values();
        let ghost entries = state.map.entry_seq();
        let ghost snapshot = state.map@;
        proof {
            state.map.lemma_objects_complete();
            assert forall|i: int| 0 <= i < listing@.len() implies map_has_value(
                snapshot,
                (#[trigger] listing@[i])@,
            ) by {
                assert(snapshot.contains_pair(
                    state.map.entry_seq()[i].0,
                    state.map.objects()[i]@,
                ));
            }
            state.map.lemma_entry_views();
        }
        read_handle.release_read();
        (listing, Ghost((entries, snapshot)))
    }

    /// The first entry, in unspecified order, of the point-in-time state
    /// observed under the read lock whose value satisfies `predicate`;
    /// absent when none does. When several entries satisfy it, which one is
    /// returned is unspecified: callers needing determinism must supply a
    /// predicate matching at most one entry.
    ///
    /// The returned ghost sequence witnesses the snapshots searched: a hit
    /// is one of them and satisfied the predicate, and a miss means the
    /// predicate held of none of them.
    pub fn find<P: Fn(&Object) -> bool>(&self, predicate: P) -> (r: (Option<Object>, Ghost<
        Seq<Object>,
    >))
        requires
            forall|o: Object| #[trigger] predicate.requires((&o,)),
        ensures
            find_outcome(predicate, r.0, r.1@),
    {
        let read_handle = self.shared.acquire_read();
        let state = read_handle.borrow();
        let ghost snapshot = state.map.objects();
        let found = state.map.find_first(predicate);
        read_handle.release_read();
        (found, Ghost(snapshot))
    }

    /// The number of entries in the point-in-time state observed under the
    /// read lock.
    pub fn len(&self) -> (r: (usize, Ghost<Map<ObjectRefView, ObjectView>>))
        ensures
            r.0 == r.1@.dom().len(),
    {
        let read_handle = self.shared.acquire_read();
        let state = read_handle.borrow();
        let n = state.map.len();
        let ghost snapshot = state.map@;
        read_handle.release_read();
        (n, Ghost(snapshot))
    }

    /// Whether the point-in-time state observed under the read lock holds no
    /// entry.
    pub fn is_empty(&self) -> (r: (bool, Ghost<Map<ObjectRefView, ObjectView>>))
        ensures
            r.0 == (r.1@.dom().len() == 0),
    {
        let read_handle = self.shared.acquire_read();
        let state = read_handle.borrow();
        let empty = state.map.is_empty();
        let ghost snapshot = state.map@;
        read_handle.release_read();
        (empty, Ghost(snapshot))
    }

    /// One readiness check: `Some(Ok(()))` once the first event has been
    /// applied, `Some(Err(WriterDropped))` once the writer has been dropped
    /// without ever applying one, and `None` while neither has happened yet.
    ///
    /// The writer is probed before the flag is read: if the probe already
    /// fails, the flag can no longer change, so the answer is settled either
    /// way; if the probe succeeds and the flag is unset, waiting is the only
    /// honest answer. A caller that wants to block simply calls this in a
    /// retry loop; suspension belongs to the caller, not to the cache.
    ///
    /// The returned ghost pair witnesses the two observations: the flag as
    /// read under the lock, and whether the writer was alive at the probe.
    pub fn check_ready(&self) -> (r: (Option<Result<(), WriterDropped>>, Ghost<(bool, bool)>))
        ensures
            r.0 == readiness_outcome(r.1@.0, r.1@.1),
    {
        let writer_alive = probe_upgrade(&self.token).is_some();
        let read_handle = self.shared.acquire_read();
        let ready = read_handle.borrow().ready;
        read_handle.release_read();
        (decide_readiness(ready, writer_alive), Ghost((ready, writer_alive)))
    }
}

/// Creates a connected reader and writer pair over one fresh cache, keyed
/// under the default descriptor.
///
/// The writer should be handed to the event source; the reader is the
/// read-only handle.
pub fn store() -> (r: (Store, Writer))
    ensures
        r.0.backing() == r.1.backing(),
        r.1.descriptor().api_group == Seq::<char>::empty(),
        r.1.descriptor().kind == Seq::<char>::empty(),
        r.1.initial_state() == (CacheStateView {
            map: Map::<ObjectRefView, ObjectView>::empty(),
            ready: false,
        }),
{
    let w = Writer::default();
    let r = w.as_reader();
    (r, w)
}

} // verus!
