//! The backing map: a keyed collection of resource snapshots with unique
//! keys, modelled as a mathematical map from key values to object values.

use vstd::prelude::*;
use crate::resource::{
    key_of, opt_object_view, Object, ObjectRef, ObjectRefView, ObjectView, TypeDescriptor,
    TypeDescriptorView,
};

verus! {

/// The scope-aware lookup: an exact match is tried first; if none is found
/// and the key carries a namespace, the key with the namespace cleared is
/// tried second. A key without a namespace gets no second attempt, so a
/// cluster-scoped query never resolves to a namespaced entry.
pub open spec fn scope_lookup(m: Map<ObjectRefView, ObjectView>, key: ObjectRefView) -> Option<
    ObjectView,
> {
    if m.contains_key(key) {
        Some(m[key])
    } else if key.namespace is Some && m.contains_key(key.cluster_scoped()) {
        Some(m[key.cluster_scoped()])
    } else {
        None
    }
}

/// Some key of `m` maps to the value `v`.
pub open spec fn map_has_value(m: Map<ObjectRefView, ObjectView>, v: ObjectView) -> bool {
    exists|k: ObjectRefView| #[trigger] m.contains_pair(k, v)
}

/// What a completed search over the snapshots `snap` may return: a hit is
/// one of the snapshots and satisfied the predicate; a miss means the
/// predicate held of none of them.
pub open spec fn find_outcome<P: Fn(&Object) -> bool>(
    pred: P,
    r: Option<Object>,
    snap: Seq<Object>,
) -> bool {
    match r {
        Some(o) => exists|i: int|
            0 <= i < snap.len() && o == #[trigger] snap[i] && pred.ensures((&snap[i],), true),
        None => forall|i: int|
            0 <= i < snap.len() ==> pred.ensures((&(#[trigger] snap[i]),), false),
    }
}

/// The listing `objs` is exactly, entry for entry, the values of the entry
/// sequence `entries`, whose keys are unique and which denotes the map `m`.
pub open spec fn listing_matches(
    entries: Seq<(ObjectRefView, ObjectView)>,
    m: Map<ObjectRefView, ObjectView>,
    objs: Seq<Object>,
) -> bool {
    &&& unique_keys(entries)
    &&& m == seq_to_map(entries)
    &&& objs.len() == entries.len()
    &&& forall|i: int| 0 <= i < objs.len() ==> (#[trigger] objs[i])@ == entries[i].1
}

/// The mathematical map built from a full resource listing: one entry per
/// listed object, keyed under `dt`; on key collisions the later object wins.
pub open spec fn list_to_map(objs: Seq<ObjectView>, dt: TypeDescriptorView) -> Map<
    ObjectRefView,
    ObjectView,
>
    decreases objs.len(),
{
    if objs.len() == 0 {
        Map::empty()
    } else {
        list_to_map(objs.drop_last(), dt).insert(key_of(objs.last(), dt), objs.last())
    }
}

/// The key sides of a sequence of entries.
pub open spec fn keys_of(s: Seq<(ObjectRefView, ObjectView)>) -> Seq<ObjectRefView> {
    s.map_values(|p: (ObjectRefView, ObjectView)| p.0)
}

/// No two entries share a key.
pub open spec fn unique_keys(s: Seq<(ObjectRefView, ObjectView)>) -> bool {
    forall|i: int, j: int|
        0 <= i < j < s.len() ==> (#[trigger] s[i]).0 != (#[trigger] s[j]).0
}

/// The mathematical map denoted by a sequence of entries; on duplicate keys
/// the later entry wins.
pub open spec fn seq_to_map(s: Seq<(ObjectRefView, ObjectView)>) -> Map<
    ObjectRefView,
    ObjectView,
>
    decreases s.len(),
{
    if s.len() == 0 {
        Map::empty()
    } else {
        seq_to_map(s.drop_last()).insert(s.last().0, s.last().1)
    }
}

/// A key is in the map exactly when some entry carries it.
pub proof fn lemma_seq_to_map_contains(s: Seq<(ObjectRefView, ObjectView)>, k: ObjectRefView)
    ensures
        seq_to_map(s).contains_key(k) <==> exists|i: int| 0 <= i < s.len() && (#[trigger] s[i]).0
            == k,
    decreases s.len(),
{
    if s.len() > 0 {
        lemma_seq_to_map_contains(s.drop_last(), k);
        if s.last().0 == k {
            assert(s[s.len() - 1].0 == k);
        } else if seq_to_map(s).contains_key(k) {
            let i = choose|i: int| 0 <= i < s.drop_last().len() && (#[trigger] s.drop_last()[i]).0
                == k;
            assert(s[i].0 == k);
        } else {
            assert(forall|i: int|
                0 <= i < s.len() - 1 ==> (#[trigger] s[i]) == s.drop_last()[i]);
        }
    }
}

/// The domain of the denoted map is finite.
pub proof fn lemma_seq_to_map_finite(s: Seq<(ObjectRefView, ObjectView)>)
    ensures
        seq_to_map(s).dom().finite(),
    decreases s.len(),
{
    if s.len() > 0 {
        lemma_seq_to_map_finite(s.drop_last());
    }
}

/// With unique keys, each entry is in the denoted map unchanged.
pub proof fn lemma_seq_to_map_index(s: Seq<(ObjectRefView, ObjectView)>, i: int)
    requires
        unique_keys(s),
        0 <= i < s.len(),
    ensures
        seq_to_map(s).contains_key(s[i].0),
        seq_to_map(s)[s[i].0] == s[i].1,
    decreases s.len(),
{
    if i == s.len() - 1 {
    } else {
        assert(unique_keys(s.drop_last())) by {
            assert(forall|i: int|
                0 <= i < s.len() - 1 ==> (#[trigger] s.drop_last()[i]) == s[i]);
        }
        lemma_seq_to_map_index(s.drop_last(), i);
        assert(s.drop_last()[i] == s[i]);
        assert(s[i].0 != s.last().0);
    }
}

/// With unique keys, the denoted map has exactly one entry per list element.
pub proof fn lemma_seq_to_map_len(s: Seq<(ObjectRefView, ObjectView)>)
    requires
        unique_keys(s),
    ensures
        seq_to_map(s).dom().len() == s.len(),
    decreases s.len(),
{
    if s.len() > 0 {
        assert(unique_keys(s.drop_last())) by {
            assert(forall|i: int|
                0 <= i < s.len() - 1 ==> (#[trigger] s.drop_last()[i]) == s[i]);
        }
        lemma_seq_to_map_len(s.drop_last());
        lemma_seq_to_map_finite(s.drop_last());
        lemma_seq_to_map_contains(s.drop_last(), s.last().0);
        assert(!seq_to_map(s.drop_last()).contains_key(s.last().0)) by {
            if exists|i: int| 0 <= i < s.drop_last().len() && (#[trigger] s.drop_last()[i]).0
                == s.last().0 {
                let i = choose|i: int|
                    0 <= i < s.drop_last().len() && (#[trigger] s.drop_last()[i]).0 == s.last().0;
                assert(s[i].0 == s.last().0);
                assert(s[i].0 != s[s.len() - 1].0);
            }
        }
    }
}

/// Appending an entry inserts it into the denoted map.
pub proof fn lemma_seq_to_map_push(
    s: Seq<(ObjectRefView, ObjectView)>,
    k: ObjectRefView,
    v: ObjectView,
)
    ensures
        seq_to_map(s.push((k, v))) == seq_to_map(s).insert(k, v),
{
    assert(s.push((k, v)).drop_last() =~= s);
}

/// Removing the entry at `i` removes its key from the denoted map.
pub proof fn lemma_seq_to_map_remove(s: Seq<(ObjectRefView, ObjectView)>, i: int)
    requires
        unique_keys(s),
        0 <= i < s.len(),
    ensures
        seq_to_map(s.remove(i)) == seq_to_map(s).remove(s[i].0),
    decreases s.len(),
{
    assert(unique_keys(s.drop_last())) by {
        assert(forall|i: int| 0 <= i < s.len() - 1 ==> (#[trigger] s.drop_last()[i]) == s[i]);
    }
    if i == s.len() - 1 {
        assert(s.remove(i) =~= s.drop_last());
        lemma_seq_to_map_contains(s.drop_last(), s[i].0);
        assert(!seq_to_map(s.drop_last()).contains_key(s[i].0)) by {
            if exists|j: int| 0 <= j < s.drop_last().len() && (#[trigger] s.drop_last()[j]).0
                == s[i].0 {
                let j = choose|j: int|
                    0 <= j < s.drop_last().len() && (#[trigger] s.drop_last()[j]).0 == s[i].0;
                assert(s[j].0 == s[i].0);
            }
        }
        assert(seq_to_map(s).remove(s[i].0) =~= seq_to_map(s.drop_last()));
    } else {
        lemma_seq_to_map_remove(s.drop_last(), i);
        assert(s.remove(i).drop_last() =~= s.drop_last().remove(i));
        assert(s.remove(i).last() == s.last());
        assert(s[i].0 != s.last().0);
        assert(seq_to_map(s.remove(i)) =~= seq_to_map(s).remove(s[i].0));
    }
}

/// A key is in the listing's map exactly when some listed object computes it.
pub proof fn lemma_list_to_map_contains(
    objs: Seq<ObjectView>,
    dt: TypeDescriptorView,
    k: ObjectRefView,
)
    ensures
        list_to_map(objs, dt).contains_key(k) <==> exists|i: int|
            0 <= i < objs.len() && key_of(#[trigger] objs[i], dt) == k,
    decreases objs.len(),
{
    if objs.len() > 0 {
        lemma_list_to_map_contains(objs.drop_last(), dt, k);
        if key_of(objs.last(), dt) == k {
            assert(key_of(objs[objs.len() - 1], dt) == k);
        } else if list_to_map(objs, dt).contains_key(k) {
            let i = choose|i: int|
                0 <= i < objs.drop_last().len() && key_of(#[trigger] objs.drop_last()[i], dt) == k;
            assert(key_of(objs[i], dt) == k);
        } else {
            assert(forall|i: int|
                0 <= i < objs.len() - 1 ==> #[trigger] objs[i] == objs.drop_last()[i]);
        }
    }
}

/// Every entry of the listing's map is a listed object under its computed
/// key.
pub proof fn lemma_list_to_map_value(objs: Seq<ObjectView>, dt: TypeDescriptorView, k: ObjectRefView)
    requires
        list_to_map(objs, dt).contains_key(k),
    ensures
        exists|i: int|
            0 <= i < objs.len() && key_of(#[trigger] objs[i], dt) == k && list_to_map(objs, dt)[k]
                == objs[i],
    decreases objs.len(),
{
    if objs.len() > 0 {
        if key_of(objs.last(), dt) == k {
            assert(key_of(objs[objs.len() - 1], dt) == k && list_to_map(objs, dt)[k]
                == objs[objs.len() - 1]);
        } else {
            lemma_list_to_map_value(objs.drop_last(), dt, k);
            let i = choose|i: int|
                0 <= i < objs.drop_last().len() && key_of(#[trigger] objs.drop_last()[i], dt) == k
                    && list_to_map(objs.drop_last(), dt)[k] == objs.drop_last()[i];
            assert(key_of(objs[i], dt) == k && list_to_map(objs, dt)[k] == objs[i]);
        }
    }
}

/// The domain of the listing's map is finite.
pub proof fn lemma_list_to_map_finite(objs: Seq<ObjectView>, dt: TypeDescriptorView)
    ensures
        list_to_map(objs, dt).dom().finite(),
    decreases objs.len(),
{
    if objs.len() > 0 {
        lemma_list_to_map_finite(objs.drop_last(), dt);
    }
}

/// When the listed objects compute pairwise distinct keys, the listing's map
/// has exactly one entry per listed object.
pub proof fn lemma_list_to_map_len(objs: Seq<ObjectView>, dt: TypeDescriptorView)
    requires
        forall|i: int, j: int|
            0 <= i < j < objs.len() ==> key_of(#[trigger] objs[i], dt) != key_of(
                #[trigger] objs[j],
                dt,
            ),
    ensures
        list_to_map(objs, dt).dom().len() == objs.len(),
    decreases objs.len(),
{
    if objs.len() > 0 {
        assert(forall|i: int| 0 <= i < objs.len() - 1 ==> #[trigger] objs.drop_last()[i] == objs[i]);
        lemma_list_to_map_len(objs.drop_last(), dt);
        lemma_list_to_map_finite(objs.drop_last(), dt);
        lemma_list_to_map_contains(objs.drop_last(), dt, key_of(objs.last(), dt));
        assert(!list_to_map(objs.drop_last(), dt).contains_key(key_of(objs.last(), dt))) by {
            if exists|i: int|
                0 <= i < objs.drop_last().len() && key_of(#[trigger] objs.drop_last()[i], dt)
                    == key_of(objs.last(), dt) {
                let i = choose|i: int|
                    0 <= i < objs.drop_last().len() && key_of(#[trigger] objs.drop_last()[i], dt)
                        == key_of(objs.last(), dt);
                assert(key_of(objs[i], dt) == key_of(objs[objs.len() - 1], dt));
            }
        }
    }
}

/// A keyed collection of resource snapshots. Keys are unique; its value as a
/// mathematical map is the view.
pub struct CacheMap {
    entries: Vec<(ObjectRef, Object)>,
}

impl View for CacheMap {
    type V = Map<ObjectRefView, ObjectView>;

    closed spec fn view(&self) -> Map<ObjectRefView, ObjectView> {
        seq_to_map(self.entry_seq())
    }
}

impl CacheMap {
    /// The entries as a sequence of key and object values, in storage order.
    pub closed spec fn entry_seq(&self) -> Seq<(ObjectRefView, ObjectView)> {
        self.entries@.map_values(|p: (ObjectRef, Object)| (p.0@, p.1@))
    }

    /// The stored snapshots, in storage order.
    pub closed spec fn objects(&self) -> Seq<Object> {
        self.entries@.map_values(|p: (ObjectRef, Object)| p.1)
    }

    /// Well-formed: no two entries share a key.
    pub open spec fn wf(&self) -> bool {
        unique_keys(self.entry_seq())
    }

    /// The stored snapshots are, entry for entry, the values of the entry
    /// sequence, and the map is the one the entry sequence denotes.
    pub proof fn lemma_entry_views(&self)
        ensures
            self@ == seq_to_map(self.entry_seq()),
            self.objects().len() == self.entry_seq().len(),
            forall|i: int|
                0 <= i < self.objects().len() ==> (#[trigger] self.objects()[i])@
                    == self.entry_seq()[i].1,
    {
        assert forall|i: int| 0 <= i < self.objects().len() implies (
        #[trigger] self.objects()[i])@ == self.entry_seq()[i].1 by {
            assert(self.objects()[i] == self.entries@[i].1);
            assert(self.entry_seq()[i] == (self.entries@[i].0@, self.entries@[i].1@));
        }
    }

    /// The stored snapshots denote exactly the values of the map.
    pub proof fn lemma_objects_complete(&self)
        requires
            self.wf(),
        ensures
            self.objects().len() == self@.dom().len(),
            forall|i: int|
                0 <= i < self.objects().len() ==> #[trigger] self@.contains_pair(
                    self.entry_seq()[i].0,
                    self.objects()[i]@,
                ),
            forall|k: ObjectRefView| #[trigger] self@.contains_key(k) ==> exists|i: int|
                0 <= i < self.objects().len() && self.entry_seq()[i].0 == k && (
                #[trigger] self.objects()[i])@ == self@[k],
    {
        lemma_seq_to_map_len(self.entry_seq());
        assert forall|i: int| 0 <= i < self.objects().len() implies #[trigger] self@.contains_pair(
            self.entry_seq()[i].0,
            self.objects()[i]@,
        ) by {
            lemma_seq_to_map_index(self.entry_seq(), i);
        }
        assert forall|k: ObjectRefView| #[trigger] self@.contains_key(k) implies exists|i: int|
            0 <= i < self.objects().len() && self.entry_seq()[i].0 == k && (
            #[trigger] self.objects()[i])@ == self@[k] by {
            lemma_seq_to_map_contains(self.entry_seq(), k);
            let i = choose|i: int|
                0 <= i < self.entry_seq().len() && (#[trigger] self.entry_seq()[i]).0 == k;
            lemma_seq_to_map_index(self.entry_seq(), i);
            assert(self.objects()[i]@ == self.entry_seq()[i].1);
        }
    }

    /// Creates an empty map.
    pub fn new() -> (r: CacheMap)
        ensures
            r.wf(),
            r@ == Map::<ObjectRefView, ObjectView>::empty(),
            r.objects() == Seq::<Object>::empty(),
    {
        let r = CacheMap { entries: Vec::new() };
        proof {
            assert(r.entry_seq() =~= Seq::<(ObjectRefView, ObjectView)>::empty());
            assert(r.objects() =~= Seq::<Object>::empty());
        }
        r
    }

    /// The position of the entry carrying `key`, if any.
    fn index_of(&self, key: &ObjectRef) -> (r: Option<usize>)
        ensures
            match r {
                Some(i) => i < self.entry_seq().len() && self.entry_seq()[i as int].0 == key@,
                None => forall|i: int|
                    0 <= i < self.entry_seq().len() ==> (#[trigger] self.entry_seq()[i]).0 != key@,
            },
    {
        let n = self.entries.len();
        let mut i: usize = 0;
        while i < n
            invariant
                n == self.entries.len(),
                i <= n,
                forall|j: int| 0 <= j < i ==> (#[trigger] self.entry_seq()[j]).0 != key@,
            decreases n - i,
        {
            if self.entries[i].0.equals(key) {
                assert(self.entry_seq()[i as int].0 == key@);
                return Some(i);
            }
            i += 1;
        }
        None
    }

    /// Inserts or overwrites the entry for `key`, unconditionally.
    pub fn insert(&mut self, key: ObjectRef, value: Object)
        requires
            old(self).wf(),
        ensures
            final(self).wf(),
            final(self)@ == old(self)@.insert(key@, value@),
    {
        let ghost s0 = self.entry_seq();
        match self.index_of(&key) {
            Some(i) => {
                let _ = self.entries.remove(i);
                proof {
                    assert(self.entry_seq() =~= s0.remove(i as int));
                    lemma_seq_to_map_remove(s0, i as int);
                    assert(unique_keys(s0.remove(i as int))) by {
                        assert(forall|j: int|
                            0 <= j < s0.remove(i as int).len() ==> (#[trigger] s0.remove(
                                i as int,
                            )[j]) == if j < i { s0[j] } else {
                                s0[j + 1]
                            });
                    }
                }
                let ghost s1 = self.entry_seq();
                self.entries.push((key, value));
                proof {
                    assert(self.entry_seq() =~= s1.push((key@, value@)));
                    lemma_seq_to_map_push(s1, key@, value@);
                    assert(self@ =~= seq_to_map(s0).insert(key@, value@));
                    assert(forall|j: int|
                        0 <= j < s1.len() ==> (#[trigger] s1[j]).0 != key@) by {
                        assert(forall|j: int|
                            0 <= j < s1.len() ==> #[trigger] s1[j] == if j < i { s0[j] } else {
                                s0[j + 1]
                            });
                    }
                    assert forall|p: int, q: int|
                        0 <= p < q < self.entry_seq().len() implies (
                    #[trigger] self.entry_seq()[p]).0 != (#[trigger] self.entry_seq()[q]).0 by {
                        assert(self.entry_seq()[p] == s1.push((key@, value@))[p]);
                        assert(self.entry_seq()[q] == s1.push((key@, value@))[q]);
                        if q < self.entry_seq().len() - 1 {
                            assert(s1.push((key@, value@))[q] == s1[q]);
                        }
                    }
                }
            },
            None => {
                self.entries.push((key, value));
                proof {
                    assert(self.entry_seq() =~= s0.push((key@, value@)));
                    lemma_seq_to_map_push(s0, key@, value@);
                    assert forall|p: int, q: int|
                        0 <= p < q < self.entry_seq().len() implies (
                    #[trigger] self.entry_seq()[p]).0 != (#[trigger] self.entry_seq()[q]).0 by {
                        assert(self.entry_seq()[p] == s0.push((key@, value@))[p]);
                        assert(self.entry_seq()[q] == s0.push((key@, value@))[q]);
                        if q < self.entry_seq().len() - 1 {
                            assert(s0.push((key@, value@))[q] == s0[q]);
                        }
                    }
                }
            },
        }
    }

    /// Removes the entry for `key`; removing an absent key is a no-op.
    pub fn remove(&mut self, key: &ObjectRef)
        requires
            old(self).wf(),
        ensures
            final(self).wf(),
            final(self)@ == old(self)@.remove(key@),
    {
        let ghost s0 = self.entry_seq();
        match self.index_of(key) {
            Some(i) => {
                let _ = self.entries.remove(i);
                proof {
                    assert(self.entry_seq() =~= s0.remove(i as int));
                    lemma_seq_to_map_remove(s0, i as int);
                    assert(unique_keys(s0.remove(i as int))) by {
                        assert(forall|j: int|
                            0 <= j < s0.remove(i as int).len() ==> (#[trigger] s0.remove(
                                i as int,
                            )[j]) == if j < i { s0[j] } else {
                                s0[j + 1]
                            });
                    }
                }
            },
            None => {
                proof {
                    lemma_seq_to_map_contains(s0, key@);
                    assert(self@ =~= seq_to_map(s0).remove(key@));
                }
            },
        }
    }

    /// The snapshot stored under exactly `key`, if any.
    pub fn get(&self, key: &ObjectRef) -> (r: Option<&Object>)
        requires
            self.wf(),
        ensures
            match r {
                Some(o) => self@.contains_key(key@) && o@ == self@[key@],
                None => !self@.contains_key(key@),
            },
    {
        match self.index_of(key) {
            Some(i) => {
                proof {
                    lemma_seq_to_map_index(self.entry_seq(), i as int);
                }
                Some(&self.entries[i].1)
            },
            None => {
                proof {
                    lemma_seq_to_map_contains(self.entry_seq(), key@);
                }
                None
            },
        }
    }

    /// The number of entries.
    pub fn len(&self) -> (r: usize)
        requires
            self.wf(),
        ensures
            r == self@.dom().len(),
    {
        proof {
            lemma_seq_to_map_len(self.entry_seq());
        }
        self.entries.len()
    }

    /// Whether the map holds no entry.
    pub fn is_empty(&self) -> (r: bool)
        requires
            self.wf(),
        ensures
            r == (self@.dom().len() == 0),
    {
        proof {
            lemma_seq_to_map_len(self.entry_seq());
        }
        self.entries.is_empty()
    }

    /// The snapshot for `key` under the scope-aware lookup of
    /// [`scope_lookup`], as an owned copy.
    pub fn get_scoped(&self, key: &ObjectRef) -> (r: Option<Object>)
        requires
            self.wf(),
        ensures
            opt_object_view(r) == scope_lookup(self@, key@),
    {
        match self.get(key) {
            Some(o) => Some(o.clone()),
            None => {
                if key.namespace.is_some() {
                    let cluster_key = key.to_cluster_scoped();
                    match self.get(&cluster_key) {
                        Some(o) => Some(o.clone()),
                        None => None,
                    }
                } else {
                    None
                }
            },
        }
    }

    /// Owned copies of all stored snapshots, in storage order.
    pub fn values(&self) -> (r: Vec<Object>)
        ensures
            r@ == self.objects(),
    {
        let mut out: Vec<Object> = Vec::new();
        let n = self.entries.len();
        let mut i: usize = 0;
        while i < n
            invariant
                n == self.entries.len(),
                i <= n,
                out@ =~= self.objects().take(i as int),
            decreases n - i,
        {
            out.push(self.entries[i].1.clone());
            proof {
                assert(self.objects().take(i + 1).drop_last() =~= self.objects().take(i as int));
                assert(out@ =~= self.objects().take(i + 1));
            }
            i += 1;
        }
        proof {
            assert(self.objects().take(n as int) =~= self.objects());
        }
        out
    }

    /// The first stored snapshot satisfying `pred`, in storage order, as an
    /// owned copy; absent when none does. Which entry is first is not part of
    /// the map's mathematical value, so callers that need determinism must
    /// supply a predicate matching at most one entry.
    pub fn find_first<P: Fn(&Object) -> bool>(&self, pred: P) -> (r: Option<Object>)
        requires
            forall|o: Object| #[trigger] pred.requires((&o,)),
        ensures
            find_outcome(pred, r, self.objects()),
    {
        let n = self.entries.len();
        let mut i: usize = 0;
        while i < n
            invariant
                n == self.entries.len(),
                i <= n,
                forall|o: Object| #[trigger] pred.requires((&o,)),
                forall|j: int|
                    0 <= j < i ==> pred.ensures((&(#[trigger] self.objects()[j]),), false),
            decreases n - i,
        {
            let hit = pred(&self.entries[i].1);
            proof {
                assert(self.objects()[i as int] == self.entries@[i as int].1);
            }
            if hit {
                return Some(self.entries[i].1.clone());
            }
            i += 1;
        }
        None
    }

    /// Replaces the entire contents with a fresh mapping built from `list`,
    /// keyed under `dt`, regardless of what was stored before.
    pub fn replace_all(&mut self, list: &Vec<Object>, dt: &TypeDescriptor)
        ensures
            final(self).wf(),
            final(self)@ == list_to_map(list@.map_values(|o: Object| o@), dt@),
    {
        let ghost lv = list@.map_values(|o: Object| o@);
        let mut fresh = CacheMap::new();
        let n = list.len();
        let mut i: usize = 0;
        while i < n
            invariant
                n == list.len(),
                i <= n,
                lv == list@.map_values(|o: Object| o@),
                fresh.wf(),
                fresh@ == list_to_map(lv.take(i as int), dt@),
            decreases n - i,
        {
            let key = ObjectRef::from_obj_with(&list[i], dt.clone());
            fresh.insert(key, list[i].clone());
            proof {
                assert(lv.take(i + 1).drop_last() =~= lv.take(i as int));
                assert(lv.take(i + 1).last() == lv[i as int]);
            }
            i += 1;
        }
        proof {
            assert(lv.take(n as int) =~= lv);
        }
        *self = fresh;
    }
}

} // verus!
