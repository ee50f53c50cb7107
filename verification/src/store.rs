//! The pending-metadata store: side data kept under a correlation id from
//! the moment a record is dispatched until its result is handed out.

use fnv::{FnvHashMap, FnvHasher};
use std::hash::BuildHasherDefault;
use vstd::prelude::*;

verus! {

/// `fnv::FnvHasher`: the hasher of the store's map.
#[verifier::external_type_specification]
#[verifier::external_body]
pub struct ExFnvHasher(FnvHasher);

/// `std::hash::BuildHasherDefault`: what makes the map's hashers.
#[verifier::external_type_specification]
#[verifier::external_body]
#[verifier::reject_recursive_types(H)]
pub struct ExBuildHasherDefault<H>(BuildHasherDefault<H>);

/// `FnvHashMap::default`: a map that hashes with FNV. Claimed: it has no
/// entries.
#[verifier::external_body]
fn fnv_map_new<V>() -> (map: FnvHashMap<usize, V>)
    ensures
        map@.dom() == Set::<usize>::empty(),
{
    FnvHashMap::default()
}

/// `HashMap::insert` on a map that hashes with FNV. Claimed: the key maps
/// to the new value afterwards, and every other key is as before. The hasher
/// is seeded by a constant, so equal keys always hash alike.
#[verifier::external_body]
fn fnv_map_insert<V>(map: &mut FnvHashMap<usize, V>, key: usize, value: V)
    ensures
        final(map)@ == old(map)@.insert(key, value),
{
    map.insert(key, value);
}

/// `HashMap::remove` on a map that hashes with FNV. Claimed: what comes
/// back is the value that was kept under the key, if there was one, and the
/// map is without that key afterwards, every other key as before.
#[verifier::external_body]
fn fnv_map_remove<V>(map: &mut FnvHashMap<usize, V>, key: usize) -> (taken: Option<V>)
    ensures
        final(map)@ == old(map)@.remove(key),
        taken == (if old(map)@.contains_key(key) { Some(old(map)@[key]) } else { None }),
{
    map.remove(&key)
}

/// What the store holds once `submitted` has been registered, in that
/// order, and the ids in `delivered` have been taken out again: an entry for
/// an id exactly as long as that id has been given out and not yet taken.
pub open spec fn pending_entries<M>(submitted: Seq<M>, delivered: Set<usize>) -> Map<usize, M> {
    Map::new(
        |id: usize| id < submitted.len() && !delivered.contains(id),
        |id: usize| submitted[id as int],
    )
}

/// Side data of type `M`, each piece under the correlation id it was given
/// when it came in. Ids are given out in order, from zero, and never twice.
pub struct PendingStore<M> {
    entries: FnvHashMap<usize, M>,
    next_id: usize,
    submitted: Ghost<Seq<M>>,
    delivered: Ghost<Set<usize>>,
}

impl<M> View for PendingStore<M> {
    type V = Map<usize, M>;

    closed spec fn view(&self) -> Map<usize, M> {
        self.entries@
    }
}

impl<M> PendingStore<M> {
    /// Everything ever registered, by id.
    pub closed spec fn submitted(&self) -> Seq<M> {
        self.submitted@
    }

    /// The ids whose side data has been taken out.
    pub closed spec fn delivered(&self) -> Set<usize> {
        self.delivered@
    }

    /// The id that the next registration gets.
    pub closed spec fn spec_next_id(&self) -> usize {
        self.next_id
    }

    /// The store holds an entry for an id exactly while that id has been
    /// given out and its side data not yet taken.
    pub open spec fn wf(&self) -> bool {
        &&& self.spec_next_id() == self.submitted().len()
        &&& forall|id: usize| self.delivered().contains(id) ==> id < self.submitted().len()
        &&& self@ == pending_entries(self.submitted(), self.delivered())
    }

    /// A store without entries that has given out no id yet.
    pub fn new() -> (store: Self)
        ensures
            store.wf(),
            store.submitted() == Seq::<M>::empty(),
            store.delivered() == Set::<usize>::empty(),
    {
        let store = PendingStore {
            entries: fnv_map_new(),
            next_id: 0,
            submitted: Ghost(Seq::empty()),
            delivered: Ghost(Set::empty()),
        };
        assert(store@ =~= pending_entries(store.submitted(), store.delivered()));
        store
    }

    /// The id that the next registration gets: the number of registrations
    /// so far.
    #[verifier::when_used_as_spec(spec_next_id)]
    pub fn next_id(&self) -> (id: usize)
        ensures
            id == self.spec_next_id(),
    {
        self.next_id
    }

    /// Keeps `meta` under the next free id and returns that id.
    pub fn register(&mut self, meta: M) -> (id: usize)
        requires
            old(self).wf(),
            old(self).submitted().len() < usize::MAX,
        ensures
            final(self).wf(),
            id == old(self).submitted().len(),
            final(self).submitted() == old(self).submitted().push(meta),
            final(self).delivered() == old(self).delivered(),
    {
        let id = self.next_id;
        fnv_map_insert(&mut self.entries, id, meta);
        self.next_id = id + 1;
        self.submitted = Ghost(self.submitted@.push(meta));
        assert(self@ =~= pending_entries(self.submitted(), self.delivered()));
        id
    }

    /// Takes out the side data kept under `id`. `None` says that `id` was
    /// never given out or that its side data is gone already; nothing
    /// changes then.
    pub fn take(&mut self, id: usize) -> (taken: Option<M>)
        requires
            old(self).wf(),
        ensures
            final(self).wf(),
            final(self).submitted() == old(self).submitted(),
            old(self)@.contains_key(id) ==> taken == Some(old(self).submitted()[id as int])
                && final(self).delivered() == old(self).delivered().insert(id),
            !old(self)@.contains_key(id) ==> taken.is_none() && final(self).delivered() == old(
                self,
            ).delivered(),
    {
        let taken = fnv_map_remove(&mut self.entries, id);
        if taken.is_some() {
            self.delivered = Ghost(self.delivered@.insert(id));
        }
        assert(self@ =~= pending_entries(self.submitted(), self.delivered()));
        taken
    }

    /// Whether nothing is kept.
    pub fn is_empty(&self) -> (empty: bool)
        ensures
            empty == (self@ =~= Map::<usize, M>::empty()),
    {
        let empty = self.entries.is_empty();
        assert(self.entries@.is_empty() == (self.entries@ =~= Map::<usize, M>::empty()));
        empty
    }
}

} // verus!
