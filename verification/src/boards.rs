//! Cache of the label names on the boards of each project.

use vstd::prelude::*;

use crate::db::{agree_at, loaded, KvStore};
use crate::search::{id_key, key_of};

verus! {

pub struct BoardCache {
    store: KvStore<Vec<String>>,
}

impl View for BoardCache {
    type V = Map<u64, Vec<String>>;

    /// The labels of each project, by the key of its id.
    closed spec fn view(&self) -> Map<u64, Vec<String>> {
        self.store@
    }
}

impl BoardCache {
    /// What the cache held when it was last saved.
    pub closed spec fn saved(&self) -> Map<u64, Vec<String>> {
        self.store.saved()
    }

    /// A cache with what was saved.
    pub fn open(rows: Vec<(u64, Vec<String>)>) -> (r: Self)
        ensures
            r@ == loaded(rows@),
            r.saved() == r@,
    {
        BoardCache { store: KvStore::load(rows) }
    }

    /// The cached labels of a project, or `None`.
    pub fn get(&self, project_id: i64) -> (r: Option<&Vec<String>>)
        ensures
            match r {
                Some(v) => self@.contains_key(id_key(project_id)) && self@[id_key(project_id)]
                    == *v,
                None => !self@.contains_key(id_key(project_id)),
            },
    {
        self.store.get(key_of(project_id))
    }

    /// Inserts or overwrites the labels of a project.
    pub fn put(&mut self, project_id: i64, labels: Vec<String>)
        ensures
            final(self).saved() == old(self).saved(),
            final(self)@ == old(self)@.insert(id_key(project_id), labels),
    {
        self.store.put(key_of(project_id), labels);
    }

    /// Drops the labels of every project.
    pub fn clear(&mut self)
        ensures
            final(self).saved() == old(self).saved(),
            final(self)@ == Map::<u64, Vec<String>>::empty(),
    {
        self.store.clear();
    }

    /// What is kept under a key, for saving.
    pub fn entry(&self, key: u64) -> (r: Option<&Vec<String>>)
        ensures
            match r {
                Some(v) => self@.contains_key(key) && self@[key] == *v,
                None => !self@.contains_key(key),
            },
    {
        self.store.get(key)
    }

    /// The keys that were written or removed since the cache was last saved: every
    /// other key holds what was saved.
    pub fn dirty_keys(&self) -> (r: &Vec<u64>)
        ensures
            forall|k: u64| !r@.contains(k) ==> #[trigger] agree_at(self.saved(), self@, k),
    {
        self.store.dirty_keys()
    }

    /// Takes note that everything has been saved.
    pub fn mark_saved(&mut self)
        ensures
            final(self)@ == old(self)@,
            final(self).saved() == old(self)@,
    {
        self.store.mark_saved();
    }
}

} // verus!
