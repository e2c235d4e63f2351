//! A table from 64-bit keys to dense slot indexes.
//!
//! Both the entity index and the kind registries are such tables. The
//! backing store is `hashbrown::HashMap`; the verifier sees the table as
//! opaque and reasons about it through `table_entries`.

use vstd::prelude::*;

verus! {

/// The entries currently held by a [`SlotTable`].
pub uninterp spec fn table_entries(t: SlotTable) -> Map<u64, usize>;

/// A table from a 64-bit key to a dense slot index, backed by
/// `hashbrown::HashMap`.
#[verifier::external_body]
pub struct SlotTable {
    entries: hashbrown::HashMap<u64, usize>,
}

impl SlotTable {
    /// Relies on `hashbrown::HashMap::new`: creates an empty map.
    #[verifier::external_body]
    pub(crate) fn new() -> (r: SlotTable)
        ensures
            table_entries(r) =~= Map::empty(),
    {
        SlotTable { entries: hashbrown::HashMap::new() }
    }

    /// Relies on `hashbrown::HashMap::insert`: maps the key to the value,
    /// returning the value previously stored under the key, if any.
    #[verifier::external_body]
    pub(crate) fn insert(&mut self, key: u64, value: usize) -> (r: Option<usize>)
        ensures
            table_entries(*final(self)) =~= table_entries(*old(self)).insert(key, value),
            r matches Some(v) ==> table_entries(*old(self)).contains_key(key)
                && table_entries(*old(self))[key] == v,
            r is None ==> !table_entries(*old(self)).contains_key(key),
    {
        self.entries.insert(key, value)
    }

    /// Relies on `hashbrown::HashMap::get`: returns the value stored under
    /// the key, if any.
    #[verifier::external_body]
    pub(crate) fn get(&self, key: u64) -> (r: Option<usize>)
        ensures
            r matches Some(v) ==> table_entries(*self).contains_key(key)
                && table_entries(*self)[key] == v,
            r is None ==> !table_entries(*self).contains_key(key),
    {
        self.entries.get(&key).copied()
    }

    /// Relies on `hashbrown::HashMap::remove`: removes the key, returning
    /// the value that was stored under it, if any.
    #[verifier::external_body]
    pub(crate) fn remove(&mut self, key: u64) -> (r: Option<usize>)
        ensures
            table_entries(*final(self)) =~= table_entries(*old(self)).remove(key),
            r matches Some(v) ==> table_entries(*old(self)).contains_key(key)
                && table_entries(*old(self))[key] == v,
            r is None ==> !table_entries(*old(self)).contains_key(key),
    {
        self.entries.remove(&key)
    }
}

} // verus!
