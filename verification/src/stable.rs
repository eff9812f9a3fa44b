//! The durable storage primitives, held behind trusted wrappers.
//!
//! Each keyed collection is a stable B-tree map from `u64` identifiers
//! to canonical entity encodings, and the identifier allocator is a
//! durable cell; both come from the `ic_stable_structures` crate. The
//! store's constructor gives each structure its own virtual-memory
//! region of the one durable backend, carved out by a memory manager
//! under a fixed region identifier, so no two structures ever share
//! memory and a restart finds each under the same identifier. Verus
//! sees the collections only through [`table_entries`] and
//! [`counter_value`] and the contracts below, which state what the
//! crate's source shows: what `insert` does to the iteration
//! sequence, what `get`, `contains_key` and `iter` return, and that
//! writes are persisted before the call returns.

use vstd::prelude::*;

use ic_stable_structures::cell::Cell;
use ic_stable_structures::memory_manager::VirtualMemory;
use ic_stable_structures::{DefaultMemoryImpl, StableBTreeMap};

verus! {

/// One persistent keyed collection: identifiers to entity encodings.
#[verifier::external_body]
pub struct ByteTable {
    pub(crate) map: StableBTreeMap<u64, Vec<u8>, VirtualMemory<DefaultMemoryImpl>>,
}

/// The contents of a [`ByteTable`]: the key/value pairs its iterator
/// yields, in iteration order.
pub uninterp spec fn table_entries(t: ByteTable) -> Seq<(u64, Seq<u8>)>;

impl ByteTable {
    /// Inserts an entry whose key lies above every present key, making
    /// it the last entry in iteration order; the write is persisted
    /// before the call returns.
    ///
    /// Relies on `StableBTreeMap::insert` and on `StableBTreeMap::iter`
    /// yielding entries in ascending key order.
    #[verifier::external_body]
    pub fn append(&mut self, key: u64, value: Vec<u8>)
        requires
            forall|i: int|
                0 <= i < table_entries(*old(self)).len() ==> table_entries(*old(self))[i].0
                    < key,
        ensures
            table_entries(*final(self)) == table_entries(*old(self)).push((key, value@)),
    {
        self.map.insert(key, value);
    }

    /// Looks one key up.
    ///
    /// Relies on `StableBTreeMap::get` returning the value stored under
    /// the key, and `None` exactly when the key is absent.
    #[verifier::external_body]
    pub fn get(&self, key: u64) -> (r: Option<Vec<u8>>)
        ensures
            (match r {
                Some(v) => exists|i: int|
                    0 <= i < table_entries(*self).len() && table_entries(*self)[i] == (
                    key,
                    v@,
                ),
                None => forall|i: int|
                    0 <= i < table_entries(*self).len() ==> table_entries(*self)[i].0 != key,
            }),
    {
        self.map.get(&key)
    }

    /// Tests whether a key is present.
    ///
    /// Relies on `StableBTreeMap::contains_key`.
    #[verifier::external_body]
    pub fn contains(&self, key: u64) -> (r: bool)
        ensures
            r == (exists|i: int|
                0 <= i < table_entries(*self).len() && table_entries(*self)[i].0 == key),
    {
        self.map.contains_key(&key)
    }

    /// Lists every entry, in iteration order.
    ///
    /// Relies on `StableBTreeMap::iter` yielding each stored entry
    /// exactly once, in ascending key order.
    #[verifier::external_body]
    pub fn entries(&self) -> (r: Vec<(u64, Vec<u8>)>)
        ensures
            r@.len() == table_entries(*self).len(),
            forall|i: int|
                0 <= i < r@.len() ==> r@[i].0 == table_entries(*self)[i].0 && r@[i].1@
                    == table_entries(*self)[i].1,
    {
        self.map.iter().collect()
    }
}

/// The durable identifier allocator cell: it holds the next identifier
/// to hand out.
#[verifier::external_body]
pub struct IdCounter {
    pub(crate) cell: Cell<u64, VirtualMemory<DefaultMemoryImpl>>,
}

/// The value held by an [`IdCounter`].
pub uninterp spec fn counter_value(c: IdCounter) -> u64;

impl IdCounter {
    /// Reads the counter.
    ///
    /// Relies on `Cell::get`.
    #[verifier::external_body]
    pub fn get(&self) -> (r: u64)
        ensures
            r == counter_value(*self),
    {
        *self.cell.get()
    }

    /// Writes the counter; the new value is persisted before the call
    /// returns, so a crash after the call never reuses an identifier.
    ///
    /// Relies on `Cell::set`. A failed durable write terminates the
    /// process: the allocator is the sole source of uniqueness, so no
    /// fabricated success may be returned in its place.
    #[verifier::external_body]
    pub fn set(&mut self, v: u64)
        ensures
            counter_value(*final(self)) == v,
    {
        self.cell.set(v).expect("durable counter write");
    }
}

} // verus!
