//! The trusted boundary to the durable store. A [`RegionManager`] partitions
//! one byte-addressable store into independent logical regions; a
//! [`StableByteMap`] is an ordered map from a 64-bit key to a byte record
//! inside one region; a [`StableU64Cell`] persists a single 64-bit value in
//! one region. Every contract here is taken on trust against the
//! `ic-stable-structures` sources; everything above this module is verified.
//!
//! Two ghost facts govern the layer. `region_unclaimed` says no handle has
//! been opened on a region through this manager: every open requires it and
//! consumes it, so verified code can never hold two live handles onto the
//! same bytes. `fresh_attachment` says the underlying store held no data
//! when the manager attached to it; it is never granted unconditionally,
//! because the default store persists across process restarts and a
//! restarted process reattaches to whatever it wrote before. Claims about a
//! freshly laid-out store (an empty map, a zero counter) are therefore
//! conditional on it.

use vstd::prelude::*;

verus! {

/// The contents of a map that holds no records yet.
pub(crate) open spec fn no_records() -> Map<u64, Seq<u8>> {
    Map::empty()
}

/// What a byte map holds: its keys and the byte record stored under each.
pub uninterp spec fn byte_map_contents(m: StableByteMap) -> Map<u64, Seq<u8>>;

/// The persisted value of a cell.
pub uninterp spec fn cell_value(c: StableU64Cell) -> u64;

/// True while no handle has been opened on the region with this id through
/// this manager. Every open consumes it.
pub uninterp spec fn region_unclaimed(m: RegionManager, region: u8) -> bool;

/// True when the underlying store held no data at the moment this manager
/// attached to it. A store that persists across restarts satisfies this only
/// before anything was ever written; nothing in the library can establish
/// it, so every claim about a freshly laid-out store is conditional on it.
pub uninterp spec fn fresh_attachment(m: RegionManager) -> bool;

/// Owns the durable byte store and hands out its logical regions.
#[verifier::external_body]
pub(crate) struct RegionManager {
    inner: ic_stable_structures::memory_manager::MemoryManager<
        ic_stable_structures::DefaultMemoryImpl,
    >,
}

impl RegionManager {
    /// Relies on `MemoryManager::init` over the default memory: it lays out
    /// fresh regions where the store holds no data and reattaches to the
    /// persisted layout where it does. Either way the new manager has handed
    /// out no region handles yet. Nothing is claimed about the regions'
    /// contents: whether the store was empty at attachment is exactly
    /// `fresh_attachment`, which no code can establish.
    #[verifier::external_body]
    pub(crate) fn attach() -> (r: RegionManager)
        ensures
            forall|region: u8| region_unclaimed(r, region),
    {
        RegionManager {
            inner: ic_stable_structures::memory_manager::MemoryManager::init(
                ic_stable_structures::DefaultMemoryImpl::default(),
            ),
        }
    }
}

/// An ordered map from 64-bit keys to byte records, persisted in one region.
#[verifier::external_body]
pub(crate) struct StableByteMap {
    inner: ic_stable_structures::BTreeMap<
        u64,
        Vec<u8>,
        ic_stable_structures::memory_manager::VirtualMemory<
            ic_stable_structures::DefaultMemoryImpl,
        >,
    >,
}

impl StableByteMap {
    /// Relies on `MemoryManager::get` and `BTreeMap::init`: on a region that
    /// holds no bytes, `init` creates an empty map; on one that holds a
    /// persisted map, it reattaches to those records, of which nothing is
    /// claimed here. The region must be unclaimed and the claim is consumed,
    /// so no second handle onto the same bytes can be opened. Region id 255
    /// is reserved by the memory manager and refused.
    #[verifier::external_body]
    pub(crate) fn open(mgr: &mut RegionManager, region: u8) -> (r: StableByteMap)
        requires
            region < 255,
            region_unclaimed(*old(mgr), region),
        ensures
            fresh_attachment(*old(mgr)) ==> byte_map_contents(r) == no_records(),
            !region_unclaimed(*final(mgr), region),
            forall|other: u8| other != region ==> region_unclaimed(*final(mgr), other) == region_unclaimed(*old(mgr), other),
            fresh_attachment(*final(mgr)) == fresh_attachment(*old(mgr)),
    {
        StableByteMap {
            inner: ic_stable_structures::BTreeMap::init(
                mgr.inner.get(ic_stable_structures::memory_manager::MemoryId::new(region)),
            ),
        }
    }

    /// Relies on `BTreeMap::insert`: stores `value` under `key`, overwriting
    /// and returning any previous record, and is persisted immediately.
    #[verifier::external_body]
    pub(crate) fn insert_bytes(&mut self, key: u64, value: Vec<u8>) -> (r: Option<Vec<u8>>)
        ensures
            byte_map_contents(*final(self)) == byte_map_contents(*old(self)).insert(key, value@),
            r is Some <==> byte_map_contents(*old(self)).contains_key(key),
            r matches Some(prev) ==> prev@ == byte_map_contents(*old(self))[key],
    {
        self.inner.insert(key, value)
    }

    /// Relies on `BTreeMap::get`: a pure lookup that returns the record
    /// stored under `key`, or nothing when the key is absent.
    #[verifier::external_body]
    pub(crate) fn get_bytes(&self, key: u64) -> (r: Option<Vec<u8>>)
        ensures
            r is Some <==> byte_map_contents(*self).contains_key(key),
            r matches Some(v) ==> v@ == byte_map_contents(*self)[key],
    {
        self.inner.get(&key)
    }
}

/// A single persisted 64-bit value in one region.
#[verifier::external_body]
pub(crate) struct StableU64Cell {
    inner: ic_stable_structures::Cell<
        u64,
        ic_stable_structures::memory_manager::VirtualMemory<
            ic_stable_structures::DefaultMemoryImpl,
        >,
    >,
}

impl StableU64Cell {
    /// Relies on `MemoryManager::get` and `Cell::init`: on a region that
    /// holds no bytes, `init` writes and holds the default value zero; on
    /// one that holds a persisted cell, it reattaches to the persisted
    /// value, of which nothing is claimed here. The region must be unclaimed
    /// and the claim is consumed. Region id 255 is reserved by the memory
    /// manager and refused.
    #[verifier::external_body]
    pub(crate) fn open(mgr: &mut RegionManager, region: u8) -> (r: StableU64Cell)
        requires
            region < 255,
            region_unclaimed(*old(mgr), region),
        ensures
            fresh_attachment(*old(mgr)) ==> cell_value(r) == 0,
            !region_unclaimed(*final(mgr), region),
            forall|other: u8| other != region ==> region_unclaimed(*final(mgr), other) == region_unclaimed(*old(mgr), other),
            fresh_attachment(*final(mgr)) == fresh_attachment(*old(mgr)),
    {
        StableU64Cell {
            inner: ic_stable_structures::Cell::init(
                mgr.inner.get(ic_stable_structures::memory_manager::MemoryId::new(region)),
                0,
            ),
        }
    }

    /// Relies on `Cell::get`: returns the current persisted value.
    #[verifier::external_body]
    pub(crate) fn read(&self) -> (r: u64)
        ensures
            r == cell_value(*self),
    {
        *self.inner.get()
    }

    /// Relies on `Cell::set`: persists `value` immediately and returns the
    /// previous value. A store that can no longer grow makes the write
    /// abort; storage exhaustion is an unrecoverable environment fault.
    #[verifier::external_body]
    pub(crate) fn write(&mut self, value: u64) -> (r: u64)
        ensures
            cell_value(*final(self)) == value,
            r == cell_value(*old(self)),
    {
        self.inner.set(value)
    }
}

} // verus!
