//! A generic entity table: an ordered map from a 64-bit id to one record
//! type, bound to a single logical region and backed by the record's bounded
//! codec. Its view is the map of record views it holds; the invariant ties
//! every stored byte record to the encoding of the model record.

use vstd::prelude::*;

verus! {

use crate::entities::MAX_RECORD_BYTES;
use crate::entities::Record;
use crate::storage::RegionManager;
use crate::storage::StableByteMap;
use crate::storage::byte_map_contents;
use crate::storage::fresh_attachment;
use crate::storage::region_unclaimed;

/// The view of a table that holds no records.
pub open spec fn no_entries<T: Record>() -> Map<u64, <T as View>::V> {
    Map::empty()
}

/// An ordered map from id to one record type, persisted in one region.
pub struct EntityTable<T: Record> {
    map: StableByteMap,
    model: Ghost<Map<u64, <T as View>::V>>,
}

impl<T: Record> View for EntityTable<T> {
    type V = Map<u64, <T as View>::V>;

    closed spec fn view(&self) -> Map<u64, <T as View>::V> {
        self.model@
    }
}

impl<T: Record> EntityTable<T> {
    /// Every stored byte record is the bounded encoding of the model record
    /// held under the same key.
    pub closed spec fn wf(self) -> bool {
        &&& byte_map_contents(self.map).dom() == self.model@.dom()
        &&& forall|k: u64|
            #[trigger] self.model@.contains_key(k) ==> T::spec_encode(self.model@[k]).len()
                <= MAX_RECORD_BYTES && byte_map_contents(self.map)[k] == T::spec_encode(
                self.model@[k],
            )
    }

    /// Opens the table over its region. On a store that held no data at
    /// attachment it starts empty; on a reattached store the region holds
    /// the persisted records, of which nothing is claimed.
    pub(crate) fn open(mgr: &mut RegionManager, region: u8) -> (r: Self)
        requires
            region < 255,
            region_unclaimed(*old(mgr), region),
        ensures
            fresh_attachment(*old(mgr)) ==> r.wf() && r@ == no_entries::<T>(),
            !region_unclaimed(*final(mgr), region),
            forall|other: u8| other != region ==> region_unclaimed(*final(mgr), other) == region_unclaimed(*old(mgr), other),
            fresh_attachment(*final(mgr)) == fresh_attachment(*old(mgr)),
    {
        let map = StableByteMap::open(mgr, region);
        let table = EntityTable { map, model: Ghost(Map::empty()) };
        proof {
            if fresh_attachment(*old(mgr)) {
                assert(byte_map_contents(table.map).dom() =~= table.model@.dom());
            }
        }
        table
    }

    /// Stores `value` under `key`, overwriting any previous record; the
    /// write is persisted immediately. No other key changes.
    pub fn insert(&mut self, key: u64, value: &T)
        requires
            old(self).wf(),
            T::spec_encode(value@).len() <= MAX_RECORD_BYTES,
        ensures
            final(self).wf(),
            final(self)@ == old(self)@.insert(key, value@),
    {
        let bytes = value.to_bytes();
        let _previous = self.map.insert_bytes(key, bytes);
        proof {
            self.model@ = self.model@.insert(key, value@);
            assert(byte_map_contents(self.map).dom() =~= self.model@.dom());
        }
    }

    /// Pure lookup: returns the record stored under `key`, or nothing when
    /// the key is absent.
    pub fn get(&self, key: u64) -> (r: Option<T>)
        requires
            self.wf(),
        ensures
            r is Some <==> self@.contains_key(key),
            r matches Some(d) ==> d@ == self@[key],
    {
        match self.map.get_bytes(key) {
            None => None,
            Some(bytes) => {
                proof {
                    assert(self.model@.contains_key(key));
                    assert(bytes@ == T::spec_encode(self.model@[key]));
                }
                T::from_bytes(&bytes)
            },
        }
    }
}

/// Law: after inserting record `v` at key `k`, a lookup of `k` yields
/// exactly `v`, and a key that was never inserted stays absent.
pub proof fn lemma_insert_then_get<T: Record>(
    m: Map<u64, <T as View>::V>,
    k: u64,
    v: <T as View>::V,
    never: u64,
)
    requires
        !m.contains_key(never),
        never != k,
    ensures
        m.insert(k, v)[k] == v,
        !m.insert(k, v).contains_key(never),
{
}

} // verus!
