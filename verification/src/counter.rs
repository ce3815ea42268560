//! The shared identity counter: a single persisted 64-bit value, incremented
//! to mint entity ids that are unique across every entity kind.

use vstd::prelude::*;

verus! {

use crate::entities::Error;
use crate::storage::RegionManager;
use crate::storage::StableU64Cell;
use crate::storage::cell_value;
use crate::storage::fresh_attachment;
use crate::storage::region_unclaimed;

/// Mints globally unique ids. Its view is the last value handed out; every
/// successful mint returns a value strictly greater than all earlier ones.
pub struct IdCounter {
    cell: StableU64Cell,
}

impl View for IdCounter {
    type V = u64;

    closed spec fn view(&self) -> u64 {
        cell_value(self.cell)
    }
}

impl IdCounter {
    /// Opens the counter in its own region. On a store that held no data at
    /// attachment, the sequence starts at zero, so the first minted id is
    /// one; on a reattached store, the persisted sequence continues wherever
    /// it left off.
    pub(crate) fn open(mgr: &mut RegionManager, region: u8) -> (r: IdCounter)
        requires
            region < 255,
            region_unclaimed(*old(mgr), region),
        ensures
            fresh_attachment(*old(mgr)) ==> r@ == 0,
            !region_unclaimed(*final(mgr), region),
            forall|other: u8| other != region ==> region_unclaimed(*final(mgr), other) == region_unclaimed(*old(mgr), other),
            fresh_attachment(*final(mgr)) == fresh_attachment(*old(mgr)),
    {
        IdCounter { cell: StableU64Cell::open(mgr, region) }
    }

    /// Mints the next id: reads the current value, persists its successor,
    /// and returns the successor. Fails exactly when the id space is
    /// exhausted, leaving the counter unchanged.
    pub fn mint(&mut self) -> (r: Result<u64, Error>)
        ensures
            final(self)@ >= old(self)@,
            old(self)@ < u64::MAX ==> (r matches Ok(id) && id == old(self)@ + 1 && final(self)@ == old(self)@ + 1),
            old(self)@ == u64::MAX ==> (r matches Err(e) && e == Error::InternalError && final(self)@ == old(self)@),
    {
        let current = self.cell.read();
        if current == u64::MAX {
            Err(Error::InternalError)
        } else {
            let _previous = self.cell.write(current + 1);
            Ok(current + 1)
        }
    }
}

/// Law: minted ids strictly increase and never repeat. A successful mint
/// returns the successor of the counter's value and the counter never
/// decreases, so any mint whose starting value is at least an earlier
/// mint's result returns a strictly greater id. Within one run the first
/// premise holds by the counter's monotonicity; across a restart it holds
/// whenever the counter comes back at or above the value it had persisted,
/// which is what the durable cell provides and what no in-process model can
/// state of its own accord.
pub proof fn lemma_minted_ids_strictly_increase(
    first_before: u64,
    first: u64,
    second_before: u64,
    second: u64,
)
    requires
        first == first_before + 1,
        first <= second_before,
        second == second_before + 1,
    ensures
        first < second,
{
}

} // verus!
