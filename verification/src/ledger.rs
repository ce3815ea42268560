//! The application context of the ledger: one durable store partitioned
//! into five regions — the shared id counter and one table per entity kind —
//! together with the request handlers that validate input, mint ids, and
//! read or write the tables.
//!
//! Validation runs before any mint or insert, so a rejected request leaves
//! the counter and every table unchanged: no partial writes, no wasted ids.

use vstd::prelude::*;

verus! {

use crate::counter::IdCounter;
use crate::entities::CropInsurance;
use crate::entities::CropInsuranceView;
use crate::entities::Debt;
use crate::entities::DebtView;
use crate::entities::Error;
use crate::entities::Escrow;
use crate::entities::EscrowView;
use crate::entities::InsuranceClaim;
use crate::entities::InsuranceClaimView;
use crate::entities::MAX_RECORD_BYTES;
use crate::entities::debt_encoding_len;
use crate::entities::insurance_encoding_len;
use crate::entities::lemma_claim_encoding_len;
use crate::entities::lemma_debt_encoding_len;
use crate::entities::lemma_escrow_encoding_len;
use crate::entities::lemma_insurance_encoding_len;
use crate::entities::spec_encode_debt;
use crate::entities::spec_encode_escrow;
use crate::storage::RegionManager;
use crate::storage::fresh_attachment;
use crate::table::EntityTable;
use crate::table::no_entries;

/// Region of the shared id counter.
pub const COUNTER_REGION: u8 = 0;

/// Region of the debt table.
pub const DEBTS_REGION: u8 = 1;

/// Region of the escrow table.
pub const ESCROWS_REGION: u8 = 2;

/// Region of the crop-insurance table.
pub const INSURANCES_REGION: u8 = 3;

/// Region of the insurance-claim table.
pub const CLAIMS_REGION: u8 = 4;

/// The caller-supplied fields of a new or replaced debt.
#[derive(Clone, Debug)]
pub struct DebtPayload {
    pub debtor: String,
    pub creditor: String,
    pub amount: u64,
}

/// The caller-supplied fields of a new escrow.
#[derive(Clone, Copy, Debug)]
pub struct EscrowPayload {
    pub debt_id: u64,
    pub amount: u64,
}

/// The caller-supplied fields of a new crop-insurance policy.
#[derive(Clone, Debug)]
pub struct CropInsurancePayload {
    pub farmer: String,
    pub crop_type: String,
    pub coverage_amount: u64,
    pub coverage_start_date: u64,
    pub coverage_end_date: u64,
}

/// The caller-supplied fields of a new insurance claim.
#[derive(Clone, Copy, Debug)]
pub struct InsuranceClaimPayload {
    pub insurance_id: u64,
    pub claim_amount: u64,
}

/// Whether a debt request passes validation: both parties named, a positive
/// amount.
pub open spec fn debt_valid(debtor: Seq<char>, creditor: Seq<char>, amount: u64) -> bool {
    debtor.len() > 0 && creditor.len() > 0 && amount > 0
}

/// Whether an insurance request passes validation: farmer and crop named, a
/// positive coverage amount.
pub open spec fn insurance_valid(farmer: Seq<char>, crop_type: Seq<char>, coverage_amount: u64) -> bool {
    farmer.len() > 0 && crop_type.len() > 0 && coverage_amount > 0
}

/// Validates that a text field is not empty.
pub fn validate_non_empty(field: &str, field_name: &str) -> (r: Result<(), Error>)
    ensures
        r is Ok <==> field@.len() > 0,
        r matches Err(e) ==> e == Error::InvalidInput,
{
    if field.is_empty() {
        Err(Error::InvalidInput)
    } else {
        Ok(())
    }
}

/// The ledger: the shared counter and the four entity tables, each bound to
/// its own region of one durable store.
pub struct Ledger {
    mgr: RegionManager,
    counter: IdCounter,
    debt_table: EntityTable<Debt>,
    escrow_table: EntityTable<Escrow>,
    insurance_table: EntityTable<CropInsurance>,
    claim_table: EntityTable<InsuranceClaim>,
}

/// True when `a` and `b` hold the same records in every table and the same
/// counter value: the state a rejected request must leave behind.
pub open spec fn same_state(a: Ledger, b: Ledger) -> bool {
    &&& a.last_id() == b.last_id()
    &&& a.debts() == b.debts()
    &&& a.escrows() == b.escrows()
    &&& a.insurances() == b.insurances()
    &&& a.claims() == b.claims()
}

impl Ledger {
    /// Every table's bytes agree with its model; every debt, escrow and
    /// policy is stored under the key its record carries; and no table key
    /// exceeds the counter's value, so every id the counter will ever mint
    /// is distinct from every key already present in any table: ids are
    /// unique across entity kinds, not just within one table.
    pub closed spec fn wf(self) -> bool {
        &&& self.debt_table.wf()
        &&& self.escrow_table.wf()
        &&& self.insurance_table.wf()
        &&& self.claim_table.wf()
        &&& forall|k: u64| #[trigger] self.debt_table@.contains_key(k) ==> self.debt_table@[k].id == k && k <= self.counter@
        &&& forall|k: u64| #[trigger] self.escrow_table@.contains_key(k) ==> self.escrow_table@[k].debt_id == k && k <= self.counter@
        &&& forall|k: u64| #[trigger] self.insurance_table@.contains_key(k) ==> self.insurance_table@[k].id == k && k <= self.counter@
        &&& forall|k: u64| #[trigger] self.claim_table@.contains_key(k) ==> k <= self.counter@
    }

    /// True when the durable store held no data at the moment this ledger
    /// attached to it. Always true of the in-process store a test builds;
    /// true of a store that persists across restarts only before anything
    /// was ever written. No code can establish it: a restarted process
    /// reattaches to the data it wrote before.
    pub closed spec fn freshly_attached(self) -> bool {
        fresh_attachment(self.mgr)
    }

    /// The last id the counter handed out; zero before the first mint.
    pub closed spec fn last_id(self) -> u64 {
        self.counter@
    }

    /// The debts held, by id.
    pub closed spec fn debts(self) -> Map<u64, DebtView> {
        self.debt_table@
    }

    /// The escrows held, by the id of the debt they secure.
    pub closed spec fn escrows(self) -> Map<u64, EscrowView> {
        self.escrow_table@
    }

    /// The crop-insurance policies held, by id.
    pub closed spec fn insurances(self) -> Map<u64, CropInsuranceView> {
        self.insurance_table@
    }

    /// The insurance claims held, by their own minted claim id.
    pub closed spec fn claims(self) -> Map<u64, InsuranceClaimView> {
        self.claim_table@
    }

    /// Attaches to the durable store and binds the counter and the four
    /// tables to their regions, each opened exactly once. Attachment is
    /// idempotent: on a store that held no data, everything starts empty
    /// and the id sequence starts at zero; a restarted process reattaches
    /// to the records and counter it persisted before, of which nothing can
    /// be claimed here — whether the store was empty is exactly
    /// `freshly_attached`, which no caller can prove and which therefore
    /// guards every claim about the starting state.
    pub fn init() -> (r: Ledger)
        ensures
            r.freshly_attached() ==> r.wf(),
            r.freshly_attached() ==> r.last_id() == 0,
            r.freshly_attached() ==> r.debts() == no_entries::<Debt>(),
            r.freshly_attached() ==> r.escrows() == no_entries::<Escrow>(),
            r.freshly_attached() ==> r.insurances() == no_entries::<CropInsurance>(),
            r.freshly_attached() ==> r.claims() == no_entries::<InsuranceClaim>(),
    {
        let mut mgr = RegionManager::attach();
        let counter = IdCounter::open(&mut mgr, COUNTER_REGION);
        let debt_table = EntityTable::<Debt>::open(&mut mgr, DEBTS_REGION);
        let escrow_table = EntityTable::<Escrow>::open(&mut mgr, ESCROWS_REGION);
        let insurance_table = EntityTable::<CropInsurance>::open(&mut mgr, INSURANCES_REGION);
        let claim_table = EntityTable::<InsuranceClaim>::open(&mut mgr, CLAIMS_REGION);
        Ledger { mgr, counter, debt_table, escrow_table, insurance_table, claim_table }
    }

    /// Mints the next globally unique id by advancing the shared counter;
    /// no table changes. Fails only when the id space is exhausted.
    pub fn generate_unique_id(&mut self) -> (r: Result<u64, Error>)
        requires
            old(self).wf(),
        ensures
            final(self).wf(),
            final(self).last_id() >= old(self).last_id(),
            final(self).debts() == old(self).debts(),
            final(self).escrows() == old(self).escrows(),
            final(self).insurances() == old(self).insurances(),
            final(self).claims() == old(self).claims(),
            old(self).last_id() < u64::MAX ==> (r matches Ok(id) && id == old(self).last_id() + 1
                && final(self).last_id() == old(self).last_id() + 1),
            old(self).last_id() == u64::MAX ==> (r matches Err(e) && e == Error::InternalError
                && final(self).last_id() == old(self).last_id()),
    {
        self.counter.mint()
    }

    /// Stores a debt under its own id, overwriting any previous record. The
    /// id must already have been minted, so the counter stays an upper
    /// bound on every key.
    pub fn do_insert_debt(&mut self, debt: &Debt)
        requires
            old(self).wf(),
            spec_encode_debt(debt@).len() <= MAX_RECORD_BYTES,
            debt@.id <= old(self).last_id(),
        ensures
            final(self).wf(),
            final(self).debts() == old(self).debts().insert(debt@.id, debt@),
            final(self).escrows() == old(self).escrows(),
            final(self).insurances() == old(self).insurances(),
            final(self).claims() == old(self).claims(),
            final(self).last_id() == old(self).last_id(),
    {
        self.debt_table.insert(debt.id, debt);
    }

    /// Stores an escrow under the id of the debt it secures, overwriting any
    /// previous escrow for that debt. The debt id must already have been
    /// minted, so the counter stays an upper bound on every key.
    pub fn do_insert_escrow(&mut self, escrow: &Escrow)
        requires
            old(self).wf(),
            spec_encode_escrow(escrow@).len() <= MAX_RECORD_BYTES,
            escrow@.debt_id <= old(self).last_id(),
        ensures
            final(self).wf(),
            final(self).escrows() == old(self).escrows().insert(escrow@.debt_id, escrow@),
            final(self).debts() == old(self).debts(),
            final(self).insurances() == old(self).insurances(),
            final(self).claims() == old(self).claims(),
            final(self).last_id() == old(self).last_id(),
    {
        self.escrow_table.insert(escrow.debt_id, escrow);
    }

    /// Pure lookup of a debt by id.
    pub fn _get_debt(&self, id: &u64) -> (r: Option<Debt>)
        requires
            self.wf(),
        ensures
            r is Some <==> self.debts().contains_key(*id),
            r matches Some(d) ==> d@ == self.debts()[*id],
    {
        self.debt_table.get(*id)
    }

    /// Pure lookup of an escrow by the id of the debt it secures.
    pub fn _get_escrow(&self, debt_id: &u64) -> (r: Option<Escrow>)
        requires
            self.wf(),
        ensures
            r is Some <==> self.escrows().contains_key(*debt_id),
            r matches Some(e) ==> e@ == self.escrows()[*debt_id],
    {
        self.escrow_table.get(*debt_id)
    }

    /// Pure lookup of a crop-insurance policy by id.
    pub fn _get_crop_insurance(&self, id: &u64) -> (r: Option<CropInsurance>)
        requires
            self.wf(),
        ensures
            r is Some <==> self.insurances().contains_key(*id),
            r matches Some(c) ==> c@ == self.insurances()[*id],
    {
        self.insurance_table.get(*id)
    }

    /// Pure lookup of an insurance claim by claim id.
    pub fn _get_insurance_claim(&self, claim_id: &u64) -> (r: Option<InsuranceClaim>)
        requires
            self.wf(),
        ensures
            r is Some <==> self.claims().contains_key(*claim_id),
            r matches Some(c) ==> c@ == self.claims()[*claim_id],
    {
        self.claim_table.get(*claim_id)
    }

    /// Returns the debt stored under `id`, or `NotFound`.
    pub fn get_debt(&self, id: u64) -> (r: Result<Debt, Error>)
        requires
            self.wf(),
        ensures
            self.debts().contains_key(id) ==> (r matches Ok(d) && d@ == self.debts()[id]),
            !self.debts().contains_key(id) ==> (r matches Err(e) && e == Error::NotFound),
    {
        match self._get_debt(&id) {
            Some(d) => Ok(d),
            None => Err(Error::NotFound),
        }
    }

    /// Returns the escrow securing debt `debt_id`, or `NotFound`.
    pub fn get_escrow(&self, debt_id: u64) -> (r: Result<Escrow, Error>)
        requires
            self.wf(),
        ensures
            self.escrows().contains_key(debt_id) ==> (r matches Ok(e) && e@ == self.escrows()[debt_id]),
            !self.escrows().contains_key(debt_id) ==> (r matches Err(e) && e == Error::NotFound),
    {
        match self._get_escrow(&debt_id) {
            Some(e) => Ok(e),
            None => Err(Error::NotFound),
        }
    }

    /// Returns the policy stored under `id`, or `NotFound`.
    pub fn get_crop_insurance(&self, id: u64) -> (r: Result<CropInsurance, Error>)
        requires
            self.wf(),
        ensures
            self.insurances().contains_key(id) ==> (r matches Ok(c) && c@ == self.insurances()[id]),
            !self.insurances().contains_key(id) ==> (r matches Err(e) && e == Error::NotFound),
    {
        match self._get_crop_insurance(&id) {
            Some(c) => Ok(c),
            None => Err(Error::NotFound),
        }
    }

    /// Returns the claim stored under `claim_id`, or `NotFound`.
    pub fn get_insurance_claim(&self, claim_id: u64) -> (r: Result<InsuranceClaim, Error>)
        requires
            self.wf(),
        ensures
            self.claims().contains_key(claim_id) ==> (r matches Ok(c) && c@ == self.claims()[claim_id]),
            !self.claims().contains_key(claim_id) ==> (r matches Err(e) && e == Error::NotFound),
    {
        match self._get_insurance_claim(&claim_id) {
            Some(c) => Ok(c),
            None => Err(Error::NotFound),
        }
    }

    /// Creates a debt: validates the fields, mints a fresh id, and stores
    /// the record stamped with the caller-supplied time. A rejected request
    /// changes nothing and consumes no id.
    pub fn add_debt(&mut self, payload: DebtPayload, now: u64) -> (r: Result<Debt, Error>)
        requires
            old(self).wf(),
            debt_valid(payload.debtor@, payload.creditor@, payload.amount) ==> debt_encoding_len(payload.debtor@, payload.creditor@) <= MAX_RECORD_BYTES,
        ensures
            final(self).wf(),
            final(self).last_id() >= old(self).last_id(),
            !debt_valid(payload.debtor@, payload.creditor@, payload.amount) ==> (r matches Err(e)
                && e == Error::InvalidInput && same_state(*final(self), *old(self))),
            (debt_valid(payload.debtor@, payload.creditor@, payload.amount) && old(self).last_id()
                == u64::MAX) ==> (r matches Err(e) && e == Error::InternalError && same_state(*final(self), *old(self))),
            (debt_valid(payload.debtor@, payload.creditor@, payload.amount) && old(self).last_id()
                < u64::MAX) ==> (r matches Ok(d) && d@ == (DebtView {
                id: (old(self).last_id() + 1) as u64,
                debtor: payload.debtor@,
                creditor: payload.creditor@,
                amount: payload.amount,
                created_at: now,
            }) && final(self).last_id() == old(self).last_id() + 1 && final(self).debts() == old(self).debts().insert((old(self).last_id() + 1) as u64, d@) && final(self).escrows() == old(self).escrows() && final(self).insurances() == old(self).insurances() && final(self).claims() == old(self).claims()),
    {
        if let Err(e) = validate_non_empty(payload.debtor.as_str(), "debtor") {
            return Err(e);
        }
        if let Err(e) = validate_non_empty(payload.creditor.as_str(), "creditor") {
            return Err(e);
        }
        if payload.amount == 0 {
            return Err(Error::InvalidInput);
        }
        let id = match self.generate_unique_id() {
            Err(e) => {
                return Err(e);
            },
            Ok(id) => id,
        };
        let debt = Debt {
            id,
            debtor: payload.debtor,
            creditor: payload.creditor,
            amount: payload.amount,
            created_at: now,
        };
        proof {
            lemma_debt_encoding_len(debt@);
        }
        self.do_insert_debt(&debt);
        Ok(debt)
    }

    /// Replaces the fields of an existing debt: same id, same creation time,
    /// all caller-supplied fields replaced whole. A rejected request changes
    /// nothing.
    pub fn update_debt(&mut self, id: u64, payload: DebtPayload) -> (r: Result<Debt, Error>)
        requires
            old(self).wf(),
            debt_valid(payload.debtor@, payload.creditor@, payload.amount) ==> debt_encoding_len(payload.debtor@, payload.creditor@) <= MAX_RECORD_BYTES,
        ensures
            final(self).wf(),
            final(self).last_id() == old(self).last_id(),
            !debt_valid(payload.debtor@, payload.creditor@, payload.amount) ==> (r matches Err(e)
                && e == Error::InvalidInput && same_state(*final(self), *old(self))),
            (debt_valid(payload.debtor@, payload.creditor@, payload.amount) && !old(self).debts().contains_key(id)) ==> (r matches Err(e) && e == Error::NotFound && same_state(*final(self), *old(self))),
            (debt_valid(payload.debtor@, payload.creditor@, payload.amount) && old(self).debts().contains_key(id)) ==> (r matches Ok(d) && d@ == (DebtView {
                id,
                debtor: payload.debtor@,
                creditor: payload.creditor@,
                amount: payload.amount,
                created_at: old(self).debts()[id].created_at,
            }) && final(self).debts() == old(self).debts().insert(id, d@) && final(self).escrows()
                == old(self).escrows() && final(self).insurances() == old(self).insurances()
                && final(self).claims() == old(self).claims()),
    {
        if let Err(e) = validate_non_empty(payload.debtor.as_str(), "debtor") {
            return Err(e);
        }
        if let Err(e) = validate_non_empty(payload.creditor.as_str(), "creditor") {
            return Err(e);
        }
        if payload.amount == 0 {
            return Err(Error::InvalidInput);
        }
        let existing = match self._get_debt(&id) {
            None => {
                return Err(Error::NotFound);
            },
            Some(d) => d,
        };
        let debt = Debt {
            id: existing.id,
            debtor: payload.debtor,
            creditor: payload.creditor,
            amount: payload.amount,
            created_at: existing.created_at,
        };
        proof {
            lemma_debt_encoding_len(debt@);
        }
        self.do_insert_debt(&debt);
        Ok(debt)
    }

    /// Creates or replaces the escrow securing one debt: the amount must be
    /// positive and the debt must exist. At most one escrow exists per debt;
    /// a second request for the same debt overwrites the first. No id is
    /// minted. A rejected request changes nothing.
    pub fn create_escrow(&mut self, payload: EscrowPayload, now: u64) -> (r: Result<Escrow, Error>)
        requires
            old(self).wf(),
        ensures
            final(self).wf(),
            final(self).last_id() == old(self).last_id(),
            payload.amount == 0 ==> (r matches Err(e) && e == Error::InvalidInput && same_state(*final(self), *old(self))),
            (payload.amount > 0 && !old(self).debts().contains_key(payload.debt_id)) ==> (r matches
                Err(e) && e == Error::NotFound && same_state(*final(self), *old(self))),
            (payload.amount > 0 && old(self).debts().contains_key(payload.debt_id)) ==> (r matches
                Ok(es) && es@ == (EscrowView {
                debt_id: payload.debt_id,
                amount: payload.amount,
                created_at: now,
            }) && final(self).escrows() == old(self).escrows().insert(payload.debt_id, es@)
                && final(self).debts() == old(self).debts() && final(self).insurances() == old(self).insurances() && final(self).claims() == old(self).claims()),
    {
        if payload.amount == 0 {
            return Err(Error::InvalidInput);
        }
        let debt = match self._get_debt(&payload.debt_id) {
            None => {
                return Err(Error::NotFound);
            },
            Some(d) => d,
        };
        let escrow = Escrow { debt_id: debt.id, amount: payload.amount, created_at: now };
        proof {
            lemma_escrow_encoding_len(escrow@);
        }
        self.do_insert_escrow(&escrow);
        Ok(escrow)
    }

    /// Creates a crop-insurance policy: validates the fields, mints a fresh
    /// id, and stores the record. A rejected request changes nothing and
    /// consumes no id.
    pub fn purchase_crop_insurance(&mut self, payload: CropInsurancePayload) -> (r: Result<
        CropInsurance,
        Error,
    >)
        requires
            old(self).wf(),
            insurance_valid(payload.farmer@, payload.crop_type@, payload.coverage_amount) ==> insurance_encoding_len(payload.farmer@, payload.crop_type@) <= MAX_RECORD_BYTES,
        ensures
            final(self).wf(),
            final(self).last_id() >= old(self).last_id(),
            !insurance_valid(payload.farmer@, payload.crop_type@, payload.coverage_amount) ==> (r
                matches Err(e) && e == Error::InvalidInput && same_state(*final(self), *old(self))),
            (insurance_valid(payload.farmer@, payload.crop_type@, payload.coverage_amount) && old(self).last_id() == u64::MAX) ==> (r matches Err(e) && e == Error::InternalError
                && same_state(*final(self), *old(self))),
            (insurance_valid(payload.farmer@, payload.crop_type@, payload.coverage_amount) && old(self).last_id() < u64::MAX) ==> (r matches Ok(c) && c@ == (CropInsuranceView {
                id: (old(self).last_id() + 1) as u64,
                farmer: payload.farmer@,
                crop_type: payload.crop_type@,
                coverage_amount: payload.coverage_amount,
                coverage_start_date: payload.coverage_start_date,
                coverage_end_date: payload.coverage_end_date,
            }) && final(self).last_id() == old(self).last_id() + 1 && final(self).insurances()
                == old(self).insurances().insert((old(self).last_id() + 1) as u64, c@) && final(self).debts() == old(self).debts() && final(self).escrows() == old(self).escrows() && final(self).claims() == old(self).claims()),
    {
        if let Err(e) = validate_non_empty(payload.farmer.as_str(), "farmer") {
            return Err(e);
        }
        if let Err(e) = validate_non_empty(payload.crop_type.as_str(), "crop_type") {
            return Err(e);
        }
        if payload.coverage_amount == 0 {
            return Err(Error::InvalidInput);
        }
        let id = match self.generate_unique_id() {
            Err(e) => {
                return Err(e);
            },
            Ok(id) => id,
        };
        let insurance = CropInsurance {
            id,
            farmer: payload.farmer,
            crop_type: payload.crop_type,
            coverage_amount: payload.coverage_amount,
            coverage_start_date: payload.coverage_start_date,
            coverage_end_date: payload.coverage_end_date,
        };
        proof {
            lemma_insurance_encoding_len(insurance@);
        }
        self.insurance_table.insert(insurance.id, &insurance);
        Ok(insurance)
    }

    /// Submits a claim against an existing policy: the policy must exist and
    /// the claim amount must be positive. A fresh claim id keys the stored
    /// record; the record itself carries only the policy's id. A rejected
    /// request changes nothing and consumes no id.
    pub fn submit_insurance_claim(&mut self, payload: InsuranceClaimPayload, now: u64) -> (r:
        Result<InsuranceClaim, Error>)
        requires
            old(self).wf(),
        ensures
            final(self).wf(),
            final(self).last_id() >= old(self).last_id(),
            !old(self).insurances().contains_key(payload.insurance_id) ==> (r matches Err(e) && e
                == Error::NotFound && same_state(*final(self), *old(self))),
            (old(self).insurances().contains_key(payload.insurance_id) && payload.claim_amount
                == 0) ==> (r matches Err(e) && e == Error::InvalidInput && same_state(*final(self), *old(self))),
            (old(self).insurances().contains_key(payload.insurance_id) && payload.claim_amount > 0
                && old(self).last_id() == u64::MAX) ==> (r matches Err(e) && e
                == Error::InternalError && same_state(*final(self), *old(self))),
            (old(self).insurances().contains_key(payload.insurance_id) && payload.claim_amount > 0
                && old(self).last_id() < u64::MAX) ==> (r matches Ok(c) && c@ == (InsuranceClaimView {
                insurance_id: payload.insurance_id,
                claim_amount: payload.claim_amount,
                claim_date: now,
            }) && final(self).last_id() == old(self).last_id() + 1 && final(self).claims() == old(self).claims().insert((old(self).last_id() + 1) as u64, c@) && final(self).debts() == old(self).debts() && final(self).escrows() == old(self).escrows() && final(self).insurances()
                == old(self).insurances()),
    {
        let insurance = match self._get_crop_insurance(&payload.insurance_id) {
            None => {
                return Err(Error::NotFound);
            },
            Some(i) => i,
        };
        if payload.claim_amount == 0 {
            return Err(Error::InvalidInput);
        }
        let claim_id = match self.generate_unique_id() {
            Err(e) => {
                return Err(e);
            },
            Ok(i) => i,
        };
        let claim = InsuranceClaim {
            insurance_id: insurance.id,
            claim_amount: payload.claim_amount,
            claim_date: now,
        };
        proof {
            lemma_claim_encoding_len(claim@);
        }
        self.claim_table.insert(claim_id, &claim);
        Ok(claim)
    }
}

/// Law: ids are unique across entity kinds. In a well-formed ledger every
/// table key is at most the counter's value, so any id strictly above the
/// counter — in particular the id a successful mint returns — collides with
/// no key already present in any of the four tables.
pub proof fn lemma_ids_unique_across_kinds(l: Ledger, id: u64)
    requires
        l.wf(),
        id > l.last_id(),
    ensures
        !l.debts().contains_key(id),
        !l.escrows().contains_key(id),
        !l.insurances().contains_key(id),
        !l.claims().contains_key(id),
{
}

} // verus!
