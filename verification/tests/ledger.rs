//! End-to-end tests of the ledger: minting, the request handlers, their
//! error taxonomy, and isolation between the entity tables.

use debt_ledger::entities::Debt;
use debt_ledger::entities::Error;
use debt_ledger::ledger::CropInsurancePayload;
use debt_ledger::ledger::DebtPayload;
use debt_ledger::ledger::EscrowPayload;
use debt_ledger::ledger::InsuranceClaimPayload;
use debt_ledger::ledger::Ledger;
use debt_ledger::ledger::validate_non_empty;

fn debt_payload(debtor: &str, creditor: &str, amount: u64) -> DebtPayload {
    DebtPayload { debtor: String::from(debtor), creditor: String::from(creditor), amount }
}

fn insurance_payload(farmer: &str, crop_type: &str, coverage_amount: u64) -> CropInsurancePayload {
    CropInsurancePayload {
        farmer: String::from(farmer),
        crop_type: String::from(crop_type),
        coverage_amount,
        coverage_start_date: 10,
        coverage_end_date: 20,
    }
}

#[test]
fn minted_ids_strictly_increase() {
    let mut ledger = Ledger::init();
    let a = ledger.generate_unique_id().unwrap();
    let b = ledger.generate_unique_id().unwrap();
    let c = ledger.generate_unique_id().unwrap();
    assert_eq!((a, b, c), (1, 2, 3));
    assert!(a < b && b < c);
}

#[test]
fn add_debt_then_get_returns_the_same_record() {
    let mut ledger = Ledger::init();
    let debt = ledger.add_debt(debt_payload("alice", "bob", 100), 999).unwrap();
    let expected = Debt {
        id: 1,
        debtor: String::from("alice"),
        creditor: String::from("bob"),
        amount: 100,
        created_at: 999,
    };
    assert_eq!(debt, expected);
    assert_eq!(ledger.get_debt(1), Ok(expected));
}

#[test]
fn add_debt_rejects_bad_input() {
    let mut ledger = Ledger::init();
    assert_eq!(ledger.add_debt(debt_payload("", "bob", 100), 0), Err(Error::InvalidInput));
    assert_eq!(ledger.add_debt(debt_payload("alice", "", 100), 0), Err(Error::InvalidInput));
    assert_eq!(ledger.add_debt(debt_payload("alice", "bob", 0), 0), Err(Error::InvalidInput));
    assert_eq!(ledger.get_debt(1), Err(Error::NotFound));
}

#[test]
fn update_debt_replaces_fields_and_keeps_creation_time() {
    let mut ledger = Ledger::init();
    ledger.add_debt(debt_payload("alice", "bob", 100), 5).unwrap();
    let updated = ledger.update_debt(1, debt_payload("carol", "dan", 70)).unwrap();
    assert_eq!(updated.id, 1);
    assert_eq!(updated.debtor, "carol");
    assert_eq!(updated.creditor, "dan");
    assert_eq!(updated.amount, 70);
    assert_eq!(updated.created_at, 5);
    assert_eq!(ledger.get_debt(1), Ok(updated));
}

#[test]
fn update_debt_errors() {
    let mut ledger = Ledger::init();
    assert_eq!(ledger.update_debt(1, debt_payload("a", "b", 1)), Err(Error::NotFound));
    ledger.add_debt(debt_payload("alice", "bob", 100), 5).unwrap();
    assert_eq!(ledger.update_debt(1, debt_payload("", "b", 1)), Err(Error::InvalidInput));
}

#[test]
fn escrow_for_missing_debt_is_not_found() {
    let mut ledger = Ledger::init();
    let r = ledger.create_escrow(EscrowPayload { debt_id: 999, amount: 50 }, 1);
    assert_eq!(r, Err(Error::NotFound));
}

#[test]
fn escrow_is_keyed_by_debt_and_overwritten() {
    let mut ledger = Ledger::init();
    ledger.add_debt(debt_payload("alice", "bob", 100), 1).unwrap();
    assert_eq!(
        ledger.create_escrow(EscrowPayload { debt_id: 1, amount: 0 }, 2),
        Err(Error::InvalidInput)
    );
    let first = ledger.create_escrow(EscrowPayload { debt_id: 1, amount: 40 }, 2).unwrap();
    assert_eq!(first.debt_id, 1);
    assert_eq!(first.amount, 40);
    let second = ledger.create_escrow(EscrowPayload { debt_id: 1, amount: 60 }, 3).unwrap();
    assert_eq!(ledger.get_escrow(1), Ok(second));
    assert_eq!(ledger.get_escrow(2), Err(Error::NotFound));
}

#[test]
fn invalid_insurance_consumes_no_id() {
    let mut ledger = Ledger::init();
    let r = ledger.purchase_crop_insurance(insurance_payload("", "maize", 500));
    assert_eq!(r, Err(Error::InvalidInput));
    let r = ledger.purchase_crop_insurance(insurance_payload("fern", "maize", 0));
    assert_eq!(r, Err(Error::InvalidInput));
    // The next successful mint still yields the first id of the sequence.
    let debt = ledger.add_debt(debt_payload("alice", "bob", 100), 1).unwrap();
    assert_eq!(debt.id, 1);
}

#[test]
fn claim_of_zero_amount_on_existing_policy_is_invalid() {
    let mut ledger = Ledger::init();
    let insurance = ledger.purchase_crop_insurance(insurance_payload("fern", "maize", 500)).unwrap();
    let r = ledger.submit_insurance_claim(
        InsuranceClaimPayload { insurance_id: insurance.id, claim_amount: 0 },
        7,
    );
    assert_eq!(r, Err(Error::InvalidInput));
}

#[test]
fn claim_flow_mints_its_own_id() {
    let mut ledger = Ledger::init();
    let insurance = ledger.purchase_crop_insurance(insurance_payload("fern", "maize", 500)).unwrap();
    assert_eq!(insurance.id, 1);
    let claim = ledger
        .submit_insurance_claim(
            InsuranceClaimPayload { insurance_id: 1, claim_amount: 200 },
            7,
        )
        .unwrap();
    assert_eq!(claim.insurance_id, 1);
    assert_eq!(claim.claim_amount, 200);
    assert_eq!(claim.claim_date, 7);
    // The claim is stored under its own minted id, the next in the sequence.
    assert_eq!(ledger.get_insurance_claim(2), Ok(claim));
    assert_eq!(ledger.get_insurance_claim(1), Err(Error::NotFound));
}

#[test]
fn claim_against_missing_policy_is_not_found() {
    let mut ledger = Ledger::init();
    let r = ledger.submit_insurance_claim(
        InsuranceClaimPayload { insurance_id: 999, claim_amount: 0 },
        7,
    );
    assert_eq!(r, Err(Error::NotFound));
}

#[test]
fn tables_are_isolated_from_each_other() {
    let mut ledger = Ledger::init();
    let debt = ledger.add_debt(debt_payload("alice", "bob", 100), 1).unwrap();
    let escrow = ledger.create_escrow(EscrowPayload { debt_id: 1, amount: 40 }, 2).unwrap();
    let insurance = ledger.purchase_crop_insurance(insurance_payload("fern", "maize", 500)).unwrap();
    assert_eq!(insurance.id, 2);

    // Writing key 1 in the debt table again touches no other table's key 1.
    ledger.update_debt(1, debt_payload("carol", "dan", 70)).unwrap();
    assert_eq!(ledger.get_escrow(1), Ok(escrow.clone()));
    assert_eq!(ledger.get_crop_insurance(2), Ok(insurance.clone()));
    assert_eq!(ledger.get_crop_insurance(1), Err(Error::NotFound));
    assert_eq!(ledger.get_insurance_claim(1), Err(Error::NotFound));

    // Writing the escrow table leaves the updated debt intact.
    ledger.create_escrow(EscrowPayload { debt_id: 1, amount: 90 }, 3).unwrap();
    let stored = ledger.get_debt(1).unwrap();
    assert_eq!(stored.debtor, "carol");
    assert_eq!(stored.amount, 70);
    let _ = debt;
}

#[test]
fn lookups_on_a_fresh_ledger_are_not_found() {
    let ledger = Ledger::init();
    assert_eq!(ledger.get_debt(1), Err(Error::NotFound));
    assert_eq!(ledger.get_escrow(1), Err(Error::NotFound));
    assert_eq!(ledger.get_crop_insurance(1), Err(Error::NotFound));
    assert_eq!(ledger.get_insurance_claim(1), Err(Error::NotFound));
    assert_eq!(ledger._get_debt(&1), None);
    assert_eq!(ledger._get_escrow(&1), None);
    assert_eq!(ledger._get_crop_insurance(&1), None);
    assert_eq!(ledger._get_insurance_claim(&1), None);
}

#[test]
fn validate_non_empty_accepts_exactly_nonempty_fields() {
    assert_eq!(validate_non_empty("alice", "debtor"), Ok(()));
    assert_eq!(validate_non_empty("", "debtor"), Err(Error::InvalidInput));
}
