//! Round-trip and boundary tests for the entity codecs.

use debt_ledger::entities::CropInsurance;
use debt_ledger::entities::Debt;
use debt_ledger::entities::Escrow;
use debt_ledger::entities::InsuranceClaim;
use debt_ledger::entities::Record;
use debt_ledger::entities::debt_fields_fit;
use debt_ledger::entities::insurance_fields_fit;

#[test]
fn debt_round_trip() {
    let debt = Debt {
        id: 7,
        debtor: String::from("alice"),
        creditor: String::from("bob"),
        amount: 100,
        created_at: 123456789,
    };
    let bytes = debt.to_bytes();
    assert_eq!(bytes.len(), 40 + 5 + 3);
    let back = Debt::from_bytes(&bytes);
    assert_eq!(back, Some(debt));
}

#[test]
fn debt_round_trip_boundary_values() {
    let debt = Debt {
        id: u64::MAX,
        debtor: String::new(),
        creditor: String::new(),
        amount: u64::MAX,
        created_at: 0,
    };
    let bytes = debt.to_bytes();
    assert_eq!(bytes.len(), 40);
    let back = Debt::from_bytes(&bytes);
    assert_eq!(back, Some(debt));
}

#[test]
fn debt_round_trip_non_ascii() {
    let debt = Debt {
        id: 3,
        debtor: String::from("Łukasz 農"),
        creditor: String::from("José"),
        amount: 1,
        created_at: u64::MAX,
    };
    let bytes = debt.to_bytes();
    let back = Debt::from_bytes(&bytes);
    assert_eq!(back, Some(debt));
}

#[test]
fn escrow_round_trip() {
    let escrow = Escrow { debt_id: 1, amount: 50, created_at: 42 };
    let bytes = escrow.to_bytes();
    assert_eq!(bytes.len(), 24);
    assert_eq!(Escrow::from_bytes(&bytes), Some(escrow));

    let extreme = Escrow { debt_id: u64::MAX, amount: u64::MAX, created_at: u64::MAX };
    let bytes = extreme.to_bytes();
    assert_eq!(Escrow::from_bytes(&bytes), Some(extreme));
}

#[test]
fn insurance_round_trip() {
    let insurance = CropInsurance {
        id: 9,
        farmer: String::from("fern"),
        crop_type: String::from("maize"),
        coverage_amount: 5000,
        coverage_start_date: 0,
        coverage_end_date: u64::MAX,
    };
    let bytes = insurance.to_bytes();
    assert_eq!(CropInsurance::from_bytes(&bytes), Some(insurance));
}

#[test]
fn claim_round_trip() {
    let claim = InsuranceClaim { insurance_id: 4, claim_amount: 200, claim_date: 77 };
    let bytes = claim.to_bytes();
    assert_eq!(bytes.len(), 24);
    assert_eq!(InsuranceClaim::from_bytes(&bytes), Some(claim));
}

#[test]
fn decode_rejects_truncated_bytes() {
    let debt = Debt {
        id: 1,
        debtor: String::from("alice"),
        creditor: String::from("bob"),
        amount: 2,
        created_at: 3,
    };
    let mut bytes = debt.to_bytes();
    bytes.pop();
    assert_eq!(Debt::from_bytes(&bytes), None);
    assert_eq!(Debt::from_bytes(&Vec::new()), None);
}

#[test]
fn decode_rejects_trailing_bytes() {
    let escrow = Escrow { debt_id: 1, amount: 2, created_at: 3 };
    let mut bytes = escrow.to_bytes();
    bytes.push(0);
    assert_eq!(Escrow::from_bytes(&bytes), None);
}

#[test]
fn decode_rejects_invalid_utf8() {
    let debt = Debt {
        id: 1,
        debtor: String::from("ab"),
        creditor: String::from("cd"),
        amount: 2,
        created_at: 3,
    };
    let mut bytes = debt.to_bytes();
    // The debtor's first byte sits after the id and the length prefix.
    bytes[16] = 0xff;
    assert_eq!(Debt::from_bytes(&bytes), None);
}

#[test]
fn decoded_value_is_read_from_the_bytes() {
    // Hand-built encoding: id 2, debtor "x", creditor "", amount 5, time 6.
    let mut bytes: Vec<u8> = Vec::new();
    bytes.extend_from_slice(&2u64.to_le_bytes());
    bytes.extend_from_slice(&1u64.to_le_bytes());
    bytes.push(b'x');
    bytes.extend_from_slice(&0u64.to_le_bytes());
    bytes.extend_from_slice(&5u64.to_le_bytes());
    bytes.extend_from_slice(&6u64.to_le_bytes());
    let expected = Debt {
        id: 2,
        debtor: String::from("x"),
        creditor: String::new(),
        amount: 5,
        created_at: 6,
    };
    assert_eq!(Debt::from_bytes(&bytes), Some(expected));
}

#[test]
fn field_bounds_match_the_declared_maximum() {
    let just_fits = "a".repeat(984);
    assert!(debt_fields_fit(&just_fits, ""));
    assert!(debt_fields_fit("", &just_fits));
    let too_big = "a".repeat(985);
    assert!(!debt_fields_fit(&too_big, ""));
    assert!(!debt_fields_fit("a", &just_fits));

    let insurance_fits = "a".repeat(976);
    assert!(insurance_fields_fit(&insurance_fits, ""));
    assert!(!insurance_fields_fit(&insurance_fits, "a"));
}
