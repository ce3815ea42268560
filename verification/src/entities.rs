//! The four entity types of the ledger, their mathematical views, and one
//! bounded codec per type. Every codec is a deterministic byte encoding whose
//! decoder is proved to be its exact left inverse, and every encoded record
//! is bounded by [`MAX_RECORD_BYTES`].

use vstd::prelude::*;

verus! {

use crate::codec::enc_str;
use crate::codec::enc_str_len;
use crate::codec::enc_u64;
use crate::codec::lemma_enc_str_len;
use crate::codec::lemma_enc_u64_len;
use crate::codec::read_str;
use crate::codec::read_u64;
use crate::codec::write_str;
use crate::codec::write_u64;
use vstd::bytes::lemma_auto_spec_u64_to_from_le_bytes;

/// Declared maximum size of one encoded record, in bytes. A record whose
/// encoding would exceed this bound is a programming-error-class fault and is
/// excluded by precondition rather than silently truncated.
pub const MAX_RECORD_BYTES: usize = 1024;

/// The error taxonomy of the ledger: a referenced key is absent, the caller's
/// data fails a precondition, or the storage layer itself failed.
#[derive(Clone, Copy, Debug, PartialEq, Eq, Structural)]
pub enum Error {
    NotFound,
    InvalidInput,
    InternalError,
}

/// One record type storable in an entity table: a deterministic encoder over
/// the record's view, an exec encoder that realizes it, and a decoder that is
/// the exact left inverse of the encoder on every record that fits the bound.
pub trait Record: View + Sized {
    /// The encoding of one record, as a function of its view.
    spec fn spec_encode(v: <Self as View>::V) -> Seq<u8>;

    /// Encodes the record; the record must fit the declared bound.
    fn to_bytes(&self) -> (r: Vec<u8>)
        requires
            Self::spec_encode(self@).len() <= MAX_RECORD_BYTES,
        ensures
            r@ == Self::spec_encode(self@),
    ;

    /// Decodes one record. Any decoded record re-encodes to the input, and
    /// the encoding of every record within the bound decodes to that record.
    fn from_bytes(bytes: &Vec<u8>) -> (r: Option<Self>)
        ensures
            r matches Some(d) ==> Self::spec_encode(d@) == bytes@,
            forall|v: <Self as View>::V|
                (Self::spec_encode(v).len() <= MAX_RECORD_BYTES && bytes@
                    == #[trigger] Self::spec_encode(v)) ==> (r matches Some(d) && d@ == v),
    ;
}

/// A debt owed by one party to another.
#[derive(Clone, Debug, PartialEq, Eq)]
pub struct Debt {
    pub id: u64,
    pub debtor: String,
    pub creditor: String,
    pub amount: u64,
    pub created_at: u64,
}

/// The mathematical value of a [`Debt`].
pub struct DebtView {
    pub id: u64,
    pub debtor: Seq<char>,
    pub creditor: Seq<char>,
    pub amount: u64,
    pub created_at: u64,
}

impl View for Debt {
    type V = DebtView;

    open spec fn view(&self) -> DebtView {
        DebtView {
            id: self.id,
            debtor: self.debtor@,
            creditor: self.creditor@,
            amount: self.amount,
            created_at: self.created_at,
        }
    }
}

/// The encoding of a debt: id, debtor, creditor, amount, creation time.
pub open spec fn spec_encode_debt(v: DebtView) -> Seq<u8> {
    enc_u64(v.id) + enc_str(v.debtor) + enc_str(v.creditor) + enc_u64(v.amount) + enc_u64(
        v.created_at,
    )
}

/// The length of an encoded debt, as a function of its two text fields.
pub open spec fn debt_encoding_len(debtor: Seq<char>, creditor: Seq<char>) -> int {
    8 + enc_str_len(debtor) + enc_str_len(creditor) + 8 + 8
}

pub proof fn lemma_debt_encoding_len(v: DebtView)
    ensures
        spec_encode_debt(v).len() == debt_encoding_len(v.debtor, v.creditor),
{
    lemma_enc_u64_len(v.id);
    lemma_enc_u64_len(v.amount);
    lemma_enc_u64_len(v.created_at);
    lemma_enc_str_len(v.debtor);
    lemma_enc_str_len(v.creditor);
}

/// Whether a debt built from these two text fields fits the declared bound;
/// the fixed-width fields never affect the answer.
pub fn debt_fields_fit(debtor: &str, creditor: &str) -> (r: bool)
    ensures
        r == (debt_encoding_len(debtor@, creditor@) <= MAX_RECORD_BYTES),
{
    proof {
        lemma_enc_str_len(debtor@);
        lemma_enc_str_len(creditor@);
    }
    let a = debtor.as_bytes().len();
    let b = creditor.as_bytes().len();
    a <= MAX_RECORD_BYTES - 40 && b <= MAX_RECORD_BYTES - 40 - a
}

impl Record for Debt {
    open spec fn spec_encode(v: DebtView) -> Seq<u8> {
        spec_encode_debt(v)
    }

    fn to_bytes(&self) -> (r: Vec<u8>) {
        let mut out: Vec<u8> = Vec::new();
        write_u64(&mut out, self.id);
        write_str(&mut out, self.debtor.as_str());
        write_str(&mut out, self.creditor.as_str());
        write_u64(&mut out, self.amount);
        write_u64(&mut out, self.created_at);
        proof {
            assert(out@ =~= spec_encode_debt(self@));
        }
        out
    }

    fn from_bytes(bytes: &Vec<u8>) -> (r: Option<Debt>) {
        proof {
            lemma_auto_spec_u64_to_from_le_bytes();
            assert forall|v: DebtView| bytes@ == #[trigger] spec_encode_debt(v) implies {
                &&& bytes@.len() == debt_encoding_len(v.debtor, v.creditor)
                &&& bytes@.subrange(0, 8) == enc_u64(v.id)
                &&& bytes@.subrange(8, 8 + enc_str_len(v.debtor)) == enc_str(v.debtor)
                &&& bytes@.subrange(
                    8 + enc_str_len(v.debtor),
                    8 + enc_str_len(v.debtor) + enc_str_len(v.creditor),
                ) == enc_str(v.creditor)
                &&& bytes@.subrange(
                    8 + enc_str_len(v.debtor) + enc_str_len(v.creditor),
                    16 + enc_str_len(v.debtor) + enc_str_len(v.creditor),
                ) == enc_u64(v.amount)
                &&& bytes@.subrange(
                    16 + enc_str_len(v.debtor) + enc_str_len(v.creditor),
                    24 + enc_str_len(v.debtor) + enc_str_len(v.creditor),
                ) == enc_u64(v.created_at)
            } by {
                lemma_debt_encoding_len(v);
                lemma_enc_u64_len(v.id);
                lemma_enc_u64_len(v.amount);
                lemma_enc_u64_len(v.created_at);
                lemma_enc_str_len(v.debtor);
                lemma_enc_str_len(v.creditor);
                assert(bytes@.subrange(0, 8) =~= enc_u64(v.id));
                assert(bytes@.subrange(8, 8 + enc_str_len(v.debtor)) =~= enc_str(v.debtor));
                assert(bytes@.subrange(
                    8 + enc_str_len(v.debtor),
                    8 + enc_str_len(v.debtor) + enc_str_len(v.creditor),
                ) =~= enc_str(v.creditor));
                assert(bytes@.subrange(
                    8 + enc_str_len(v.debtor) + enc_str_len(v.creditor),
                    16 + enc_str_len(v.debtor) + enc_str_len(v.creditor),
                ) =~= enc_u64(v.amount));
                assert(bytes@.subrange(
                    16 + enc_str_len(v.debtor) + enc_str_len(v.creditor),
                    24 + enc_str_len(v.debtor) + enc_str_len(v.creditor),
                ) =~= enc_u64(v.created_at));
            }
        }
        match read_u64(bytes, 0) {
            None => None,
            Some((id, o1)) => match read_str(bytes, o1) {
                None => None,
                Some((debtor, o2)) => match read_str(bytes, o2) {
                    None => None,
                    Some((creditor, o3)) => match read_u64(bytes, o3) {
                        None => None,
                        Some((amount, o4)) => match read_u64(bytes, o4) {
                            None => None,
                            Some((created_at, o5)) => {
                                if o5 == bytes.len() {
                                    let d = Debt { id, debtor, creditor, amount, created_at };
                                    proof {
                                        assert(bytes@ =~= bytes@.subrange(0, 8) + bytes@.subrange(
                                            8,
                                            o2 as int,
                                        ) + bytes@.subrange(o2 as int, o3 as int) + bytes@.subrange(
                                            o3 as int,
                                            o4 as int,
                                        ) + bytes@.subrange(o4 as int, o5 as int));
                                    }
                                    Some(d)
                                } else {
                                    None
                                }
                            },
                        },
                    },
                },
            },
        }
    }
}

/// An escrow held against one debt; keyed by the debt's id, so at most one
/// escrow exists per debt.
#[derive(Clone, Debug, PartialEq, Eq)]
pub struct Escrow {
    pub debt_id: u64,
    pub amount: u64,
    pub created_at: u64,
}

/// The mathematical value of an [`Escrow`].
pub struct EscrowView {
    pub debt_id: u64,
    pub amount: u64,
    pub created_at: u64,
}

impl View for Escrow {
    type V = EscrowView;

    open spec fn view(&self) -> EscrowView {
        EscrowView { debt_id: self.debt_id, amount: self.amount, created_at: self.created_at }
    }
}

/// The encoding of an escrow: debt id, amount, creation time.
pub open spec fn spec_encode_escrow(v: EscrowView) -> Seq<u8> {
    enc_u64(v.debt_id) + enc_u64(v.amount) + enc_u64(v.created_at)
}

pub proof fn lemma_escrow_encoding_len(v: EscrowView)
    ensures
        spec_encode_escrow(v).len() == 24,
{
    lemma_enc_u64_len(v.debt_id);
    lemma_enc_u64_len(v.amount);
    lemma_enc_u64_len(v.created_at);
}

impl Record for Escrow {
    open spec fn spec_encode(v: EscrowView) -> Seq<u8> {
        spec_encode_escrow(v)
    }

    fn to_bytes(&self) -> (r: Vec<u8>) {
        let mut out: Vec<u8> = Vec::new();
        write_u64(&mut out, self.debt_id);
        write_u64(&mut out, self.amount);
        write_u64(&mut out, self.created_at);
        proof {
            assert(out@ =~= spec_encode_escrow(self@));
        }
        out
    }

    fn from_bytes(bytes: &Vec<u8>) -> (r: Option<Escrow>) {
        proof {
            lemma_auto_spec_u64_to_from_le_bytes();
            assert forall|v: EscrowView| bytes@ == #[trigger] spec_encode_escrow(v) implies {
                &&& bytes@.len() == 24
                &&& bytes@.subrange(0, 8) == enc_u64(v.debt_id)
                &&& bytes@.subrange(8, 16) == enc_u64(v.amount)
                &&& bytes@.subrange(16, 24) == enc_u64(v.created_at)
            } by {
                lemma_escrow_encoding_len(v);
                lemma_enc_u64_len(v.debt_id);
                lemma_enc_u64_len(v.amount);
                lemma_enc_u64_len(v.created_at);
                assert(bytes@.subrange(0, 8) =~= enc_u64(v.debt_id));
                assert(bytes@.subrange(8, 16) =~= enc_u64(v.amount));
                assert(bytes@.subrange(16, 24) =~= enc_u64(v.created_at));
            }
        }
        match read_u64(bytes, 0) {
            None => None,
            Some((debt_id, o1)) => match read_u64(bytes, o1) {
                None => None,
                Some((amount, o2)) => match read_u64(bytes, o2) {
                    None => None,
                    Some((created_at, o3)) => {
                        if o3 == bytes.len() {
                            let e = Escrow { debt_id, amount, created_at };
                            proof {
                                assert(bytes@ =~= bytes@.subrange(0, 8) + bytes@.subrange(8, 16)
                                    + bytes@.subrange(16, 24));
                            }
                            Some(e)
                        } else {
                            None
                        }
                    },
                },
            },
        }
    }
}

/// A crop-insurance policy, keyed by its own minted id.
#[derive(Clone, Debug, PartialEq, Eq)]
pub struct CropInsurance {
    pub id: u64,
    pub farmer: String,
    pub crop_type: String,
    pub coverage_amount: u64,
    pub coverage_start_date: u64,
    pub coverage_end_date: u64,
}

/// The mathematical value of a [`CropInsurance`].
pub struct CropInsuranceView {
    pub id: u64,
    pub farmer: Seq<char>,
    pub crop_type: Seq<char>,
    pub coverage_amount: u64,
    pub coverage_start_date: u64,
    pub coverage_end_date: u64,
}

impl View for CropInsurance {
    type V = CropInsuranceView;

    open spec fn view(&self) -> CropInsuranceView {
        CropInsuranceView {
            id: self.id,
            farmer: self.farmer@,
            crop_type: self.crop_type@,
            coverage_amount: self.coverage_amount,
            coverage_start_date: self.coverage_start_date,
            coverage_end_date: self.coverage_end_date,
        }
    }
}

/// The encoding of a policy: id, farmer, crop type, coverage amount, start
/// date, end date.
pub open spec fn spec_encode_insurance(v: CropInsuranceView) -> Seq<u8> {
    enc_u64(v.id) + enc_str(v.farmer) + enc_str(v.crop_type) + enc_u64(v.coverage_amount) + enc_u64(
        v.coverage_start_date,
    ) + enc_u64(v.coverage_end_date)
}

/// The length of an encoded policy, as a function of its two text fields.
pub open spec fn insurance_encoding_len(farmer: Seq<char>, crop_type: Seq<char>) -> int {
    8 + enc_str_len(farmer) + enc_str_len(crop_type) + 8 + 8 + 8
}

pub proof fn lemma_insurance_encoding_len(v: CropInsuranceView)
    ensures
        spec_encode_insurance(v).len() == insurance_encoding_len(v.farmer, v.crop_type),
{
    lemma_enc_u64_len(v.id);
    lemma_enc_u64_len(v.coverage_amount);
    lemma_enc_u64_len(v.coverage_start_date);
    lemma_enc_u64_len(v.coverage_end_date);
    lemma_enc_str_len(v.farmer);
    lemma_enc_str_len(v.crop_type);
}

/// Whether a policy built from these two text fields fits the declared bound.
pub fn insurance_fields_fit(farmer: &str, crop_type: &str) -> (r: bool)
    ensures
        r == (insurance_encoding_len(farmer@, crop_type@) <= MAX_RECORD_BYTES),
{
    proof {
        lemma_enc_str_len(farmer@);
        lemma_enc_str_len(crop_type@);
    }
    let a = farmer.as_bytes().len();
    let b = crop_type.as_bytes().len();
    a <= MAX_RECORD_BYTES - 48 && b <= MAX_RECORD_BYTES - 48 - a
}

impl Record for CropInsurance {
    open spec fn spec_encode(v: CropInsuranceView) -> Seq<u8> {
        spec_encode_insurance(v)
    }

    fn to_bytes(&self) -> (r: Vec<u8>) {
        let mut out: Vec<u8> = Vec::new();
        write_u64(&mut out, self.id);
        write_str(&mut out, self.farmer.as_str());
        write_str(&mut out, self.crop_type.as_str());
        write_u64(&mut out, self.coverage_amount);
        write_u64(&mut out, self.coverage_start_date);
        write_u64(&mut out, self.coverage_end_date);
        proof {
            assert(out@ =~= spec_encode_insurance(self@));
        }
        out
    }

    fn from_bytes(bytes: &Vec<u8>) -> (r: Option<CropInsurance>) {
        proof {
            lemma_auto_spec_u64_to_from_le_bytes();
            assert forall|v: CropInsuranceView| bytes@ == #[trigger] spec_encode_insurance(
                v,
            ) implies {
                &&& bytes@.len() == insurance_encoding_len(v.farmer, v.crop_type)
                &&& bytes@.subrange(0, 8) == enc_u64(v.id)
                &&& bytes@.subrange(8, 8 + enc_str_len(v.farmer)) == enc_str(v.farmer)
                &&& bytes@.subrange(
                    8 + enc_str_len(v.farmer),
                    8 + enc_str_len(v.farmer) + enc_str_len(v.crop_type),
                ) == enc_str(v.crop_type)
                &&& bytes@.subrange(
                    8 + enc_str_len(v.farmer) + enc_str_len(v.crop_type),
                    16 + enc_str_len(v.farmer) + enc_str_len(v.crop_type),
                ) == enc_u64(v.coverage_amount)
                &&& bytes@.subrange(
                    16 + enc_str_len(v.farmer) + enc_str_len(v.crop_type),
                    24 + enc_str_len(v.farmer) + enc_str_len(v.crop_type),
                ) == enc_u64(v.coverage_start_date)
                &&& bytes@.subrange(
                    24 + enc_str_len(v.farmer) + enc_str_len(v.crop_type),
                    32 + enc_str_len(v.farmer) + enc_str_len(v.crop_type),
                ) == enc_u64(v.coverage_end_date)
            } by {
                lemma_insurance_encoding_len(v);
                lemma_enc_u64_len(v.id);
                lemma_enc_u64_len(v.coverage_amount);
                lemma_enc_u64_len(v.coverage_start_date);
                lemma_enc_u64_len(v.coverage_end_date);
                lemma_enc_str_len(v.farmer);
                lemma_enc_str_len(v.crop_type);
                assert(bytes@.subrange(0, 8) =~= enc_u64(v.id));
                assert(bytes@.subrange(8, 8 + enc_str_len(v.farmer)) =~= enc_str(v.farmer));
                assert(bytes@.subrange(
                    8 + enc_str_len(v.farmer),
                    8 + enc_str_len(v.farmer) + enc_str_len(v.crop_type),
                ) =~= enc_str(v.crop_type));
                assert(bytes@.subrange(
                    8 + enc_str_len(v.farmer) + enc_str_len(v.crop_type),
                    16 + enc_str_len(v.farmer) + enc_str_len(v.crop_type),
                ) =~= enc_u64(v.coverage_amount));
                assert(bytes@.subrange(
                    16 + enc_str_len(v.farmer) + enc_str_len(v.crop_type),
                    24 + enc_str_len(v.farmer) + enc_str_len(v.crop_type),
                ) =~= enc_u64(v.coverage_start_date));
                assert(bytes@.subrange(
                    24 + enc_str_len(v.farmer) + enc_str_len(v.crop_type),
                    32 + enc_str_len(v.farmer) + enc_str_len(v.crop_type),
                ) =~= enc_u64(v.coverage_end_date));
            }
        }
        match read_u64(bytes, 0) {
            None => None,
            Some((id, o1)) => match read_str(bytes, o1) {
                None => None,
                Some((farmer, o2)) => match read_str(bytes, o2) {
                    None => None,
                    Some((crop_type, o3)) => match read_u64(bytes, o3) {
                        None => None,
                        Some((coverage_amount, o4)) => match read_u64(bytes, o4) {
                            None => None,
                            Some((coverage_start_date, o5)) => match read_u64(bytes, o5) {
                                None => None,
                                Some((coverage_end_date, o6)) => {
                                    if o6 == bytes.len() {
                                        let c = CropInsurance {
                                            id,
                                            farmer,
                                            crop_type,
                                            coverage_amount,
                                            coverage_start_date,
                                            coverage_end_date,
                                        };
                                        proof {
                                            assert(bytes@ =~= bytes@.subrange(0, 8)
                                                + bytes@.subrange(8, o2 as int) + bytes@.subrange(
                                                o2 as int,
                                                o3 as int,
                                            ) + bytes@.subrange(o3 as int, o4 as int)
                                                + bytes@.subrange(o4 as int, o5 as int)
                                                + bytes@.subrange(o5 as int, o6 as int));
                                        }
                                        Some(c)
                                    } else {
                                        None
                                    }
                                },
                            },
                        },
                    },
                },
            },
        }
    }
}

/// An insurance claim against one policy. The claim's own minted id is its
/// table key and is not stored on the record itself.
#[derive(Clone, Debug, PartialEq, Eq)]
pub struct InsuranceClaim {
    pub insurance_id: u64,
    pub claim_amount: u64,
    pub claim_date: u64,
}

/// The mathematical value of an [`InsuranceClaim`].
pub struct InsuranceClaimView {
    pub insurance_id: u64,
    pub claim_amount: u64,
    pub claim_date: u64,
}

impl View for InsuranceClaim {
    type V = InsuranceClaimView;

    open spec fn view(&self) -> InsuranceClaimView {
        InsuranceClaimView {
            insurance_id: self.insurance_id,
            claim_amount: self.claim_amount,
            claim_date: self.claim_date,
        }
    }
}

/// The encoding of a claim: insurance id, claim amount, claim date.
pub open spec fn spec_encode_claim(v: InsuranceClaimView) -> Seq<u8> {
    enc_u64(v.insurance_id) + enc_u64(v.claim_amount) + enc_u64(v.claim_date)
}

pub proof fn lemma_claim_encoding_len(v: InsuranceClaimView)
    ensures
        spec_encode_claim(v).len() == 24,
{
    lemma_enc_u64_len(v.insurance_id);
    lemma_enc_u64_len(v.claim_amount);
    lemma_enc_u64_len(v.claim_date);
}

impl Record for InsuranceClaim {
    open spec fn spec_encode(v: InsuranceClaimView) -> Seq<u8> {
        spec_encode_claim(v)
    }

    fn to_bytes(&self) -> (r: Vec<u8>) {
        let mut out: Vec<u8> = Vec::new();
        write_u64(&mut out, self.insurance_id);
        write_u64(&mut out, self.claim_amount);
        write_u64(&mut out, self.claim_date);
        proof {
            assert(out@ =~= spec_encode_claim(self@));
        }
        out
    }

    fn from_bytes(bytes: &Vec<u8>) -> (r: Option<InsuranceClaim>) {
        proof {
            lemma_auto_spec_u64_to_from_le_bytes();
            assert forall|v: InsuranceClaimView| bytes@ == #[trigger] spec_encode_claim(v) implies {
                &&& bytes@.len() == 24
                &&& bytes@.subrange(0, 8) == enc_u64(v.insurance_id)
                &&& bytes@.subrange(8, 16) == enc_u64(v.claim_amount)
                &&& bytes@.subrange(16, 24) == enc_u64(v.claim_date)
            } by {
                lemma_claim_encoding_len(v);
                lemma_enc_u64_len(v.insurance_id);
                lemma_enc_u64_len(v.claim_amount);
                lemma_enc_u64_len(v.claim_date);
                assert(bytes@.subrange(0, 8) =~= enc_u64(v.insurance_id));
                assert(bytes@.subrange(8, 16) =~= enc_u64(v.claim_amount));
                assert(bytes@.subrange(16, 24) =~= enc_u64(v.claim_date));
            }
        }
        match read_u64(bytes, 0) {
            None => None,
            Some((insurance_id, o1)) => match read_u64(bytes, o1) {
                None => None,
                Some((claim_amount, o2)) => match read_u64(bytes, o2) {
                    None => None,
                    Some((claim_date, o3)) => {
                        if o3 == bytes.len() {
                            let c = InsuranceClaim { insurance_id, claim_amount, claim_date };
                            proof {
                                assert(bytes@ =~= bytes@.subrange(0, 8) + bytes@.subrange(8, 16)
                                    + bytes@.subrange(16, 24));
                            }
                            Some(c)
                        } else {
                            None
                        }
                    },
                },
            },
        }
    }
}

} // verus!
