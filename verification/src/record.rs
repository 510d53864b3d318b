//! The fixed row schema of the bank export: nineteen positional fields,
//! decoded strictly — every field must convert, used or not — and the
//! errors a run can fail with.
use vstd::prelude::*;
use crate::date::{spec_parse_date, parse_date, date_wf, Date};
use crate::num::{spec_parse_u16, spec_parse_u64, parse_u16_text, parse_u64_text};

verus! {

/// The number of fields a row must decode.
pub const FIELD_COUNT: usize = 19;

/// One decoded row of the export, in field order. Only `date`, `amount`,
/// `payee` and `long_description` reach the output; the rest are decoded so
/// that a malformed value anywhere in the row still fails the run.
#[derive(Debug)]
pub struct Transaction {
    pub date: Date,
    pub account: String,
    pub payee_account: String,
    pub payee: String,
    pub address: String,
    pub postal_code: String,
    pub city: String,
    pub balance_before: String,
    pub account_currency: String,
    pub currency: String,
    pub amount: String,
    pub journal_date: Date,
    pub currency_date: Date,
    pub code: u16,
    pub kind: String,
    pub tracking_number: u64,
    pub short_description: String,
    pub long_description: String,
    pub block_number: u64,
}

/// The mathematical image of a `Transaction`: text fields as `Seq<char>`.
pub struct TransactionView {
    pub date: Date,
    pub account: Seq<char>,
    pub payee_account: Seq<char>,
    pub payee: Seq<char>,
    pub address: Seq<char>,
    pub postal_code: Seq<char>,
    pub city: Seq<char>,
    pub balance_before: Seq<char>,
    pub account_currency: Seq<char>,
    pub currency: Seq<char>,
    pub amount: Seq<char>,
    pub journal_date: Date,
    pub currency_date: Date,
    pub code: u16,
    pub kind: Seq<char>,
    pub tracking_number: u64,
    pub short_description: Seq<char>,
    pub long_description: Seq<char>,
    pub block_number: u64,
}

impl View for Transaction {
    type V = TransactionView;

    open spec fn view(&self) -> TransactionView {
        TransactionView {
            date: self.date,
            account: self.account@,
            payee_account: self.payee_account@,
            payee: self.payee@,
            address: self.address@,
            postal_code: self.postal_code@,
            city: self.city@,
            balance_before: self.balance_before@,
            account_currency: self.account_currency@,
            currency: self.currency@,
            amount: self.amount@,
            journal_date: self.journal_date,
            currency_date: self.currency_date,
            code: self.code,
            kind: self.kind@,
            tracking_number: self.tracking_number,
            short_description: self.short_description@,
            long_description: self.long_description@,
            block_number: self.block_number,
        }
    }
}

/// Why a run failed. Rows and fields are counted from zero.
#[derive(Clone, Copy, PartialEq, Eq, Structural, Debug)]
pub enum DecodeError {
    /// A row did not have exactly `FIELD_COUNT` fields.
    FieldCount { row: usize, found: usize },
    /// A date column of a row did not hold a valid `DD-MM-YYYY` date.
    BadDate { row: usize, field: usize },
    /// An integer column of a row did not hold an integer of its width.
    BadInt { row: usize, field: usize },
    /// The input could not be read as delimited text at all.
    Unreadable,
}

/// What decoding one row yields: the transaction, or the first failure in
/// field order — a wrong field count, then the leftmost bad typed column.
pub open spec fn spec_decode_row(fields: Seq<Seq<char>>, row: usize) -> Result<
    TransactionView,
    DecodeError,
> {
    if fields.len() != FIELD_COUNT {
        Err(DecodeError::FieldCount { row, found: fields.len() as usize })
    } else if spec_parse_date(fields[0]) is None {
        Err(DecodeError::BadDate { row, field: 0 })
    } else if spec_parse_date(fields[11]) is None {
        Err(DecodeError::BadDate { row, field: 11 })
    } else if spec_parse_date(fields[12]) is None {
        Err(DecodeError::BadDate { row, field: 12 })
    } else if spec_parse_u16(fields[13]) is None {
        Err(DecodeError::BadInt { row, field: 13 })
    } else if spec_parse_u64(fields[15]) is None {
        Err(DecodeError::BadInt { row, field: 15 })
    } else if spec_parse_u64(fields[18]) is None {
        Err(DecodeError::BadInt { row, field: 18 })
    } else {
        Ok(
            TransactionView {
                date: spec_parse_date(fields[0]).unwrap(),
                account: fields[1],
                payee_account: fields[2],
                payee: fields[3],
                address: fields[4],
                postal_code: fields[5],
                city: fields[6],
                balance_before: fields[7],
                account_currency: fields[8],
                currency: fields[9],
                amount: fields[10],
                journal_date: spec_parse_date(fields[11]).unwrap(),
                currency_date: spec_parse_date(fields[12]).unwrap(),
                code: spec_parse_u16(fields[13]).unwrap(),
                kind: fields[14],
                tracking_number: spec_parse_u64(fields[15]).unwrap(),
                short_description: fields[16],
                long_description: fields[17],
                block_number: spec_parse_u64(fields[18]).unwrap(),
            },
        )
    }
}

/// A decoded transaction always carries well-formed dates.
pub open spec fn transaction_wf(t: TransactionView) -> bool {
    &&& date_wf(t.date)
    &&& date_wf(t.journal_date)
    &&& date_wf(t.currency_date)
}

pub proof fn lemma_decode_row_wf(fields: Seq<Seq<char>>, row: usize)
    requires
        spec_decode_row(fields, row) is Ok,
    ensures
        transaction_wf(spec_decode_row(fields, row).unwrap()),
{
}

/// The decode result with the transaction replaced by its view, so that a
/// contract can speak of both outcomes at once.
pub open spec fn decode_result_view(r: Result<Transaction, DecodeError>) -> Result<
    TransactionView,
    DecodeError,
> {
    match r {
        Ok(t) => Ok(t@),
        Err(e) => Err(e),
    }
}

/// Decodes the positional fields of one row into a transaction, or reports
/// the first failure in field order.
pub fn decode_row(fields: &Vec<String>, row: usize) -> (r: Result<Transaction, DecodeError>)
    ensures
        decode_result_view(r) == spec_decode_row(fields.deep_view(), row),
{
    if fields.len() != FIELD_COUNT {
        return Err(DecodeError::FieldCount { row, found: fields.len() });
    }
    let date = match parse_date(fields[0].as_str()) {
        Some(d) => d,
        None => { return Err(DecodeError::BadDate { row, field: 0 }) },
    };
    let journal_date = match parse_date(fields[11].as_str()) {
        Some(d) => d,
        None => { return Err(DecodeError::BadDate { row, field: 11 }) },
    };
    let currency_date = match parse_date(fields[12].as_str()) {
        Some(d) => d,
        None => { return Err(DecodeError::BadDate { row, field: 12 }) },
    };
    let code = match parse_u16_text(fields[13].as_str()) {
        Some(v) => v,
        None => { return Err(DecodeError::BadInt { row, field: 13 }) },
    };
    let tracking_number = match parse_u64_text(fields[15].as_str()) {
        Some(v) => v,
        None => { return Err(DecodeError::BadInt { row, field: 15 }) },
    };
    let block_number = match parse_u64_text(fields[18].as_str()) {
        Some(v) => v,
        None => { return Err(DecodeError::BadInt { row, field: 18 }) },
    };
    Ok(
        Transaction {
            date,
            account: fields[1].clone(),
            payee_account: fields[2].clone(),
            payee: fields[3].clone(),
            address: fields[4].clone(),
            postal_code: fields[5].clone(),
            city: fields[6].clone(),
            balance_before: fields[7].clone(),
            account_currency: fields[8].clone(),
            currency: fields[9].clone(),
            amount: fields[10].clone(),
            journal_date,
            currency_date,
            code,
            kind: fields[14].clone(),
            tracking_number,
            short_description: fields[16].clone(),
            long_description: fields[17].clone(),
            block_number,
        },
    )
}

} // verus!
