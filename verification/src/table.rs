//! The whole run over one input: split the bytes into delimited rows with
//! the csv crate, decode every row, and emit the header line followed by
//! one rendered entry per row, in input order — or the first row failure.
use vstd::prelude::*;
use crate::qif::{spec_header, spec_render, spec_transform, header_line, render_entry, transform};
use crate::record::{
    spec_decode_row, decode_result_view, decode_row, lemma_decode_row_wf, DecodeError, TransactionView,
};

verus! {

/// What the csv crate reads out of the input bytes: the rows, each a run of
/// text fields — or nothing, when the bytes cannot be read as delimited
/// text. The result depends on the bytes alone.
pub uninterp spec fn csv_table(s: Seq<u8>) -> Option<Seq<Seq<Seq<char>>>>;

#[verifier::external_type_specification]
#[verifier::external_body]
pub struct ExCsvError(csv::Error);

/// Relies on csv::ReaderBuilder and csv::Reader::records: the input bytes
/// are split into one record of text fields per row, comma-delimited with
/// conventional quoting, no header row skipped and no field count imposed;
/// reading a byte slice fails only when the bytes are not valid text.
#[verifier::external_body]
fn read_rows(input: &[u8]) -> (r: Result<Vec<Vec<String>>, csv::Error>)
    ensures
        r is Ok <==> csv_table(input@) is Some,
        r is Ok ==> r.unwrap().deep_view() == csv_table(input@).unwrap(),
{
    let mut rdr = csv::ReaderBuilder::new().has_headers(false).flexible(true).from_reader(input);
    let mut rows: Vec<Vec<String>> = Vec::new();
    for record in rdr.records() {
        match record {
            Ok(rec) => rows.push(rec.iter().map(|f| f.to_string()).collect()),
            Err(e) => return Err(e),
        }
    }
    Ok(rows)
}

/// The rendered entry of one (decodable) row.
pub open spec fn spec_row_entry(fields: Seq<Seq<char>>, row: usize) -> Seq<char> {
    spec_render(spec_transform(spec_decode_row(fields, row).unwrap()))
}

/// The rendered entries of the first `n` rows, in input order.
pub open spec fn spec_entries_prefix(rows: Seq<Seq<Seq<char>>>, n: int) -> Seq<char>
    decreases n,
{
    if n <= 0 {
        Seq::empty()
    } else {
        spec_entries_prefix(rows, n - 1) + spec_row_entry(rows[n - 1], (n - 1) as usize)
    }
}

/// Whether every row from `i` on decodes, or the first failure from `i` on.
pub open spec fn spec_rows_check(rows: Seq<Seq<Seq<char>>>, i: int) -> Result<(), DecodeError>
    decreases rows.len() - i,
{
    if i < 0 || i >= rows.len() {
        Ok(())
    } else {
        match spec_decode_row(rows[i], i as usize) {
            Err(e) => Err(e),
            Ok(t) => spec_rows_check(rows, i + 1),
        }
    }
}

/// What a run over decoded rows produces: the header line followed by every
/// row's entry in input order, or the first row failure and no output.
pub open spec fn spec_convert(rows: Seq<Seq<Seq<char>>>) -> Result<Seq<char>, DecodeError> {
    match spec_rows_check(rows, 0) {
        Ok(u) => Ok(spec_header() + spec_entries_prefix(rows, rows.len() as int)),
        Err(e) => Err(e),
    }
}

/// The conversion result with the output replaced by its view, so that a
/// contract can speak of both outcomes at once.
pub open spec fn convert_result_view(r: Result<String, DecodeError>) -> Result<
    Seq<char>,
    DecodeError,
> {
    match r {
        Ok(s) => Ok(s@),
        Err(e) => Err(e),
    }
}

/// Converts decoded rows into the full output text: the header line, then
/// one entry per row in input order; any row failure aborts the whole run.
pub fn convert_rows(rows: &Vec<Vec<String>>) -> (r: Result<String, DecodeError>)
    ensures
        convert_result_view(r) == spec_convert(rows.deep_view()),
{
    let ghost rv = rows.deep_view();
    let mut out = header_line();
    let n = rows.len();
    let mut i: usize = 0;
    while i < n
        invariant
            0 <= i <= n,
            spec_rows_check(rv, 0) == spec_rows_check(rv, i as int),
            out@ == spec_header() + spec_entries_prefix(rv, i as int),
        decreases n - i,
    {
        proof {
            assert(rv[i as int] == rows[i as int].deep_view());
        }
        let t = match decode_row(&rows[i], i) {
            Ok(t) => t,
            Err(e) => {
                return Err(e);
            },
        };
        proof {
            lemma_decode_row_wf(rv[i as int], i);
        }
        let entry = transform(&t);
        let line = render_entry(&entry);
        out.append(line.as_str());
        proof {
            assert(out@ =~= spec_header() + spec_entries_prefix(rv, i + 1));
        }
        i += 1;
    }
    Ok(out)
}

/// Converts one input file's bytes into the full output text: the bytes are
/// read as delimited rows, every row is decoded, and the header line plus
/// one entry per row come back in input order; unreadable bytes or any row
/// failure abort the whole run with no output.
pub fn convert(input: &[u8]) -> (r: Result<String, DecodeError>)
    ensures
        convert_result_view(r) == (match csv_table(input@) {
            None => Err::<Seq<char>, DecodeError>(DecodeError::Unreadable),
            Some(rows) => spec_convert(rows),
        }),
{
    match read_rows(input) {
        Err(_) => Err(DecodeError::Unreadable),
        Ok(rows) => convert_rows(&rows),
    }
}

} // verus!
