use csv2qif::record::DecodeError;
use csv2qif::table::{convert, convert_rows};

#[test]
fn empty_input_gives_header_only() {
    assert_eq!(convert(b""), Ok("!Type:Bank\n".to_string()));
}

#[test]
fn convert_rows_of_no_rows_gives_header_only() {
    let rows: Vec<Vec<String>> = Vec::new();
    assert_eq!(convert_rows(&rows), Ok("!Type:Bank\n".to_string()));
}

#[test]
fn end_to_end_single_row() {
    // The memo column carries one pair of quote characters of its own (doubled
    // inside the CSV quoting); the strip rule removes exactly that pair.
    let input = "05-03-2023,A1,B2,Acme Corp,,,,\"0.00\",USD,USD,\"-12.50\",\
05-03-2023,05-03-2023,544,debit,123456,short,\"\"\"quoted text\"\"\",789\n";
    let expected = "!Type:Bank\nT-12.50\nD03/05/2023\nPAcme Corp\nMquoted text\n^\n";
    assert_eq!(convert(input.as_bytes()), Ok(expected.to_string()));
}

#[test]
fn entries_come_in_input_order() {
    let input = "05-03-2023,A1,B2,First,,,,0,USD,USD,-1.00,\
05-03-2023,05-03-2023,1,debit,1,s,'m1',1\n\
31-12-1999,A1,B2,Second,,,,0,USD,USD,2.00,\
31-12-1999,31-12-1999,2,credit,2,s,'m2',2\n";
    let expected = "!Type:Bank\n\
T-1.00\nD03/05/2023\nPFirst\nMm1\n^\n\
T2.00\nD12/31/1999\nPSecond\nMm2\n^\n";
    assert_eq!(convert(input.as_bytes()), Ok(expected.to_string()));
}

#[test]
fn short_row_fails_whole_run_with_decode_error() {
    let input = "05-03-2023,A1,B2,Acme Corp,-12.50\n";
    assert_eq!(
        convert(input.as_bytes()),
        Err(DecodeError::FieldCount { row: 0, found: 5 })
    );
}

#[test]
fn failure_reports_the_failing_row() {
    let input = "05-03-2023,A1,B2,First,,,,0,USD,USD,-1.00,\
05-03-2023,05-03-2023,1,debit,1,s,'m1',1\n\
99-99-9999,A1,B2,Second,,,,0,USD,USD,2.00,\
31-12-1999,31-12-1999,2,credit,2,s,'m2',2\n";
    assert_eq!(
        convert(input.as_bytes()),
        Err(DecodeError::BadDate { row: 1, field: 0 })
    );
}

#[test]
fn bad_bytes_are_unreadable() {
    let input: Vec<u8> = vec![0xff, 0xfe, 0x2c, 0xff];
    assert_eq!(convert(&input), Err(DecodeError::Unreadable));
}

#[test]
fn empty_memo_yields_empty_memo_line() {
    let input = "05-03-2023,A1,B2,Acme Corp,,,,0,USD,USD,-1.00,\
05-03-2023,05-03-2023,1,debit,1,s,,1\n";
    let expected = "!Type:Bank\nT-1.00\nD03/05/2023\nPAcme Corp\nM\n^\n";
    assert_eq!(convert(input.as_bytes()), Ok(expected.to_string()));
}

#[test]
fn quoted_field_may_embed_the_delimiter() {
    let input = "05-03-2023,A1,B2,\"Acme, Corp\",,,,0,USD,USD,-1.00,\
05-03-2023,05-03-2023,1,debit,1,s,\"'a,b'\",1\n";
    let expected = "!Type:Bank\nT-1.00\nD03/05/2023\nPAcme, Corp\nMa,b\n^\n";
    assert_eq!(convert(input.as_bytes()), Ok(expected.to_string()));
}
