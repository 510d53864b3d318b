use csv2qif::date::Date;
use csv2qif::qif::{header_line, render_entry, strip_wrapped, transform, Entry};
use csv2qif::record::{decode_row, DecodeError, Transaction, FIELD_COUNT};

fn sample_fields() -> Vec<String> {
    [
        "05-03-2023",
        "A1",
        "B2",
        "Acme Corp",
        "",
        "",
        "",
        "0.00",
        "USD",
        "USD",
        "-12.50",
        "05-03-2023",
        "05-03-2023",
        "544",
        "debit",
        "123456",
        "short",
        "\"quoted text\"",
        "789",
    ]
    .iter()
    .map(|f| f.to_string())
    .collect()
}

#[test]
fn decode_row_reads_all_nineteen_fields() {
    assert_eq!(FIELD_COUNT, 19);
    let t = decode_row(&sample_fields(), 0).expect("valid row");
    assert_eq!(t.date, Date { day: 5, month: 3, year: 2023 });
    assert_eq!(t.account, "A1");
    assert_eq!(t.payee_account, "B2");
    assert_eq!(t.payee, "Acme Corp");
    assert_eq!(t.address, "");
    assert_eq!(t.postal_code, "");
    assert_eq!(t.city, "");
    assert_eq!(t.balance_before, "0.00");
    assert_eq!(t.account_currency, "USD");
    assert_eq!(t.currency, "USD");
    assert_eq!(t.amount, "-12.50");
    assert_eq!(t.journal_date, Date { day: 5, month: 3, year: 2023 });
    assert_eq!(t.currency_date, Date { day: 5, month: 3, year: 2023 });
    assert_eq!(t.code, 544);
    assert_eq!(t.kind, "debit");
    assert_eq!(t.tracking_number, 123456);
    assert_eq!(t.short_description, "short");
    assert_eq!(t.long_description, "\"quoted text\"");
    assert_eq!(t.block_number, 789);
}

#[test]
fn decode_row_rejects_short_row() {
    let fields: Vec<String> = ["05-03-2023", "A1", "B2", "Acme Corp", "-12.50"]
        .iter()
        .map(|f| f.to_string())
        .collect();
    assert_eq!(decode_row(&fields, 0).unwrap_err(), DecodeError::FieldCount { row: 0, found: 5 });
}

#[test]
fn decode_row_rejects_long_row() {
    let mut fields = sample_fields();
    fields.push("extra".to_string());
    assert_eq!(decode_row(&fields, 3).unwrap_err(), DecodeError::FieldCount { row: 3, found: 20 });
}

#[test]
fn decode_row_reports_first_bad_date() {
    let mut fields = sample_fields();
    fields[0] = "2023-03-05".to_string();
    assert_eq!(decode_row(&fields, 2).unwrap_err(), DecodeError::BadDate { row: 2, field: 0 });
    let mut fields = sample_fields();
    fields[12] = "31-02-2023".to_string();
    assert_eq!(decode_row(&fields, 0).unwrap_err(), DecodeError::BadDate { row: 0, field: 12 });
}

#[test]
fn decode_row_rejects_bad_unused_integer() {
    let mut fields = sample_fields();
    fields[13] = "65536".to_string();
    assert_eq!(decode_row(&fields, 0).unwrap_err(), DecodeError::BadInt { row: 0, field: 13 });
    let mut fields = sample_fields();
    fields[18] = "x9".to_string();
    assert_eq!(decode_row(&fields, 1).unwrap_err(), DecodeError::BadInt { row: 1, field: 18 });
}

#[test]
fn strip_removes_one_char_each_end() {
    assert_eq!(strip_wrapped("\"hello\""), "hello");
    assert_eq!(strip_wrapped("'memo'"), "memo");
}

#[test]
fn strip_of_single_char_is_empty() {
    assert_eq!(strip_wrapped("x"), "");
    assert_eq!(strip_wrapped("\""), "");
}

#[test]
fn strip_of_empty_stays_empty() {
    assert_eq!(strip_wrapped(""), "");
}

#[test]
fn strip_also_eats_plain_content() {
    assert_eq!(strip_wrapped("ab"), "");
    assert_eq!(strip_wrapped("abc"), "b");
}

#[test]
fn transform_maps_the_four_emitted_fields() {
    let t = decode_row(&sample_fields(), 0).expect("valid row");
    let e = transform(&t);
    assert_eq!(e.amount, "-12.50");
    assert_eq!(e.date, "03/05/2023");
    assert_eq!(e.payee, "Acme Corp");
    assert_eq!(e.memo, "quoted text");
}

#[test]
fn render_entry_is_four_lines_and_terminator() {
    let e = Entry {
        amount: "-12.50".to_string(),
        date: "03/05/2023".to_string(),
        payee: "Acme Corp".to_string(),
        memo: "quoted text".to_string(),
    };
    assert_eq!(
        render_entry(&e),
        "T-12.50\nD03/05/2023\nPAcme Corp\nMquoted text\n^\n"
    );
}

#[test]
fn header_line_is_the_qif_bank_header() {
    assert_eq!(header_line(), "!Type:Bank\n");
}

#[test]
fn transform_keeps_amount_verbatim() {
    let mut t = decode_row(&sample_fields(), 0).expect("valid row");
    t.amount = "+1,234.00".to_string();
    let e = transform(&t);
    assert_eq!(e.amount, "+1,234.00");
}

#[test]
fn build_transaction_directly() {
    let t = Transaction {
        date: Date { day: 31, month: 12, year: 1999 },
        account: "a".to_string(),
        payee_account: "b".to_string(),
        payee: "P".to_string(),
        address: "".to_string(),
        postal_code: "".to_string(),
        city: "".to_string(),
        balance_before: "0".to_string(),
        account_currency: "EUR".to_string(),
        currency: "EUR".to_string(),
        amount: "9.99".to_string(),
        journal_date: Date { day: 31, month: 12, year: 1999 },
        currency_date: Date { day: 31, month: 12, year: 1999 },
        code: 1,
        kind: "credit".to_string(),
        tracking_number: 2,
        short_description: "s".to_string(),
        long_description: "'l'".to_string(),
        block_number: 3,
    };
    let e = transform(&t);
    assert_eq!(render_entry(&e), "T9.99\nD12/31/1999\nPP\nMl\n^\n");
}
