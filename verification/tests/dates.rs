use csv2qif::date::{format_mdy, parse_date, Date};
use csv2qif::num::{parse_u16_text, parse_u64_text};

#[test]
fn parse_then_reformat_first_example() {
    let d = parse_date("05-03-2023").expect("valid date");
    assert_eq!(d, Date { day: 5, month: 3, year: 2023 });
    assert_eq!(format_mdy(&d), "03/05/2023");
}

#[test]
fn parse_then_reformat_second_example() {
    let d = parse_date("31-12-1999").expect("valid date");
    assert_eq!(d, Date { day: 31, month: 12, year: 1999 });
    assert_eq!(format_mdy(&d), "12/31/1999");
}

#[test]
fn parse_date_rejects_wrong_order() {
    assert_eq!(parse_date("2023-03-05"), None);
}

#[test]
fn parse_date_rejects_short_digits() {
    assert_eq!(parse_date("5-3-2023"), None);
}

#[test]
fn parse_date_rejects_day_zero() {
    assert_eq!(parse_date("00-01-2023"), None);
}

#[test]
fn parse_date_rejects_month_thirteen() {
    assert_eq!(parse_date("05-13-2023"), None);
}

#[test]
fn parse_date_rejects_day_out_of_month() {
    assert_eq!(parse_date("31-04-2023"), None);
    assert_eq!(parse_date("32-01-2023"), None);
}

#[test]
fn parse_date_knows_leap_years() {
    assert_eq!(parse_date("29-02-2023"), None);
    assert_eq!(
        parse_date("29-02-2024"),
        Some(Date { day: 29, month: 2, year: 2024 })
    );
    assert_eq!(parse_date("29-02-1900"), None);
    assert_eq!(
        parse_date("29-02-2000"),
        Some(Date { day: 29, month: 2, year: 2000 })
    );
}

#[test]
fn parse_date_rejects_garbage() {
    assert_eq!(parse_date(""), None);
    assert_eq!(parse_date("aa-bb-cccc"), None);
    assert_eq!(parse_date("05/03/2023"), None);
}

#[test]
fn format_mdy_pads_with_zeros() {
    let d = Date { day: 1, month: 1, year: 7 };
    assert_eq!(format_mdy(&d), "01/01/0007");
}

#[test]
fn parse_u64_accepts_digits_and_plus() {
    assert_eq!(parse_u64_text("123456"), Some(123456));
    assert_eq!(parse_u64_text("+5"), Some(5));
    assert_eq!(parse_u64_text("0000789"), Some(789));
    assert_eq!(parse_u64_text("18446744073709551615"), Some(u64::MAX));
}

#[test]
fn parse_u64_rejects_bad_text() {
    assert_eq!(parse_u64_text(""), None);
    assert_eq!(parse_u64_text("+"), None);
    assert_eq!(parse_u64_text("-1"), None);
    assert_eq!(parse_u64_text("12a"), None);
    assert_eq!(parse_u64_text("1 2"), None);
    assert_eq!(parse_u64_text("18446744073709551616"), None);
}

#[test]
fn parse_u16_bounds() {
    assert_eq!(parse_u16_text("544"), Some(544));
    assert_eq!(parse_u16_text("65535"), Some(65535));
    assert_eq!(parse_u16_text("65536"), None);
    assert_eq!(parse_u16_text("99999999999999999999999"), None);
}
