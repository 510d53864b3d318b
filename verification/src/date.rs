//! Calendar dates as plain numbers, with the two fixed text patterns the
//! converter needs: `DD-MM-YYYY` on input rows and `MM/DD/YYYY` on output.
use vstd::prelude::*;

verus! {

/// A calendar date held as plain day, month and year numbers.
#[derive(Clone, Copy, PartialEq, Eq, Structural, Debug)]
pub struct Date {
    pub day: u8,
    pub month: u8,
    pub year: u16,
}

pub open spec fn leap_year(y: int) -> bool {
    y % 4 == 0 && (y % 100 != 0 || y % 400 == 0)
}

pub open spec fn days_in_month(y: int, m: int) -> int {
    if m == 2 {
        if leap_year(y) {
            29
        } else {
            28
        }
    } else if m == 4 || m == 6 || m == 9 || m == 11 {
        30
    } else {
        31
    }
}

/// A well-formed date: a real day of a real month, with a four-digit year.
pub open spec fn date_wf(d: Date) -> bool {
    &&& 1 <= d.month <= 12
    &&& 1 <= d.day <= days_in_month(d.year as int, d.month as int)
    &&& d.year <= 9999
}

pub open spec fn digit_char(n: int) -> char {
    if n == 0 {
        '0'
    } else if n == 1 {
        '1'
    } else if n == 2 {
        '2'
    } else if n == 3 {
        '3'
    } else if n == 4 {
        '4'
    } else if n == 5 {
        '5'
    } else if n == 6 {
        '6'
    } else if n == 7 {
        '7'
    } else if n == 8 {
        '8'
    } else {
        '9'
    }
}

pub open spec fn digit_val(c: char) -> int {
    if c == '0' {
        0
    } else if c == '1' {
        1
    } else if c == '2' {
        2
    } else if c == '3' {
        3
    } else if c == '4' {
        4
    } else if c == '5' {
        5
    } else if c == '6' {
        6
    } else if c == '7' {
        7
    } else if c == '8' {
        8
    } else if c == '9' {
        9
    } else {
        10
    }
}

pub open spec fn is_digit(c: char) -> bool {
    digit_val(c) < 10
}

/// The shape of the input date pattern: two day digits, a dash, two month
/// digits, a dash, four year digits.
pub open spec fn date_shape(s: Seq<char>) -> bool {
    &&& s.len() == 10
    &&& is_digit(s[0])
    &&& is_digit(s[1])
    &&& s[2] == '-'
    &&& is_digit(s[3])
    &&& is_digit(s[4])
    &&& s[5] == '-'
    &&& is_digit(s[6])
    &&& is_digit(s[7])
    &&& is_digit(s[8])
    &&& is_digit(s[9])
}

/// What parsing a `DD-MM-YYYY` field yields: a well-formed date, or nothing
/// when the pattern or the calendar rejects the text.
pub open spec fn spec_parse_date(s: Seq<char>) -> Option<Date> {
    if date_shape(s) {
        let day = 10 * digit_val(s[0]) + digit_val(s[1]);
        let month = 10 * digit_val(s[3]) + digit_val(s[4]);
        let year = 1000 * digit_val(s[6]) + 100 * digit_val(s[7]) + 10 * digit_val(s[8])
            + digit_val(s[9]);
        if 1 <= month <= 12 && 1 <= day <= days_in_month(year, month) {
            Some(Date { day: day as u8, month: month as u8, year: year as u16 })
        } else {
            None
        }
    } else {
        None
    }
}

/// The date printed back in the input pattern `DD-MM-YYYY`.
pub open spec fn spec_fmt_dmy(d: Date) -> Seq<char> {
    seq![
        digit_char(d.day as int / 10),
        digit_char(d.day as int % 10),
        '-',
        digit_char(d.month as int / 10),
        digit_char(d.month as int % 10),
        '-',
        digit_char(d.year as int / 1000),
        digit_char(d.year as int / 100 % 10),
        digit_char(d.year as int / 10 % 10),
        digit_char(d.year as int % 10),
    ]
}

/// The date printed in the output pattern `MM/DD/YYYY`.
pub open spec fn spec_fmt_mdy(d: Date) -> Seq<char> {
    seq![
        digit_char(d.month as int / 10),
        digit_char(d.month as int % 10),
        '/',
        digit_char(d.day as int / 10),
        digit_char(d.day as int % 10),
        '/',
        digit_char(d.year as int / 1000),
        digit_char(d.year as int / 100 % 10),
        digit_char(d.year as int / 10 % 10),
        digit_char(d.year as int % 10),
    ]
}

pub(crate) fn digit_of(c: char) -> (r: u8)
    ensures
        r as int == digit_val(c),
{
    match c {
        '0' => 0,
        '1' => 1,
        '2' => 2,
        '3' => 3,
        '4' => 4,
        '5' => 5,
        '6' => 6,
        '7' => 7,
        '8' => 8,
        '9' => 9,
        _ => 10,
    }
}

fn digit_str(n: u8) -> (r: &'static str)
    requires
        n < 10,
    ensures
        r@ == seq![digit_char(n as int)],
{
    proof {
        reveal_strlit("0");
        reveal_strlit("1");
        reveal_strlit("2");
        reveal_strlit("3");
        reveal_strlit("4");
        reveal_strlit("5");
        reveal_strlit("6");
        reveal_strlit("7");
        reveal_strlit("8");
        reveal_strlit("9");
    }
    let r: &'static str = match n {
        0 => "0",
        1 => "1",
        2 => "2",
        3 => "3",
        4 => "4",
        5 => "5",
        6 => "6",
        7 => "7",
        8 => "8",
        _ => "9",
    };
    proof {
        assert(r@ =~= seq![digit_char(n as int)]);
    }
    r
}

fn days_in_month_of(y: u16, m: u8) -> (r: u8)
    requires
        1 <= m <= 12,
    ensures
        r as int == days_in_month(y as int, m as int),
{
    if m == 2 {
        if y % 4 == 0 && (y % 100 != 0 || y % 400 == 0) {
            29
        } else {
            28
        }
    } else if m == 4 || m == 6 || m == 9 || m == 11 {
        30
    } else {
        31
    }
}

/// Parses a `DD-MM-YYYY` field into a date, rejecting any text that does not
/// match the pattern or does not name a real calendar day.
pub fn parse_date(s: &str) -> (r: Option<Date>)
    ensures
        r == spec_parse_date(s@),
        r is Some ==> date_wf(r.unwrap()),
{
    if s.unicode_len() != 10 {
        return None;
    }
    if s.get_char(2) != '-' || s.get_char(5) != '-' {
        return None;
    }
    let d0 = digit_of(s.get_char(0));
    let d1 = digit_of(s.get_char(1));
    let m0 = digit_of(s.get_char(3));
    let m1 = digit_of(s.get_char(4));
    let y0 = digit_of(s.get_char(6));
    let y1 = digit_of(s.get_char(7));
    let y2 = digit_of(s.get_char(8));
    let y3 = digit_of(s.get_char(9));
    if d0 > 9 || d1 > 9 || m0 > 9 || m1 > 9 || y0 > 9 || y1 > 9 || y2 > 9 || y3 > 9 {
        return None;
    }
    let day: u8 = 10 * d0 + d1;
    let month: u8 = 10 * m0 + m1;
    let year: u16 = 1000 * (y0 as u16) + 100 * (y1 as u16) + 10 * (y2 as u16) + (y3 as u16);
    if month < 1 || month > 12 {
        return None;
    }
    if day < 1 || day > days_in_month_of(year, month) {
        return None;
    }
    Some(Date { day, month, year })
}

/// Prints a well-formed date in the output pattern `MM/DD/YYYY`.
pub fn format_mdy(d: &Date) -> (r: String)
    requires
        date_wf(*d),
    ensures
        r@ == spec_fmt_mdy(*d),
{
    proof {
        reveal_strlit("/");
    }
    let mut out = String::new();
    out.append(digit_str(d.month / 10));
    out.append(digit_str(d.month % 10));
    out.append("/");
    out.append(digit_str(d.day / 10));
    out.append(digit_str(d.day % 10));
    out.append("/");
    out.append(digit_str((d.year / 1000) as u8));
    out.append(digit_str((d.year / 100 % 10) as u8));
    out.append(digit_str((d.year / 10 % 10) as u8));
    out.append(digit_str((d.year % 10) as u8));
    proof {
        assert(out@ =~= spec_fmt_mdy(*d));
    }
    out
}

} // verus!
