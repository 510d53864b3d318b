//! The general laws of the converter, stated over the spec functions that
//! the executable contracts use: the shape of a rendered entry, the
//! bijectivity of date reformatting, and the header-only output of an
//! empty input.
use vstd::prelude::*;
use vstd::arithmetic::div_mod::lemma_fundamental_div_mod;
use crate::date::{
    date_wf, digit_char, digit_val, is_digit, spec_fmt_dmy, spec_fmt_mdy, spec_parse_date, Date,
};
use crate::qif::{spec_header, spec_render, spec_transform};
use crate::record::TransactionView;
use crate::table::{spec_convert, spec_entries_prefix, spec_rows_check};

verus! {

proof fn lemma_digit_char_inj(a: int, b: int)
    requires
        0 <= a < 10,
        0 <= b < 10,
        digit_char(a) == digit_char(b),
    ensures
        a == b,
{
}

proof fn lemma_char_digit_roundtrip(c: char)
    requires
        is_digit(c),
    ensures
        digit_char(digit_val(c)) == c,
{
}

proof fn lemma_two_digits(v: int)
    requires
        0 <= v < 100,
    ensures
        0 <= v / 10 < 10,
        0 <= v % 10 < 10,
        v == 10 * (v / 10) + v % 10,
{
    lemma_fundamental_div_mod(v, 10);
    assert(0 <= v / 10 < 10 && 0 <= v % 10 < 10) by (nonlinear_arith)
        requires
            0 <= v < 100,
    {
    }
}

proof fn lemma_two_digits_compose(a: int, b: int)
    requires
        0 <= a < 10,
        0 <= b < 10,
    ensures
        (10 * a + b) / 10 == a,
        (10 * a + b) % 10 == b,
{
    assert((10 * a + b) / 10 == a && (10 * a + b) % 10 == b) by (nonlinear_arith)
        requires
            0 <= a < 10,
            0 <= b < 10,
    {
    }
}

proof fn lemma_year_digits(y: int)
    requires
        0 <= y < 10000,
    ensures
        0 <= y / 1000 < 10,
        0 <= y / 100 % 10 < 10,
        0 <= y / 10 % 10 < 10,
        0 <= y % 10 < 10,
        y == 1000 * (y / 1000) + 100 * (y / 100 % 10) + 10 * (y / 10 % 10) + y % 10,
{
    assert(0 <= y / 1000 < 10 && 0 <= y / 100 % 10 < 10 && 0 <= y / 10 % 10 < 10 && 0 <= y % 10
        < 10 && y == 1000 * (y / 1000) + 100 * (y / 100 % 10) + 10 * (y / 10 % 10) + y % 10)
        by (nonlinear_arith)
        requires
            0 <= y < 10000,
    {
    }
}

proof fn lemma_year_digits_compose(a: int, b: int, c: int, e: int)
    requires
        0 <= a < 10,
        0 <= b < 10,
        0 <= c < 10,
        0 <= e < 10,
    ensures
        (1000 * a + 100 * b + 10 * c + e) / 1000 == a,
        (1000 * a + 100 * b + 10 * c + e) / 100 % 10 == b,
        (1000 * a + 100 * b + 10 * c + e) / 10 % 10 == c,
        (1000 * a + 100 * b + 10 * c + e) % 10 == e,
{
    let y = 1000 * a + 100 * b + 10 * c + e;
    assert(y / 1000 == a && y / 100 % 10 == b && y / 10 % 10 == c && y % 10 == e)
        by (nonlinear_arith)
        requires
            0 <= a < 10,
            0 <= b < 10,
            0 <= c < 10,
            0 <= e < 10,
            y == 1000 * a + 100 * b + 10 * c + e,
    {
    }
}

/// Printing a parsed date back in the input pattern returns the input text:
/// `DD-MM-YYYY` parsing loses nothing.
pub proof fn lemma_format_inverts_parse(s: Seq<char>)
    requires
        spec_parse_date(s) is Some,
    ensures
        spec_fmt_dmy(spec_parse_date(s).unwrap()) == s,
{
    let d = spec_parse_date(s).unwrap();
    lemma_two_digits_compose(digit_val(s[0]), digit_val(s[1]));
    lemma_two_digits_compose(digit_val(s[3]), digit_val(s[4]));
    lemma_year_digits_compose(digit_val(s[6]), digit_val(s[7]), digit_val(s[8]), digit_val(s[9]));
    lemma_char_digit_roundtrip(s[0]);
    lemma_char_digit_roundtrip(s[1]);
    lemma_char_digit_roundtrip(s[3]);
    lemma_char_digit_roundtrip(s[4]);
    lemma_char_digit_roundtrip(s[6]);
    lemma_char_digit_roundtrip(s[7]);
    lemma_char_digit_roundtrip(s[8]);
    lemma_char_digit_roundtrip(s[9]);
    assert(spec_fmt_dmy(d) =~= s);
}

/// Parsing the printed form of a well-formed date returns that date:
/// every well-formed date is reached by the input pattern.
pub proof fn lemma_parse_inverts_format(d: Date)
    requires
        date_wf(d),
    ensures
        spec_parse_date(spec_fmt_dmy(d)) == Some(d),
{
    let s = spec_fmt_dmy(d);
    lemma_two_digits(d.day as int);
    lemma_two_digits(d.month as int);
    lemma_year_digits(d.year as int);
    assert(s.len() == 10);
    assert(is_digit(s[0]) && digit_val(s[0]) == d.day as int / 10);
    assert(is_digit(s[1]) && digit_val(s[1]) == d.day as int % 10);
    assert(is_digit(s[3]) && digit_val(s[3]) == d.month as int / 10);
    assert(is_digit(s[4]) && digit_val(s[4]) == d.month as int % 10);
    assert(is_digit(s[6]) && digit_val(s[6]) == d.year as int / 1000);
    assert(is_digit(s[7]) && digit_val(s[7]) == d.year as int / 100 % 10);
    assert(is_digit(s[8]) && digit_val(s[8]) == d.year as int / 10 % 10);
    assert(is_digit(s[9]) && digit_val(s[9]) == d.year as int % 10);
}

/// Two different valid `DD-MM-YYYY` inputs never reformat to the same
/// `MM/DD/YYYY` output: with the two round-trip laws above, reformatting is
/// a bijection on the fixed pattern.
pub proof fn lemma_reformat_injective(s1: Seq<char>, s2: Seq<char>)
    requires
        spec_parse_date(s1) is Some,
        spec_parse_date(s2) is Some,
        spec_fmt_mdy(spec_parse_date(s1).unwrap()) == spec_fmt_mdy(spec_parse_date(s2).unwrap()),
    ensures
        s1 == s2,
{
    let d1 = spec_parse_date(s1).unwrap();
    let d2 = spec_parse_date(s2).unwrap();
    lemma_two_digits(d1.day as int);
    lemma_two_digits(d1.month as int);
    lemma_year_digits(d1.year as int);
    lemma_two_digits(d2.day as int);
    lemma_two_digits(d2.month as int);
    lemma_year_digits(d2.year as int);
    let f1 = spec_fmt_mdy(d1);
    let f2 = spec_fmt_mdy(d2);
    assert(f1[0] == f2[0] && f1[1] == f2[1] && f1[3] == f2[3] && f1[4] == f2[4] && f1[6] == f2[6]
        && f1[7] == f2[7] && f1[8] == f2[8] && f1[9] == f2[9]);
    lemma_digit_char_inj(d1.month as int / 10, d2.month as int / 10);
    lemma_digit_char_inj(d1.month as int % 10, d2.month as int % 10);
    lemma_digit_char_inj(d1.day as int / 10, d2.day as int / 10);
    lemma_digit_char_inj(d1.day as int % 10, d2.day as int % 10);
    lemma_digit_char_inj(d1.year as int / 1000, d2.year as int / 1000);
    lemma_digit_char_inj(d1.year as int / 100 % 10, d2.year as int / 100 % 10);
    lemma_digit_char_inj(d1.year as int / 10 % 10, d2.year as int / 10 % 10);
    lemma_digit_char_inj(d1.year as int % 10, d2.year as int % 10);
    assert(d1 == d2);
    lemma_format_inverts_parse(s1);
    lemma_format_inverts_parse(s2);
}

/// How many times `c` occurs in `s`.
pub open spec fn count_char(s: Seq<char>, c: char) -> int
    decreases s.len(),
{
    if s.len() == 0 {
        0
    } else {
        count_char(s.drop_last(), c) + if s.last() == c {
            1int
        } else {
            0int
        }
    }
}

proof fn lemma_count_char_concat(a: Seq<char>, b: Seq<char>, c: char)
    ensures
        count_char(a + b, c) == count_char(a, c) + count_char(b, c),
    decreases b.len(),
{
    if b.len() == 0 {
        assert(a + b =~= a);
    } else {
        lemma_count_char_concat(a, b.drop_last(), c);
        assert((a + b).drop_last() =~= a + b.drop_last());
        assert((a + b).last() == b.last());
    }
}

proof fn lemma_count_char_one(a: char, c: char)
    ensures
        count_char(seq![a], c) == if a == c {
            1int
        } else {
            0int
        },
{
    reveal_with_fuel(count_char, 3);
    assert(seq![a].drop_last() =~= Seq::<char>::empty());
    assert(count_char(Seq::<char>::empty(), c) == 0);
    assert(seq![a].last() == a);
}

proof fn lemma_count_char_absent(s: Seq<char>, c: char)
    requires
        forall|i: int| 0 <= i < s.len() ==> s[i] != c,
    ensures
        count_char(s, c) == 0,
    decreases s.len(),
{
    if s.len() > 0 {
        lemma_count_char_absent(s.drop_last(), c);
    }
}

proof fn lemma_fmt_mdy_no_newline(d: Date)
    ensures
        forall|i: int| 0 <= i < spec_fmt_mdy(d).len() ==> spec_fmt_mdy(d)[i] != '\n',
{
    let f = spec_fmt_mdy(d);
    assert forall|i: int| 0 <= i < f.len() implies f[i] != '\n' by {
        if i == 2 || i == 5 {
            assert(f[i] == '/');
        } else {
            assert(f[0] == digit_char(d.month as int / 10));
            assert(f[1] == digit_char(d.month as int % 10));
            assert(f[3] == digit_char(d.day as int / 10));
            assert(f[4] == digit_char(d.day as int % 10));
            assert(f[6] == digit_char(d.year as int / 1000));
            assert(f[7] == digit_char(d.year as int / 100 % 10));
            assert(f[8] == digit_char(d.year as int / 10 % 10));
            assert(f[9] == digit_char(d.year as int % 10));
        }
    }
}

/// Every transaction whose emitted texts hold no line break renders as
/// exactly four content lines and a terminator: five newline-terminated
/// lines, whatever else the row holds.
pub proof fn lemma_entry_five_lines(t: TransactionView)
    requires
        forall|i: int| 0 <= i < t.amount.len() ==> t.amount[i] != '\n',
        forall|i: int| 0 <= i < t.payee.len() ==> t.payee[i] != '\n',
        forall|i: int| 0 <= i < t.long_description.len() ==> t.long_description[i] != '\n',
    ensures
        count_char(spec_render(spec_transform(t)), '\n') == 5,
        spec_render(spec_transform(t)).len() >= 1,
        spec_render(spec_transform(t)).last() == '\n',
{
    let e = spec_transform(t);
    let out = spec_render(e);
    lemma_fmt_mdy_no_newline(t.date);
    assert(forall|i: int| 0 <= i < e.memo.len() ==> e.memo[i] != '\n');
    lemma_count_char_absent(e.amount, '\n');
    lemma_count_char_absent(e.date, '\n');
    lemma_count_char_absent(e.payee, '\n');
    lemma_count_char_absent(e.memo, '\n');
    let p1 = seq!['T'] + e.amount;
    let p2 = p1 + seq!['\n', 'D'];
    let p3 = p2 + e.date;
    let p4 = p3 + seq!['\n', 'P'];
    let p5 = p4 + e.payee;
    let p6 = p5 + seq!['\n', 'M'];
    let p7 = p6 + e.memo;
    let p8 = p7 + seq!['\n', '^', '\n'];
    lemma_count_char_one('T', '\n');
    lemma_count_char_one('\n', '\n');
    lemma_count_char_one('D', '\n');
    lemma_count_char_one('P', '\n');
    lemma_count_char_one('M', '\n');
    lemma_count_char_one('^', '\n');
    lemma_count_char_concat(seq!['\n'], seq!['D'], '\n');
    lemma_count_char_concat(seq!['\n'], seq!['P'], '\n');
    lemma_count_char_concat(seq!['\n'], seq!['M'], '\n');
    lemma_count_char_concat(seq!['\n'], seq!['^'], '\n');
    lemma_count_char_concat(seq!['\n'] + seq!['^'], seq!['\n'], '\n');
    assert(seq!['\n', 'D'] =~= seq!['\n'] + seq!['D']);
    assert(seq!['\n', 'P'] =~= seq!['\n'] + seq!['P']);
    assert(seq!['\n', 'M'] =~= seq!['\n'] + seq!['M']);
    assert(seq!['\n', '^', '\n'] =~= (seq!['\n'] + seq!['^']) + seq!['\n']);
    assert(count_char(seq!['\n', 'D'], '\n') == 1);
    assert(count_char(seq!['\n', 'P'], '\n') == 1);
    assert(count_char(seq!['\n', 'M'], '\n') == 1);
    assert(count_char(seq!['\n', '^', '\n'], '\n') == 2);
    lemma_count_char_concat(seq!['T'], e.amount, '\n');
    lemma_count_char_concat(p1, seq!['\n', 'D'], '\n');
    lemma_count_char_concat(p2, e.date, '\n');
    lemma_count_char_concat(p3, seq!['\n', 'P'], '\n');
    lemma_count_char_concat(p4, e.payee, '\n');
    lemma_count_char_concat(p5, seq!['\n', 'M'], '\n');
    lemma_count_char_concat(p6, e.memo, '\n');
    lemma_count_char_concat(p7, seq!['\n', '^', '\n'], '\n');
    assert(out =~= p8);
    assert(out[out.len() - 1] == '\n');
}

/// An input with zero data rows converts to exactly the header line and
/// nothing else.
pub proof fn lemma_empty_input(rows: Seq<Seq<Seq<char>>>)
    requires
        rows.len() == 0,
    ensures
        spec_convert(rows) == Ok::<Seq<char>, crate::record::DecodeError>(spec_header()),
{
    assert(spec_rows_check(rows, 0) == Ok::<(), crate::record::DecodeError>(()));
    assert(spec_header() + spec_entries_prefix(rows, 0) =~= spec_header());
}

} // verus!
