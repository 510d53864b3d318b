//! The QIF side: one output entry per row — amount, date, payee, memo —
//! rendered as four prefixed lines and a terminator, after one literal
//! header line for the whole file.
use vstd::prelude::*;
use crate::date::{spec_fmt_mdy, format_mdy};
use crate::record::{Transaction, TransactionView, transaction_wf};

verus! {

/// One output entry, ready to render: the amount text verbatim, the date
/// already in `MM/DD/YYYY`, the payee verbatim, and the stripped memo.
#[derive(Debug)]
pub struct Entry {
    pub amount: String,
    pub date: String,
    pub payee: String,
    pub memo: String,
}

/// The mathematical image of an `Entry`.
pub struct EntryView {
    pub amount: Seq<char>,
    pub date: Seq<char>,
    pub payee: Seq<char>,
    pub memo: Seq<char>,
}

impl View for Entry {
    type V = EntryView;

    open spec fn view(&self) -> EntryView {
        EntryView { amount: self.amount@, date: self.date@, payee: self.payee@, memo: self.memo@ }
    }
}

/// One character off each end of a non-empty text — the rule that removes
/// the pair of wrapping quote characters around the long description; a
/// single character therefore leaves the empty text.
pub open spec fn spec_strip(s: Seq<char>) -> Seq<char> {
    if s.len() <= 1 {
        Seq::empty()
    } else {
        s.subrange(1, s.len() - 1)
    }
}

/// What a transaction becomes on the way out: the pure row-to-entry mapping.
pub open spec fn spec_transform(t: TransactionView) -> EntryView {
    EntryView {
        amount: t.amount,
        date: spec_fmt_mdy(t.date),
        payee: t.payee,
        memo: spec_strip(t.long_description),
    }
}

/// The rendered form of an entry: `T`, `D`, `P` and `M` lines in that order,
/// then the `^` terminator line.
pub open spec fn spec_render(e: EntryView) -> Seq<char> {
    seq!['T'] + e.amount + seq!['\n', 'D'] + e.date + seq!['\n', 'P'] + e.payee + seq!['\n', 'M']
        + e.memo + seq!['\n', '^', '\n']
}

/// The one header line that opens every output file.
pub open spec fn spec_header() -> Seq<char> {
    seq!['!', 'T', 'y', 'p', 'e', ':', 'B', 'a', 'n', 'k', '\n']
}

/// Removes one character from each end of a non-empty text.
pub fn strip_wrapped(s: &str) -> (r: String)
    ensures
        r@ == spec_strip(s@),
{
    let n = s.unicode_len();
    if n <= 1 {
        let r = String::new();
        proof {
            assert(r@ =~= spec_strip(s@));
        }
        r
    } else {
        String::from_str(s.substring_char(1, n - 1))
    }
}

/// Maps a decoded transaction to its output entry: amount and payee
/// verbatim, the date reformatted to `MM/DD/YYYY`, the long description
/// stripped of its wrapping pair of characters.
pub fn transform(t: &Transaction) -> (e: Entry)
    requires
        transaction_wf(t@),
    ensures
        e@ == spec_transform(t@),
{
    Entry {
        amount: t.amount.clone(),
        date: format_mdy(&t.date),
        payee: t.payee.clone(),
        memo: strip_wrapped(t.long_description.as_str()),
    }
}

/// Renders an entry as its four content lines and the terminator line.
pub fn render_entry(e: &Entry) -> (r: String)
    ensures
        r@ == spec_render(e@),
{
    proof {
        reveal_strlit("T");
        reveal_strlit("D");
        reveal_strlit("P");
        reveal_strlit("M");
        reveal_strlit("^");
        reveal_strlit("\n");
    }
    let mut out = String::new();
    out.append("T");
    out.append(e.amount.as_str());
    out.append("\n");
    out.append("D");
    out.append(e.date.as_str());
    out.append("\n");
    out.append("P");
    out.append(e.payee.as_str());
    out.append("\n");
    out.append("M");
    out.append(e.memo.as_str());
    out.append("\n");
    out.append("^");
    out.append("\n");
    proof {
        assert(out@ =~= spec_render(e@));
    }
    out
}

/// The header line that identifies the output as QIF bank transactions.
pub fn header_line() -> (r: String)
    ensures
        r@ == spec_header(),
{
    proof {
        reveal_strlit("!Type:Bank\n");
    }
    let r = String::from_str("!Type:Bank\n");
    proof {
        assert(r@ =~= spec_header());
    }
    r
}

} // verus!
