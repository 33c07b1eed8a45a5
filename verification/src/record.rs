//! The ledger's record type and its serialization as one CSV line.

use vstd::prelude::*;
use vstd::string::StringExecFns;

use crate::text::dec_digits;
use crate::text::digit_char;
use crate::text::u64_to_dec;

verus! {

/// One trading day's price summary, persisted as one ledger line.
///
/// The amount is held in cents, so that the fixed two-decimal rendering of
/// the ledger format is exact; price-history entries carry no cash amount and
/// leave it at zero.
#[derive(Debug)]
pub struct Record {
    pub date: String,
    pub payee: String,
    pub category: String,
    pub note: String,
    pub amount_cents: u64,
}

/// The mathematical content of a [`Record`].
pub ghost struct RecordView {
    pub date: Seq<char>,
    pub payee: Seq<char>,
    pub category: Seq<char>,
    pub note: Seq<char>,
    pub amount_cents: int,
}

impl View for Record {
    type V = RecordView;

    open spec fn view(&self) -> RecordView {
        RecordView {
            date: self.date@,
            payee: self.payee@,
            category: self.category@,
            note: self.note@,
            amount_cents: self.amount_cents as int,
        }
    }
}

/// An amount in cents rendered with exactly two decimal places.
pub open spec fn cents_text(c: int) -> Seq<char>
    recommends
        c >= 0,
{
    dec_digits(c / 100) + seq!['.', digit_char((c % 100) / 10), digit_char(c % 10)]
}

impl RecordView {
    /// The ledger line for this record: the five fields comma-separated, the
    /// amount with two decimal places.
    pub open spec fn line(self) -> Seq<char> {
        self.date + seq![','] + self.payee + seq![','] + self.category + seq![','] + self.note
            + seq![','] + cents_text(self.amount_cents)
    }
}

/// Render an amount of cents with exactly two decimal places.
pub fn cents_string(c: u64) -> (s: String)
    ensures
        s@ == cents_text(c as int),
{
    let mut s: String = u64_to_dec(c / 100);
    s.append(".");
    proof {
        reveal_strlit(".");
    }
    let tens: u64 = (c % 100) / 10;
    let ones: u64 = c % 10;
    s.append(crate::text::digit_string(tens));
    s.append(crate::text::digit_string(ones));
    proof {
        assert("."@ =~= seq!['.']);
        assert(s@ =~= cents_text(c as int));
    }
    s
}

impl Record {
    /// Serialize this record as its ledger line.
    pub fn to_line(&self) -> (s: String)
        ensures
            s@ == self@.line(),
    {
        let mut s: String = self.date.clone();
        s.append(",");
        s.append(self.payee.as_str());
        s.append(",");
        s.append(self.category.as_str());
        s.append(",");
        s.append(self.note.as_str());
        s.append(",");
        let amount: String = cents_string(self.amount_cents);
        s.append(amount.as_str());
        proof {
            reveal_strlit(",");
            assert(","@ =~= seq![',']);
            assert(s@ =~= self@.line());
        }
        s
    }
}

} // verus!
