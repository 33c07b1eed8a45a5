//! The fetch window: from the day after the last recorded date, at the fixed
//! reference hour, up to the present moment.

use vstd::prelude::*;
use vstd::string::StringExecFns;

use crate::date::Date;
use crate::date::lemma_next_day_epoch;
use crate::date::timestamp_at_nine;
use crate::text::i64_to_dec;
use crate::text::int_dec;

verus! {

/// A half-open time range `[from, to)` of Unix timestamps; the provider is
/// asked only for days whose date lies within it.
#[derive(Clone, Copy, PartialEq, Eq, Structural, Debug)]
pub struct SyncWindow {
    pub from: i64,
    pub to: i64,
}

/// Relies on `chrono::Local::now`: the current wall-clock time, of which
/// nothing is promised.
#[verifier::external_body]
fn now_seconds() -> i64 {
    chrono::Local::now().timestamp()
}

/// The window that a ledger whose last recorded date is `last` asks for:
/// it opens at the following calendar day, at the fixed reference hour
/// 09:00, so the already-recorded day is never requested again, and closes
/// at `now`.
pub fn window_from(last: &Date, now: i64) -> (w: SyncWindow)
    requires
        last.valid(),
    ensures
        w.from == last.timestamp_at_hour(9) + 86400,
        w.from == last.next_day().timestamp_at_hour(9),
        w.from > last.timestamp_at_hour(9),
        w.to == now,
{
    let t: i64 = timestamp_at_nine(last);
    proof {
        lemma_next_day_epoch(*last);
    }
    SyncWindow { from: t + 86400, to: now }
}

/// The window from the day after `last` up to the present wall-clock time;
/// the closing timestamp is whatever the clock returned.
pub fn window_from_now(last: &Date) -> (w: SyncWindow)
    requires
        last.valid(),
    ensures
        w.from == last.next_day().timestamp_at_hour(9),
{
    let now: i64 = now_seconds();
    window_from(last, now)
}

/// The provider request URL for `tick` over window `w`: the fixed daily,
/// adjusted price-history query with the window's two timestamps.
pub open spec fn request_url_text(tick: Seq<char>, from: int, to: int) -> Seq<char> {
    "https://query1.finance.yahoo.com/v7/finance/download/"@ + tick + "?period1="@ + int_dec(from)
        + "&period2="@ + int_dec(to) + "&interval=1d&events=history&includeAdjustedClose=true"@
}

/// Build the provider request URL for `tick` over window `w`.
pub fn request_url(tick: &str, w: &SyncWindow) -> (u: String)
    ensures
        u@ == request_url_text(tick@, w.from as int, w.to as int),
{
    let mut u: String = String::from_str("https://query1.finance.yahoo.com/v7/finance/download/");
    u.append(tick);
    u.append("?period1=");
    let from_text: String = i64_to_dec(w.from);
    u.append(from_text.as_str());
    u.append("&period2=");
    let to_text: String = i64_to_dec(w.to);
    u.append(to_text.as_str());
    u.append("&interval=1d&events=history&includeAdjustedClose=true");
    proof {
        assert(u@ =~= request_url_text(tick@, w.from as int, w.to as int));
    }
    u
}

} // verus!
