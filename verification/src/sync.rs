//! The sync orchestrator's decisions, one account at a time: each step of the
//! pipeline is a function from the outside world's event to the next action,
//! so a driver only performs I/O and reports what happened.

use vstd::prelude::*;
use vstd::string::StringExecFns;

use crate::date::Date;
use crate::date::parse_date;
use crate::date::parse_date_text;
use crate::errors::MyErrors;
use crate::parser::parse_all;
use crate::parser::parse_all_text;
use crate::record::Record;
use crate::text::split_at_char;
use crate::text::split_on;
use crate::window::SyncWindow;
use crate::window::window_from;
use crate::window::window_from_now;

verus! {

/// What reading the tail of the ledger file yielded.
pub enum LedgerTail {
    /// The file could not be opened.
    OpenFailed,
    /// The backward scan failed.
    ReverseReadFailed,
    /// The file holds no lines.
    NoLines,
    /// The most recently written line.
    LastLine(String),
}

/// What the provider fetch yielded.
pub enum FetchOutcome {
    /// The request failed in transport.
    TransportFailed,
    /// The response had a non-success status.
    BadStatus,
    /// The response body could not be read.
    BodyUnreadable,
    /// The full response text.
    Body(String),
}

/// What appending the rendered lines to the ledger yielded.
pub enum AppendOutcome {
    /// The ledger could not be opened for appending.
    OpenForWriteFailed,
    /// A write failed partway; earlier lines stay persisted.
    WriteFailed,
    /// Every line was written.
    AllWritten,
}

/// The next thing the driver must do for this account.
pub enum SyncAction {
    /// Ask the provider for this window.
    Fetch(SyncWindow),
    /// Append exactly these newline-terminated lines to the ledger, in order.
    Append(Vec<String>),
    /// The account is synced; nothing (more) to write.
    Done,
    /// The account's sync failed at the named step.
    Failed(MyErrors),
}

/// The last recorded date of a ledger whose final line is `last_line`: the
/// first comma-separated field read as a `YYYY-MM-DD` date. A line without a
/// delimiter or without a parseable date is an error.
pub fn last_recorded_date(last_line: &str) -> (r: Result<Date, MyErrors>)
    ensures
        split_at_char(last_line@, ',').len() < 2 ==> r == Err::<Date, MyErrors>(
            MyErrors::LineWithoutCommas,
        ),
        split_at_char(last_line@, ',').len() >= 2 ==> r == (match parse_date_text(
            split_at_char(last_line@, ',')[0],
        ) {
            Some(d) => Ok::<Date, MyErrors>(d),
            None => Err::<Date, MyErrors>(MyErrors::CannotParseDate),
        }),
        r is Ok ==> r->Ok_0.valid(),
{
    let cols: Vec<String> = split_on(last_line, ',');
    if cols.len() < 2 {
        return Err(MyErrors::LineWithoutCommas);
    }
    match parse_date(cols[0].as_str()) {
        Some(d) => Ok(d),
        None => Err(MyErrors::CannotParseDate),
    }
}

/// Step one of an account's sync: from what the ledger tail held to either
/// the fetch window or the failure that ends the account.
pub fn on_ledger_tail(tail: &LedgerTail, now: i64) -> (a: SyncAction)
    ensures
        tail is OpenFailed ==> a == SyncAction::Failed(MyErrors::CannotOpenFile),
        tail is ReverseReadFailed ==> a == SyncAction::Failed(MyErrors::CannotReadFileInReverse),
        tail is NoLines ==> a == SyncAction::Failed(MyErrors::FileHasNoLines),
        tail matches LedgerTail::LastLine(line) ==> (match line_date(line@) {
            Ok(d) => {
                &&& a is Fetch
                &&& a->Fetch_0.from == d.next_day().timestamp_at_hour(9)
                &&& a->Fetch_0.to == now
            },
            Err(e) => a == SyncAction::Failed(e),
        }),
{
    match tail {
        LedgerTail::OpenFailed => SyncAction::Failed(MyErrors::CannotOpenFile),
        LedgerTail::ReverseReadFailed => SyncAction::Failed(MyErrors::CannotReadFileInReverse),
        LedgerTail::NoLines => SyncAction::Failed(MyErrors::FileHasNoLines),
        LedgerTail::LastLine(line) => {
            match last_recorded_date(line.as_str()) {
                Ok(d) => SyncAction::Fetch(window_from(&d, now)),
                Err(e) => SyncAction::Failed(e),
            }
        },
    }
}

/// What [`last_recorded_date`] decides of a line, as a spec-level value.
pub open spec fn line_date(line: Seq<char>) -> Result<Date, MyErrors> {
    let cols = split_at_char(line, ',');
    if cols.len() < 2 {
        Err(MyErrors::LineWithoutCommas)
    } else {
        match parse_date_text(cols[0]) {
            Some(d) => Ok(d),
            None => Err(MyErrors::CannotParseDate),
        }
    }
}

/// Step one of an account's sync against the real clock: the window closes
/// at whatever the wall clock read.
pub fn on_ledger_tail_now(tail: &LedgerTail) -> (a: SyncAction)
    ensures
        tail is OpenFailed ==> a == SyncAction::Failed(MyErrors::CannotOpenFile),
        tail is ReverseReadFailed ==> a == SyncAction::Failed(MyErrors::CannotReadFileInReverse),
        tail is NoLines ==> a == SyncAction::Failed(MyErrors::FileHasNoLines),
        tail matches LedgerTail::LastLine(line) ==> (match line_date(line@) {
            Ok(d) => a is Fetch && a->Fetch_0.from == d.next_day().timestamp_at_hour(9),
            Err(e) => a == SyncAction::Failed(e),
        }),
{
    match tail {
        LedgerTail::OpenFailed => SyncAction::Failed(MyErrors::CannotOpenFile),
        LedgerTail::ReverseReadFailed => SyncAction::Failed(MyErrors::CannotReadFileInReverse),
        LedgerTail::NoLines => SyncAction::Failed(MyErrors::FileHasNoLines),
        LedgerTail::LastLine(line) => {
            match last_recorded_date(line.as_str()) {
                Ok(d) => SyncAction::Fetch(window_from_now(&d)),
                Err(e) => SyncAction::Failed(e),
            }
        },
    }
}

/// Render a batch of records as the ledger lines to append: one
/// newline-terminated line per record, in order; an empty batch renders as
/// `None`, so the caller never opens the ledger with nothing to write.
pub fn render_batch(records: &Vec<Record>) -> (r: Option<Vec<String>>)
    ensures
        records@.len() == 0 <==> r is None,
        r matches Some(lines) ==> {
            &&& lines@.len() == records@.len()
            &&& forall|i: int|
                0 <= i < lines@.len() ==> lines@[i]@ == records@[i]@.line().push('\n')
        },
{
    if records.len() == 0 {
        return None;
    }
    let mut lines: Vec<String> = Vec::new();
    let mut i: usize = 0;
    while i < records.len()
        invariant
            i <= records@.len(),
            lines@.len() == i,
            forall|k: int| 0 <= k < i ==> lines@[k]@ == records@[k]@.line().push('\n'),
        decreases records@.len() - i,
    {
        let mut line: String = records[i].to_line();
        line.append("\n");
        proof {
            reveal_strlit("\n");
            assert(records@[i as int]@.line() + "\n"@ =~= records@[i as int]@.line().push('\n'));
        }
        lines.push(line);
        i = i + 1;
    }
    Some(lines)
}

/// Step two of an account's sync: from the fetch's outcome to either the
/// lines to append, completion when the provider had nothing newer, or the
/// failure that ends the account.
pub fn on_fetch(tick: &str, outcome: &FetchOutcome) -> (a: SyncAction)
    ensures
        outcome is TransportFailed ==> a == SyncAction::Failed(MyErrors::CannotDownloadData),
        outcome is BadStatus ==> a == SyncAction::Failed(MyErrors::NasdaqNotOKResponse),
        outcome is BodyUnreadable ==> a == SyncAction::Failed(MyErrors::CannotReadResponse),
        outcome matches FetchOutcome::Body(body) ==> {
            let recs = parse_all_text(tick@, body@);
            if recs.len() == 0 {
                a == SyncAction::Done
            } else {
                &&& a is Append
                &&& a->Append_0@.len() == recs.len()
                &&& forall|i: int|
                    0 <= i < recs.len() ==> a->Append_0@[i]@ == recs[i].line().push('\n')
            }
        },
{
    match outcome {
        FetchOutcome::TransportFailed => SyncAction::Failed(MyErrors::CannotDownloadData),
        FetchOutcome::BadStatus => SyncAction::Failed(MyErrors::NasdaqNotOKResponse),
        FetchOutcome::BodyUnreadable => SyncAction::Failed(MyErrors::CannotReadResponse),
        FetchOutcome::Body(body) => {
            let records: Vec<Record> = parse_all(tick, body.as_str());
            match render_batch(&records) {
                None => SyncAction::Done,
                Some(lines) => SyncAction::Append(lines),
            }
        },
    }
}

/// Step three of an account's sync: from the append's outcome to the
/// account's terminal state. A write failure partway leaves the written
/// prefix persisted; the next run picks up from the ledger's new last date.
pub fn on_append(outcome: &AppendOutcome) -> (a: SyncAction)
    ensures
        outcome is OpenForWriteFailed ==> a == SyncAction::Failed(MyErrors::CannotWriteFile),
        outcome is WriteFailed ==> a == SyncAction::Failed(MyErrors::CannotWriteFile),
        outcome is AllWritten ==> a == SyncAction::Done,
{
    match outcome {
        AppendOutcome::OpenForWriteFailed => SyncAction::Failed(MyErrors::CannotWriteFile),
        AppendOutcome::WriteFailed => SyncAction::Failed(MyErrors::CannotWriteFile),
        AppendOutcome::AllWritten => SyncAction::Done,
    }
}

} // verus!
