use ledger_sync::sync::last_recorded_date;
use ledger_sync::sync::on_ledger_tail_now;
use ledger_sync::sync::on_append;
use ledger_sync::sync::on_fetch;
use ledger_sync::sync::on_ledger_tail;
use ledger_sync::sync::render_batch;
use ledger_sync::window::request_url;
use ledger_sync::window::window_from;
use ledger_sync::AppendOutcome;
use ledger_sync::Date;
use ledger_sync::FetchOutcome;
use ledger_sync::LedgerTail;
use ledger_sync::MyErrors;
use ledger_sync::SyncAction;
use ledger_sync::SyncWindow;

#[test]
fn window_starts_the_day_after_the_last_recorded_one() {
    let last = Date { year: 2021, month: 8, day: 16 };
    let w = window_from(&last, 1700000000);
    // 2021-08-17 at 09:00, one full day after the last recorded 09:00.
    assert_eq!(w.from, 1629190800);
    assert_eq!(w.to, 1700000000);
}

#[test]
fn window_rolls_over_month_and_year() {
    let w = window_from(&Date { year: 2021, month: 11, day: 30 }, 0);
    let dec_first = window_from(&Date { year: 2021, month: 12, day: 1 }, 0);
    assert_eq!(w.from + 86400, dec_first.from);
    let eve = window_from(&Date { year: 2020, month: 12, day: 31 }, 0);
    let jan_first = window_from(&Date { year: 2021, month: 1, day: 1 }, 0);
    assert_eq!(eve.from + 86400, jan_first.from);
}

#[test]
fn last_recorded_date_reads_first_field() {
    let line = "2021-11-30,FIDELITY,Investment Status,note,0.00";
    assert_eq!(last_recorded_date(line).unwrap(), Date { year: 2021, month: 11, day: 30 });
}

#[test]
fn last_recorded_date_needs_a_delimiter() {
    assert_eq!(last_recorded_date("2021-11-30").unwrap_err(), MyErrors::LineWithoutCommas);
}

#[test]
fn last_recorded_date_needs_a_date() {
    assert_eq!(last_recorded_date("yesterday,x").unwrap_err(), MyErrors::CannotParseDate);
    assert_eq!(last_recorded_date(",x").unwrap_err(), MyErrors::CannotParseDate);
}

#[test]
fn ledger_tail_failures_map_to_their_errors() {
    assert!(matches!(
        on_ledger_tail(&LedgerTail::OpenFailed, 0),
        SyncAction::Failed(MyErrors::CannotOpenFile)
    ));
    assert!(matches!(
        on_ledger_tail(&LedgerTail::ReverseReadFailed, 0),
        SyncAction::Failed(MyErrors::CannotReadFileInReverse)
    ));
    assert!(matches!(
        on_ledger_tail(&LedgerTail::NoLines, 0),
        SyncAction::Failed(MyErrors::FileHasNoLines)
    ));
}

#[test]
fn fetch_failures_map_to_their_errors() {
    assert!(matches!(
        on_fetch("FOO", &FetchOutcome::TransportFailed),
        SyncAction::Failed(MyErrors::CannotDownloadData)
    ));
    assert!(matches!(
        on_fetch("FOO", &FetchOutcome::BadStatus),
        SyncAction::Failed(MyErrors::NasdaqNotOKResponse)
    ));
    assert!(matches!(
        on_fetch("FOO", &FetchOutcome::BodyUnreadable),
        SyncAction::Failed(MyErrors::CannotReadResponse)
    ));
}

#[test]
fn append_outcomes_map_to_terminal_states() {
    assert!(matches!(
        on_append(&AppendOutcome::OpenForWriteFailed),
        SyncAction::Failed(MyErrors::CannotWriteFile)
    ));
    assert!(matches!(
        on_append(&AppendOutcome::WriteFailed),
        SyncAction::Failed(MyErrors::CannotWriteFile)
    ));
    assert!(matches!(on_append(&AppendOutcome::AllWritten), SyncAction::Done));
}

#[test]
fn ledger_tail_against_the_real_clock() {
    let tail = LedgerTail::LastLine("2021-08-16,FIDELITY,Investment Status,note,0.00".to_string());
    match on_ledger_tail_now(&tail) {
        SyncAction::Fetch(w) => {
            assert_eq!(w.from, 1629190800);
            // The wall clock reads well past 2021 by now.
            assert!(w.to > w.from);
        },
        _ => panic!("expected a fetch"),
    }
}

#[test]
fn empty_batch_renders_nothing_to_write() {
    assert!(render_batch(&Vec::new()).is_none());
}

#[test]
fn request_url_carries_ticker_and_window() {
    let url = request_url("FOO", &SyncWindow { from: 1629190800, to: 1700000000 });
    assert_eq!(
        url,
        "https://query1.finance.yahoo.com/v7/finance/download/FOO?period1=1629190800&period2=1700000000&interval=1d&events=history&includeAdjustedClose=true"
    );
}

#[test]
fn sync_is_a_no_op_when_the_provider_has_nothing_newer() {
    // The ledger ends on 2021-11-30; the window opens at 2021-12-01 09:00,
    // past every row the provider could resend for 2021-11-28..2021-11-30.
    let tail = LedgerTail::LastLine(
        "2021-11-30,FIDELITY,Investment Status,note,0.00".to_string(),
    );
    let action = on_ledger_tail(&tail, 1700000000);
    let w = match action {
        SyncAction::Fetch(w) => w,
        _ => panic!("expected a fetch"),
    };
    let nov28 = window_from(&Date { year: 2021, month: 11, day: 27 }, 0).from;
    let nov29 = nov28 + 86400;
    let nov30 = nov29 + 86400;
    assert!(w.from > nov28 && w.from > nov29 && w.from > nov30);
    // Asked from 2021-12-01 on, the provider returns only its header:
    // nothing is parsed and nothing is appended.
    let after = on_fetch("FOO", &FetchOutcome::Body("Date,Open,High,Low,Close,Adj Close,Volume\n".to_string()));
    assert!(matches!(after, SyncAction::Done));
}

#[test]
fn end_to_end_appends_the_expected_line() {
    let tail = LedgerTail::LastLine(
        "2021-08-16,FIDELITY,Investment Status,FOO @ Open: 1 @ High: 1 @ Low: 1 @ Close: 1 @ Adj Close: 1 @ Volume: 1,0.00"
            .to_string(),
    );
    let action = on_ledger_tail(&tail, 1700000000);
    let w = match action {
        SyncAction::Fetch(w) => w,
        _ => panic!("expected a fetch"),
    };
    assert_eq!(w.from, 1629190800);
    let body = "Date,Open,High,Low,Close,Adj Close,Volume\n\
                2021-08-17,240.570007,255.330002,239.860001,255.139999,255.139999,47553800";
    let after = on_fetch("FOO", &FetchOutcome::Body(body.to_string()));
    let lines = match after {
        SyncAction::Append(lines) => lines,
        _ => panic!("expected an append"),
    };
    assert_eq!(lines.len(), 1);
    assert_eq!(
        lines[0],
        "2021-08-17,FIDELITY,Investment Status,FOO @ Open: 240.570007 @ High: 255.330002 @ Low: 239.860001 @ Close: 255.139999 @ Adj Close: 255.139999 @ Volume: 47553800,0.00\n"
    );
    assert!(matches!(on_append(&AppendOutcome::AllWritten), SyncAction::Done));
}
