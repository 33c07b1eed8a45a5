use ledger_sync::parser::parse_all;
use ledger_sync::parser::parse_line;
use ledger_sync::MyErrors;

const GOOD_ROW: &str = "2021-08-17,240.570007,255.330002,239.860001,255.139999,255.139999,47553800";

#[test]
fn header_is_always_skipped_by_position() {
    assert_eq!(parse_line("FOO", 0, "Date,Open,High,Low,Close,Adj Close,Volume").unwrap_err(), MyErrors::IgnoreCSVHeader);
    assert_eq!(parse_line("FOO", 0, "some completely different header").unwrap_err(), MyErrors::IgnoreCSVHeader);
    assert_eq!(parse_line("FOO", 0, GOOD_ROW).unwrap_err(), MyErrors::IgnoreCSVHeader);
}

#[test]
fn short_line_yields_no_record() {
    assert_eq!(parse_line("FOO", 1, "").unwrap_err(), MyErrors::NotEnoughColumns);
    assert_eq!(parse_line("FOO", 1, "2021-08-17,1,2,3,4,5").unwrap_err(), MyErrors::NotEnoughColumns);
    assert_eq!(parse_line("FOO", 2, "no commas at all").unwrap_err(), MyErrors::NotEnoughColumns);
}

#[test]
fn good_line_yields_expected_record() {
    let record = parse_line("FOO", 1, GOOD_ROW).unwrap();
    assert_eq!(record.date, "2021-08-17");
    assert_eq!(record.payee, "FIDELITY");
    assert_eq!(record.category, "Investment Status");
    assert_eq!(
        record.note,
        "FOO @ Open: 240.570007 @ High: 255.330002 @ Low: 239.860001 @ Close: 255.139999 @ Adj Close: 255.139999 @ Volume: 47553800"
    );
    assert_eq!(record.amount_cents, 0);
}

#[test]
fn record_serializes_to_expected_ledger_line() {
    let record = parse_line("FOO", 1, GOOD_ROW).unwrap();
    assert_eq!(
        record.to_line(),
        "2021-08-17,FIDELITY,Investment Status,FOO @ Open: 240.570007 @ High: 255.330002 @ Low: 239.860001 @ Close: 255.139999 @ Adj Close: 255.139999 @ Volume: 47553800,0.00"
    );
}

#[test]
fn parse_all_drops_header_and_malformed_rows() {
    let body = "Date,Open,High,Low,Close,Adj Close,Volume\n\
                2021-11-29,241.399994,242.789993,238.210007,240.330002,240.330002,17956300\n\
                garbage line\n\
                2021-11-30,240.570007,255.330002,239.860001,255.139999,255.139999,47553800\n";
    let records = parse_all("AAPL", body);
    assert_eq!(records.len(), 2);
    assert_eq!(records[0].date, "2021-11-29");
    assert_eq!(records[1].date, "2021-11-30");
}

#[test]
fn parse_all_of_varied_header_only_is_empty() {
    assert_eq!(parse_all("FOO", "Date,Open,High,Low,Close,Adj Close,Volume").len(), 0);
    assert_eq!(parse_all("FOO", "a,b,c,d,e,f,g,h").len(), 0);
    assert_eq!(parse_all("FOO", "").len(), 0);
}

#[test]
fn parse_all_keeps_row_order() {
    let body = "header\n2021-01-04,1,2,3,4,5,6\n2021-01-05,1,2,3,4,5,6";
    let records = parse_all("T", body);
    assert_eq!(records.len(), 2);
    assert_eq!(records[0].date, "2021-01-04");
    assert_eq!(records[1].date, "2021-01-05");
}
