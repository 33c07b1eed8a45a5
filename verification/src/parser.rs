//! The delta parser: provider response text to validated records.

use vstd::prelude::*;
use vstd::string::StringExecFns;

use crate::errors::MyErrors;
use crate::record::Record;
use crate::record::RecordView;
use crate::text::split_at_char;
use crate::text::split_on;

verus! {

/// The note of a record built from the ticker and the price columns of one
/// response line: `"label: value"` segments joined by `" @ "`.
pub open spec fn note_text(tick: Seq<char>, cols: Seq<Seq<char>>) -> Seq<char>
    recommends
        cols.len() >= 7,
{
    tick + " @ Open: "@ + cols[1] + " @ High: "@ + cols[2] + " @ Low: "@ + cols[3] + " @ Close: "@
        + cols[4] + " @ Adj Close: "@ + cols[5] + " @ Volume: "@ + cols[6]
}

/// The record a response line yields: none for the header position or a line
/// with fewer than seven fields; otherwise the date copied verbatim, fixed
/// payee and category, the prices folded into the note, and a zero amount.
pub open spec fn parse_line_text(tick: Seq<char>, idx: int, line: Seq<char>) -> Option<RecordView> {
    if idx == 0 {
        None
    } else {
        let cols = split_at_char(line, ',');
        if cols.len() < 7 {
            None
        } else {
            Some(
                RecordView {
                    date: cols[0],
                    payee: "FIDELITY"@,
                    category: "Investment Status"@,
                    note: note_text(tick, cols),
                    amount_cents: 0,
                },
            )
        }
    }
}

/// The records of `lines`, whose first element sits at line index `idx`.
pub open spec fn parsed_records(tick: Seq<char>, idx: int, lines: Seq<Seq<char>>) -> Seq<
    RecordView,
>
    decreases lines.len(),
{
    if lines.len() == 0 {
        Seq::empty()
    } else {
        let rest = parsed_records(tick, idx + 1, lines.skip(1));
        match parse_line_text(tick, idx, lines[0]) {
            Some(r) => seq![r] + rest,
            None => rest,
        }
    }
}

/// The records of a whole response text.
pub open spec fn parse_all_text(tick: Seq<char>, text: Seq<char>) -> Seq<RecordView> {
    parsed_records(tick, 0, split_at_char(text, '\n'))
}

/// Number of record-bearing lines among `lines` (whose first element sits at
/// line index `idx`): those after the header with at least seven fields.
pub open spec fn record_line_count(idx: int, lines: Seq<Seq<char>>) -> int
    decreases lines.len(),
{
    if lines.len() == 0 {
        0
    } else {
        (if idx != 0 && split_at_char(lines[0], ',').len() >= 7 {
            1int
        } else {
            0int
        }) + record_line_count(idx + 1, lines.skip(1))
    }
}

/// The header line yields no record whatever its content: only its position,
/// line index zero, decides that it is discarded.
pub proof fn lemma_header_always_skipped(tick: Seq<char>, line: Seq<char>)
    ensures
        parse_line_text(tick, 0, line) is None,
{
}

/// A line yields a record exactly when it is not the header and has at least
/// seven fields; a malformed line never yields one.
pub proof fn lemma_line_yields_record(tick: Seq<char>, idx: int, line: Seq<char>)
    ensures
        parse_line_text(tick, idx, line) is Some <==> (idx != 0 && split_at_char(line, ',').len()
            >= 7),
{
}

/// Parsing yields exactly one record per record-bearing line: malformed
/// lines and the header are dropped, every other line counts once.
pub proof fn lemma_one_record_per_good_line(tick: Seq<char>, idx: int, lines: Seq<Seq<char>>)
    ensures
        parsed_records(tick, idx, lines).len() == record_line_count(idx, lines),
    decreases lines.len(),
{
    if lines.len() > 0 {
        lemma_one_record_per_good_line(tick, idx + 1, lines.skip(1));
    }
}

/// Parse one response line.
///
/// The first line (index 0) is always the header and is discarded whatever
/// it holds; a later line is discarded exactly when it has fewer than seven
/// comma-separated fields.
pub fn parse_line(tick: &str, line_number: usize, line: &str) -> (r: Result<Record, MyErrors>)
    ensures
        r is Ok <==> parse_line_text(tick@, line_number as int, line@) is Some,
        r is Ok ==> r->Ok_0@ == parse_line_text(tick@, line_number as int, line@)->Some_0,
        line_number == 0 ==> r == Err::<Record, MyErrors>(MyErrors::IgnoreCSVHeader),
        line_number != 0 && split_at_char(line@, ',').len() < 7 ==> r == Err::<
            Record,
            MyErrors,
        >(MyErrors::NotEnoughColumns),
{
    if line_number == 0 {
        return Err(MyErrors::IgnoreCSVHeader);
    }
    let cols: Vec<String> = split_on(line, ',');
    if cols.len() < 7 {
        return Err(MyErrors::NotEnoughColumns);
    }
    let ghost spec_cols = split_at_char(line@, ',');
    let date: String = cols[0].clone();
    let mut note: String = String::from_str(tick);
    note.append(" @ Open: ");
    note.append(cols[1].as_str());
    note.append(" @ High: ");
    note.append(cols[2].as_str());
    note.append(" @ Low: ");
    note.append(cols[3].as_str());
    note.append(" @ Close: ");
    note.append(cols[4].as_str());
    note.append(" @ Adj Close: ");
    note.append(cols[5].as_str());
    note.append(" @ Volume: ");
    note.append(cols[6].as_str());
    proof {
        assert(note@ =~= note_text(tick@, spec_cols));
    }
    let record = Record {
        date,
        payee: String::from_str("FIDELITY"),
        category: String::from_str("Investment Status"),
        note,
        amount_cents: 0,
    };
    Ok(record)
}

/// Parse a whole provider response: the records of its well-formed lines,
/// in order, the header and malformed lines silently dropped.
pub fn parse_all(tick: &str, text: &str) -> (records: Vec<Record>)
    ensures
        records@.map_values(|r: Record| r@) == parse_all_text(tick@, text@),
{
    let lines: Vec<String> = split_on(text, '\n');
    let ghost spec_lines = split_at_char(text@, '\n');
    let mut records: Vec<Record> = Vec::new();
    let mut i: usize = 0;
    proof {
        assert(spec_lines.skip(0) =~= spec_lines);
        assert(records@.map_values(|r: Record| r@) + parsed_records(tick@, 0, spec_lines)
            =~= parsed_records(tick@, 0, spec_lines));
    }
    while i < lines.len()
        invariant
            i <= lines.len(),
            lines@.map_values(|f: String| f@) == spec_lines,
            parsed_records(tick@, 0, spec_lines) == records@.map_values(|r: Record| r@)
                + parsed_records(tick@, i as int, spec_lines.skip(i as int)),
        decreases lines.len() - i,
    {
        let ghost old_records = records@;
        proof {
            assert(spec_lines.skip(i as int).skip(1) =~= spec_lines.skip(i as int + 1));
            assert(spec_lines.skip(i as int)[0] == lines@[i as int]@);
        }
        match parse_line(tick, i, lines[i].as_str()) {
            Ok(record) => {
                records.push(record);
                proof {
                    assert(records@.map_values(|r: Record| r@) =~= old_records.map_values(
                        |r: Record| r@,
                    ) + seq![parse_line_text(tick@, i as int, lines@[i as int]@)->Some_0]);
                }
            },
            Err(_) => {
            },
        }
        i = i + 1;
    }
    records
}

} // verus!
