//! The grammar of the solution report.
//!
//! The report has no schema: what a line means follows from its place alone.
//! After a banner come the row count, one line that is passed over, the column
//! count, one more line that is passed over, and the status line. A block of
//! lines whose length follows from the row count separates the status line
//! from the column lines, of which there is one for each column.
//!
//! The places and offsets belong to the format of the solver's report, not to
//! this crate. Each is fixed here, by name, and used by that name alone, so
//! that a change of the format is a change in one place.

use crate::error::ParseError;
use crate::lines::{least, text_at};
use crate::number::{count_of, float_literal};
use crate::status::Status;
use crate::text::tokens;
use vstd::prelude::*;

verus! {

/// The place of the line that holds the row count, the banner being line zero.
pub const ROW_COUNT_LINE: usize = 1;

/// The place of the line that holds the column count.
pub const COLUMN_COUNT_LINE: usize = 3;

/// The place of the status line.
pub const STATUS_LINE: usize = 5;

/// The number of lines at the head of the report: the lines up to the status
/// line. They tell how long the rest of the report is.
pub const HEADER_LINES: usize = STATUS_LINE + 1;

/// The number of characters that stand before the status token on the status
/// line.
pub const STATUS_OFFSET: usize = 12;

/// The number of lines between the status line and the first column line,
/// not counting the one line that each row takes there.
pub const ROW_BLOCK_MARGIN: usize = 7;

/// The place of the count among the tokens of a count line, the first token
/// having place zero.
pub const COUNT_TOKEN: usize = 1;

/// The place of the name of the variable on a column line.
pub const NAME_TOKEN: usize = 1;

/// The place of the value of the variable on a column line.
pub const VALUE_TOKEN: usize = 3;

/// The count that a count line holds: what its second token writes. A line
/// that is missing or has no second token holds none.
pub open spec fn size_in(line: Option<Seq<char>>) -> Option<usize> {
    match line {
        Some(text) => if tokens(text).len() > COUNT_TOKEN {
            count_of(tokens(text)[COUNT_TOKEN as int])
        } else {
            None
        },
        None => None,
    }
}

/// The outcome that a status line holds: what the text from the status offset
/// to the end of the line stands for.
pub open spec fn status_in(line: Option<Seq<char>>) -> Result<Status, ParseError> {
    match line {
        Some(text) => if text.len() >= STATUS_OFFSET {
            match Status::of_token(text.skip(STATUS_OFFSET as int)) {
                Some(status) => Ok(status),
                None => Err(ParseError::UnknownStatus),
            }
        } else {
            Err(ParseError::UnknownStatus)
        },
        None => Err(ParseError::NoStatus),
    }
}

/// The name and the value that the line of the column with index `column`
/// holds: its second and its fourth token, the fourth writing a number.
pub open spec fn column_in(line: Option<Seq<char>>, column: usize) -> Result<
    (Seq<char>, Seq<char>),
    ParseError,
> {
    match line {
        Some(text) => if tokens(text).len() <= VALUE_TOKEN {
            Err(ParseError::TooFewFields { column })
        } else if !float_literal(tokens(text)[VALUE_TOKEN as int]) {
            Err(ParseError::InvalidValue { column })
        } else {
            Ok((tokens(text)[NAME_TOKEN as int], tokens(text)[VALUE_TOKEN as int]))
        },
        None => Err(ParseError::MissingColumn { column }),
    }
}

/// The place of the line of the column with index `column`, in a report of a
/// problem with `rows` rows.
pub open spec fn column_line(rows: usize, column: int) -> int {
    HEADER_LINES + rows + ROW_BLOCK_MARGIN + column
}

/// What the report holds for the column with index `column`.
pub open spec fn column_at(report: Seq<Option<Seq<char>>>, rows: usize, column: int) -> Result<
    (Seq<char>, Seq<char>),
    ParseError,
> {
    column_in(text_at(report, column_line(rows, column)), column as usize)
}

/// The values that the first `limit` columns of the report give, a later
/// column overwriting an earlier one of the same name; or what is wrong with
/// the first of these columns that cannot be read.
pub open spec fn columns_in(report: Seq<Option<Seq<char>>>, rows: usize, limit: nat) -> Result<
    Map<Seq<char>, Seq<char>>,
    ParseError,
>
    decreases limit,
{
    if limit == 0 {
        Ok(Map::empty())
    } else {
        match columns_in(report, rows, (limit - 1) as nat) {
            Err(error) => Err(error),
            Ok(values) => match column_at(report, rows, limit - 1) {
                Err(error) => Err(error),
                Ok((name, value)) => Ok(values.insert(name, value)),
            },
        }
    }
}

/// The number of columns that can be read before the first one that cannot,
/// among the first `limit` columns of the report.
pub open spec fn columns_read(report: Seq<Option<Seq<char>>>, rows: usize, limit: nat) -> nat
    decreases limit,
{
    if limit == 0 {
        0
    } else {
        let before = columns_read(report, rows, (limit - 1) as nat);
        if before == limit - 1 && column_at(report, rows, limit - 1) is Ok {
            limit
        } else {
            before
        }
    }
}

/// What a report says: the outcome of the run and the values of the
/// variables.
pub struct Reading {
    pub status: Status,
    pub values: Map<Seq<char>, Seq<char>>,
}

/// What the report says, or the first departure from the format that a walk
/// through it meets.
pub open spec fn reading(report: Seq<Option<Seq<char>>>) -> Result<Reading, ParseError> {
    match size_in(text_at(report, ROW_COUNT_LINE as int)) {
        None => Err(ParseError::RowCount),
        Some(rows) => match size_in(text_at(report, COLUMN_COUNT_LINE as int)) {
            None => Err(ParseError::ColumnCount),
            Some(columns) => match status_in(text_at(report, STATUS_LINE as int)) {
                Err(error) => Err(error),
                Ok(status) => match columns_in(report, rows, columns as nat) {
                    Err(error) => Err(error),
                    Ok(values) => Ok(Reading { status, values }),
                },
            },
        },
    }
}

/// The number of lines that a walk through the report passes: all the lines
/// up to the last column line where every column can be read, and the lines up
/// to the one that departs from the format otherwise; never more than the
/// report has.
pub open spec fn lines_taken(report: Seq<Option<Seq<char>>>) -> nat {
    let wanted: int = match size_in(text_at(report, ROW_COUNT_LINE as int)) {
        None => ROW_COUNT_LINE + 1,
        Some(rows) => match size_in(text_at(report, COLUMN_COUNT_LINE as int)) {
            None => COLUMN_COUNT_LINE + 1,
            Some(columns) => match status_in(text_at(report, STATUS_LINE as int)) {
                Err(_) => STATUS_LINE + 1,
                Ok(_) => {
                    let good = columns_read(report, rows, columns as nat);
                    if good == columns {
                        column_line(rows, columns as int)
                    } else {
                        column_line(rows, good as int) + 1
                    }
                },
            },
        },
    };
    least(wanted, report.len() as int) as nat
}

/// The number of lines that a walk through the report asks for, as the head of
/// the report tells it: the head, the row block and a line for each column.
/// Where the head departs from the format the walk asks for no more than the
/// head.
pub open spec fn lines_wanted(report: Seq<Option<Seq<char>>>) -> nat {
    match size_in(text_at(report, ROW_COUNT_LINE as int)) {
        None => HEADER_LINES as nat,
        Some(rows) => match size_in(text_at(report, COLUMN_COUNT_LINE as int)) {
            None => HEADER_LINES as nat,
            Some(columns) => match status_in(text_at(report, STATUS_LINE as int)) {
                Err(_) => HEADER_LINES as nat,
                Ok(_) => column_line(rows, columns as int) as nat,
            },
        },
    }
}

/// Once a column cannot be read, no later column is looked at: the error and
/// the number of columns read stay what they are.
pub proof fn lemma_columns_stop(report: Seq<Option<Seq<char>>>, rows: usize, bad: nat, limit: nat)
    requires
        bad < limit,
        columns_in(report, rows, bad) is Ok,
        columns_read(report, rows, bad) == bad,
        column_at(report, rows, bad as int) is Err,
    ensures
        columns_in(report, rows, limit) == Err::<Map<Seq<char>, Seq<char>>, ParseError>(
            column_at(report, rows, bad as int)->Err_0,
        ),
        columns_read(report, rows, limit) == bad,
    decreases limit,
{
    if limit > bad + 1 {
        lemma_columns_stop(report, rows, bad, (limit - 1) as nat);
    }
}

/// The columns are read one after the other up to the first that cannot be
/// read: the columns before it can all be read, and where there is none, all
/// columns can.
proof fn lemma_columns_read(report: Seq<Option<Seq<char>>>, rows: usize, limit: nat)
    ensures
        columns_read(report, rows, limit) <= limit,
        columns_read(report, rows, columns_read(report, rows, limit)) == columns_read(
            report,
            rows,
            limit,
        ),
        columns_in(report, rows, columns_read(report, rows, limit)) is Ok,
        columns_read(report, rows, limit) < limit ==> column_at(
            report,
            rows,
            columns_read(report, rows, limit) as int,
        ) is Err,
        columns_read(report, rows, limit) == limit <==> columns_in(report, rows, limit) is Ok,
    decreases limit,
{
    if limit > 0 {
        lemma_columns_read(report, rows, (limit - 1) as nat);
    }
}

/// The first `limit` columns say the same in a report and in its first `n`
/// lines, where these lines hold the columns.
proof fn lemma_columns_of_prefix(report: Seq<Option<Seq<char>>>, n: int, rows: usize, limit: nat)
    requires
        column_line(rows, limit as int) <= n <= report.len(),
    ensures
        columns_in(report.take(n), rows, limit) == columns_in(report, rows, limit),
        columns_read(report.take(n), rows, limit) == columns_read(report, rows, limit),
    decreases limit,
{
    if limit > 0 {
        lemma_columns_of_prefix(report, n, rows, (limit - 1) as nat);
        assert(column_at(report.take(n), rows, limit - 1) == column_at(report, rows, limit - 1));
    }
}

/// A walk passes no more lines than the report has, and no more than its head
/// asks for.
pub proof fn lemma_walk_within_wanted(report: Seq<Option<Seq<char>>>)
    ensures
        lines_taken(report) <= report.len(),
        lines_taken(report) <= lines_wanted(report),
{
    match size_in(text_at(report, ROW_COUNT_LINE as int)) {
        None => {},
        Some(rows) => match size_in(text_at(report, COLUMN_COUNT_LINE as int)) {
            None => {},
            Some(columns) => {
                lemma_columns_read(report, rows, columns as nat);
            },
        },
    }
}

/// What a walk asks for is told by the head of the report alone.
pub proof fn lemma_head_tells_wanted(report: Seq<Option<Seq<char>>>, n: int)
    requires
        HEADER_LINES <= n <= report.len(),
    ensures
        lines_wanted(report.take(n)) == lines_wanted(report),
{
    assert(text_at(report.take(n), ROW_COUNT_LINE as int) == text_at(report, ROW_COUNT_LINE as int));
    assert(text_at(report.take(n), COLUMN_COUNT_LINE as int) == text_at(
        report,
        COLUMN_COUNT_LINE as int,
    ));
    assert(text_at(report.take(n), STATUS_LINE as int) == text_at(report, STATUS_LINE as int));
}

/// A walk looks at no line beyond those that it passes: the lines that were
/// passed, and any number of lines after them, say what the whole report says.
pub proof fn lemma_walk_looks_no_further(report: Seq<Option<Seq<char>>>, n: int)
    requires
        lines_taken(report) <= n <= report.len(),
    ensures
        reading(report.take(n)) == reading(report),
        lines_taken(report.take(n)) == lines_taken(report),
{
    let head = report.take(n);
    if n == report.len() {
        assert(head == report);
    } else {
        match size_in(text_at(report, ROW_COUNT_LINE as int)) {
            None => {
                assert(text_at(head, ROW_COUNT_LINE as int) == text_at(
                    report,
                    ROW_COUNT_LINE as int,
                ));
            },
            Some(rows) => {
                assert(text_at(head, ROW_COUNT_LINE as int) == text_at(
                    report,
                    ROW_COUNT_LINE as int,
                ));
                assert(text_at(head, COLUMN_COUNT_LINE as int) == text_at(
                    report,
                    COLUMN_COUNT_LINE as int,
                ));
                match size_in(text_at(report, COLUMN_COUNT_LINE as int)) {
                    None => {},
                    Some(columns) => {
                        assert(text_at(head, STATUS_LINE as int) == text_at(
                            report,
                            STATUS_LINE as int,
                        ));
                        if status_in(text_at(report, STATUS_LINE as int)) is Ok {
                            let good = columns_read(report, rows, columns as nat);
                            lemma_columns_read(report, rows, columns as nat);
                            if good == columns {
                                lemma_columns_of_prefix(report, n, rows, columns as nat);
                            } else {
                                lemma_columns_of_prefix(report, n, rows, good);
                                assert(column_at(head, rows, good as int) == column_at(
                                    report,
                                    rows,
                                    good as int,
                                ));
                                lemma_columns_stop(head, rows, good, columns as nat);
                                lemma_columns_stop(report, rows, good, columns as nat);
                            }
                        }
                    },
                }
            },
        }
    }
}

/// The name that the report holds for the column with index `column`.
pub open spec fn name_at(report: Seq<Option<Seq<char>>>, rows: usize, column: int) -> Seq<char> {
    column_at(report, rows, column)->Ok_0.0
}

/// Where the first `limit` columns can all be read, each was read, and the
/// values hold the names of these columns and no others: one entry for each
/// name, so at most one for each column, and exactly one for each where no
/// name comes twice.
pub proof fn lemma_columns_in_ok(report: Seq<Option<Seq<char>>>, rows: usize, limit: nat)
    requires
        columns_in(report, rows, limit) is Ok,
    ensures
        columns_read(report, rows, limit) == limit,
        forall|k: int| 0 <= k < limit ==> #[trigger] column_at(report, rows, k) is Ok,
        columns_in(report, rows, limit)->Ok_0.dom().finite(),
        columns_in(report, rows, limit)->Ok_0.len() <= limit,
        forall|name: Seq<char>| #[trigger]
            columns_in(report, rows, limit)->Ok_0.contains_key(name) <==> exists|k: int|
                0 <= k < limit && #[trigger] name_at(report, rows, k) == name,
        (forall|j: int, k: int|
            0 <= j < k < limit ==> #[trigger] name_at(report, rows, j) != #[trigger] name_at(
                report,
                rows,
                k,
            )) ==> columns_in(report, rows, limit)->Ok_0.len() == limit,
    decreases limit,
{
    if limit > 0 {
        let before = (limit - 1) as nat;
        lemma_columns_in_ok(report, rows, before);
        let earlier = columns_in(report, rows, before)->Ok_0;
        let all = columns_in(report, rows, limit)->Ok_0;
        let last = name_at(report, rows, limit - 1);
        assert(all == earlier.insert(last, column_at(report, rows, limit - 1)->Ok_0.1));
        assert forall|name: Seq<char>| #[trigger] all.contains_key(name) implies exists|k: int|
            0 <= k < limit && #[trigger] name_at(report, rows, k) == name by {
            if name == last {
                assert(name_at(report, rows, limit - 1) == name);
            } else {
                let k = choose|k: int| 0 <= k < before && #[trigger] name_at(report, rows, k) == name;
                assert(name_at(report, rows, k) == name);
            }
        }
        assert forall|name: Seq<char>|
            (exists|k: int|
                0 <= k < limit && #[trigger] name_at(report, rows, k) == name) implies #[trigger]
            all.contains_key(name) by {
            let k = choose|k: int| 0 <= k < limit && #[trigger] name_at(report, rows, k) == name;
            if k < before {
                assert(earlier.contains_key(name));
            }
        }
        if forall|j: int, k: int|
            0 <= j < k < limit ==> #[trigger] name_at(report, rows, j) != #[trigger] name_at(
                report,
                rows,
                k,
            ) {
            if earlier.contains_key(last) {
                let k = choose|k: int| 0 <= k < before && #[trigger] name_at(report, rows, k) == last;
                assert(name_at(report, rows, k) != name_at(report, rows, limit - 1));
            }
        }
    }
}

/// A sound report is walked to the end of its column block. Where the report
/// holds all its lines and can be read, with `rows` rows and `columns`
/// columns, the walk passes the banner, the line of the row count, one line
/// more, the line of the column count, one line more, the status line, a line
/// for each row and the margin of the row block, and a line for each column.
/// It gives one value for each name that the columns hold: at most `columns`
/// values, and exactly as many where no name comes twice.
pub proof fn lemma_sound_report_walked(report: Seq<Option<Seq<char>>>, rows: usize, columns: usize)
    requires
        reading(report) is Ok,
        size_in(text_at(report, ROW_COUNT_LINE as int)) == Some(rows),
        size_in(text_at(report, COLUMN_COUNT_LINE as int)) == Some(columns),
        report.len() >= 1 + 1 + 1 + 1 + 1 + 1 + rows + ROW_BLOCK_MARGIN + columns,
    ensures
        lines_taken(report) == 1 + 1 + 1 + 1 + 1 + 1 + rows + ROW_BLOCK_MARGIN + columns,
        reading(report)->Ok_0.values.dom().finite(),
        reading(report)->Ok_0.values.len() <= columns,
        forall|name: Seq<char>| #[trigger]
            reading(report)->Ok_0.values.contains_key(name) <==> exists|k: int|
                0 <= k < columns && #[trigger] name_at(report, rows, k) == name,
        (forall|j: int, k: int|
            0 <= j < k < columns ==> #[trigger] name_at(report, rows, j) != #[trigger] name_at(
                report,
                rows,
                k,
            )) ==> reading(report)->Ok_0.values.len() == columns,
{
    lemma_columns_in_ok(report, rows, columns as nat);
}


/// A report that can be read holds, at the status offset of its status line,
/// the token of the outcome that is read from it.
pub proof fn lemma_status_read_is_written(report: Seq<Option<Seq<char>>>)
    requires
        reading(report) is Ok,
    ensures
        text_at(report, STATUS_LINE as int) is Some,
        text_at(report, STATUS_LINE as int)->0.len() >= STATUS_OFFSET,
        Status::of_token(text_at(report, STATUS_LINE as int)->0.skip(STATUS_OFFSET as int)) == Some(
            reading(report)->Ok_0.status,
        ),
{
}

/// A status line that holds none of the status tokens at the status offset
/// fails the report: no outcome is made up for it, and the walk ends at the
/// status line.
pub proof fn lemma_unknown_status_is_refused(report: Seq<Option<Seq<char>>>, line: Seq<char>)
    requires
        size_in(text_at(report, ROW_COUNT_LINE as int)) is Some,
        size_in(text_at(report, COLUMN_COUNT_LINE as int)) is Some,
        text_at(report, STATUS_LINE as int) == Some(line),
        line.len() < STATUS_OFFSET || Status::of_token(line.skip(STATUS_OFFSET as int)) is None,
    ensures
        reading(report) == Err::<Reading, ParseError>(ParseError::UnknownStatus),
        lines_taken(report) == HEADER_LINES,
{
}

} // verus!
