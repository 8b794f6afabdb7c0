//! The parser that walks a solution report.

use crate::error::ParseError;
use crate::grammar::{
    column_in, column_line, columns_in, columns_read, lemma_columns_stop, lines_taken,
    lines_wanted, reading, size_in, status_in, Reading, COLUMN_COUNT_LINE, COUNT_TOKEN,
    HEADER_LINES, NAME_TOKEN, ROW_BLOCK_MARGIN, ROW_COUNT_LINE, STATUS_LINE, STATUS_OFFSET,
    VALUE_TOKEN,
};
use crate::lines::{least, text_at, texts, Line, LineReader};
use crate::number::{is_float_literal, parse_count};
use crate::solution::{Assignment, Assignments, Solution};
use crate::status::Status;
use crate::text::{chars_of, token_spans};
use vstd::prelude::*;
use vstd::slice::slice_subrange;

verus! {

/// The text that a cursor handed out, if it handed out a line that could be
/// read.
pub open spec fn seen(line: Option<&Line>) -> Option<Seq<char>> {
    match line {
        Some(found) => found@,
        None => None,
    }
}

/// Whether `result` is what a parse of `report` for `problem` may give: the
/// solution that the report holds, tied to the problem, or the error that the
/// report runs into.
pub open spec fn parsed<P>(
    report: Seq<Option<Seq<char>>>,
    problem: Option<&P>,
    result: Result<Solution<P>, ParseError>,
) -> bool {
    match result {
        Ok(solution) => reading(report) == Ok::<Reading, ParseError>(
            (Reading { status: solution.status, values: solution.results@ }),
        ) && solution.related_problem == problem,
        Err(error) => reading(report) == Err::<Reading, ParseError>(error),
    }
}

/// Parsing is repeatable. Two parses of reports that hold the same lines, for
/// the same problem, pass the same number of lines and end alike: with the
/// same error, or with solutions that agree in the outcome, in the values and
/// in the problem they are tied to.
pub proof fn lemma_parse_repeatable<P>(
    first: Seq<Option<Seq<char>>>,
    second: Seq<Option<Seq<char>>>,
    problem: Option<&P>,
    one: Result<Solution<P>, ParseError>,
    other: Result<Solution<P>, ParseError>,
)
    requires
        first == second,
        parsed(first, problem, one),
        parsed(second, problem, other),
    ensures
        lines_taken(first) == lines_taken(second),
        match (one, other) {
            (Ok(a), Ok(b)) => a.status == b.status && a.results@ == b.results@
                && a.related_problem == b.related_problem,
            (Err(a), Err(b)) => a == b,
            _ => false,
        },
{
}

/// Reads the count on a count line.
pub fn read_size(line: Option<&Line>) -> (size: Option<usize>)
    ensures
        size == size_in(seen(line)),
{
    match line {
        Some(Line::Text(text)) => {
            let chars = chars_of(text.as_str());
            let spans = token_spans(chars.as_slice());
            if spans.len() > COUNT_TOKEN {
                let at = spans[COUNT_TOKEN];
                parse_count(slice_subrange(chars.as_slice(), at.start, at.end))
            } else {
                None
            }
        },
        _ => None,
    }
}

/// Reads the outcome on the status line.
pub fn read_status(line: Option<&Line>) -> (status: Result<Status, ParseError>)
    ensures
        status == status_in(seen(line)),
{
    match line {
        Some(Line::Text(text)) => {
            let chars = chars_of(text.as_str());
            if chars.len() >= STATUS_OFFSET {
                let token = slice_subrange(chars.as_slice(), STATUS_OFFSET, chars.len());
                proof {
                    assert(token@ == text@.skip(STATUS_OFFSET as int));
                }
                match Status::from_chars(token) {
                    Some(status) => Ok(status),
                    None => Err(ParseError::UnknownStatus),
                }
            } else {
                Err(ParseError::UnknownStatus)
            }
        },
        _ => Err(ParseError::NoStatus),
    }
}

/// Reads the line of the column with index `column`.
pub fn read_column(line: Option<&Line>, column: usize) -> (entry: Result<Assignment, ParseError>)
    ensures
        match entry {
            Ok(found) => column_in(seen(line), column) == Ok::<(Seq<char>, Seq<char>), ParseError>(
                (found.name@, found.value@),
            ),
            Err(error) => column_in(seen(line), column) == Err::<(Seq<char>, Seq<char>), ParseError>(
                error,
            ),
        },
{
    match line {
        Some(Line::Text(text)) => {
            let chars = chars_of(text.as_str());
            let spans = token_spans(chars.as_slice());
            if spans.len() <= VALUE_TOKEN {
                return Err(ParseError::TooFewFields { column });
            }
            let name_at = spans[NAME_TOKEN];
            let value_at = spans[VALUE_TOKEN];
            if !is_float_literal(slice_subrange(chars.as_slice(), value_at.start, value_at.end)) {
                return Err(ParseError::InvalidValue { column });
            }
            let name = text.as_str().substring_char(name_at.start, name_at.end).to_owned();
            let value = text.as_str().substring_char(value_at.start, value_at.end).to_owned();
            Ok(Assignment { name, value })
        },
        _ => Err(ParseError::MissingColumn { column }),
    }
}

/// Tells how many lines a walk asks for, from the head of the report. The
/// answer is the same for every report that begins with `head`, once `head`
/// holds the lines up to the status line; a number of lines that no machine
/// word holds is answered with the greatest word.
pub fn lines_to_read(head: &[Line]) -> (wanted: usize)
    ensures
        wanted == least(lines_wanted(texts(head@)) as int, usize::MAX as int),
{
    let mut reader = LineReader::new(head);
    let rows = match read_size(reader.nth(ROW_COUNT_LINE)) {
        Some(rows) => rows,
        None => {
            return HEADER_LINES;
        },
    };
    let columns = match read_size(reader.nth(COLUMN_COUNT_LINE - ROW_COUNT_LINE - 1)) {
        Some(columns) => columns,
        None => {
            return HEADER_LINES;
        },
    };
    if read_status(reader.nth(STATUS_LINE - COLUMN_COUNT_LINE - 1)).is_err() {
        return HEADER_LINES;
    }
    let block = match rows.checked_add(HEADER_LINES + ROW_BLOCK_MARGIN) {
        Some(block) => block,
        None => {
            return usize::MAX;
        },
    };
    match block.checked_add(columns) {
        Some(wanted) => wanted,
        None => usize::MAX,
    }
}

/// Reads a report from the place of the cursor on: the counts, the status and
/// the columns, in the places that the format fixes. The cursor passes the
/// lines that the walk needs and stops at the first departure from the format.
/// The solution is tied to `problem` where one is given.
pub fn parse<'p, P>(reader: &mut LineReader, problem: Option<&'p P>) -> (result: Result<
    Solution<'p, P>,
    ParseError,
>)
    ensures
        final(reader).report() == old(reader).report(),
        final(reader).consumed() == old(reader).consumed() + lines_taken(old(reader).rest()),
        parsed(old(reader).rest(), problem, result),
{
    let ghost report = reader.rest();
    let ghost start = reader.consumed();
    let rows = match read_size(reader.nth(ROW_COUNT_LINE)) {
        Some(rows) => rows,
        None => {
            return Err(ParseError::RowCount);
        },
    };
    let columns = match read_size(reader.nth(COLUMN_COUNT_LINE - ROW_COUNT_LINE - 1)) {
        Some(columns) => columns,
        None => {
            return Err(ParseError::ColumnCount);
        },
    };
    let status = match read_status(reader.nth(STATUS_LINE - COLUMN_COUNT_LINE - 1)) {
        Ok(status) => status,
        Err(error) => {
            return Err(error);
        },
    };
    let block = match rows.checked_add(ROW_BLOCK_MARGIN) {
        Some(block) => block,
        None => reader.remaining(),
    };
    reader.skip(block);
    let mut results = Assignments::new();
    let mut column: usize = 0;
    while column < columns
        invariant
            column <= columns,
            report == old(reader).rest(),
            start == old(reader).consumed(),
            reader.report() == old(reader).report(),
            reader.consumed() == start + least(column_line(rows, column as int), report.len() as int),
            columns_in(report, rows, column as nat) == Ok::<Map<Seq<char>, Seq<char>>, ParseError>(
                results@,
            ),
            columns_read(report, rows, column as nat) == column,
            size_in(text_at(report, ROW_COUNT_LINE as int)) == Some(rows),
            size_in(text_at(report, COLUMN_COUNT_LINE as int)) == Some(columns),
            status_in(text_at(report, STATUS_LINE as int)) == Ok::<Status, ParseError>(status),
        decreases columns - column,
    {
        let line = reader.nth(0);
        assert(seen(line) == text_at(report, column_line(rows, column as int)));
        match read_column(line, column) {
            Ok(entry) => {
                results.insert(entry.name, entry.value);
            },
            Err(error) => {
                proof {
                    lemma_columns_stop(report, rows, column as nat, columns as nat);
                }
                return Err(error);
            },
        }
        column = column + 1;
    }
    Ok(
        match problem {
            Some(problem) => Solution::with_problem(status, results, problem),
            None => Solution::new(status, results),
        },
    )
}

} // verus!
