//! What can go wrong while a report is read.

use crate::number::{append_count, decimal_digits};
use vstd::prelude::*;

verus! {

/// A departure of the report from its fixed format. Reading stops at the
/// first one, and each names the step that met it.
#[derive(Clone, Copy, Debug, PartialEq, Eq, Structural)]
pub enum ParseError {
    /// The line of the row count is missing, or holds no count as its second
    /// token.
    RowCount,
    /// The line of the column count is missing, or holds no count as its
    /// second token.
    ColumnCount,
    /// The report ends before its status line.
    NoStatus,
    /// What the status line holds stands for no known outcome.
    UnknownStatus,
    /// The report ends before the line of the column with this index, the
    /// first column having index zero.
    MissingColumn { column: usize },
    /// The line of the column with this index holds fewer than four tokens.
    TooFewFields { column: usize },
    /// The fourth token on the line of the column with this index writes no
    /// number.
    InvalidValue { column: usize },
}

impl ParseError {
    /// The index of the column that the error is about, for the errors that
    /// are about one.
    pub open spec fn column(self) -> Option<usize> {
        match self {
            ParseError::MissingColumn { column } => Some(column),
            ParseError::TooFewFields { column } => Some(column),
            ParseError::InvalidValue { column } => Some(column),
            _ => None,
        }
    }

    /// What the message says of the error, before it names a column.
    pub open spec fn summary(self) -> Seq<char> {
        match self {
            ParseError::RowCount => "Incorrect solution format: No row count found"@,
            ParseError::ColumnCount => "Incorrect solution format: No column count found"@,
            ParseError::NoStatus => "Incorrect solution format: No solution status found"@,
            ParseError::UnknownStatus => "Incorrect solution format: Unknown solution status"@,
            ParseError::MissingColumn { .. } =>
                "Incorrect solution format: Not all columns are present"@,
            ParseError::TooFewFields { .. } =>
                "Incorrect solution format: Column specification has too few fields"@,
            ParseError::InvalidValue { .. } =>
                "Incorrect solution format: Column value is not a number"@,
        }
    }

    /// The text of the message: the summary and, for an error about a column,
    /// the column's index in decimal digits.
    pub open spec fn text(self) -> Seq<char> {
        match self.column() {
            Some(column) => self.summary() + " (column "@ + decimal_digits(column as nat) + ")"@,
            None => self.summary(),
        }
    }

    /// Describes the error in words.
    pub fn message(&self) -> (r: String)
        ensures
            r@ == self.text(),
    {
        match self {
            ParseError::RowCount => "Incorrect solution format: No row count found".to_owned(),
            ParseError::ColumnCount =>
                "Incorrect solution format: No column count found".to_owned(),
            ParseError::NoStatus =>
                "Incorrect solution format: No solution status found".to_owned(),
            ParseError::UnknownStatus =>
                "Incorrect solution format: Unknown solution status".to_owned(),
            ParseError::MissingColumn { column } => with_column(
                "Incorrect solution format: Not all columns are present",
                *column,
            ),
            ParseError::TooFewFields { column } => with_column(
                "Incorrect solution format: Column specification has too few fields",
                *column,
            ),
            ParseError::InvalidValue { column } => with_column(
                "Incorrect solution format: Column value is not a number",
                *column,
            ),
        }
    }
}

/// What can go wrong with the solver process itself.
#[derive(Clone, Copy, Debug, PartialEq, Eq, Structural)]
pub enum ProcessError {
    /// The solver could not be started.
    Spawn,
    /// A channel of the process could not be had or used: its input, which
    /// takes the model, or its error channel, which brings the report.
    Channel,
    /// The solver ended and reported failure, or the wait for its end
    /// failed.
    Failure,
}

/// Why a run of the solver gave no solution.
#[derive(Clone, Copy, Debug, PartialEq, Eq, Structural)]
pub enum SolverError {
    /// The process failed; no report was read.
    Process(ProcessError),
    /// The process succeeded and its report departs from the format.
    Format(ParseError),
}

/// Appends the index of a column to the summary of an error.
fn with_column(summary: &str, column: usize) -> (r: String)
    ensures
        r@ == summary@ + " (column "@ + decimal_digits(column as nat) + ")"@,
{
    let mut text = summary.to_owned();
    text.append(" (column ");
    append_count(&mut text, column);
    text.append(")");
    text
}

} // verus!
