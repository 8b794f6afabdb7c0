//! Reading the solution report of the GLPK command-line solver.
//!
//! The solver is run as a subprocess: it takes a model on its standard input
//! and writes a fixed-format text report. This crate holds the rules of that
//! exchange: the order of the steps that drive the process, the grammar of the
//! report, and the mapping of the solver's status words onto a portable
//! [`Status`]. Spawning the process and reading its streams is left to the
//! caller, who hands over lines of text and takes back a [`Solution`].

pub mod driver;
pub mod error;
pub mod grammar;
pub mod lines;
pub mod number;
pub mod parser;
pub mod solution;
pub mod solver;
pub mod status;
pub mod text;

pub use crate::driver::{advance, is_over, start, Event, Step};
pub use crate::error::{ParseError, ProcessError, SolverError};
pub use crate::lines::{Line, LineReader};
pub use crate::parser::{lines_to_read, parse, read_column, read_size, read_status};
pub use crate::solution::{Assignment, Assignments, Solution};
pub use crate::solver::{arguments, solution_file_name, GlpkSolver};
pub use crate::status::Status;
