//! The GLPK solver as its users see it: the settings of a run, the command
//! line that it takes, and the words in which its failures are reported.

use crate::error::{ParseError, ProcessError, SolverError};
use crate::grammar::{lines_taken, reading, Reading};
use crate::lines::LineReader;
use crate::parser::parse;
use crate::solution::Solution;
use uuid::Uuid;
use vstd::prelude::*;

verus! {

/// Whether `c` is a hexadecimal digit, letters in lower case.
pub open spec fn lower_hex_digit(c: char) -> bool {
    '0' <= c <= '9' || 'a' <= c <= 'f'
}

/// Whether `text` is a random UUID in hyphenated form: 32 hexadecimal digits
/// in lower case, in groups of 8, 4, 4, 4 and 12 with a hyphen between them,
/// of which the first digit of the third group is the version, 4, and the
/// first digit of the fourth group holds the variant, 8 to b.
pub open spec fn random_uuid(text: Seq<char>) -> bool {
    &&& text.len() == 36
    &&& (forall|i: int|
        0 <= i < 36 ==> if i == 8 || i == 13 || i == 18 || i == 23 {
            #[trigger] text[i] == '-'
        } else {
            lower_hex_digit(text[i])
        })
    &&& text[14] == '4'
    &&& (text[19] == '8' || text[19] == '9' || text[19] == 'a' || text[19] == 'b')
}

/// Whether `name` is a name that a solver gives to its solution file when it
/// is told no other: a random UUID and the extension `.sol`.
pub open spec fn default_solution_file(name: Seq<char>) -> bool {
    &&& name.len() == 40
    &&& random_uuid(name.subrange(0, 36))
    &&& name.subrange(36, 40) == ".sol"@
}

/// A fresh identifier, drawn at random. This is `Uuid::new_v4` of the `uuid`
/// crate, written out by `to_string`: the claim is that every such text has
/// the hyphenated form of a version 4 UUID. Which one comes back is left open.
/// The call panics where the operating system hands out no random bytes.
#[verifier::external_body]
fn fresh_identifier() -> (identifier: String)
    ensures
        random_uuid(identifier@),
{
    Uuid::new_v4().to_string()
}

/// The name of the solution file that goes with `identifier`.
pub fn solution_file_name(identifier: String) -> (name: String)
    ensures
        name@ == identifier@ + ".sol"@,
{
    identifier.concat(".sol")
}

/// The arguments that the solver program is run with: the model is in LP
/// format and comes on standard input, and the solution goes to the error
/// channel.
pub open spec fn command_line() -> Seq<Seq<char>> {
    seq!["--lp"@, "/dev/stdin"@, "-o"@, "/dev/stderr"@]
}

/// The arguments that the solver program is run with.
pub fn arguments() -> (arguments: Vec<String>)
    ensures
        arguments@.len() == command_line().len(),
        forall|i: int| 0 <= i < arguments@.len() ==> (#[trigger] arguments@[i])@ == command_line()[i],
{
    let mut arguments: Vec<String> = Vec::new();
    arguments.push("--lp".to_owned());
    arguments.push("/dev/stdin".to_owned());
    arguments.push("-o".to_owned());
    arguments.push("/dev/stderr".to_owned());
    arguments
}

/// The words in which a solver with these settings reports an error. A failed
/// process is reported by the name of the solver alone.
pub open spec fn failure_text(settings: Settings, error: SolverError) -> Seq<char> {
    match error {
        SolverError::Process(ProcessError::Spawn) => "could not spawn "@ + settings.command_name,
        SolverError::Process(ProcessError::Channel) => "could not exchange data with "@
            + settings.command_name,
        SolverError::Process(ProcessError::Failure) => settings.name,
        SolverError::Format(error) => error.text(),
    }
}

/// The settings of a solver, as plain text.
pub struct Settings {
    /// The name by which the solver is known in error messages.
    pub name: Seq<char>,
    /// The name of the executable that is run.
    pub command_name: Seq<char>,
    /// The name of the file that takes the solution where the solver is told
    /// to write one.
    pub temp_solution_file: Seq<char>,
}

/// The GLPK solver, run through its command-line program.
pub struct GlpkSolver {
    name: String,
    command_name: String,
    temp_solution_file: String,
}

impl View for GlpkSolver {
    type V = Settings;

    closed spec fn view(&self) -> Settings {
        Settings {
            name: self.name@,
            command_name: self.command_name@,
            temp_solution_file: self.temp_solution_file@,
        }
    }
}

impl GlpkSolver {
    /// A solver with the settings that `identifier` leads to: the program
    /// `glpsol`, and a solution file named after the identifier.
    pub fn with_identifier(identifier: String) -> (solver: GlpkSolver)
        ensures
            solver@.name == "Glpk"@,
            solver@.command_name == "glpsol"@,
            solver@.temp_solution_file == identifier@ + ".sol"@,
    {
        GlpkSolver {
            name: "Glpk".to_owned(),
            command_name: "glpsol".to_owned(),
            temp_solution_file: solution_file_name(identifier),
        }
    }

    /// A solver with the usual settings: the program `glpsol`, and a solution
    /// file whose name is drawn at random, so that two solvers that work in
    /// one directory do not share it.
    pub fn new() -> (solver: GlpkSolver)
        ensures
            solver@.name == "Glpk"@,
            solver@.command_name == "glpsol"@,
            default_solution_file(solver@.temp_solution_file),
    {
        let identifier = fresh_identifier();
        proof {
            reveal_strlit(".sol");
            assert((identifier@ + ".sol"@).subrange(0, 36) == identifier@);
            assert((identifier@ + ".sol"@).subrange(36, 40) == ".sol"@);
        }
        GlpkSolver::with_identifier(identifier)
    }

    /// The same solver, running the program `command_name`.
    pub fn command_name(&self, command_name: String) -> (solver: GlpkSolver)
        ensures
            solver@ == (Settings { command_name: command_name@, ..self@ }),
    {
        GlpkSolver {
            name: self.name.clone(),
            command_name,
            temp_solution_file: self.temp_solution_file.clone(),
        }
    }

    /// The same solver, with the solution file `temp_solution_file`.
    pub fn with_temp_solution_file(&self, temp_solution_file: String) -> (solver: GlpkSolver)
        ensures
            solver@ == (Settings { temp_solution_file: temp_solution_file@, ..self@ }),
    {
        GlpkSolver {
            name: self.name.clone(),
            command_name: self.command_name.clone(),
            temp_solution_file,
        }
    }

    /// Reports `error` in words.
    pub fn describe(&self, error: SolverError) -> (message: String)
        ensures
            message@ == failure_text(self@, error),
    {
        match error {
            SolverError::Process(ProcessError::Spawn) => "could not spawn ".to_owned().concat(
                self.command_name.as_str(),
            ),
            SolverError::Process(ProcessError::Channel) =>
                "could not exchange data with ".to_owned().concat(self.command_name.as_str()),
            SolverError::Process(ProcessError::Failure) => self.name.clone(),
            SolverError::Format(error) => error.message(),
        }
    }

    /// Reads the report of the solver from the place of the cursor on, and
    /// ties the solution to `problem` where one is given. A report that
    /// departs from the format is answered with the message of the error.
    pub fn read_specific_solution<'p, P>(
        &self,
        reader: &mut LineReader,
        problem: Option<&'p P>,
    ) -> (result: Result<Solution<'p, P>, String>)
        ensures
            final(reader).report() == old(reader).report(),
            final(reader).consumed() == old(reader).consumed() + lines_taken(old(reader).rest()),
            match result {
                Ok(solution) => reading(old(reader).rest()) == Ok::<Reading, ParseError>(
                    (Reading { status: solution.status, values: solution.results@ }),
                ) && solution.related_problem == problem,
                Err(message) => reading(old(reader).rest()) is Err && message@ == reading(
                    old(reader).rest(),
                )->Err_0.text(),
            },
    {
        match parse(reader, problem) {
            Ok(solution) => Ok(solution),
            Err(error) => Err(self.describe(SolverError::Format(error))),
        }
    }

    /// The name by which the solver is known.
    pub fn name(&self) -> (name: &String)
        ensures
            name@ == self@.name,
    {
        &self.name
    }

    /// The name of the program that is run.
    pub fn executable(&self) -> (name: &String)
        ensures
            name@ == self@.command_name,
    {
        &self.command_name
    }

    /// The name of the solution file.
    pub fn temp_solution_file(&self) -> (name: &String)
        ensures
            name@ == self@.temp_solution_file,
    {
        &self.temp_solution_file
    }
}

} // verus!
