use glpk_solver::{arguments, solution_file_name, GlpkSolver};
use glpk_solver::{Line, LineReader, ParseError, ProcessError, SolverError, Status};

fn is_random_uuid(text: &str) -> bool {
    let chars: Vec<char> = text.chars().collect();
    chars.len() == 36
        && chars.iter().enumerate().all(|(i, c)| {
            if i == 8 || i == 13 || i == 18 || i == 23 {
                *c == '-'
            } else {
                matches!(*c, '0'..='9' | 'a'..='f')
            }
        })
        && chars[14] == '4'
        && matches!(chars[19], '8' | '9' | 'a' | 'b')
}

#[test]
fn new_solver_has_the_usual_settings() {
    let solver = GlpkSolver::new();
    assert_eq!(solver.name(), "Glpk");
    assert_eq!(solver.executable(), "glpsol");
    let file = solver.temp_solution_file().clone();
    assert_eq!(file.chars().count(), 40);
    assert!(file.ends_with(".sol"));
    assert!(is_random_uuid(&file[..36]), "{}", file);
}

#[test]
fn new_solvers_do_not_share_their_solution_file() {
    let one = GlpkSolver::new();
    let other = GlpkSolver::new();
    assert_ne!(one.temp_solution_file(), other.temp_solution_file());
}

#[test]
fn solver_is_named_after_its_identifier() {
    let solver = GlpkSolver::with_identifier("run-7".to_string());
    assert_eq!(solver.name(), "Glpk");
    assert_eq!(solver.executable(), "glpsol");
    assert_eq!(solver.temp_solution_file(), "run-7.sol");
    assert_eq!(solution_file_name("".to_string()), ".sol");
    assert_eq!(solution_file_name("a.b".to_string()), "a.b.sol");
}

#[test]
fn command_name_changes_the_program_alone() {
    let solver = GlpkSolver::with_identifier("x".to_string());
    let other = solver.command_name("/opt/glpk/bin/glpsol".to_string());
    assert_eq!(other.executable(), "/opt/glpk/bin/glpsol");
    assert_eq!(other.name(), "Glpk");
    assert_eq!(other.temp_solution_file(), "x.sol");
    assert_eq!(solver.executable(), "glpsol");
}

#[test]
fn with_temp_solution_file_changes_the_file_alone() {
    let solver = GlpkSolver::with_identifier("x".to_string()).command_name("solve".to_string());
    let other = solver.with_temp_solution_file("out.sol".to_string());
    assert_eq!(other.temp_solution_file(), "out.sol");
    assert_eq!(other.executable(), "solve");
    assert_eq!(other.name(), "Glpk");
    assert_eq!(solver.temp_solution_file(), "x.sol");
}

#[test]
fn arguments_route_the_model_and_the_report() {
    assert_eq!(arguments(), vec!["--lp", "/dev/stdin", "-o", "/dev/stderr"]);
}

#[test]
fn failed_process_is_reported_by_the_name_of_the_solver() {
    let solver = GlpkSolver::with_identifier("x".to_string()).command_name("solve".to_string());
    assert_eq!(solver.describe(SolverError::Process(ProcessError::Failure)), "Glpk");
    assert_eq!(solver.describe(SolverError::Process(ProcessError::Spawn)), "could not spawn solve");
    assert_eq!(
        solver.describe(SolverError::Process(ProcessError::Channel)),
        "could not exchange data with solve"
    );
    assert_eq!(
        solver.describe(SolverError::Format(ParseError::NoStatus)),
        "Incorrect solution format: No solution status found"
    );
}

#[test]
fn each_format_error_has_its_message() {
    assert_eq!(ParseError::RowCount.message(), "Incorrect solution format: No row count found");
    assert_eq!(
        ParseError::ColumnCount.message(),
        "Incorrect solution format: No column count found"
    );
    assert_eq!(
        ParseError::NoStatus.message(),
        "Incorrect solution format: No solution status found"
    );
    assert_eq!(
        ParseError::UnknownStatus.message(),
        "Incorrect solution format: Unknown solution status"
    );
    assert_eq!(
        ParseError::MissingColumn { column: 0 }.message(),
        "Incorrect solution format: Not all columns are present (column 0)"
    );
    assert_eq!(
        ParseError::TooFewFields { column: 17 }.message(),
        "Incorrect solution format: Column specification has too few fields (column 17)"
    );
    assert_eq!(
        ParseError::InvalidValue { column: 1234567890 }.message(),
        "Incorrect solution format: Column value is not a number (column 1234567890)"
    );
    assert_eq!(
        ParseError::InvalidValue { column: usize::MAX }.message(),
        format!("Incorrect solution format: Column value is not a number (column {})", usize::MAX)
    );
}

fn lines(text: &[&str]) -> Vec<Line> {
    text.iter().map(|line| Line::Text(line.to_string())).collect()
}

#[test]
fn solver_reads_its_report() {
    let report = lines(&[
        "Problem:",
        "Rows: 0",
        "Non-zeros: 0",
        "Columns: 1",
        "Objective: 0",
        "Status:     INTEGER OPTIMAL",
        "",
        "",
        "",
        "",
        "",
        "",
        "",
        "1 x1 * 3.5",
    ]);
    let solver = GlpkSolver::with_identifier("x".to_string());
    let mut reader = LineReader::new(&report);
    let problem = 7u8;
    let solution = solver.read_specific_solution(&mut reader, Some(&problem)).unwrap();
    assert_eq!(solution.status, Status::Optimal);
    assert_eq!(solution.results.get("x1").map(|v| v.as_str()), Some("3.5"));
    assert_eq!(solution.related_problem, Some(&7u8));
    assert_eq!(reader.position(), 14);
}

#[test]
fn solver_reports_a_broken_report_in_words() {
    let report = lines(&[
        "Problem:",
        "Rows: 0",
        "Non-zeros: 0",
        "Columns: 2",
        "Objective: 0",
        "Status:     OPTIMAL",
        "",
        "",
        "",
        "",
        "",
        "",
        "",
        "1 x1 * 3.5",
        "2 x2 *",
    ]);
    let solver = GlpkSolver::with_identifier("x".to_string());
    let mut reader = LineReader::new(&report);
    let result = solver.read_specific_solution::<u8>(&mut reader, None);
    assert_eq!(
        result.err(),
        Some("Incorrect solution format: Column specification has too few fields (column 1)".to_string())
    );
}
