use glpk_solver::grammar::HEADER_LINES;
use glpk_solver::{lines_to_read, parse, read_column, read_size, read_status};
use glpk_solver::{Line, LineReader, ParseError, Solution, Status};

struct Diet {
    name: &'static str,
}

fn text(lines: &[&str]) -> Vec<Line> {
    lines.iter().map(|line| Line::Text(line.to_string())).collect()
}

fn report(rows: &str, columns: &str, status: &str, block: usize, column_lines: &[&str]) -> Vec<Line> {
    let mut lines = vec![
        "Problem:    diet".to_string(),
        format!("Rows:       {}", rows),
        "Non-zeros:  6".to_string(),
        format!("Columns:    {}", columns),
        "Objective:  cost = 7.5 (MINimum)".to_string(),
        format!("Status:     {}", status),
    ];
    for i in 0..block {
        lines.push(format!("block line {}", i));
    }
    for line in column_lines {
        lines.push(line.to_string());
    }
    lines.into_iter().map(Line::Text).collect()
}

fn sound() -> Vec<Line> {
    report(
        "2",
        "3",
        "OPTIMAL",
        9,
        &[
            "     1 x1           B            3.5             0               ",
            "     2 x2           NL             0             0                         1.25 ",
            "     3 x3           B         -1e+30             0               ",
        ],
    )
}

fn value(solution: &Solution<Diet>, name: &str) -> Option<f32> {
    solution.results.get(name).map(|text| text.parse::<f32>().unwrap())
}

#[test]
fn sound_report_is_read() {
    let lines = sound();
    let mut reader = LineReader::new(&lines);
    let solution = parse::<Diet>(&mut reader, None).unwrap();
    assert_eq!(solution.status, Status::Optimal);
    assert_eq!(solution.results.len(), 3);
    assert_eq!(value(&solution, "x1"), Some(3.5));
    assert_eq!(value(&solution, "x2"), Some(0.0));
    assert_eq!(value(&solution, "x3"), Some(-1e30));
    assert_eq!(value(&solution, "x4"), None);
    assert!(solution.related_problem.is_none());
}

#[test]
fn sound_report_is_walked_to_the_last_column() {
    let mut lines = sound();
    lines.push(Line::Text("Karush-Kuhn-Tucker optimality conditions:".to_string()));
    lines.push(Line::Text("End of output".to_string()));
    let mut reader = LineReader::new(&lines);
    let solution = parse::<Diet>(&mut reader, None).unwrap();
    assert_eq!(reader.position(), 1 + 1 + 1 + 1 + 1 + 1 + 2 + 7 + 3);
    assert_eq!(reader.remaining(), 2);
    assert_eq!(solution.results.len(), 3);
}

#[test]
fn walk_starts_at_the_cursor() {
    let mut lines = text(&["noise", "more noise"]);
    lines.extend(sound());
    let mut reader = LineReader::new(&lines);
    reader.skip(2);
    let solution = parse::<Diet>(&mut reader, None).unwrap();
    assert_eq!(solution.status, Status::Optimal);
    assert_eq!(reader.position(), 2 + 18);
}

#[test]
fn solution_is_tied_to_the_problem() {
    let diet = Diet { name: "diet" };
    let lines = sound();
    let mut reader = LineReader::new(&lines);
    let solution = parse(&mut reader, Some(&diet)).unwrap();
    assert_eq!(solution.related_problem.unwrap().name, "diet");
    assert!(std::ptr::eq(solution.related_problem.unwrap(), &diet));
}

#[test]
fn duplicate_names_collapse_and_the_last_value_stands() {
    let lines = report(
        "0",
        "3",
        "OPTIMAL",
        7,
        &["1 x1 * 3.5", "2 x2 * 4", "3 x1 * 5.25"],
    );
    let mut reader = LineReader::new(&lines);
    let solution = parse::<Diet>(&mut reader, None).unwrap();
    assert_eq!(solution.results.len(), 2);
    assert_eq!(value(&solution, "x1"), Some(5.25));
    assert_eq!(value(&solution, "x2"), Some(4.0));
    assert_eq!(reader.position(), 6 + 0 + 7 + 3);
}

#[test]
fn report_without_columns_is_sound() {
    let lines = report("4", "0", "UNDEFINED", 11, &[]);
    let mut reader = LineReader::new(&lines);
    let solution = parse::<Diet>(&mut reader, None).unwrap();
    assert_eq!(solution.status, Status::NotSolved);
    assert_eq!(solution.results.len(), 0);
    assert_eq!(reader.position(), 6 + 4 + 7);
}

#[test]
fn report_without_columns_may_end_early() {
    let lines = report("4", "0", "OPTIMAL", 3, &[]);
    let mut reader = LineReader::new(&lines);
    let solution = parse::<Diet>(&mut reader, None).unwrap();
    assert_eq!(solution.results.len(), 0);
    assert_eq!(reader.position(), 9);
}

#[test]
fn row_count_is_the_second_token() {
    let line = Line::Text("Rows: 5".to_string());
    assert_eq!(read_size(Some(&line)), Some(5));
    let line = Line::Text("Rows:       12   and more".to_string());
    assert_eq!(read_size(Some(&line)), Some(12));
    let line = Line::Text("\u{a0}Rows:\t+7\u{2003}".to_string());
    assert_eq!(read_size(Some(&line)), Some(7));
}

#[test]
fn row_count_that_is_no_number_is_refused() {
    let line = Line::Text("Rows: five".to_string());
    assert_eq!(read_size(Some(&line)), None);
    let line = Line::Text("Rows:".to_string());
    assert_eq!(read_size(Some(&line)), None);
    let line = Line::Text("Rows: -5".to_string());
    assert_eq!(read_size(Some(&line)), None);
    let line = Line::Text("Rows: 5.0".to_string());
    assert_eq!(read_size(Some(&line)), None);
    let line = Line::Text("".to_string());
    assert_eq!(read_size(Some(&line)), None);
    assert_eq!(read_size(Some(&Line::Unreadable)), None);
    assert_eq!(read_size(None), None);
}

#[test]
fn row_count_beyond_the_word_is_refused() {
    let line = Line::Text(format!("Rows: {}", usize::MAX));
    assert_eq!(read_size(Some(&line)), Some(usize::MAX));
    let line = Line::Text(format!("Rows: {}0", usize::MAX));
    assert_eq!(read_size(Some(&line)), None);
    let line = Line::Text("Rows: 340282366920938463463374607431768211456".to_string());
    assert_eq!(read_size(Some(&line)), None);
}

#[test]
fn bad_row_count_fails_before_any_column_is_read() {
    let lines = report("five", "3", "OPTIMAL", 7, &["1 x1 * 3.5", "2 x2 * 4", "3 x3 * 5"]);
    let mut reader = LineReader::new(&lines);
    let result = parse::<Diet>(&mut reader, None);
    assert_eq!(result.err(), Some(ParseError::RowCount));
    assert_eq!(reader.position(), 2);
}

#[test]
fn missing_row_count_line() {
    let lines = text(&["Problem:"]);
    let mut reader = LineReader::new(&lines);
    assert_eq!(parse::<Diet>(&mut reader, None).err(), Some(ParseError::RowCount));
    assert_eq!(reader.position(), 1);
    let lines: Vec<Line> = Vec::new();
    let mut reader = LineReader::new(&lines);
    assert_eq!(parse::<Diet>(&mut reader, None).err(), Some(ParseError::RowCount));
    assert_eq!(reader.position(), 0);
}

#[test]
fn bad_column_count() {
    let lines = report("2", "many", "OPTIMAL", 9, &[]);
    let mut reader = LineReader::new(&lines);
    assert_eq!(parse::<Diet>(&mut reader, None).err(), Some(ParseError::ColumnCount));
    assert_eq!(reader.position(), 4);
    let lines = text(&["Problem:", "Rows: 2", "Non-zeros: 1"]);
    let mut reader = LineReader::new(&lines);
    assert_eq!(parse::<Diet>(&mut reader, None).err(), Some(ParseError::ColumnCount));
    assert_eq!(reader.position(), 3);
}

#[test]
fn unreadable_count_line() {
    let mut lines = sound();
    lines[3] = Line::Unreadable;
    let mut reader = LineReader::new(&lines);
    assert_eq!(parse::<Diet>(&mut reader, None).err(), Some(ParseError::ColumnCount));
}

#[test]
fn unreadable_lines_that_are_passed_over_do_no_harm() {
    let mut lines = sound();
    lines[0] = Line::Unreadable;
    lines[2] = Line::Unreadable;
    lines[4] = Line::Unreadable;
    lines[9] = Line::Unreadable;
    let mut reader = LineReader::new(&lines);
    let solution = parse::<Diet>(&mut reader, None).unwrap();
    assert_eq!(solution.status, Status::Optimal);
    assert_eq!(solution.results.len(), 3);
}

#[test]
fn status_is_read_from_the_fixed_offset() {
    let line = Line::Text("Status:     OPTIMAL".to_string());
    assert_eq!(read_status(Some(&line)), Ok(Status::Optimal));
    let line = Line::Text("Status:     INFEASIBLE (FINAL)".to_string());
    assert_eq!(read_status(Some(&line)), Ok(Status::Infeasible));
    let line = Line::Text("xxxxxxxxxxxxINTEGER EMPTY".to_string());
    assert_eq!(read_status(Some(&line)), Ok(Status::Infeasible));
    let line = Line::Text("ééééééééééééUNBOUNDED".to_string());
    assert_eq!(read_status(Some(&line)), Ok(Status::Unbounded));
}

#[test]
fn each_status_token_has_its_outcome() {
    let cases = [
        ("INTEGER OPTIMAL", Status::Optimal),
        ("OPTIMAL", Status::Optimal),
        ("INFEASIBLE (FINAL)", Status::Infeasible),
        ("INTEGER EMPTY", Status::Infeasible),
        ("UNDEFINED", Status::NotSolved),
        ("INTEGER UNDEFINED", Status::Unbounded),
        ("UNBOUNDED", Status::Unbounded),
    ];
    for (token, status) in cases {
        assert_eq!(Status::from_token(token), Some(status));
        let lines = report("1", "0", token, 8, &[]);
        let mut reader = LineReader::new(&lines);
        let solution = parse::<Diet>(&mut reader, None).unwrap();
        assert_eq!(solution.status, status);
    }
}

#[test]
fn other_status_tokens_are_refused() {
    for token in [
        "",
        "optimal",
        "OPTIMAL ",
        " OPTIMAL",
        "FEASIBLE",
        "INTEGER NON-OPTIMAL",
        "INFEASIBLE (INTERMEDIATE)",
        "INFEASIBLE",
        "UNDEFINED\t",
        "OPTIMA",
    ] {
        assert_eq!(Status::from_token(token), None);
        let lines = report("1", "0", token, 8, &[]);
        let mut reader = LineReader::new(&lines);
        assert_eq!(parse::<Diet>(&mut reader, None).err(), Some(ParseError::UnknownStatus));
        assert_eq!(reader.position(), 6);
    }
}

#[test]
fn status_line_shorter_than_the_offset() {
    let line = Line::Text("Status:".to_string());
    assert_eq!(read_status(Some(&line)), Err(ParseError::UnknownStatus));
    let line = Line::Text("Status:     ".to_string());
    assert_eq!(read_status(Some(&line)), Err(ParseError::UnknownStatus));
    let line = Line::Text("OPTIMAL".to_string());
    assert_eq!(read_status(Some(&line)), Err(ParseError::UnknownStatus));
}

#[test]
fn missing_status_line() {
    assert_eq!(read_status(None), Err(ParseError::NoStatus));
    assert_eq!(read_status(Some(&Line::Unreadable)), Err(ParseError::NoStatus));
    let lines = text(&["Problem:", "Rows: 2", "Non-zeros: 1", "Columns: 1", "Objective:"]);
    let mut reader = LineReader::new(&lines);
    assert_eq!(parse::<Diet>(&mut reader, None).err(), Some(ParseError::NoStatus));
    assert_eq!(reader.position(), 5);
}

#[test]
fn column_line_gives_name_and_value() {
    let line = Line::Text("1 x1 * 3.5".to_string());
    let entry = read_column(Some(&line), 0).unwrap();
    assert_eq!(entry.name, "x1");
    assert_eq!(entry.value, "3.5");
    assert_eq!(entry.value.parse::<f32>(), Ok(3.5));
    let line = Line::Text("1 x1 * 3.5 0.0".to_string());
    let entry = read_column(Some(&line), 0).unwrap();
    assert_eq!(entry.name, "x1");
    assert_eq!(entry.value.parse::<f32>(), Ok(3.5));
    let line = Line::Text("   12 Ünits\u{3000}NL\t\t-.5E-3 rest".to_string());
    let entry = read_column(Some(&line), 11).unwrap();
    assert_eq!(entry.name, "Ünits");
    assert_eq!(entry.value.parse::<f32>(), Ok(-0.0005));
}

#[test]
fn column_line_with_three_tokens_has_too_few_fields() {
    let line = Line::Text("1 x1 3.5".to_string());
    assert_eq!(read_column(Some(&line), 4).err(), Some(ParseError::TooFewFields { column: 4 }));
    let line = Line::Text("   ".to_string());
    assert_eq!(read_column(Some(&line), 0).err(), Some(ParseError::TooFewFields { column: 0 }));
    let lines = report("0", "3", "OPTIMAL", 7, &["1 x1 * 3.5", "2 x2 4", "3 x3"]);
    let mut reader = LineReader::new(&lines);
    let result = parse::<Diet>(&mut reader, None);
    assert_eq!(result.err(), Some(ParseError::TooFewFields { column: 1 }));
    assert_eq!(reader.position(), 6 + 7 + 2);
}

#[test]
fn column_value_that_is_no_number_is_refused() {
    let line = Line::Text("1 x1 * three".to_string());
    assert_eq!(read_column(Some(&line), 2).err(), Some(ParseError::InvalidValue { column: 2 }));
    let lines = report("0", "2", "OPTIMAL", 7, &["1 x1 * 3.5", "2 x2 * 4,5"]);
    let mut reader = LineReader::new(&lines);
    let result = parse::<Diet>(&mut reader, None);
    assert_eq!(result.err(), Some(ParseError::InvalidValue { column: 1 }));
    assert_eq!(reader.position(), 6 + 7 + 2);
}

#[test]
fn missing_column_line() {
    assert_eq!(read_column(None, 3).err(), Some(ParseError::MissingColumn { column: 3 }));
    assert_eq!(
        read_column(Some(&Line::Unreadable), 3).err(),
        Some(ParseError::MissingColumn { column: 3 })
    );
    let lines = report("0", "3", "OPTIMAL", 7, &["1 x1 * 3.5", "2 x2 * 4"]);
    let mut reader = LineReader::new(&lines);
    let result = parse::<Diet>(&mut reader, None);
    assert_eq!(result.err(), Some(ParseError::MissingColumn { column: 2 }));
    assert_eq!(reader.position(), 6 + 7 + 2);
    let lines = report("5", "1", "OPTIMAL", 2, &[]);
    let mut reader = LineReader::new(&lines);
    let result = parse::<Diet>(&mut reader, None);
    assert_eq!(result.err(), Some(ParseError::MissingColumn { column: 0 }));
    assert_eq!(reader.position(), 8);
}

#[test]
fn unreadable_column_line() {
    let mut lines = report("0", "2", "OPTIMAL", 7, &["1 x1 * 3.5", "2 x2 * 4", "and more"]);
    lines[14] = Line::Unreadable;
    let mut reader = LineReader::new(&lines);
    let result = parse::<Diet>(&mut reader, None);
    assert_eq!(result.err(), Some(ParseError::MissingColumn { column: 1 }));
    assert_eq!(reader.position(), 15);
}

#[test]
fn row_block_longer_than_any_report() {
    let lines = report(&usize::MAX.to_string(), "1", "OPTIMAL", 7, &["1 x1 * 3.5"]);
    let mut reader = LineReader::new(&lines);
    let result = parse::<Diet>(&mut reader, None);
    assert_eq!(result.err(), Some(ParseError::MissingColumn { column: 0 }));
    assert_eq!(reader.position(), lines.len());
    let lines = report(&usize::MAX.to_string(), "0", "OPTIMAL", 7, &["1 x1 * 3.5"]);
    let mut reader = LineReader::new(&lines);
    let solution = parse::<Diet>(&mut reader, None).unwrap();
    assert_eq!(solution.results.len(), 0);
    assert_eq!(reader.position(), lines.len());
}

#[test]
fn parsing_twice_gives_equal_solutions() {
    let first = sound();
    let second = sound();
    let diet = Diet { name: "diet" };
    let mut one = LineReader::new(&first);
    let mut other = LineReader::new(&second);
    let a = parse(&mut one, Some(&diet)).unwrap();
    let b = parse(&mut other, Some(&diet)).unwrap();
    assert_eq!(a.status, b.status);
    assert_eq!(a.results.len(), b.results.len());
    for i in 0..a.results.len() {
        let entry = a.results.entry(i).unwrap();
        assert_eq!(b.results.get(&entry.name), Some(&entry.value));
    }
    assert!(std::ptr::eq(a.related_problem.unwrap(), b.related_problem.unwrap()));
    assert_eq!(one.position(), other.position());
}

#[test]
fn parsing_a_broken_report_twice_gives_the_same_error() {
    let first = report("0", "2", "OPTIMAL", 7, &["1 x1 * 3.5", "2 x2 *"]);
    let second = report("0", "2", "OPTIMAL", 7, &["1 x1 * 3.5", "2 x2 *"]);
    let mut one = LineReader::new(&first);
    let mut other = LineReader::new(&second);
    assert_eq!(parse::<Diet>(&mut one, None).err(), parse::<Diet>(&mut other, None).err());
    assert_eq!(one.position(), other.position());
}

#[test]
fn head_tells_how_many_lines_to_read() {
    let lines = sound();
    assert_eq!(HEADER_LINES, 6);
    assert_eq!(lines_to_read(&lines[..6]), 6 + 2 + 7 + 3);
    assert_eq!(lines_to_read(&lines), 6 + 2 + 7 + 3);
    let lines = report("0", "0", "UNBOUNDED", 0, &[]);
    assert_eq!(lines_to_read(&lines), 13);
}

#[test]
fn broken_head_asks_for_no_more_than_the_head() {
    assert_eq!(lines_to_read(&[]), 6);
    assert_eq!(lines_to_read(&sound()[..5]), 6);
    assert_eq!(lines_to_read(&report("five", "3", "OPTIMAL", 0, &[])), 6);
    assert_eq!(lines_to_read(&report("5", "", "OPTIMAL", 0, &[])), 6);
    assert_eq!(lines_to_read(&report("5", "3", "FINE", 0, &[])), 6);
    let mut lines = sound();
    lines[5] = Line::Unreadable;
    assert_eq!(lines_to_read(&lines), 6);
}

#[test]
fn report_longer_than_a_word_can_count() {
    let most = usize::MAX.to_string();
    assert_eq!(lines_to_read(&report(&most, "0", "OPTIMAL", 0, &[])), usize::MAX);
    assert_eq!(lines_to_read(&report("0", &most, "OPTIMAL", 0, &[])), usize::MAX);
    let near = (usize::MAX - 13).to_string();
    assert_eq!(lines_to_read(&report(&near, "0", "OPTIMAL", 0, &[])), usize::MAX);
    assert_eq!(lines_to_read(&report("0", &near, "OPTIMAL", 0, &[])), usize::MAX);
    let far = (usize::MAX - 14).to_string();
    assert_eq!(lines_to_read(&report(&far, "1", "OPTIMAL", 0, &[])), usize::MAX);
    assert_eq!(lines_to_read(&report(&far, "0", "OPTIMAL", 0, &[])), usize::MAX - 1);
}

#[test]
fn walk_looks_at_the_lines_it_asks_for_and_no_others() {
    let mut lines = sound();
    lines.push(Line::Text("what follows the columns".to_string()));
    lines.push(Line::Unreadable);
    let wanted = lines_to_read(&lines[..HEADER_LINES]);
    let mut whole = LineReader::new(&lines);
    let mut head = LineReader::new(&lines[..wanted]);
    let a = parse::<Diet>(&mut whole, None).unwrap();
    let b = parse::<Diet>(&mut head, None).unwrap();
    assert_eq!(whole.position(), wanted);
    assert_eq!(head.position(), wanted);
    assert_eq!(a.status, b.status);
    assert_eq!(a.results.len(), b.results.len());
    for name in ["x1", "x2", "x3"] {
        assert_eq!(a.results.get(name), b.results.get(name));
    }
}
