use glpk_solver::number::{is_float_literal, parse_count};
use glpk_solver::text::{chars_of, is_whitespace, is_word, token_spans};

fn tokens_of(line: &str) -> Vec<String> {
    let chars = chars_of(line);
    token_spans(&chars)
        .iter()
        .map(|span| chars[span.start..span.end].iter().collect::<String>())
        .collect()
}

fn count(token: &str) -> Option<usize> {
    parse_count(&chars_of(token))
}

fn numeric(token: &str) -> bool {
    is_float_literal(&chars_of(token))
}

#[test]
fn white_space_is_what_unicode_says() {
    for code in 0..=0x10ffffu32 {
        if let Some(c) = char::from_u32(code) {
            assert_eq!(is_whitespace(c), c.is_whitespace(), "U+{:04X}", code);
        }
    }
}

#[test]
fn characters_come_one_by_one() {
    assert_eq!(chars_of(""), Vec::<char>::new());
    assert_eq!(chars_of("a b"), vec!['a', ' ', 'b']);
    assert_eq!(chars_of("é\u{3000}x"), vec!['é', '\u{3000}', 'x']);
}

#[test]
fn word_is_compared_character_for_character() {
    assert!(is_word(&chars_of("OPTIMAL"), "OPTIMAL"));
    assert!(is_word(&chars_of(""), ""));
    assert!(!is_word(&chars_of("OPTIMAL"), "OPTIMAl"));
    assert!(!is_word(&chars_of("OPTIMAL"), "OPTIMA"));
    assert!(!is_word(&chars_of("OPTIMA"), "OPTIMAL"));
}

#[test]
fn tokens_are_the_runs_between_white_space() {
    assert_eq!(tokens_of("Rows: 5"), vec!["Rows:", "5"]);
    assert_eq!(tokens_of("  1 x1   *  3.5 "), vec!["1", "x1", "*", "3.5"]);
    assert_eq!(tokens_of(""), Vec::<String>::new());
    assert_eq!(tokens_of(" \t\u{a0} "), Vec::<String>::new());
    assert_eq!(tokens_of("one"), vec!["one"]);
    assert_eq!(tokens_of("a\u{2003}b\u{85}c"), vec!["a", "b", "c"]);
}

#[test]
fn token_spans_count_characters() {
    let chars = chars_of("é  ab");
    let spans = token_spans(&chars);
    assert_eq!(spans.len(), 2);
    assert_eq!((spans[0].start, spans[0].end), (0, 1));
    assert_eq!((spans[1].start, spans[1].end), (3, 5));
}

#[test]
fn tokens_agree_with_the_standard_split() {
    for line in [
        "",
        " ",
        "a",
        " a",
        "a ",
        "Problem:    diet",
        "     1 x1           B            3.5             0               ",
        "\t\ttabs\tand\u{b}vertical\u{c}feeds\r\n",
        "\u{1680}ogham\u{2000}en\u{200a}hair\u{2028}line\u{2029}para\u{202f}narrow\u{205f}math\u{3000}wide",
        "zero\u{200b}width is no space",
        "Objective:  cost = 7.5 (MINimum)",
    ] {
        let expected: Vec<String> = line.split_whitespace().map(|t| t.to_string()).collect();
        assert_eq!(tokens_of(line), expected, "{:?}", line);
    }
}

#[test]
fn counts_are_read_in_decimal() {
    assert_eq!(count("0"), Some(0));
    assert_eq!(count("5"), Some(5));
    assert_eq!(count("+5"), Some(5));
    assert_eq!(count("007"), Some(7));
    assert_eq!(count("1234567890"), Some(1234567890));
    assert_eq!(count(&usize::MAX.to_string()), Some(usize::MAX));
}

#[test]
fn counts_agree_with_the_standard_parse() {
    let beyond = format!("{}", usize::MAX as u128 + 1);
    let longer = format!("{}9", usize::MAX);
    for token in [
        "", "+", "-", "0", "+0", "-0", "00", "5", "+5", "-5", "++5", "+-5", "5+", "five", "5a", "a5",
        "5.0", "5 ", " 5", "1_000", "0x10", "٥", "１２", "18446744073709551615",
        "18446744073709551616", "99999999999999999999999999999999999999999", "4294967295",
        "4294967296", beyond.as_str(), longer.as_str(),
    ] {
        assert_eq!(count(token), token.parse::<usize>().ok(), "{:?}", token);
    }
}

#[test]
fn float_literals_are_recognised() {
    for token in ["3.5", "0", "-1e+30", "1.23457e+06", ".5", "5.", "+.5E-3", "inf", "-Infinity", "NaN"] {
        assert!(numeric(token), "{:?}", token);
    }
    for token in ["", ".", "e5", "1e", "1e+", "three", "4,5", "1.2.3", "--1", "0x10", "1f32"] {
        assert!(!numeric(token), "{:?}", token);
    }
}

#[test]
fn float_literals_agree_with_the_standard_parse() {
    let mut tokens: Vec<String> = Vec::new();
    let pieces = [
        "", "+", "-", "0", "1", "12", ".", "e", "E", "e+", "E-", "5", "inf", "INF", "Inf", "nan",
        "NaN", "infinity", "iNfInItY", "infinit", "in", "x", " ", "_", "٥", "ı", "K",
    ];
    for a in pieces {
        for b in pieces {
            for c in pieces {
                tokens.push(format!("{}{}{}", a, b, c));
            }
        }
    }
    for a in [".", "e", "+", "-", "1", "E"] {
        for b in [".", "e", "+", "-", "1", "E"] {
            for c in [".", "e", "+", "-", "1", "E"] {
                for d in [".", "e", "+", "-", "1", "E"] {
                    for e in [".", "e", "+", "-", "1", "E"] {
                        tokens.push(format!("{}{}{}{}{}", a, b, c, d, e));
                    }
                }
            }
        }
    }
    for token in tokens {
        assert_eq!(numeric(&token), token.parse::<f32>().is_ok(), "{:?}", token);
    }
}
