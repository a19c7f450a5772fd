use rlox::lox::Lox;
use rlox::parser_utils::{trim, ws};
use rlox::tokens::{identifier, keyword, number, scan_line, LexErrorKind, Token};

#[test]
fn a_new_interpreter_has_met_no_error() {
    let lox = Lox::new();
    assert!(!lox.had_error);
}

#[test]
fn an_error_is_noted_and_reported() {
    let mut lox = Lox::new();
    assert_eq!(lox.error(3, "Unexpected character."), "[line 3] Error at : Unexpected character.");
    assert!(lox.had_error);
    assert_eq!(lox.error(0, ""), "[line 0] Error at : ");
    assert!(lox.had_error);
}

#[test]
fn a_report_names_the_place() {
    let mut lox = Lox::new();
    assert_eq!(
        lox.report(12, "column 7", "Unterminated string."),
        "[line 12] Error at column 7: Unterminated string."
    );
    assert!(lox.had_error);
    for line in [0u32, 1, 9, 10, 11, 99, 100, 101, 4096, 1234567890, u32::MAX] {
        let mut lox = Lox::new();
        assert_eq!(lox.report(line, "end", "m"), format!("[line {}] Error at end: m", line));
        assert!(lox.had_error);
    }
}

#[test]
fn a_failed_scan_can_be_reported() {
    let mut lox = Lox::new();
    let failure = scan_line("x = @").unwrap_err();
    let text = lox.report(
        failure.line as u32,
        &format!("column {}", failure.column),
        &failure.kind.describe(),
    );
    assert_eq!(text, "[line 0] Error at column 4: Unexpected character.");
    assert!(lox.had_error);
}

#[test]
fn every_failure_has_its_words() {
    assert_eq!(LexErrorKind::UnrecognizedCharacter.describe(), "Unexpected character.");
    assert_eq!(LexErrorKind::UnterminatedString.describe(), "Unterminated string.");
    assert_eq!(LexErrorKind::MalformedNumber.describe(), "Malformed number.");
    assert_eq!(scan_line("\"a").unwrap_err().kind.describe(), "Unterminated string.");
    assert_eq!(scan_line("1e").unwrap_err().kind.describe(), "Malformed number.");
}

#[test]
fn white_space_at_the_start_is_trimmed() {
    assert_eq!(trim("  \t\r\n x y "), "x y ");
    assert_eq!(trim("x"), "x");
    assert_eq!(trim("   "), "");
    assert_eq!(trim(""), "");
    assert_eq!(trim("\u{a0}x"), "\u{a0}x");
}

#[test]
fn white_space_around_a_token_is_passed_over() {
    assert_eq!(ws(&keyword, "  and  x"), Some(("x", Token::And)));
    assert_eq!(ws(&keyword, "and"), Some(("", Token::And)));
    assert_eq!(ws(&keyword, "  andx "), None);
    assert_eq!(ws(&identifier, "\tname\n"), Some(("", Token::Identifier("name".to_string()))));
    assert_eq!(ws(&number, " 1.5 + 2"), Some(("+ 2", Token::Number("1.5".to_string()))));
    assert_eq!(ws(&number, "   "), None);
    let count = |text: &str| -> Option<(&str, usize)> { Some(("  rest", text.len())) };
    assert_eq!(ws(&count, "  abc"), Some(("rest", 3)));
}
