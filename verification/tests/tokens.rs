use nom::number::complete::double;
use rlox::tokens::{
    identifier, keyword, line_comment, number, scan_line, scan_lines, single_char_token, string,
    two_char_token, LexError, LexErrorKind, Token, TokenKind,
};

/// The value that a numeral denotes.
fn value_of(numeral: &str) -> f64 {
    let parsed: Result<(&str, f64), nom::Err<nom::error::Error<&str>>> = double(numeral);
    let (rest, value) = parsed.unwrap();
    assert_eq!(rest, "");
    value
}

fn name(text: &str) -> Token {
    Token::Identifier(text.to_string())
}

fn numeral(text: &str) -> Token {
    Token::Number(text.to_string())
}

#[test]
fn test_keyword() {
    let input = "and";
    let result = keyword(input);
    assert!(result.is_some());
    let (remaining, token) = result.unwrap();
    assert_eq!(remaining, "");
    assert_eq!(token, Token::And);
}

#[test]
fn test_invalid_keyword() {
    let input = "invalid";
    let result = keyword(input);
    assert!(result.is_none());
}

#[test]
fn test_number() {
    let input = "123.45";
    let (remaining, token) = number(input).unwrap();
    assert_eq!(remaining, "");
    assert_eq!(token, numeral("123.45"));
    match token {
        Token::Number(text) => assert_eq!(value_of(&text), 123.45),
        _ => unreachable!(),
    }
}

#[test]
fn test_identifier() {
    let input = "myVariable123";
    let (remaining, token) = identifier(input).unwrap();
    assert_eq!(remaining, "");
    assert_eq!(token, Token::Identifier("myVariable123".to_string()));

    // Check invalid case
    let input = "123Invalid";
    let result = identifier(input);
    assert!(result.is_none());
}

#[test]
fn test_comment() {
    let input = "// This is a comment\n";
    let (remaining, comment) = line_comment(input).unwrap();
    assert_eq!(remaining, "");
    assert_eq!(comment, Token::LineComment(" This is a comment".to_string()));
}

#[test]
fn test_scan_line() {
    let input = "var x <= 10;";
    let tokens = scan_line(input);

    println!("{:?}", tokens);
    assert_eq!(
        tokens,
        Ok(vec![Token::Var, name("x"), Token::LessEqual, numeral("10"), Token::Semicolon])
    );
}

#[test]
fn test_scan_line_2() {
    let input = "var and2 = 10;";
    let tokens = scan_line(input).unwrap();

    let expected_tokens = vec![
        Token::Var,
        Token::Identifier("and2".to_string()),
        Token::Equal,
        numeral("10"),
        Token::Semicolon,
    ];
    assert_eq!(tokens, expected_tokens);
    match &tokens[3] {
        Token::Number(text) => assert_eq!(value_of(text), 10.0),
        _ => unreachable!(),
    }
}

#[test]
fn test_scan_line_3() {
    let input = "andfunc for;  // This is a comment";
    let tokens = scan_line(input).unwrap();

    let expected_tokens = vec![
        Token::Identifier("andfunc".to_string()),
        Token::For,
        Token::Semicolon,
        Token::LineComment(" This is a comment".to_string()),
    ];
    assert_eq!(tokens, expected_tokens);
}

#[test]
fn scans_a_declaration() {
    let tokens = scan_line("var x = 10;").unwrap();
    assert_eq!(
        tokens,
        vec![Token::Var, name("x"), Token::Equal, numeral("10"), Token::Semicolon]
    );
    match &tokens[3] {
        Token::Number(text) => assert_eq!(value_of(text), 10.0),
        _ => unreachable!(),
    }
}

#[test]
fn keyword_is_the_whole_word() {
    let tokens = scan_line("andfunc for;  // comment").unwrap();
    assert_eq!(
        tokens,
        vec![
            name("andfunc"),
            Token::For,
            Token::Semicolon,
            Token::LineComment(" comment".to_string()),
        ]
    );
    assert_eq!(scan_line("and"), Ok(vec![Token::And]));
    assert_eq!(scan_line("and1"), Ok(vec![name("and1")]));
    assert_eq!(scan_line("And"), Ok(vec![name("And")]));
    assert_eq!(keyword("andfunc"), None);
    assert_eq!(keyword("and func"), Some((" func", Token::And)));
}

#[test]
fn unterminated_string_is_an_error() {
    assert_eq!(
        scan_line("\"abc"),
        Err(LexError { kind: LexErrorKind::UnterminatedString, line: 0, column: 0 })
    );
    assert_eq!(
        scan_line("x = \"abc"),
        Err(LexError { kind: LexErrorKind::UnterminatedString, line: 0, column: 4 })
    );
    assert_eq!(
        scan_line("\""),
        Err(LexError { kind: LexErrorKind::UnterminatedString, line: 0, column: 0 })
    );
    assert_eq!(string("\"abc"), None);
}

#[test]
fn every_keyword_is_known() {
    let table = [
        ("and", Token::And),
        ("class", Token::Class),
        ("else", Token::Else),
        ("false", Token::False),
        ("fun", Token::Fun),
        ("for", Token::For),
        ("if", Token::If),
        ("nil", Token::Nil),
        ("or", Token::Or),
        ("print", Token::Print),
        ("return", Token::Return),
        ("super", Token::Super),
        ("this", Token::This),
        ("true", Token::True),
        ("var", Token::Var),
        ("while", Token::While),
    ];
    for (word, token) in table {
        assert_eq!(keyword(word), Some(("", token.clone())));
        assert_eq!(scan_line(word), Ok(vec![token.clone()]));
        assert_eq!(token.lexeme(), word);
        // one letter more, and it is a name
        let longer = format!("{}x", word);
        assert_eq!(scan_line(&longer), Ok(vec![name(&longer)]));
        assert_eq!(keyword(&longer), None);
    }
}

#[test]
fn every_single_character_token_is_known() {
    let table = [
        ("(", Token::LeftParen),
        (")", Token::RightParen),
        ("{", Token::LeftBrace),
        ("}", Token::RightBrace),
        (",", Token::Comma),
        (".", Token::Dot),
        ("-", Token::Minus),
        ("+", Token::Plus),
        (";", Token::Semicolon),
        ("/", Token::Slash),
        ("*", Token::Star),
        ("=", Token::Equal),
        ("!", Token::Bang),
        ("<", Token::Less),
        (">", Token::Greater),
    ];
    for (text, token) in table {
        assert_eq!(single_char_token(text), Some(("", token.clone())));
        assert_eq!(scan_line(text), Ok(vec![token.clone()]));
        assert_eq!(token.lexeme(), text);
    }
    assert_eq!(single_char_token("(x"), Some(("x", Token::LeftParen)));
    assert_eq!(single_char_token("x"), None);
    assert_eq!(single_char_token(""), None);
}

#[test]
fn two_characters_come_before_one() {
    let table = [
        ("!=", Token::BangEqual),
        ("==", Token::EqualEqual),
        ("<=", Token::LessEqual),
        (">=", Token::GreaterEqual),
    ];
    for (text, token) in table {
        assert_eq!(two_char_token(text), Some(("", token.clone())));
        assert_eq!(scan_line(text), Ok(vec![token.clone()]));
        assert_eq!(token.lexeme(), text);
    }
    assert_eq!(two_char_token("="), None);
    assert_eq!(two_char_token("=<"), None);
    assert_eq!(two_char_token("<"), None);
    assert_eq!(scan_line("==="), Ok(vec![Token::EqualEqual, Token::Equal]));
    assert_eq!(scan_line("= ="), Ok(vec![Token::Equal, Token::Equal]));
    assert_eq!(scan_line("<=>"), Ok(vec![Token::LessEqual, Token::Greater]));
    assert_eq!(scan_line("!!="), Ok(vec![Token::Bang, Token::BangEqual]));
    assert_eq!(
        scan_line("a<b"),
        Ok(vec![name("a"), Token::Less, name("b")])
    );
}

#[test]
fn no_white_space_is_needed() {
    assert_eq!(
        scan_line("1+2"),
        Ok(vec![numeral("1"), Token::Plus, numeral("2")])
    );
    assert_eq!(
        scan_line("(a+b)*c"),
        Ok(vec![
            Token::LeftParen,
            name("a"),
            Token::Plus,
            name("b"),
            Token::RightParen,
            Token::Star,
            name("c"),
        ])
    );
    assert_eq!(
        scan_line("  \t 1 \t+\t2   "),
        Ok(vec![numeral("1"), Token::Plus, numeral("2")])
    );
}

#[test]
fn white_space_alone_is_no_token() {
    assert_eq!(scan_line(""), Ok(vec![]));
    assert_eq!(scan_line("   "), Ok(vec![]));
    assert_eq!(scan_line(" \t\r\n "), Ok(vec![]));
}

#[test]
fn the_scanner_takes_no_sign() {
    assert_eq!(scan_line("-5"), Ok(vec![Token::Minus, numeral("5")]));
    assert_eq!(scan_line("+5"), Ok(vec![Token::Plus, numeral("5")]));
    assert_eq!(
        scan_line("1-2"),
        Ok(vec![numeral("1"), Token::Minus, numeral("2")])
    );
    assert_eq!(scan_line("-inf"), Ok(vec![Token::Minus, name("inf")]));
    assert_eq!(number("-5"), None);
    assert_eq!(number("+5"), None);
}

#[test]
fn numerals() {
    for text in ["0", "10", "123.45", "1.", ".5", "1e5", "1E5", "1e+5", "1.5e-3", ".5e2", "1.e2", "007"] {
        assert_eq!(number(text), Some(("", numeral(text))));
        assert_eq!(scan_line(text), Ok(vec![numeral(text)]));
        assert_eq!(value_of(text), text.parse::<f64>().unwrap());
    }
    assert_eq!(value_of("1e5"), 100000.0);
    assert_eq!(value_of("1.5e-3"), 0.0015);
    assert_eq!(value_of(".5"), 0.5);
    // what follows a numeral is the next token
    assert_eq!(number("123abc"), Some(("abc", numeral("123"))));
    assert_eq!(number("1.2.3"), Some((".3", numeral("1.2"))));
    assert_eq!(scan_line("1.2.3"), Ok(vec![numeral("1.2"), numeral(".3")]));
    assert_eq!(scan_line("1..2"), Ok(vec![numeral("1."), numeral(".2")]));
    assert_eq!(scan_line("1.x"), Ok(vec![numeral("1."), name("x")]));
    assert_eq!(scan_line("123abc"), Ok(vec![numeral("123"), name("abc")]));
    assert_eq!(scan_line("x.1"), Ok(vec![name("x"), numeral(".1")]));
    assert_eq!(scan_line("x.y"), Ok(vec![name("x"), Token::Dot, name("y")]));
    assert_eq!(number("."), None);
    assert_eq!(number("abc"), None);
    assert_eq!(number(""), None);
}

#[test]
fn an_exponent_needs_digits() {
    for (text, column) in [("1e", 0), ("1e+", 0), ("12else", 0), ("x = 2E-", 4), (".5e", 0), ("1.e", 0)] {
        assert_eq!(
            scan_line(text),
            Err(LexError { kind: LexErrorKind::MalformedNumber, line: 0, column })
        );
    }
    assert_eq!(number("1e"), None);
    assert_eq!(number("12else"), None);
}

#[test]
fn strings() {
    assert_eq!(string("\"abc\""), Some(("", Token::String("abc".to_string()))));
    assert_eq!(string("\"a b\" + 1"), Some((" + 1", Token::String("a b".to_string()))));
    assert_eq!(string("abc"), None);
    assert_eq!(
        scan_line("\"a\\\" + \"b\""),
        Ok(vec![
            Token::String("a\\".to_string()),
            Token::Plus,
            Token::String("b".to_string()),
        ])
    );
    // a string may hold anything but the double quote
    assert_eq!(
        scan_line("\"// no comment\nover two lines\""),
        Ok(vec![Token::String("// no comment\nover two lines".to_string())])
    );
    assert_eq!(
        scan_line("\"größer als 1€\""),
        Ok(vec![Token::String("größer als 1€".to_string())])
    );
    assert_eq!(Token::String("abc".to_string()).lexeme(), "\"abc\"");
}

#[test]
fn a_string_is_not_empty() {
    assert_eq!(string("\"\""), None);
    assert_eq!(
        scan_line("\"\""),
        Err(LexError { kind: LexErrorKind::UnrecognizedCharacter, line: 0, column: 0 })
    );
    assert_eq!(
        scan_line("1 + \"\" + \"a\""),
        Err(LexError { kind: LexErrorKind::UnrecognizedCharacter, line: 0, column: 4 })
    );
}

#[test]
fn unrecognized_characters() {
    for (text, column) in [("@", 0), ("a # b", 2), ("x = 1 ?", 6), ("é", 0), ("aé", 1), ("[", 0), ("1 & 2", 2), ("_x", 0)] {
        assert_eq!(
            scan_line(text),
            Err(LexError { kind: LexErrorKind::UnrecognizedCharacter, line: 0, column })
        );
    }
    // the column counts characters, not bytes
    assert_eq!(
        scan_line("\"€€\" @"),
        Err(LexError { kind: LexErrorKind::UnrecognizedCharacter, line: 0, column: 5 })
    );
}

#[test]
fn comments() {
    assert_eq!(
        scan_line("// all of it"),
        Ok(vec![Token::LineComment(" all of it".to_string())])
    );
    assert_eq!(scan_line("//"), Ok(vec![Token::LineComment("".to_string())]));
    assert_eq!(
        scan_line("1 // one\n2 // two\r\n3"),
        Ok(vec![
            numeral("1"),
            Token::LineComment(" one".to_string()),
            numeral("2"),
            Token::LineComment(" two".to_string()),
            numeral("3"),
        ])
    );
    assert_eq!(
        line_comment("// one\n\r\n\n  x"),
        Some(("  x", Token::LineComment(" one".to_string())))
    );
    assert_eq!(
        line_comment("// one\r\nx"),
        Some(("x", Token::LineComment(" one".to_string())))
    );
    assert_eq!(line_comment("/ one"), None);
    assert_eq!(line_comment("x // one"), None);
    assert_eq!(scan_line("a / b"), Ok(vec![name("a"), Token::Slash, name("b")]));
    assert_eq!(Token::LineComment(" one".to_string()).lexeme(), "// one");
}

#[test]
fn a_carriage_return_alone_ends_no_line() {
    assert_eq!(line_comment("// one\rtwo"), None);
    assert_eq!(line_comment("// one\r"), None);
    assert_eq!(
        scan_line("// one\rtwo"),
        Ok(vec![Token::Slash, Token::Slash, name("one"), name("two")])
    );
}

#[test]
fn scans_several_lines() {
    assert_eq!(
        scan_line("var x = 1;\nprint x;\n"),
        Ok(vec![
            Token::Var,
            name("x"),
            Token::Equal,
            numeral("1"),
            Token::Semicolon,
            Token::Print,
            name("x"),
            Token::Semicolon,
        ])
    );
    assert_eq!(
        scan_lines("var x = 1;\nprint x;\n"),
        Ok(vec![
            vec![Token::Var, name("x"), Token::Equal, numeral("1"), Token::Semicolon],
            vec![Token::Print, name("x"), Token::Semicolon],
        ])
    );
    assert_eq!(
        scan_lines("a\r\n\r\n  \nb // c\r\nd"),
        Ok(vec![
            vec![name("a")],
            vec![],
            vec![],
            vec![name("b"), Token::LineComment(" c".to_string())],
            vec![name("d")],
        ])
    );
    assert_eq!(scan_lines(""), Ok(vec![]));
    assert_eq!(scan_lines("\n"), Ok(vec![vec![]]));
    assert_eq!(scan_lines("x"), Ok(vec![vec![name("x")]]));
}

#[test]
fn lines_are_those_of_the_standard_library() {
    for text in ["", "\n", "a", "a\n", "a\nb", "a\r\nb\r\n", "a\rb\n", "\r", "a\r", "\n\n", "a\n\r\nb\r", "\r\n\r\n"] {
        let scanned = scan_lines(text).unwrap();
        let expected: Vec<Vec<Token>> =
            text.lines().map(|line| scan_line(line).unwrap()).collect();
        assert_eq!(scanned, expected);
    }
}

#[test]
fn lines_are_split_as_the_standard_library_splits_them() {
    let texts = [
        "", "\n", "a", "a\n", "a\nb", "a\r\nb\r\n", "a\rb\n", "\r", "a\r", "\n\n", "a\n\r\nb\r",
        "\r\n\r\n", "\r\r\n", "a\r\r\nb", "\n\r", "größe\r\n€", " \n ",
    ];
    for text in texts {
        let split: Vec<String> = rlox::scanner::split_lines(&rlox::text::characters(text))
            .iter()
            .map(|line| line.iter().collect())
            .collect();
        let expected: Vec<String> = text.lines().map(|line| line.to_string()).collect();
        assert_eq!(split, expected, "on {:?}", text);
    }
}

#[test]
fn a_failure_names_its_line() {
    assert_eq!(
        scan_lines("a\nb @\nc"),
        Err(LexError { kind: LexErrorKind::UnrecognizedCharacter, line: 1, column: 2 })
    );
    assert_eq!(
        scan_lines("a\nb\n\n  \"c"),
        Err(LexError { kind: LexErrorKind::UnterminatedString, line: 3, column: 2 })
    );
    assert_eq!(
        scan_lines("1e\n@"),
        Err(LexError { kind: LexErrorKind::MalformedNumber, line: 0, column: 0 })
    );
    // a string does not go on in the next line when lines are scanned one by one
    assert_eq!(
        scan_lines("\"a\nb\""),
        Err(LexError { kind: LexErrorKind::UnterminatedString, line: 0, column: 0 })
    );
}

#[test]
fn kinds_and_lexemes() {
    assert_eq!(Token::Plus.kind(), TokenKind::Plus);
    assert_eq!(name("x").kind(), TokenKind::Identifier);
    assert_eq!(numeral("1").kind(), TokenKind::Number);
    assert_eq!(Token::String("s".to_string()).kind(), TokenKind::String);
    assert_eq!(Token::LineComment("c".to_string()).kind(), TokenKind::LineComment);
    assert_eq!(Token::Eof.kind(), TokenKind::Eof);
    assert_eq!(name("x").lexeme(), "x");
    assert_eq!(numeral("1.50").lexeme(), "1.50");
    assert_eq!(Token::Eof.lexeme(), "");
}

#[test]
fn the_lexemes_of_a_line_scan_to_the_line() {
    let tokens = scan_line("var x = (a1 + 2.5) * \"s\" >= !true; // done").unwrap();
    let written: Vec<String> = tokens.iter().map(|token| token.lexeme()).collect();
    assert_eq!(scan_line(&written.join(" ")), Ok(tokens));
}
