//! The scanner against the same grammar written with parser combinators: on
//! every text on which the two are meant to agree, they agree.
use nom::branch::alt;
use nom::bytes::complete::{is_not, tag};
use nom::character::complete::{
    alpha1, alphanumeric0, alphanumeric1, line_ending, multispace0, not_line_ending,
};
use nom::combinator::recognize;
use nom::multi::many0;
use nom::number::complete::double;
use nom::sequence::delimited;
use nom::{IResult, Parser};
use rlox::tokens::{scan_line, Token};

fn spaced<'a, F>(inner: F) -> impl Parser<&'a str, Output = Token, Error = nom::error::Error<&'a str>>
where
    F: Parser<&'a str, Output = Token, Error = nom::error::Error<&'a str>>,
{
    delimited(multispace0, inner, multispace0)
}

fn combined_comment(input: &str) -> IResult<&str, Token> {
    let (remaining, comment) =
        delimited(tag("//"), not_line_ending, many0(line_ending)).parse(input)?;
    Ok((remaining, Token::LineComment(comment.to_string())))
}

fn combined_single(input: &str) -> IResult<&str, Token> {
    let (remaining, lexeme) = alt((
        tag("("),
        tag(")"),
        tag("{"),
        tag("}"),
        tag(","),
        tag("."),
        tag("-"),
        tag("+"),
        tag(";"),
        tag("/"),
        tag("*"),
        tag("="),
        tag("!"),
        tag("<"),
        tag(">"),
    ))
    .parse(input)?;
    let token = match lexeme {
        "(" => Token::LeftParen,
        ")" => Token::RightParen,
        "{" => Token::LeftBrace,
        "}" => Token::RightBrace,
        "," => Token::Comma,
        "." => Token::Dot,
        "-" => Token::Minus,
        "+" => Token::Plus,
        ";" => Token::Semicolon,
        "/" => Token::Slash,
        "*" => Token::Star,
        "=" => Token::Equal,
        "!" => Token::Bang,
        "<" => Token::Less,
        ">" => Token::Greater,
        _ => unreachable!(),
    };
    Ok((remaining, token))
}

fn combined_double(input: &str) -> IResult<&str, Token> {
    let (remaining, lexeme) = alt((tag("!="), tag("=="), tag("<="), tag(">="))).parse(input)?;
    let token = match lexeme {
        "!=" => Token::BangEqual,
        "==" => Token::EqualEqual,
        "<=" => Token::LessEqual,
        ">=" => Token::GreaterEqual,
        _ => unreachable!(),
    };
    Ok((remaining, token))
}

fn combined_identifier(input: &str) -> IResult<&str, Token> {
    let (remaining, (start, rest)) = (alpha1, alphanumeric0).parse(input)?;
    Ok((remaining, Token::Identifier(start.to_string() + rest)))
}

fn combined_string(input: &str) -> IResult<&str, Token> {
    let (remaining, lexeme) = delimited(tag("\""), is_not("\""), tag("\"")).parse(input)?;
    Ok((remaining, Token::String(lexeme.to_string())))
}

fn combined_number(input: &str) -> IResult<&str, Token> {
    let (remaining, numeral) = recognize(double).parse(input)?;
    Ok((remaining, Token::Number(numeral.to_string())))
}

fn combined_keyword(input: &str) -> IResult<&str, Token> {
    let (remaining, lexeme) = alphanumeric1(input)?;
    let token = match lexeme {
        "and" => Token::And,
        "class" => Token::Class,
        "else" => Token::Else,
        "false" => Token::False,
        "fun" => Token::Fun,
        "for" => Token::For,
        "if" => Token::If,
        "nil" => Token::Nil,
        "or" => Token::Or,
        "print" => Token::Print,
        "return" => Token::Return,
        "super" => Token::Super,
        "this" => Token::This,
        "true" => Token::True,
        "var" => Token::Var,
        "while" => Token::While,
        _ => {
            return Err(nom::Err::Error(nom::error::Error::new(
                input,
                nom::error::ErrorKind::Alpha,
            )));
        }
    };
    Ok((remaining, token))
}

/// The tokens of `input` by the combinators, or `None` where they do not
/// come to the end of it.
fn combined(input: &str) -> Option<Vec<Token>> {
    let scanned: IResult<&str, Vec<Token>> = many0(alt((
        spaced(combined_comment),
        spaced(combined_keyword),
        spaced(combined_identifier),
        spaced(combined_number),
        spaced(combined_string),
        spaced(combined_double),
        spaced(combined_single),
    )))
    .parse(input);
    match scanned {
        Ok((rest, tokens)) => {
            if rest.chars().all(|c| c == ' ' || c == '\t' || c == '\r' || c == '\n') {
                Some(tokens)
            } else {
                None
            }
        }
        Err(_) => None,
    }
}

fn agree(input: &str) {
    assert_eq!(scan_line(input).ok(), combined(input), "on {:?}", input);
}

#[test]
fn agrees_with_the_combinators_on_chosen_texts() {
    let texts = [
        "",
        " ",
        "var x = 10;",
        "var and2 = 10;",
        "andfunc for;  // This is a comment",
        "var x <= 10;",
        "print \"hello\" ;",
        "x=1;y=2;",
        "// only a comment",
        "a // b\nc // d\r\ne",
        "a // b\rc",
        "a // b\r",
        "//\r\n//\n\n\n//",
        "\"abc",
        "\"\"",
        "\"a\"\"b\"",
        "\"a\nb\"",
        "1e",
        "1e5",
        "1e+",
        "1E-7x",
        "12else",
        "1.",
        "1..2",
        ".5",
        ".",
        "..",
        ".e5",
        "1.e5",
        "1.5.e5",
        "0x10",
        "nan",
        "inf",
        "infinity",
        "NaN",
        "a.b.c",
        "f(a, b) { return a * b / 2; }",
        "a == b != c <= d >= e = f",
        "===",
        "=!=",
        "a < b",
        "a > b",
        "! a",
        "!a",
        "a<b>c",
        "<=>",
        "x - y",
        "x + y",
        "@",
        "a @ b",
        "größe",
        "\"größe\" // größe",
        "\t\r\n x \t\r\n",
        "if (x) { print 1; } else { print 2; }",
        "class A { fun f() { return this; } }",
        "while (true) nil;",
        "super.x or y and z",
        "/ /",
        "/*",
        "a/b",
        "a//b",
        "a///b",
    ];
    for text in texts {
        agree(text);
    }
}

#[test]
fn agrees_with_the_combinators_on_many_texts() {
    // The characters on which the grammar turns, without the signs: a sign
    // before a numeral is the one thing that the scanner leaves to the
    // expression and the combinators' numbers take.
    let alphabet: Vec<char> = "aeEndif019. \t\n\r/\"=!<>(){},;*x_@".chars().collect();
    let mut state: u64 = 0x2545_f491_4f6c_dd1d;
    let mut next = move || {
        state ^= state << 13;
        state ^= state >> 7;
        state ^= state << 17;
        state
    };
    for _ in 0..20000 {
        let length = (next() % 9) as usize;
        let mut text = String::new();
        for _ in 0..length {
            text.push(alphabet[(next() % alphabet.len() as u64) as usize]);
        }
        agree(&text);
    }
}

#[test]
fn a_sign_is_left_to_the_expression() {
    // the combinators' number takes the sign; the scanner does not
    assert_eq!(combined("-5"), Some(vec![Token::Number("-5".to_string())]));
    assert_eq!(
        scan_line("-5"),
        Ok(vec![Token::Minus, Token::Number("5".to_string())])
    );
    assert_eq!(combined("1 -2"), Some(vec![Token::Number("1".to_string()), Token::Number("-2".to_string())]));
    assert_eq!(
        scan_line("1 -2"),
        Ok(vec![Token::Number("1".to_string()), Token::Minus, Token::Number("2".to_string())])
    );
    // elsewhere a sign is a token for both
    for text in ["a - b", "a-b", "- a", "+", "-", "a + (b)", "-x", "+x", "-(1)", "- 1", "+ .5"] {
        agree(text);
    }
}
