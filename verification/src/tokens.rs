//! Tokens: the lexical units of the language.
use crate::grammar;
use crate::grammar::{Failure, Found};
use crate::scanner;
use crate::text::characters;
use vstd::prelude::*;

verus! {

/// What a token is, apart from the text that it carries.
#[derive(Clone, Copy, Debug, PartialEq, Eq, Hash, Structural)]
pub enum TokenKind {
    // Single character tokens
    LeftParen,
    RightParen,
    LeftBrace,
    RightBrace,
    Comma,
    Dot,
    Minus,
    Plus,
    Semicolon,
    Slash,
    Star,
    // One or two character tokens
    Bang,
    BangEqual,
    Equal,
    EqualEqual,
    Greater,
    GreaterEqual,
    Less,
    LessEqual,
    // Literals
    Identifier,
    String,
    Number,
    // Keywords
    And,
    Or,
    Class,
    Super,
    This,
    Fun,
    If,
    Else,
    True,
    False,
    Nil,
    Print,
    Return,
    Var,
    For,
    While,
    LineComment,
    Eof,
}

/// One lexical unit of source text.
///
/// A `Number` carries its numeral as written; the value that the numeral
/// denotes is not computed here.
#[derive(Clone, Debug, PartialEq)]
pub enum Token {
    // Single character tokens
    LeftParen,
    RightParen,
    LeftBrace,
    RightBrace,
    Comma,
    Dot,
    Minus,
    Plus,
    Semicolon,
    Slash,
    Star,
    // One or two character tokens
    Bang,
    BangEqual,
    Equal,
    EqualEqual,
    Greater,
    GreaterEqual,
    Less,
    LessEqual,
    // Literals
    Identifier(String),
    String(String),
    Number(String),
    // Keywords
    And,
    Or,
    Class,
    Super,
    This,
    Fun,
    If,
    Else,
    True,
    False,
    Nil,
    Print,
    Return,
    Var,
    For,
    While,
    LineComment(String),
    Eof,
}

/// Why a text could not be scanned.
#[derive(Clone, Copy, Debug, PartialEq, Eq, Hash, Structural)]
pub enum LexErrorKind {
    /// No token starts with this character.
    UnrecognizedCharacter,
    /// A string literal is opened and never closed.
    UnterminatedString,
    /// A numeral announces an exponent and gives none.
    MalformedNumber,
}

impl LexErrorKind {
    /// What is said of a text that could not be scanned.
    pub open spec fn message(self) -> Seq<char> {
        match self {
            LexErrorKind::UnrecognizedCharacter => "Unexpected character."@,
            LexErrorKind::UnterminatedString => "Unterminated string."@,
            LexErrorKind::MalformedNumber => "Malformed number."@,
        }
    }

    /// What is said of a text that could not be scanned.
    pub fn describe(self) -> (text: String)
        ensures
            text@ == self.message(),
    {
        match self {
            LexErrorKind::UnrecognizedCharacter => String::from_str("Unexpected character."),
            LexErrorKind::UnterminatedString => String::from_str("Unterminated string."),
            LexErrorKind::MalformedNumber => String::from_str("Malformed number."),
        }
    }
}

/// Where a text could not be scanned, and why.
#[derive(Clone, Copy, Debug, PartialEq, Eq, Hash)]
pub struct LexError {
    pub kind: LexErrorKind,
    /// The number of the line, counted from 0.
    pub line: usize,
    /// The number of characters of the line before the offending one.
    pub column: usize,
}

impl View for LexError {
    type V = Failure;

    open spec fn view(&self) -> Failure {
        Failure { kind: self.kind, line: self.line as int, column: self.column as int }
    }
}

/// The mathematical value of a token: its kind, and the characters it carries
/// (none, for a token that carries no text).
pub struct TokenView {
    pub kind: TokenKind,
    pub text: Seq<char>,
}

impl TokenView {
    /// The view of a token that carries no text.
    pub open spec fn plain(kind: TokenKind) -> TokenView {
        TokenView { kind, text: Seq::empty() }
    }

    /// The token as it is written in a source text.
    pub open spec fn lexeme(self) -> Seq<char> {
        match self.kind {
            TokenKind::LeftParen => "("@,
            TokenKind::RightParen => ")"@,
            TokenKind::LeftBrace => "{"@,
            TokenKind::RightBrace => "}"@,
            TokenKind::Comma => ","@,
            TokenKind::Dot => "."@,
            TokenKind::Minus => "-"@,
            TokenKind::Plus => "+"@,
            TokenKind::Semicolon => ";"@,
            TokenKind::Slash => "/"@,
            TokenKind::Star => "*"@,
            TokenKind::Bang => "!"@,
            TokenKind::BangEqual => "!="@,
            TokenKind::Equal => "="@,
            TokenKind::EqualEqual => "=="@,
            TokenKind::Greater => ">"@,
            TokenKind::GreaterEqual => ">="@,
            TokenKind::Less => "<"@,
            TokenKind::LessEqual => "<="@,
            TokenKind::And => "and"@,
            TokenKind::Or => "or"@,
            TokenKind::Class => "class"@,
            TokenKind::Super => "super"@,
            TokenKind::This => "this"@,
            TokenKind::Fun => "fun"@,
            TokenKind::If => "if"@,
            TokenKind::Else => "else"@,
            TokenKind::True => "true"@,
            TokenKind::False => "false"@,
            TokenKind::Nil => "nil"@,
            TokenKind::Print => "print"@,
            TokenKind::Return => "return"@,
            TokenKind::Var => "var"@,
            TokenKind::For => "for"@,
            TokenKind::While => "while"@,
            TokenKind::Identifier => self.text,
            TokenKind::String => quoted(self.text),
            TokenKind::Number => self.text,
            TokenKind::LineComment => "//"@ + self.text,
            TokenKind::Eof => Seq::empty(),
        }
    }
}

/// `text` between double quotes.
pub open spec fn quoted(text: Seq<char>) -> Seq<char> {
    "\""@ + text + "\""@
}

impl View for Token {
    type V = TokenView;

    open spec fn view(&self) -> TokenView {
        match self {
            Token::LeftParen => TokenView::plain(TokenKind::LeftParen),
            Token::RightParen => TokenView::plain(TokenKind::RightParen),
            Token::LeftBrace => TokenView::plain(TokenKind::LeftBrace),
            Token::RightBrace => TokenView::plain(TokenKind::RightBrace),
            Token::Comma => TokenView::plain(TokenKind::Comma),
            Token::Dot => TokenView::plain(TokenKind::Dot),
            Token::Minus => TokenView::plain(TokenKind::Minus),
            Token::Plus => TokenView::plain(TokenKind::Plus),
            Token::Semicolon => TokenView::plain(TokenKind::Semicolon),
            Token::Slash => TokenView::plain(TokenKind::Slash),
            Token::Star => TokenView::plain(TokenKind::Star),
            Token::Bang => TokenView::plain(TokenKind::Bang),
            Token::BangEqual => TokenView::plain(TokenKind::BangEqual),
            Token::Equal => TokenView::plain(TokenKind::Equal),
            Token::EqualEqual => TokenView::plain(TokenKind::EqualEqual),
            Token::Greater => TokenView::plain(TokenKind::Greater),
            Token::GreaterEqual => TokenView::plain(TokenKind::GreaterEqual),
            Token::Less => TokenView::plain(TokenKind::Less),
            Token::LessEqual => TokenView::plain(TokenKind::LessEqual),
            Token::Identifier(name) => TokenView { kind: TokenKind::Identifier, text: name@ },
            Token::String(text) => TokenView { kind: TokenKind::String, text: text@ },
            Token::Number(numeral) => TokenView { kind: TokenKind::Number, text: numeral@ },
            Token::And => TokenView::plain(TokenKind::And),
            Token::Or => TokenView::plain(TokenKind::Or),
            Token::Class => TokenView::plain(TokenKind::Class),
            Token::Super => TokenView::plain(TokenKind::Super),
            Token::This => TokenView::plain(TokenKind::This),
            Token::Fun => TokenView::plain(TokenKind::Fun),
            Token::If => TokenView::plain(TokenKind::If),
            Token::Else => TokenView::plain(TokenKind::Else),
            Token::True => TokenView::plain(TokenKind::True),
            Token::False => TokenView::plain(TokenKind::False),
            Token::Nil => TokenView::plain(TokenKind::Nil),
            Token::Print => TokenView::plain(TokenKind::Print),
            Token::Return => TokenView::plain(TokenKind::Return),
            Token::Var => TokenView::plain(TokenKind::Var),
            Token::For => TokenView::plain(TokenKind::For),
            Token::While => TokenView::plain(TokenKind::While),
            Token::LineComment(text) => TokenView { kind: TokenKind::LineComment, text: text@ },
            Token::Eof => TokenView::plain(TokenKind::Eof),
        }
    }
}

/// `text` between double quotes.
pub fn quote(text: &str) -> (r: String)
    ensures
        r@ == quoted(text@),
{
    let mut r = String::from_str("\"");
    r.append(text);
    r.append("\"");
    r
}

impl Token {
    /// The token as it is written in a source text.
    pub fn lexeme(&self) -> (text: String)
        ensures
            text@ == self@.lexeme(),
    {
        match self {
            Token::LeftParen => String::from_str("("),
            Token::RightParen => String::from_str(")"),
            Token::LeftBrace => String::from_str("{"),
            Token::RightBrace => String::from_str("}"),
            Token::Comma => String::from_str(","),
            Token::Dot => String::from_str("."),
            Token::Minus => String::from_str("-"),
            Token::Plus => String::from_str("+"),
            Token::Semicolon => String::from_str(";"),
            Token::Slash => String::from_str("/"),
            Token::Star => String::from_str("*"),
            Token::Bang => String::from_str("!"),
            Token::BangEqual => String::from_str("!="),
            Token::Equal => String::from_str("="),
            Token::EqualEqual => String::from_str("=="),
            Token::Greater => String::from_str(">"),
            Token::GreaterEqual => String::from_str(">="),
            Token::Less => String::from_str("<"),
            Token::LessEqual => String::from_str("<="),
            Token::And => String::from_str("and"),
            Token::Or => String::from_str("or"),
            Token::Class => String::from_str("class"),
            Token::Super => String::from_str("super"),
            Token::This => String::from_str("this"),
            Token::Fun => String::from_str("fun"),
            Token::If => String::from_str("if"),
            Token::Else => String::from_str("else"),
            Token::True => String::from_str("true"),
            Token::False => String::from_str("false"),
            Token::Nil => String::from_str("nil"),
            Token::Print => String::from_str("print"),
            Token::Return => String::from_str("return"),
            Token::Var => String::from_str("var"),
            Token::For => String::from_str("for"),
            Token::While => String::from_str("while"),
            Token::Identifier(name) => name.clone(),
            Token::String(text) => quote(text.as_str()),
            Token::Number(numeral) => numeral.clone(),
            Token::LineComment(text) => {
                let mut r = String::from_str("//");
                r.append(text.as_str());
                r
            },
            Token::Eof => String::new(),
        }
    }

    /// The kind of this token.
    pub fn kind(&self) -> (kind: TokenKind)
        ensures
            kind == self@.kind,
    {
        match self {
            Token::LeftParen => TokenKind::LeftParen,
            Token::RightParen => TokenKind::RightParen,
            Token::LeftBrace => TokenKind::LeftBrace,
            Token::RightBrace => TokenKind::RightBrace,
            Token::Comma => TokenKind::Comma,
            Token::Dot => TokenKind::Dot,
            Token::Minus => TokenKind::Minus,
            Token::Plus => TokenKind::Plus,
            Token::Semicolon => TokenKind::Semicolon,
            Token::Slash => TokenKind::Slash,
            Token::Star => TokenKind::Star,
            Token::Bang => TokenKind::Bang,
            Token::BangEqual => TokenKind::BangEqual,
            Token::Equal => TokenKind::Equal,
            Token::EqualEqual => TokenKind::EqualEqual,
            Token::Greater => TokenKind::Greater,
            Token::GreaterEqual => TokenKind::GreaterEqual,
            Token::Less => TokenKind::Less,
            Token::LessEqual => TokenKind::LessEqual,
            Token::Identifier(_) => TokenKind::Identifier,
            Token::String(_) => TokenKind::String,
            Token::Number(_) => TokenKind::Number,
            Token::And => TokenKind::And,
            Token::Or => TokenKind::Or,
            Token::Class => TokenKind::Class,
            Token::Super => TokenKind::Super,
            Token::This => TokenKind::This,
            Token::Fun => TokenKind::Fun,
            Token::If => TokenKind::If,
            Token::Else => TokenKind::Else,
            Token::True => TokenKind::True,
            Token::False => TokenKind::False,
            Token::Nil => TokenKind::Nil,
            Token::Print => TokenKind::Print,
            Token::Return => TokenKind::Return,
            Token::Var => TokenKind::Var,
            Token::For => TokenKind::For,
            Token::While => TokenKind::While,
            Token::LineComment(_) => TokenKind::LineComment,
            Token::Eof => TokenKind::Eof,
        }
    }
}

/// The tokens of each line of a text.
pub type Line = Vec<Token>;

/// Scans `input` line by line: the tokens of each line, in order, or the
/// first failure, with the number of its line and its place in that line.
pub fn scan_lines(input: &str) -> (scanned: Result<Vec<Line>, LexError>)
    ensures
        scanner::scanned_lines_view(scanned) == grammar::scan_lines(input@),
{
    let chars = characters(input);
    let lines = scanner::split_lines(&chars);
    scanner::scan_each(&lines)
}

/// Scans `input`, one line or several: its tokens, in order, or the first
/// failure, with its place in `input`. White space between tokens, line ends
/// included, is passed over. A comment is a token of its own.
pub fn scan_line(input: &str) -> (scanned: Result<Vec<Token>, LexError>)
    ensures
        scanner::scanned_view(scanned) == grammar::scan(input@),
{
    let chars = characters(input);
    scanner::scan_chars(&chars)
}

/// What a rule makes of `s`, where it finds `found` at its start: what is
/// left of `s`, and the token.
pub open spec fn taken(s: Seq<char>, found: Found) -> Option<(Seq<char>, TokenView)> {
    match found {
        Some((token, end)) => Some((s.subrange(end, s.len() as int), token)),
        None => None,
    }
}

/// What a rule has made of a text, as `taken` speaks of it.
pub open spec fn taken_view(taken: Option<(&str, Token)>) -> Option<(Seq<char>, TokenView)> {
    match taken {
        Some((rest, token)) => Some((rest@, token@)),
        None => None,
    }
}

/// What is left of `input` behind the token that was found at its start.
fn rest_after<'a>(input: &'a str, chars: &Vec<char>, found: Option<(Token, usize)>) -> (taken:
    Option<(&'a str, Token)>)
    requires
        chars@ == input@,
        found matches Some((_, end)) ==> end <= chars.len(),
    ensures
        taken_view(taken) == self::taken(input@, scanner::found_view(found)),
{
    match found {
        Some((token, end)) => Some((input.substring_char(end, chars.len()), token)),
        None => None,
    }
}

/// The line comment at the start of `input`, and what follows it.
pub fn line_comment(input: &str) -> (taken: Option<(&str, Token)>)
    ensures
        taken_view(taken) == self::taken(input@, grammar::line_comment_at(input@, 0)),
{
    let chars = characters(input);
    let found = scanner::line_comment_at(&chars, 0);
    rest_after(input, &chars, found)
}

/// The token of one character at the start of `input`, and what follows it.
pub fn single_char_token(input: &str) -> (taken: Option<(&str, Token)>)
    ensures
        taken_view(taken) == self::taken(input@, grammar::single_char_at(input@, 0)),
{
    let chars = characters(input);
    let found = scanner::single_char_at(&chars, 0);
    rest_after(input, &chars, found)
}

/// The operator of two characters at the start of `input`, and what follows
/// it.
pub fn two_char_token(input: &str) -> (taken: Option<(&str, Token)>)
    ensures
        taken_view(taken) == self::taken(input@, grammar::two_char_at(input@, 0)),
{
    let chars = characters(input);
    let found = scanner::two_char_at(&chars, 0);
    rest_after(input, &chars, found)
}

/// The identifier at the start of `input`, and what follows it.
pub fn identifier(input: &str) -> (taken: Option<(&str, Token)>)
    ensures
        taken_view(taken) == self::taken(input@, grammar::identifier_at(input@, 0)),
{
    let chars = characters(input);
    let found = scanner::identifier_at(&chars, 0);
    rest_after(input, &chars, found)
}

/// The string literal at the start of `input`, and what follows it.
pub fn string(input: &str) -> (taken: Option<(&str, Token)>)
    ensures
        taken_view(taken) == self::taken(input@, grammar::string_at(input@, 0)),
{
    let chars = characters(input);
    let found = scanner::string_at(&chars, 0);
    rest_after(input, &chars, found)
}

/// The number at the start of `input`, and what follows it.
pub fn number(input: &str) -> (taken: Option<(&str, Token)>)
    ensures
        taken_view(taken) == self::taken(input@, grammar::number_at(input@, 0)),
{
    let chars = characters(input);
    let found = scanner::number_at(&chars, 0);
    rest_after(input, &chars, found)
}

/// The keyword at the start of `input`, and what follows it.
pub fn keyword(input: &str) -> (taken: Option<(&str, Token)>)
    ensures
        taken_view(taken) == self::taken(input@, grammar::keyword_at(input@, 0)),
{
    let chars = characters(input);
    let found = scanner::keyword_at(&chars, 0);
    rest_after(input, &chars, found)
}

} // verus!
