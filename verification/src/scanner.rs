//! The scanner proper: the rules of the grammar, computed on a vector of
//! characters and a position in it.
use crate::grammar;
use crate::grammar::{continued, Class, Found, Scanned};
use crate::text::text_of;
use crate::tokens::{LexError, LexErrorKind, Token, TokenView};
use vstd::prelude::*;

verus! {

/// Whether `c` is a space, a tab, a carriage return or a line feed.
pub fn is_space(c: char) -> (r: bool)
    ensures
        r == grammar::is_space(c),
{
    c == ' ' || c == '\t' || c == '\r' || c == '\n'
}

/// Whether `c` is a decimal digit.
pub fn is_digit(c: char) -> (r: bool)
    ensures
        r == grammar::is_digit(c),
{
    '0' <= c && c <= '9'
}

/// Whether `c` is a letter of the English alphabet.
pub fn is_alpha(c: char) -> (r: bool)
    ensures
        r == grammar::is_alpha(c),
{
    ('a' <= c && c <= 'z') || ('A' <= c && c <= 'Z')
}

/// Whether `c` is a letter or a digit.
pub fn is_alphanumeric(c: char) -> (r: bool)
    ensures
        r == grammar::is_alphanumeric(c),
{
    is_alpha(c) || is_digit(c)
}

impl Class {
    /// Whether `c` belongs to the class.
    pub fn contains(self, c: char) -> (r: bool)
        ensures
            r == self.holds(c),
    {
        match self {
            Class::Space => is_space(c),
            Class::Digit => is_digit(c),
            Class::Alphanumeric => is_alphanumeric(c),
            Class::StringBody => c != '"',
            Class::CommentBody => c != '\r' && c != '\n',
            Class::LineBody => c != '\n',
        }
    }
}

/// Where the longest run of characters of `class` that starts at `from` ends.
pub(crate) fn run_end(chars: &Vec<char>, from: usize, class: Class) -> (end: usize)
    requires
        from <= chars.len(),
    ensures
        end == grammar::run_end(chars@, from as int, class),
        from <= end <= chars.len(),
{
    let mut i: usize = from;
    while i < chars.len() && class.contains(chars[i])
        invariant
            from <= i <= chars.len(),
            grammar::run_end(chars@, from as int, class) == grammar::run_end(
                chars@,
                i as int,
                class,
            ),
        decreases chars.len() - i,
    {
        i += 1;
    }
    i
}

/// Where the line endings that start at `from` end.
pub(crate) fn line_endings_end(chars: &Vec<char>, from: usize) -> (end: usize)
    requires
        from <= chars.len(),
    ensures
        end == grammar::line_endings_end(chars@, from as int),
        from <= end <= chars.len(),
{
    let mut i: usize = from;
    loop
        invariant
            from <= i <= chars.len(),
            grammar::line_endings_end(chars@, from as int) == grammar::line_endings_end(
                chars@,
                i as int,
            ),
        decreases chars.len() - i,
    {
        if i < chars.len() && chars[i] == '\n' {
            i += 1;
        } else if i < chars.len() && i + 1 < chars.len() && chars[i] == '\r' && chars[i + 1]
            == '\n' {
            i += 2;
        } else {
            return i;
        }
    }
}

/// What a rule has found, as the grammar speaks of it.
pub open spec fn found_view(found: Option<(Token, usize)>) -> Found {
    match found {
        Some((token, end)) => Some((token@, end as int)),
        None => None,
    }
}

/// The line comment at `i`, if there is one, and where it ends.
pub(crate) fn line_comment_at(chars: &Vec<char>, i: usize) -> (found: Option<(Token, usize)>)
    requires
        i <= chars.len(),
    ensures
        found_view(found) == grammar::line_comment_at(chars@, i as int),
        found matches Some((_, end)) ==> i < end <= chars.len(),
{
    if i < chars.len() && i + 1 < chars.len() && chars[i] == '/' && chars[i + 1] == '/' {
        let end = run_end(chars, i + 2, Class::CommentBody);
        if end < chars.len() && chars[end] == '\r' && !(end + 1 < chars.len() && chars[end + 1]
            == '\n') {
            None
        } else {
            let text = text_of(chars, i + 2, end);
            Some((Token::LineComment(text), line_endings_end(chars, end)))
        }
    } else {
        None
    }
}

/// Whether the characters `chars[from..to]` spell `word`.
pub(crate) fn spells(chars: &Vec<char>, from: usize, to: usize, word: &str) -> (r: bool)
    requires
        from <= to <= chars.len(),
    ensures
        r == (chars@.subrange(from as int, to as int) == word@),
{
    let mut i: usize = from;
    for c in it: word.chars()
        invariant
            from <= i <= to <= chars.len(),
            i - from == it.index(),
            it.seq() == word@,
            forall|k: int| 0 <= k < it.index() ==> chars@[from + k] == word@[k],
    {
        if i >= to {
            assert(chars@.subrange(from as int, to as int).len() < word@.len());
            return false;
        }
        if chars[i] != c {
            assert(chars@.subrange(from as int, to as int)[i - from] != word@[i - from]);
            return false;
        }
        i += 1;
    }
    if i == to {
        assert(chars@.subrange(from as int, to as int) =~= word@);
        true
    } else {
        assert(chars@.subrange(from as int, to as int).len() > word@.len());
        false
    }
}

/// The keyword that the characters `chars[from..to]` spell, if they spell one.
pub(crate) fn keyword_of(chars: &Vec<char>, from: usize, to: usize) -> (keyword: Option<Token>)
    requires
        from <= to <= chars.len(),
    ensures
        match grammar::keyword_kind(chars@.subrange(from as int, to as int)) {
            Some(kind) => keyword matches Some(token) && token@ == TokenView::plain(kind),
            None => keyword is None,
        },
{
    if spells(chars, from, to, "and") {
        Some(Token::And)
    } else if spells(chars, from, to, "class") {
        Some(Token::Class)
    } else if spells(chars, from, to, "else") {
        Some(Token::Else)
    } else if spells(chars, from, to, "false") {
        Some(Token::False)
    } else if spells(chars, from, to, "fun") {
        Some(Token::Fun)
    } else if spells(chars, from, to, "for") {
        Some(Token::For)
    } else if spells(chars, from, to, "if") {
        Some(Token::If)
    } else if spells(chars, from, to, "nil") {
        Some(Token::Nil)
    } else if spells(chars, from, to, "or") {
        Some(Token::Or)
    } else if spells(chars, from, to, "print") {
        Some(Token::Print)
    } else if spells(chars, from, to, "return") {
        Some(Token::Return)
    } else if spells(chars, from, to, "super") {
        Some(Token::Super)
    } else if spells(chars, from, to, "this") {
        Some(Token::This)
    } else if spells(chars, from, to, "true") {
        Some(Token::True)
    } else if spells(chars, from, to, "var") {
        Some(Token::Var)
    } else if spells(chars, from, to, "while") {
        Some(Token::While)
    } else {
        None
    }
}

/// The keyword at `i`, if there is one, and where it ends.
pub(crate) fn keyword_at(chars: &Vec<char>, i: usize) -> (found: Option<(Token, usize)>)
    requires
        i <= chars.len(),
    ensures
        found_view(found) == grammar::keyword_at(chars@, i as int),
        found matches Some((_, end)) ==> i < end <= chars.len(),
{
    if i < chars.len() && is_alphanumeric(chars[i]) {
        let end = run_end(chars, i, Class::Alphanumeric);
        proof {
            grammar::lemma_run_end(chars@, i + 1, Class::Alphanumeric);
        }
        match keyword_of(chars, i, end) {
            Some(token) => Some((token, end)),
            None => None,
        }
    } else {
        None
    }
}

/// The identifier at `i`, if there is one, and where it ends.
pub(crate) fn identifier_at(chars: &Vec<char>, i: usize) -> (found: Option<(Token, usize)>)
    requires
        i <= chars.len(),
    ensures
        found_view(found) == grammar::identifier_at(chars@, i as int),
        found matches Some((_, end)) ==> i < end <= chars.len(),
{
    if i < chars.len() && is_alpha(chars[i]) {
        let end = run_end(chars, i, Class::Alphanumeric);
        proof {
            grammar::lemma_run_end(chars@, i + 1, Class::Alphanumeric);
        }
        Some((Token::Identifier(text_of(chars, i, end)), end))
    } else {
        None
    }
}

/// Whether a numeral starts at `i`.
pub(crate) fn starts_numeral(chars: &Vec<char>, i: usize) -> (r: bool)
    requires
        i <= chars.len(),
    ensures
        r == grammar::starts_numeral(chars@, i as int),
{
    i < chars.len() && (is_digit(chars[i]) || (chars[i] == '.' && i + 1 < chars.len() && is_digit(
        chars[i + 1],
    )))
}

/// Where the numeral that starts at `i` ends, or `None` where it announces an
/// exponent and gives none.
pub(crate) fn numeral_end(chars: &Vec<char>, i: usize) -> (end: Option<usize>)
    requires
        grammar::starts_numeral(chars@, i as int),
    ensures
        match grammar::numeral_end(chars@, i as int) {
            Some(e) => end == Some(e as usize) && i < e <= chars.len(),
            None => end is None,
        },
{
    let len = chars.len();
    let mantissa = if is_digit(chars[i]) {
        let whole = run_end(chars, i, Class::Digit);
        if whole < chars.len() && chars[whole] == '.' {
            run_end(chars, whole + 1, Class::Digit)
        } else {
            whole
        }
    } else {
        run_end(chars, i + 1, Class::Digit)
    };
    proof {
        grammar::lemma_run_end(chars@, i as int, Class::Digit);
    }
    if mantissa < chars.len() && (chars[mantissa] == 'e' || chars[mantissa] == 'E') {
        let digits = if mantissa + 1 < len && (chars[mantissa + 1] == '+' || chars[mantissa + 1]
            == '-') {
            mantissa + 2
        } else {
            mantissa + 1
        };
        let end = run_end(chars, digits, Class::Digit);
        if end > digits {
            Some(end)
        } else {
            None
        }
    } else {
        Some(mantissa)
    }
}

/// The number at `i`, if there is one, and where it ends.
pub(crate) fn number_at(chars: &Vec<char>, i: usize) -> (found: Option<(Token, usize)>)
    requires
        i <= chars.len(),
    ensures
        found_view(found) == grammar::number_at(chars@, i as int),
        found matches Some((_, end)) ==> i < end <= chars.len(),
{
    if starts_numeral(chars, i) {
        match numeral_end(chars, i) {
            Some(end) => Some((Token::Number(text_of(chars, i, end)), end)),
            None => None,
        }
    } else {
        None
    }
}

/// The string literal at `i`, if there is one, and where it ends.
pub(crate) fn string_at(chars: &Vec<char>, i: usize) -> (found: Option<(Token, usize)>)
    requires
        i <= chars.len(),
    ensures
        found_view(found) == grammar::string_at(chars@, i as int),
        found matches Some((_, end)) ==> i < end <= chars.len(),
{
    if i < chars.len() && chars[i] == '"' {
        let end = run_end(chars, i + 1, Class::StringBody);
        if i + 1 < end && end < chars.len() {
            Some((Token::String(text_of(chars, i + 1, end)), end + 1))
        } else {
            None
        }
    } else {
        None
    }
}

/// The operator of two characters at `i`, if there is one, and where it ends.
pub(crate) fn two_char_at(chars: &Vec<char>, i: usize) -> (found: Option<(Token, usize)>)
    requires
        i <= chars.len(),
    ensures
        found_view(found) == grammar::two_char_at(chars@, i as int),
        found matches Some((_, end)) ==> i < end <= chars.len(),
{
    if i < chars.len() && i + 1 < chars.len() && chars[i + 1] == '=' {
        let c = chars[i];
        if c == '!' {
            Some((Token::BangEqual, i + 2))
        } else if c == '=' {
            Some((Token::EqualEqual, i + 2))
        } else if c == '<' {
            Some((Token::LessEqual, i + 2))
        } else if c == '>' {
            Some((Token::GreaterEqual, i + 2))
        } else {
            None
        }
    } else {
        None
    }
}

/// The token of one character at `i`, if there is one, and where it ends.
pub(crate) fn single_char_at(chars: &Vec<char>, i: usize) -> (found: Option<(Token, usize)>)
    requires
        i <= chars.len(),
    ensures
        found_view(found) == grammar::single_char_at(chars@, i as int),
        found matches Some((_, end)) ==> i < end <= chars.len(),
{
    if i < chars.len() {
        let c = chars[i];
        let token = if c == '(' {
            Token::LeftParen
        } else if c == ')' {
            Token::RightParen
        } else if c == '{' {
            Token::LeftBrace
        } else if c == '}' {
            Token::RightBrace
        } else if c == ',' {
            Token::Comma
        } else if c == '.' {
            Token::Dot
        } else if c == '-' {
            Token::Minus
        } else if c == '+' {
            Token::Plus
        } else if c == ';' {
            Token::Semicolon
        } else if c == '/' {
            Token::Slash
        } else if c == '*' {
            Token::Star
        } else if c == '=' {
            Token::Equal
        } else if c == '!' {
            Token::Bang
        } else if c == '<' {
            Token::Less
        } else if c == '>' {
            Token::Greater
        } else {
            return None;
        };
        Some((token, i + 1))
    } else {
        None
    }
}

/// The token at `i`, if there is one, and where it ends.
pub(crate) fn token_at(chars: &Vec<char>, i: usize) -> (found: Option<(Token, usize)>)
    requires
        i <= chars.len(),
    ensures
        found_view(found) == grammar::token_at(chars@, i as int),
        found matches Some((_, end)) ==> i < end <= chars.len(),
{
    let comment = line_comment_at(chars, i);
    if comment.is_some() {
        return comment;
    }
    let keyword = keyword_at(chars, i);
    if keyword.is_some() {
        return keyword;
    }
    let identifier = identifier_at(chars, i);
    if identifier.is_some() {
        return identifier;
    }
    if starts_numeral(chars, i) {
        return number_at(chars, i);
    }
    let string = string_at(chars, i);
    if string.is_some() {
        return string;
    }
    let operator = two_char_at(chars, i);
    if operator.is_some() {
        return operator;
    }
    single_char_at(chars, i)
}

/// Why there is no token at `i`.
pub(crate) fn failure_kind(chars: &Vec<char>, i: usize) -> (kind: LexErrorKind)
    requires
        i <= chars.len(),
    ensures
        kind == grammar::failure_kind(chars@, i as int),
{
    if starts_numeral(chars, i) {
        LexErrorKind::MalformedNumber
    } else if i < chars.len() && chars[i] == '"' && run_end(chars, i + 1, Class::StringBody)
        >= chars.len() {
        LexErrorKind::UnterminatedString
    } else {
        LexErrorKind::UnrecognizedCharacter
    }
}

/// The values of the tokens of `tokens`, in order.
pub open spec fn token_views(tokens: Seq<Token>) -> Seq<TokenView> {
    tokens.map_values(|token: Token| token@)
}

/// What a scan has given, as the grammar speaks of it.
pub open spec fn scanned_view(scanned: Result<Vec<Token>, LexError>) -> Scanned {
    match scanned {
        Ok(tokens) => Ok(token_views(tokens@)),
        Err(error) => Err(error@),
    }
}

/// The tokens of `chars`, or the first failure.
pub fn scan_chars(chars: &Vec<char>) -> (scanned: Result<Vec<Token>, LexError>)
    ensures
        scanned_view(scanned) == grammar::scan(chars@),
{
    let mut tokens: Vec<Token> = Vec::new();
    let mut i: usize = 0;
    loop
        invariant
            i <= chars.len(),
            grammar::scan(chars@) == continued(
                token_views(tokens@),
                grammar::scan_from(chars@, i as int),
            ),
        decreases chars.len() - i,
    {
        let start = run_end(chars, i, Class::Space);
        if start >= chars.len() {
            assert(token_views(tokens@) + Seq::<TokenView>::empty() =~= token_views(tokens@));
            return Ok(tokens);
        }
        match token_at(chars, start) {
            Some((token, end)) => {
                proof {
                    grammar::lemma_token_advances(chars@, start as int);
                    let rest = grammar::scan_from(chars@, end as int);
                    if let Ok(more) = rest {
                        assert(token_views(tokens@) + (seq![token@] + more) =~= token_views(
                            tokens@.push(token),
                        ) + more);
                    }
                }
                tokens.push(token);
                i = end;
            },
            None => {
                return Err(LexError { kind: failure_kind(chars, start), line: 0, column: start });
            },
        }
    }
}

/// The character sequences of `all`, in order.
pub open spec fn line_views(all: Seq<Vec<char>>) -> Seq<Seq<char>> {
    all.map_values(|line: Vec<char>| line@)
}

/// The characters `chars[from..to]`.
pub(crate) fn copy_of(chars: &Vec<char>, from: usize, to: usize) -> (copy: Vec<char>)
    requires
        from <= to <= chars.len(),
    ensures
        copy@ == chars@.subrange(from as int, to as int),
{
    let mut copy: Vec<char> = Vec::new();
    let mut i: usize = from;
    while i < to
        invariant
            from <= i <= to <= chars.len(),
            copy@ == chars@.subrange(from as int, i as int),
        decreases to - i,
    {
        copy.push(chars[i]);
        i += 1;
    }
    copy
}

/// The lines of `chars`.
pub fn split_lines(chars: &Vec<char>) -> (all: Vec<Vec<char>>)
    ensures
        line_views(all@) == grammar::lines(chars@),
{
    let mut all: Vec<Vec<char>> = Vec::new();
    let mut from: usize = 0;
    while from < chars.len()
        invariant
            from <= chars.len(),
            grammar::lines(chars@) == line_views(all@) + grammar::lines_from(chars@, from as int),
        decreases chars.len() - from,
    {
        let end = run_end(chars, from, Class::LineBody);
        let ghost before = line_views(all@);
        if end >= chars.len() {
            let line = copy_of(chars, from, end);
            all.push(line);
            assert(line_views(all@) =~= before + seq![chars@.subrange(from as int, end as int)]);
            from = end;
        } else {
            let stop = if from < end && chars[end - 1] == '\r' {
                end - 1
            } else {
                end
            };
            let line = copy_of(chars, from, stop);
            assert(line@ =~= grammar::without_carriage_return(
                chars@.subrange(from as int, end as int),
            ));
            all.push(line);
            assert(line_views(all@) + grammar::lines_from(chars@, end + 1) =~= before + (seq![
                line@,
            ] + grammar::lines_from(chars@, end + 1)));
            from = end + 1;
        }
    }
    assert(line_views(all@) + Seq::<Seq<char>>::empty() =~= line_views(all@));
    all
}

/// The tokens of each line, in order.
pub open spec fn line_token_views(all: Seq<Vec<Token>>) -> Seq<Seq<TokenView>> {
    all.map_values(|tokens: Vec<Token>| token_views(tokens@))
}

/// What a scan by lines has given, as the grammar speaks of it.
pub open spec fn scanned_lines_view(
    scanned: Result<Vec<Vec<Token>>, LexError>,
) -> grammar::ScannedLines {
    match scanned {
        Ok(all) => Ok(line_token_views(all@)),
        Err(error) => Err(error@),
    }
}

/// The tokens of the lines `done`, then what `rest` holds; a failure stays as
/// it is.
pub open spec fn continued_lines(
    done: Seq<Seq<TokenView>>,
    rest: grammar::ScannedLines,
) -> grammar::ScannedLines {
    match rest {
        Ok(all) => Ok(done + all),
        Err(failure) => Err(failure),
    }
}

/// The tokens of each of `lines`, or the failure of the first line that
/// fails, with the number of that line.
pub fn scan_each(lines: &Vec<Vec<char>>) -> (scanned: Result<Vec<Vec<Token>>, LexError>)
    ensures
        scanned_lines_view(scanned) == grammar::scan_each(line_views(lines@), 0),
{
    let mut all: Vec<Vec<Token>> = Vec::new();
    let mut k: usize = 0;
    while k < lines.len()
        invariant
            k <= lines.len(),
            grammar::scan_each(line_views(lines@), 0) == continued_lines(
                line_token_views(all@),
                grammar::scan_each(line_views(lines@), k as int),
            ),
        decreases lines.len() - k,
    {
        match scan_chars(&lines[k]) {
            Ok(tokens) => {
                proof {
                    let rest = grammar::scan_each(line_views(lines@), k + 1);
                    if let Ok(more) = rest {
                        assert(line_token_views(all@) + (seq![token_views(tokens@)] + more)
                            =~= line_token_views(all@.push(tokens)) + more);
                    }
                }
                all.push(tokens);
                k += 1;
            },
            Err(error) => {
                return Err(LexError { kind: error.kind, line: k, column: error.column });
            },
        }
    }
    assert(line_token_views(all@) + Seq::<Seq<TokenView>>::empty() =~= line_token_views(all@));
    Ok(all)
}

} // verus!
