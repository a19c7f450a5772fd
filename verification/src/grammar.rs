//! The lexical grammar, stated on sequences of characters.
//!
//! Every function here is a specification: it says which token stands at a
//! position of a text, where that token ends, and what a whole text scans to.
//! The executable scanner is proved to compute exactly these functions.
use crate::tokens::{LexErrorKind, TokenKind, TokenView};
use vstd::prelude::*;

verus! {

/// A space, a tab, a carriage return or a line feed.
pub open spec fn is_space(c: char) -> bool {
    c == ' ' || c == '\t' || c == '\r' || c == '\n'
}

/// A decimal digit.
pub open spec fn is_digit(c: char) -> bool {
    '0' <= c && c <= '9'
}

/// A letter of the English alphabet, in either case.
pub open spec fn is_alpha(c: char) -> bool {
    ('a' <= c && c <= 'z') || ('A' <= c && c <= 'Z')
}

/// A letter or a digit.
pub open spec fn is_alphanumeric(c: char) -> bool {
    is_alpha(c) || is_digit(c)
}

/// The sets of characters of which the grammar takes maximal runs.
#[derive(Clone, Copy, Debug, PartialEq, Eq, Structural)]
pub enum Class {
    /// White space between tokens.
    Space,
    /// Decimal digits.
    Digit,
    /// Letters and digits.
    Alphanumeric,
    /// Whatever may stand inside a string literal: all but the double quote.
    StringBody,
    /// Whatever may stand inside a comment: all but the carriage return and
    /// the line feed.
    CommentBody,
    /// Whatever may stand inside a line: all but the line feed.
    LineBody,
}

impl Class {
    /// Whether `c` belongs to the class.
    pub open spec fn holds(self, c: char) -> bool {
        match self {
            Class::Space => is_space(c),
            Class::Digit => is_digit(c),
            Class::Alphanumeric => is_alphanumeric(c),
            Class::StringBody => c != '"',
            Class::CommentBody => c != '\r' && c != '\n',
            Class::LineBody => c != '\n',
        }
    }
}

/// Where the longest run of characters of `class` that starts at `from` ends:
/// the first position at or after `from` whose character is not of the class,
/// or the end of `s`.
pub open spec fn run_end(s: Seq<char>, from: int, class: Class) -> int
    decreases s.len() - from,
{
    if 0 <= from < s.len() && class.holds(s[from]) {
        run_end(s, from + 1, class)
    } else {
        from
    }
}

/// `run_end` is the end of a run, and the run is maximal.
pub proof fn lemma_run_end(s: Seq<char>, from: int, class: Class)
    requires
        0 <= from <= s.len(),
    ensures
        from <= run_end(s, from, class) <= s.len(),
        forall|k: int| from <= k < run_end(s, from, class) ==> class.holds(#[trigger] s[k]),
        run_end(s, from, class) < s.len() ==> !class.holds(s[run_end(s, from, class)]),
    decreases s.len() - from,
{
    if from < s.len() && class.holds(s[from]) {
        lemma_run_end(s, from + 1, class);
    }
}

/// A run that starts inside another run of the same class ends where that one
/// ends.
pub proof fn lemma_run_end_from_inside(s: Seq<char>, from: int, mid: int, class: Class)
    requires
        0 <= from <= mid <= run_end(s, from, class),
    ensures
        run_end(s, mid, class) == run_end(s, from, class),
    decreases mid - from,
{
    if from < mid {
        lemma_run_end_from_inside(s, from + 1, mid, class);
    }
}

/// What a rule finds at a position: the token and the position after it.
pub type Found = Option<(TokenView, int)>;

/// Where the line endings that start at `from` end. A line ending is a line
/// feed, or a carriage return followed by a line feed.
pub open spec fn line_endings_end(s: Seq<char>, from: int) -> int
    decreases s.len() - from,
{
    if 0 <= from < s.len() && s[from] == '\n' {
        line_endings_end(s, from + 1)
    } else if 0 <= from && from + 1 < s.len() && s[from] == '\r' && s[from + 1] == '\n' {
        line_endings_end(s, from + 2)
    } else {
        from
    }
}

/// `line_endings_end` moves forward, stays inside `s`, and passes white space
/// only.
pub proof fn lemma_line_endings_end(s: Seq<char>, from: int)
    requires
        0 <= from <= s.len(),
    ensures
        from <= line_endings_end(s, from) <= s.len(),
        forall|k: int| from <= k < line_endings_end(s, from) ==> is_space(#[trigger] s[k]),
    decreases s.len() - from,
{
    if from < s.len() && s[from] == '\n' {
        lemma_line_endings_end(s, from + 1);
    } else if from + 1 < s.len() && s[from] == '\r' && s[from + 1] == '\n' {
        lemma_line_endings_end(s, from + 2);
    }
}

/// A line comment at `i`: two slashes, then the text up to the end of the
/// line, then the line endings that follow. The token carries the text.
///
/// A carriage return that no line feed follows ends no line: where the text
/// runs into one, there is no comment at `i`.
pub open spec fn line_comment_at(s: Seq<char>, i: int) -> Found {
    if 0 <= i && i + 1 < s.len() && s[i] == '/' && s[i + 1] == '/' {
        let end = run_end(s, i + 2, Class::CommentBody);
        if end < s.len() && s[end] == '\r' && !(end + 1 < s.len() && s[end + 1] == '\n') {
            None
        } else {
            Some(
                (
                    TokenView { kind: TokenKind::LineComment, text: s.subrange(i + 2, end) },
                    line_endings_end(s, end),
                ),
            )
        }
    } else {
        None
    }
}

/// The keyword that `word` spells, if it spells one.
pub open spec fn keyword_kind(word: Seq<char>) -> Option<TokenKind> {
    if word == "and"@ {
        Some(TokenKind::And)
    } else if word == "class"@ {
        Some(TokenKind::Class)
    } else if word == "else"@ {
        Some(TokenKind::Else)
    } else if word == "false"@ {
        Some(TokenKind::False)
    } else if word == "fun"@ {
        Some(TokenKind::Fun)
    } else if word == "for"@ {
        Some(TokenKind::For)
    } else if word == "if"@ {
        Some(TokenKind::If)
    } else if word == "nil"@ {
        Some(TokenKind::Nil)
    } else if word == "or"@ {
        Some(TokenKind::Or)
    } else if word == "print"@ {
        Some(TokenKind::Print)
    } else if word == "return"@ {
        Some(TokenKind::Return)
    } else if word == "super"@ {
        Some(TokenKind::Super)
    } else if word == "this"@ {
        Some(TokenKind::This)
    } else if word == "true"@ {
        Some(TokenKind::True)
    } else if word == "var"@ {
        Some(TokenKind::Var)
    } else if word == "while"@ {
        Some(TokenKind::While)
    } else {
        None
    }
}

/// A keyword at `i`: the longest run of letters and digits that starts there,
/// where the whole run spells a keyword. A keyword that is only the beginning
/// of the run is none.
pub open spec fn keyword_at(s: Seq<char>, i: int) -> Found {
    if 0 <= i < s.len() && is_alphanumeric(s[i]) {
        let end = run_end(s, i, Class::Alphanumeric);
        match keyword_kind(s.subrange(i, end)) {
            Some(kind) => Some((TokenView::plain(kind), end)),
            None => None,
        }
    } else {
        None
    }
}

/// An identifier at `i`: a letter, then the longest run of letters and digits.
/// The token carries the name.
pub open spec fn identifier_at(s: Seq<char>, i: int) -> Found {
    if 0 <= i < s.len() && is_alpha(s[i]) {
        let end = run_end(s, i, Class::Alphanumeric);
        Some((TokenView { kind: TokenKind::Identifier, text: s.subrange(i, end) }, end))
    } else {
        None
    }
}

/// Whether a numeral starts at `i`: with a digit, or with a point that a
/// digit follows. A sign starts none.
pub open spec fn starts_numeral(s: Seq<char>, i: int) -> bool {
    0 <= i < s.len() && (is_digit(s[i]) || (s[i] == '.' && i + 1 < s.len() && is_digit(s[i + 1])))
}

/// Where the mantissa of the numeral that starts at `i` ends: after digits, an
/// optional point and optional further digits; or after a point and digits.
pub open spec fn mantissa_end(s: Seq<char>, i: int) -> int {
    if 0 <= i < s.len() && is_digit(s[i]) {
        let whole = run_end(s, i, Class::Digit);
        if whole < s.len() && s[whole] == '.' {
            run_end(s, whole + 1, Class::Digit)
        } else {
            whole
        }
    } else {
        run_end(s, i + 1, Class::Digit)
    }
}

/// Whether an exponent is announced at `m`, by the letter e in either case.
pub open spec fn starts_exponent(s: Seq<char>, m: int) -> bool {
    0 <= m < s.len() && (s[m] == 'e' || s[m] == 'E')
}

/// Where the digits of an exponent announced at `m` start: after the letter
/// and an optional sign.
pub open spec fn exponent_digits_start(s: Seq<char>, m: int) -> int {
    if m + 1 < s.len() && (s[m + 1] == '+' || s[m + 1] == '-') {
        m + 2
    } else {
        m + 1
    }
}

/// Where the numeral that starts at `i` ends, or `None` where an exponent is
/// announced and no digit follows.
pub open spec fn numeral_end(s: Seq<char>, i: int) -> Option<int> {
    let m = mantissa_end(s, i);
    if starts_exponent(s, m) {
        let digits = exponent_digits_start(s, m);
        let end = run_end(s, digits, Class::Digit);
        if end > digits {
            Some(end)
        } else {
            None
        }
    } else {
        Some(m)
    }
}

/// A number at `i`: a numeral in decimal notation, without a sign, with an
/// optional fraction and an optional exponent. The token carries the numeral.
pub open spec fn number_at(s: Seq<char>, i: int) -> Found {
    if starts_numeral(s, i) {
        match numeral_end(s, i) {
            Some(end) => Some(
                (TokenView { kind: TokenKind::Number, text: s.subrange(i, end) }, end),
            ),
            None => None,
        }
    } else {
        None
    }
}

/// A string literal at `i`: a double quote, one or more characters other than
/// the double quote, and a double quote. There are no escapes. The token
/// carries the characters between the quotes.
pub open spec fn string_at(s: Seq<char>, i: int) -> Found {
    if 0 <= i < s.len() && s[i] == '"' {
        let end = run_end(s, i + 1, Class::StringBody);
        if i + 1 < end < s.len() {
            Some((TokenView { kind: TokenKind::String, text: s.subrange(i + 1, end) }, end + 1))
        } else {
            None
        }
    } else {
        None
    }
}

/// The operator that the two characters spell, if they spell one.
pub open spec fn two_char_kind(a: char, b: char) -> Option<TokenKind> {
    if b != '=' {
        None
    } else if a == '!' {
        Some(TokenKind::BangEqual)
    } else if a == '=' {
        Some(TokenKind::EqualEqual)
    } else if a == '<' {
        Some(TokenKind::LessEqual)
    } else if a == '>' {
        Some(TokenKind::GreaterEqual)
    } else {
        None
    }
}

/// An operator of two characters at `i`.
pub open spec fn two_char_at(s: Seq<char>, i: int) -> Found {
    if 0 <= i && i + 1 < s.len() {
        match two_char_kind(s[i], s[i + 1]) {
            Some(kind) => Some((TokenView::plain(kind), i + 2)),
            None => None,
        }
    } else {
        None
    }
}

/// The token that the single character spells, if it spells one.
pub open spec fn single_char_kind(c: char) -> Option<TokenKind> {
    if c == '(' {
        Some(TokenKind::LeftParen)
    } else if c == ')' {
        Some(TokenKind::RightParen)
    } else if c == '{' {
        Some(TokenKind::LeftBrace)
    } else if c == '}' {
        Some(TokenKind::RightBrace)
    } else if c == ',' {
        Some(TokenKind::Comma)
    } else if c == '.' {
        Some(TokenKind::Dot)
    } else if c == '-' {
        Some(TokenKind::Minus)
    } else if c == '+' {
        Some(TokenKind::Plus)
    } else if c == ';' {
        Some(TokenKind::Semicolon)
    } else if c == '/' {
        Some(TokenKind::Slash)
    } else if c == '*' {
        Some(TokenKind::Star)
    } else if c == '=' {
        Some(TokenKind::Equal)
    } else if c == '!' {
        Some(TokenKind::Bang)
    } else if c == '<' {
        Some(TokenKind::Less)
    } else if c == '>' {
        Some(TokenKind::Greater)
    } else {
        None
    }
}

/// A token of one character at `i`.
pub open spec fn single_char_at(s: Seq<char>, i: int) -> Found {
    if 0 <= i < s.len() {
        match single_char_kind(s[i]) {
            Some(kind) => Some((TokenView::plain(kind), i + 1)),
            None => None,
        }
    } else {
        None
    }
}

/// The token at `i`: what the first of the rules finds that finds anything,
/// in this order: line comment, keyword, identifier, number, string literal,
/// operator of two characters, token of one character.
///
/// Where a numeral starts at `i`, the rule for numbers decides alone: a
/// numeral that it refuses is no token, and its point is no `Dot`.
pub open spec fn token_at(s: Seq<char>, i: int) -> Found {
    if line_comment_at(s, i) is Some {
        line_comment_at(s, i)
    } else if keyword_at(s, i) is Some {
        keyword_at(s, i)
    } else if identifier_at(s, i) is Some {
        identifier_at(s, i)
    } else if starts_numeral(s, i) {
        number_at(s, i)
    } else if string_at(s, i) is Some {
        string_at(s, i)
    } else if two_char_at(s, i) is Some {
        two_char_at(s, i)
    } else {
        single_char_at(s, i)
    }
}

/// Why there is no token at `i`, where there is none.
pub open spec fn failure_kind(s: Seq<char>, i: int) -> LexErrorKind {
    if starts_numeral(s, i) {
        LexErrorKind::MalformedNumber
    } else if 0 <= i < s.len() && s[i] == '"' && run_end(s, i + 1, Class::StringBody) >= s.len() {
        LexErrorKind::UnterminatedString
    } else {
        LexErrorKind::UnrecognizedCharacter
    }
}

/// Every token takes at least one character and ends inside the text.
pub proof fn lemma_token_advances(s: Seq<char>, i: int)
    requires
        0 <= i < s.len(),
        token_at(s, i) is Some,
    ensures
        token_at(s, i) matches Some((_, end)) && i < end <= s.len(),
{
    lemma_run_end(s, i, Class::Alphanumeric);
    lemma_run_end(s, i, Class::Digit);
    lemma_run_end(s, i + 1, Class::StringBody);
    if i + 1 <= s.len() {
        lemma_run_end(s, i + 1, Class::Digit);
    }
    if i + 2 <= s.len() {
        lemma_run_end(s, i + 2, Class::CommentBody);
        lemma_line_endings_end(s, run_end(s, i + 2, Class::CommentBody));
    }
    if starts_numeral(s, i) {
        let whole = run_end(s, i, Class::Digit);
        if whole + 1 <= s.len() {
            lemma_run_end(s, whole + 1, Class::Digit);
        }
        let m = mantissa_end(s, i);
        let digits = exponent_digits_start(s, m);
        if digits <= s.len() {
            lemma_run_end(s, digits, Class::Digit);
        }
    }
}

/// Where scanning stopped without a token, and why. Positions count
/// characters, and lines, from 0.
pub struct Failure {
    pub kind: LexErrorKind,
    pub line: int,
    pub column: int,
}

/// What a text scans to: its tokens, or the first failure.
pub type Scanned = Result<Seq<TokenView>, Failure>;

/// `token` before what `rest` holds; a failure stays as it is.
pub open spec fn after(token: TokenView, rest: Scanned) -> Scanned {
    match rest {
        Ok(tokens) => Ok(seq![token] + tokens),
        Err(failure) => Err(failure),
    }
}

/// The tokens `done`, then what `rest` holds; a failure stays as it is.
pub open spec fn continued(done: Seq<TokenView>, rest: Scanned) -> Scanned {
    match rest {
        Ok(tokens) => Ok(done + tokens),
        Err(failure) => Err(failure),
    }
}

/// What `s` scans to from position `i` on: white space is passed over; at the
/// end of `s` the scan is complete; elsewhere the token at that position is
/// taken and the scan goes on behind it; where there is no token, the scan
/// fails at that position.
pub open spec fn scan_from(s: Seq<char>, i: int) -> Scanned
    decreases s.len() - i,
{
    if i < 0 || i > s.len() {
        Ok(Seq::empty())
    } else {
        let start = run_end(s, i, Class::Space);
        if start >= s.len() {
            Ok(Seq::empty())
        } else {
            match token_at(s, start) {
                Some((token, end)) => {
                    proof {
                        lemma_run_end(s, i, Class::Space);
                        lemma_token_advances(s, start);
                    }
                    after(token, scan_from(s, end))
                },
                None => Err(Failure { kind: failure_kind(s, start), line: 0, column: start }),
            }
        }
    }
}

/// What the text `s` scans to.
pub open spec fn scan(s: Seq<char>) -> Scanned {
    scan_from(s, 0)
}

/// `line` without the carriage return at its end, if it ends in one.
pub open spec fn without_carriage_return(line: Seq<char>) -> Seq<char> {
    if line.len() > 0 && line.last() == '\r' {
        line.drop_last()
    } else {
        line
    }
}

/// The lines of `s` from position `from` on. A line ends at a line feed; the
/// line feed, and a carriage return directly before it, are not part of the
/// line. What follows the last line feed is a line if it is not empty.
pub open spec fn lines_from(s: Seq<char>, from: int) -> Seq<Seq<char>>
    decreases s.len() - from,
{
    if from < 0 || from >= s.len() {
        Seq::empty()
    } else {
        let end = run_end(s, from, Class::LineBody);
        if end >= s.len() {
            seq![s.subrange(from, s.len() as int)]
        } else {
            proof {
                lemma_run_end(s, from, Class::LineBody);
            }
            seq![without_carriage_return(s.subrange(from, end))] + lines_from(s, end + 1)
        }
    }
}

/// The lines of `s`.
pub open spec fn lines(s: Seq<char>) -> Seq<Seq<char>> {
    lines_from(s, 0)
}

/// What a text scans to, line by line.
pub type ScannedLines = Result<Seq<Seq<TokenView>>, Failure>;

/// What the lines from the one numbered `k` on scan to: the tokens of each,
/// or the failure of the first line that fails, with the number of that line.
pub open spec fn scan_each(all: Seq<Seq<char>>, k: int) -> ScannedLines
    decreases all.len() - k,
{
    if k < 0 || k >= all.len() {
        Ok(Seq::empty())
    } else {
        match scan(all[k]) {
            Err(failure) => Err(Failure { kind: failure.kind, line: k, column: failure.column }),
            Ok(tokens) => match scan_each(all, k + 1) {
                Ok(rest) => Ok(seq![tokens] + rest),
                Err(failure) => Err(failure),
            },
        }
    }
}

/// What the text `s` scans to when each of its lines is scanned by itself.
pub open spec fn scan_lines(s: Seq<char>) -> ScannedLines {
    scan_each(lines(s), 0)
}

// ---------------------------------------------------------------------------
// What follows from the grammar
// ---------------------------------------------------------------------------
/// A run of letters and digits that starts with a letter is one token, which
/// ends where the run ends: the keyword that the whole run spells, or else an
/// identifier of that name. A keyword at the start of a longer run is not
/// split off.
pub proof fn law_word_is_one_token(s: Seq<char>, i: int)
    requires
        0 <= i < s.len(),
        is_alpha(s[i]),
    ensures
        ({
            let end = run_end(s, i, Class::Alphanumeric);
            let word = s.subrange(i, end);
            token_at(s, i) == Some(
                (
                    match keyword_kind(word) {
                        Some(kind) => TokenView::plain(kind),
                        None => TokenView { kind: TokenKind::Identifier, text: word },
                    },
                    end,
                ),
            )
        }),
{
}

/// Two characters that spell an operator are that operator, and never two
/// tokens of one character.
pub proof fn law_operator_is_one_token(s: Seq<char>, i: int)
    requires
        0 <= i,
        i + 1 < s.len(),
        two_char_kind(s[i], s[i + 1]) is Some,
    ensures
        token_at(s, i) == Some((TokenView::plain(two_char_kind(s[i], s[i + 1])->0), i + 2)),
{
}

/// A double quote that no other double quote follows starts no token, and the
/// scan that comes to it fails there with an unterminated string.
pub proof fn law_unterminated_string(s: Seq<char>, from: int, i: int)
    requires
        0 <= from <= i < s.len(),
        forall|k: int| from <= k < i ==> is_space(#[trigger] s[k]),
        s[i] == '"',
        forall|k: int| i < k < s.len() ==> #[trigger] s[k] != '"',
    ensures
        token_at(s, i) is None,
        scan_from(s, from) == Err::<Seq<TokenView>, Failure>(
            Failure { kind: LexErrorKind::UnterminatedString, line: 0, column: i },
        ),
{
    lemma_run_end(s, i + 1, Class::StringBody);
    lemma_run_end(s, from, Class::Space);
    let start = run_end(s, from, Class::Space);
    if start < i {
        assert(is_space(s[start]));
    }
}

/// White space before the first token changes nothing of what a text scans
/// to.
pub proof fn law_leading_space(s: Seq<char>, from: int)
    requires
        0 <= from <= s.len(),
    ensures
        scan_from(s, from) == scan_from(s, run_end(s, from, Class::Space)),
{
    lemma_run_end(s, from, Class::Space);
    let start = run_end(s, from, Class::Space);
    lemma_run_end_from_inside(s, from, start, Class::Space);
}

/// Where a scan fails, it fails at a position of the text that it has come to,
/// at a character that is no white space and starts no token.
pub proof fn law_failure_position(s: Seq<char>, from: int)
    requires
        0 <= from <= s.len(),
    ensures
        scan_from(s, from) matches Err(failure) ==> failure.line == 0 && from <= failure.column
            < s.len() && !is_space(s[failure.column]) && token_at(s, failure.column) is None
            && failure.kind == failure_kind(s, failure.column),
    decreases s.len() - from,
{
    lemma_run_end(s, from, Class::Space);
    let start = run_end(s, from, Class::Space);
    if start < s.len() {
        if let Some((_, end)) = token_at(s, start) {
            lemma_token_advances(s, start);
            law_failure_position(s, end);
        }
    }
}

/// A text that is not empty and holds no line feed is one line, and scanning
/// it by lines gives what scanning it as a whole gives.
pub proof fn law_single_line(s: Seq<char>)
    requires
        s.len() > 0,
        forall|k: int| 0 <= k < s.len() ==> #[trigger] s[k] != '\n',
    ensures
        lines(s) == seq![s],
        scan_lines(s) == match scan(s) {
            Ok(tokens) => Ok::<Seq<Seq<TokenView>>, Failure>(seq![tokens]),
            Err(failure) => Err::<Seq<Seq<TokenView>>, Failure>(failure),
        },
{
    lemma_run_end(s, 0, Class::LineBody);
    assert(s.subrange(0, s.len() as int) =~= s);
    assert(lines(s) =~= seq![s]);
    reveal_with_fuel(scan_each, 2);
    law_failure_position(s, 0);
    if let Ok(tokens) = scan(s) {
        assert(seq![tokens] + Seq::<Seq<TokenView>>::empty() =~= seq![tokens]);
    }
}

} // verus!
