//! Printing against scanning: what is written out can be read back.
//!
//! Two laws are proved here. Tokens that scan alone scan together when they
//! are written with a space between them (`law_spaced_tokens_scan`). And the
//! text that an expression is printed as scans to the tokens of that
//! expression (`law_printed_text_scans`). Both rest on one observation: a
//! token is the same token when a space, or a closing parenthesis, follows
//! where there was the end of the text (`lemma_scan_in_context`).
use crate::ast::{
    arithmetic, grouped, infixed, is_comparison, prefixed, prints, truth_text, written, Expr,
};
use crate::grammar::{
    after, continued, exponent_digits_start, identifier_at, is_alpha, is_space, keyword_at,
    keyword_kind, law_leading_space, lemma_run_end, lemma_token_advances, line_comment_at,
    mantissa_end, number_at, numeral_end, run_end, scan, scan_from, single_char_at,
    starts_exponent, starts_numeral, string_at, token_at, two_char_at, Class, Failure, Found,
};
use crate::tokens::{quoted, TokenKind, TokenView};
use vstd::prelude::*;

verus! {

/// A run ends at `end` where every character from `from` up to `end` is of
/// the class and the one at `end`, if there is one, is not.
pub proof fn lemma_run_end_is(s: Seq<char>, from: int, end: int, class: Class)
    requires
        0 <= from <= end <= s.len(),
        forall|k: int| from <= k < end ==> class.holds(#[trigger] s[k]),
        end < s.len() ==> !class.holds(s[end]),
    ensures
        run_end(s, from, class) == end,
    decreases end - from,
{
    if from < end {
        lemma_run_end_is(s, from + 1, end, class);
    }
}

/// A character that may follow a printed expression: a space or a closing
/// parenthesis. No token goes on across it.
pub open spec fn is_stop(c: char) -> bool {
    c == ' ' || c == ')'
}

/// `found`, with its end moved by `by` positions.
pub open spec fn moved(found: Found, by: int) -> Found {
    match found {
        Some((token, end)) => Some((token, end + by)),
        None => None,
    }
}

/// A run inside `a` ends at the same place of `a` when `a` stands between
/// `p` and `x`, unless the run reaches the end of `a` and goes on in `x`.
pub proof fn lemma_run_end_in_context(
    p: Seq<char>,
    a: Seq<char>,
    x: Seq<char>,
    from: int,
    class: Class,
)
    requires
        0 <= from <= a.len(),
        run_end(a, from, class) < a.len() || x.len() == 0 || !class.holds(x[0]),
    ensures
        run_end(p + a + x, p.len() + from, class) == p.len() + run_end(a, from, class),
{
    lemma_run_end(a, from, class);
    let s = p + a + x;
    let end = run_end(a, from, class);
    assert forall|k: int| p.len() + from <= k < p.len() + end implies class.holds(
        #[trigger] s[k],
    ) by {
        assert(s[k] == a[k - p.len()]);
    }
    if end < a.len() {
        assert(s[p.len() + end] == a[end]);
    } else if x.len() > 0 {
        assert(s[p.len() + end] == x[0]);
    }
    lemma_run_end_is(s, p.len() + from, p.len() + end, class);
}

/// The characters of `a` are those of `p + a + x` behind `p`, and the first
/// of `x` follows them.
pub proof fn lemma_chars_in_context(p: Seq<char>, a: Seq<char>, x: Seq<char>)
    ensures
        (p + a + x).len() == p.len() + a.len() + x.len(),
        forall|j: int|
            p.len() <= j < p.len() + a.len() ==> #[trigger] (p + a + x)[j] == a[j - p.len()],
        x.len() > 0 ==> (p + a + x)[(p.len() + a.len()) as int] == x[0],
{
}

/// Where no comment starts at a place of `a`, none starts there when `a`
/// stands between `p` and `x`.
pub proof fn lemma_comment_in_context(p: Seq<char>, a: Seq<char>, x: Seq<char>, i: int)
    requires
        0 <= i < a.len(),
        line_comment_at(a, i) is None,
        x.len() == 0 || is_stop(x[0]),
    ensures
        line_comment_at(p + a + x, p.len() + i) is None,
{
    lemma_chars_in_context(p, a, x);
    if i + 1 < a.len() && a[i] == '/' && a[i + 1] == '/' {
        lemma_run_end(a, i + 2, Class::CommentBody);
        lemma_run_end_in_context(p, a, x, i + 2, Class::CommentBody);
    }
}

/// A keyword or an identifier of `a` is the same in `p + a + x`.
pub proof fn lemma_word_in_context(p: Seq<char>, a: Seq<char>, x: Seq<char>, i: int)
    requires
        0 <= i < a.len(),
        x.len() == 0 || is_stop(x[0]),
    ensures
        keyword_at(p + a + x, p.len() + i) == moved(keyword_at(a, i), p.len() as int),
        identifier_at(p + a + x, p.len() + i) == moved(identifier_at(a, i), p.len() as int),
{
    let s = p + a + x;
    let n = p.len() as int;
    lemma_chars_in_context(p, a, x);
    lemma_run_end(a, i, Class::Alphanumeric);
    lemma_run_end_in_context(p, a, x, i, Class::Alphanumeric);
    let end = run_end(a, i, Class::Alphanumeric);
    assert(s.subrange(n + i, n + end) =~= a.subrange(i, end));
}

/// A numeral of `a` is the same in `p + a + x`, and a numeral that `a`
/// refuses is refused there.
pub proof fn lemma_number_in_context(p: Seq<char>, a: Seq<char>, x: Seq<char>, i: int)
    requires
        0 <= i < a.len(),
        x.len() == 0 || is_stop(x[0]),
    ensures
        starts_numeral(p + a + x, p.len() + i) == starts_numeral(a, i),
        number_at(p + a + x, p.len() + i) == moved(number_at(a, i), p.len() as int),
{
    let s = p + a + x;
    let n = p.len() as int;
    lemma_chars_in_context(p, a, x);
    if starts_numeral(a, i) {
        lemma_run_end(a, i, Class::Digit);
        lemma_run_end_in_context(p, a, x, i, Class::Digit);
        lemma_run_end(a, i + 1, Class::Digit);
        lemma_run_end_in_context(p, a, x, i + 1, Class::Digit);
        let whole = run_end(a, i, Class::Digit);
        if whole + 1 <= a.len() {
            lemma_run_end(a, whole + 1, Class::Digit);
            lemma_run_end_in_context(p, a, x, whole + 1, Class::Digit);
        }
        let m = mantissa_end(a, i);
        assert(mantissa_end(s, n + i) == n + m);
        assert(starts_exponent(s, n + m) == starts_exponent(a, m));
        if starts_exponent(a, m) {
            let digits = exponent_digits_start(a, m);
            assert(exponent_digits_start(s, n + m) == n + digits);
            if digits <= a.len() {
                lemma_run_end(a, digits, Class::Digit);
                lemma_run_end_in_context(p, a, x, digits, Class::Digit);
                let end = run_end(a, digits, Class::Digit);
                assert(s.subrange(n + i, n + end) =~= a.subrange(i, end));
            } else {
                assert(run_end(a, digits, Class::Digit) == digits);
                assert(run_end(s, n + digits, Class::Digit) == n + digits);
            }
        } else {
            assert(s.subrange(n + i, n + m) =~= a.subrange(i, m));
        }
    }
}

/// A string literal of `a` is the same in `p + a + x`.
pub proof fn lemma_string_in_context(p: Seq<char>, a: Seq<char>, x: Seq<char>, i: int)
    requires
        0 <= i < a.len(),
        string_at(a, i) is Some,
    ensures
        string_at(p + a + x, p.len() + i) == moved(string_at(a, i), p.len() as int),
{
    let s = p + a + x;
    let n = p.len() as int;
    lemma_chars_in_context(p, a, x);
    lemma_run_end(a, i + 1, Class::StringBody);
    lemma_run_end_in_context(p, a, x, i + 1, Class::StringBody);
    let end = run_end(a, i + 1, Class::StringBody);
    assert(s.subrange(n + i + 1, n + end) =~= a.subrange(i + 1, end));
}

/// An operator or a punctuation mark of `a` is the same in `p + a + x`.
pub proof fn lemma_mark_in_context(p: Seq<char>, a: Seq<char>, x: Seq<char>, i: int)
    requires
        0 <= i < a.len(),
        x.len() == 0 || is_stop(x[0]),
    ensures
        two_char_at(p + a + x, p.len() + i) == moved(two_char_at(a, i), p.len() as int),
        single_char_at(p + a + x, p.len() + i) == moved(single_char_at(a, i), p.len() as int),
{
    lemma_chars_in_context(p, a, x);
}

/// A token of `a` that is no comment is the same token, at the same place of
/// `a`, when `a` stands between `p` and `x`, where `x` is empty or starts
/// with a space or a closing parenthesis.
pub proof fn lemma_token_in_context(p: Seq<char>, a: Seq<char>, x: Seq<char>, i: int)
    requires
        0 <= i < a.len(),
        token_at(a, i) matches Some((token, _)) && token.kind != TokenKind::LineComment,
        x.len() == 0 || is_stop(x[0]),
    ensures
        token_at(p + a + x, p.len() + i) == moved(token_at(a, i), p.len() as int),
{
    lemma_chars_in_context(p, a, x);
    lemma_comment_in_context(p, a, x, i);
    lemma_word_in_context(p, a, x, i);
    lemma_number_in_context(p, a, x, i);
    if string_at(a, i) is Some {
        lemma_string_in_context(p, a, x, i);
    }
    lemma_mark_in_context(p, a, x, i);
}

/// Whether none of `tokens` is a comment.
pub open spec fn no_comment(tokens: Seq<TokenView>) -> bool {
    forall|k: int| 0 <= k < tokens.len() ==> (#[trigger] tokens[k]).kind != TokenKind::LineComment
}

/// A run that starts in a stretch of characters of its class ends where the
/// run from the end of that stretch ends.
pub proof fn lemma_run_end_skips(s: Seq<char>, from: int, mid: int, class: Class)
    requires
        0 <= from <= mid <= s.len(),
        forall|k: int| from <= k < mid ==> class.holds(#[trigger] s[k]),
    ensures
        run_end(s, from, class) == run_end(s, mid, class),
    decreases mid - from,
{
    if from < mid {
        lemma_run_end_skips(s, from + 1, mid, class);
    }
}

/// Where `a` scans from `i` on to tokens of which none is a comment, and `a`
/// stands between `p` and `x`, where `x` is empty or starts with a space or a
/// closing parenthesis: the whole scans, from that place of `a` on, to the
/// same tokens, and then to what it scans to from the end of `a` on.
pub proof fn lemma_scan_in_context(p: Seq<char>, a: Seq<char>, x: Seq<char>, i: int)
    requires
        0 <= i <= a.len(),
        scan_from(a, i) matches Ok(tokens) && no_comment(tokens),
        x.len() == 0 || is_stop(x[0]),
    ensures
        scan_from(p + a + x, p.len() + i) == continued(
            scan_from(a, i)->Ok_0,
            scan_from(p + a + x, (p.len() + a.len()) as int),
        ),
    decreases a.len() - i,
{
    let s = p + a + x;
    let n = p.len() as int;
    let tokens = scan_from(a, i)->Ok_0;
    lemma_run_end(a, i, Class::Space);
    let start = run_end(a, i, Class::Space);
    assert forall|j: int| n <= j < n + a.len() implies #[trigger] s[j] == a[j - n] by {}
    if start >= a.len() {
        assert forall|k: int| n + i <= k < n + a.len() implies Class::Space.holds(
            #[trigger] s[k],
        ) by {
            assert(s[k] == a[k - n]);
        }
        lemma_run_end_skips(s, n + i, n + a.len(), Class::Space);
        law_leading_space(s, n + i);
        law_leading_space(s, n + a.len());
        assert(tokens =~= Seq::<TokenView>::empty());
        let rest = scan_from(s, n + a.len());
        if let Ok(more) = rest {
            assert(Seq::<TokenView>::empty() + more =~= more);
        }
    } else {
        lemma_run_end_in_context(p, a, x, i, Class::Space);
        lemma_token_advances(a, start);
        let (token, end) = token_at(a, start)->0;
        let rest = scan_from(a, end)->Ok_0;
        assert(tokens == seq![token] + rest);
        assert(tokens[0] == token);
        assert forall|k: int| 0 <= k < rest.len() implies (#[trigger] rest[k]).kind
            != TokenKind::LineComment by {
            assert(rest[k] == tokens[k + 1]);
        }
        lemma_token_in_context(p, a, x, start);
        lemma_scan_in_context(p, a, x, end);
        let tail = scan_from(s, n + a.len());
        assert(scan_from(s, n + i) == after(token, scan_from(s, n + end)));
        if let Ok(more) = tail {
            assert(seq![token] + (rest + more) =~= (seq![token] + rest) + more);
        }
    }
}

/// At the end of a text the scan is complete.
pub proof fn lemma_scan_at_end(s: Seq<char>)
    ensures
        scan_from(s, s.len() as int) == Ok::<Seq<TokenView>, Failure>(Seq::empty()),
{
}

/// A space changes nothing of what follows it.
pub proof fn lemma_skip_space(s: Seq<char>, i: int)
    requires
        0 <= i < s.len(),
        s[i] == ' ',
    ensures
        scan_from(s, i) == scan_from(s, i + 1),
{
    law_leading_space(s, i);
    law_leading_space(s, i + 1);
}

/// Whether the token is one of the operators of expressions.
pub open spec fn is_operator(kind: TokenKind) -> bool {
    arithmetic(kind) is Some || is_comparison(kind) || kind == TokenKind::Bang
}

/// An operator that stands at `i` with a space behind it is the token there.
pub proof fn lemma_operator_at(s: Seq<char>, i: int, kind: TokenKind)
    requires
        is_operator(kind),
        0 <= i,
        i + TokenView::plain(kind).lexeme().len() < s.len(),
        s.subrange(i, i + TokenView::plain(kind).lexeme().len()) == TokenView::plain(kind).lexeme(),
        s[i + TokenView::plain(kind).lexeme().len()] == ' ',
    ensures
        token_at(s, i) == Some(
            (TokenView::plain(kind), i + TokenView::plain(kind).lexeme().len()),
        ),
{
    reveal_strlit("+");
    reveal_strlit("-");
    reveal_strlit("*");
    reveal_strlit("/");
    reveal_strlit("!");
    reveal_strlit("!=");
    reveal_strlit("==");
    reveal_strlit(">");
    reveal_strlit(">=");
    reveal_strlit("<");
    reveal_strlit("<=");
    let lexeme = TokenView::plain(kind).lexeme();
    let word = s.subrange(i, i + lexeme.len());
    assert(word[0] == s[i]);
    if lexeme.len() == 2 {
        assert(word[1] == s[i + 1]);
    }
}

/// An operator with a space behind it, and then tokens: the operator, and
/// then those tokens.
pub proof fn lemma_operator_then(s: Seq<char>, i: int, kind: TokenKind, rest: Seq<TokenView>)
    requires
        is_operator(kind),
        0 <= i,
        i + TokenView::plain(kind).lexeme().len() < s.len(),
        s.subrange(i, i + TokenView::plain(kind).lexeme().len()) == TokenView::plain(kind).lexeme(),
        s[i + TokenView::plain(kind).lexeme().len()] == ' ',
        scan_from(s, i + TokenView::plain(kind).lexeme().len() + 1) == Ok::<
            Seq<TokenView>,
            Failure,
        >(rest),
    ensures
        scan_from(s, i) == Ok::<Seq<TokenView>, Failure>(seq![TokenView::plain(kind)] + rest),
{
    lemma_operator_at(s, i, kind);
    let lexeme = TokenView::plain(kind).lexeme();
    lemma_skip_space(s, i + lexeme.len());
    let word = s.subrange(i, i + lexeme.len());
    reveal_strlit("+");
    reveal_strlit("-");
    reveal_strlit("*");
    reveal_strlit("/");
    reveal_strlit("!");
    reveal_strlit("!=");
    reveal_strlit("==");
    reveal_strlit(">");
    reveal_strlit(">=");
    reveal_strlit("<");
    reveal_strlit("<=");
    assert(word[0] == s[i]);
    assert(!is_space(s[i]));
}

/// Every keyword starts with a letter.
pub proof fn lemma_keyword_starts_with_letter(word: Seq<char>)
    requires
        keyword_kind(word) is Some,
    ensures
        word.len() > 0,
        is_alpha(word[0]),
{
    reveal_strlit("and");
    reveal_strlit("class");
    reveal_strlit("else");
    reveal_strlit("false");
    reveal_strlit("fun");
    reveal_strlit("for");
    reveal_strlit("if");
    reveal_strlit("nil");
    reveal_strlit("or");
    reveal_strlit("print");
    reveal_strlit("return");
    reveal_strlit("super");
    reveal_strlit("this");
    reveal_strlit("true");
    reveal_strlit("var");
    reveal_strlit("while");
}

/// Whether `text` is a numeral, from its first character to its last.
pub open spec fn is_numeral(text: Seq<char>) -> bool {
    starts_numeral(text, 0) && numeral_end(text, 0) == Some(text.len() as int)
}

/// A numeral scans to one token, the number that carries it.
pub proof fn lemma_numeral_scans(text: Seq<char>)
    requires
        is_numeral(text),
    ensures
        scan(text) == Ok::<Seq<TokenView>, Failure>(
            seq![TokenView { kind: TokenKind::Number, text }],
        ),
{
    let token = TokenView { kind: TokenKind::Number, text };
    lemma_run_end(text, 0, Class::Alphanumeric);
    let end = run_end(text, 0, Class::Alphanumeric);
    let word = text.subrange(0, end);
    if keyword_kind(word) is Some {
        lemma_keyword_starts_with_letter(word);
    }
    assert(keyword_at(text, 0) is None);
    assert(text.subrange(0, text.len() as int) =~= text);
    assert(token_at(text, 0) == Some((token, text.len() as int)));
    lemma_scan_at_end(text);
    assert(seq![token] + Seq::<TokenView>::empty() =~= seq![token]);
}

/// `true` and `false` scan to one token each, the keyword.
pub proof fn lemma_truth_scans(value: bool)
    ensures
        scan(truth_text(value)) == Ok::<Seq<TokenView>, Failure>(
            seq![
                TokenView::plain(
                    if value {
                        TokenKind::True
                    } else {
                        TokenKind::False
                    },
                ),
            ],
        ),
{
    reveal_strlit("and");
    reveal_strlit("class");
    reveal_strlit("else");
    reveal_strlit("false");
    reveal_strlit("fun");
    reveal_strlit("for");
    reveal_strlit("if");
    reveal_strlit("nil");
    reveal_strlit("or");
    reveal_strlit("print");
    reveal_strlit("return");
    reveal_strlit("super");
    reveal_strlit("this");
    reveal_strlit("true");
    let text = truth_text(value);
    let token = TokenView::plain(
        if value {
            TokenKind::True
        } else {
            TokenKind::False
        },
    );
    lemma_run_end_is(text, 0, text.len() as int, Class::Alphanumeric);
    assert(text.subrange(0, text.len() as int) =~= text);
    assert(token_at(text, 0) == Some((token, text.len() as int)));
    lemma_scan_at_end(text);
    assert(seq![token] + Seq::<TokenView>::empty() =~= seq![token]);
}

/// Whether `value` can stand in a string literal: it is not empty and holds
/// no double quote.
pub open spec fn is_string_body(value: Seq<char>) -> bool {
    value.len() > 0 && forall|k: int| 0 <= k < value.len() ==> #[trigger] value[k] != '"'
}

/// A string between double quotes scans to one token, which carries the
/// string.
pub proof fn lemma_string_scans(value: Seq<char>)
    requires
        is_string_body(value),
    ensures
        scan(quoted(value)) == Ok::<Seq<TokenView>, Failure>(
            seq![TokenView { kind: TokenKind::String, text: value }],
        ),
{
    reveal_strlit("\"");
    let text = quoted(value);
    let token = TokenView { kind: TokenKind::String, text: value };
    let close: int = (value.len() + 1) as int;
    assert(text.len() == close + 1);
    assert(text[0] == '"');
    assert(text[close] == '"');
    assert forall|k: int| 1 <= k < close implies Class::StringBody.holds(#[trigger] text[k]) by {
        assert(text[k] == value[k - 1]);
    }
    lemma_run_end_is(text, 1, close, Class::StringBody);
    assert(text.subrange(1, close) =~= value);
    assert(token_at(text, 0) == Some((token, text.len() as int)));
    lemma_scan_at_end(text);
    assert(seq![token] + Seq::<TokenView>::empty() =~= seq![token]);
}

/// The expression written out, where `texts` gives the text of each number.
pub open spec fn source(expr: Expr, texts: spec_fn(u64) -> Seq<char>) -> Seq<char>
    decreases expr,
{
    match expr {
        Expr::NumberLiteral(node) => texts(node.value),
        Expr::BooleanLiteral(node) => truth_text(node.value),
        Expr::StringLiteral(node) => quoted(node.value@),
        Expr::Grouping(node) => grouped(source(node.expr, texts)),
        Expr::Unary(node) => prefixed(node.operator@.lexeme(), source(node.right, texts)),
        Expr::Logical(node) => infixed(
            source(node.left, texts),
            node.operator@.lexeme(),
            source(node.right, texts),
        ),
        Expr::Binary(node) => infixed(
            source(node.lhs, texts),
            node.op@.lexeme(),
            source(node.rhs, texts),
        ),
    }
}

/// The tokens of the expression, in the order in which it is written, where
/// `texts` gives the numeral of each number.
pub open spec fn tokens(expr: Expr, texts: spec_fn(u64) -> Seq<char>) -> Seq<TokenView>
    decreases expr,
{
    match expr {
        Expr::NumberLiteral(node) => seq![
            TokenView { kind: TokenKind::Number, text: texts(node.value) },
        ],
        Expr::BooleanLiteral(node) => seq![
            TokenView::plain(
                if node.value {
                    TokenKind::True
                } else {
                    TokenKind::False
                },
            ),
        ],
        Expr::StringLiteral(node) => seq![
            TokenView { kind: TokenKind::String, text: node.value@ },
        ],
        Expr::Grouping(node) => seq![TokenView::plain(TokenKind::LeftParen)] + tokens(
            node.expr,
            texts,
        ) + seq![TokenView::plain(TokenKind::RightParen)],
        Expr::Unary(node) => seq![node.operator@] + tokens(node.right, texts),
        Expr::Logical(node) => tokens(node.left, texts) + seq![node.operator@] + tokens(
            node.right,
            texts,
        ),
        Expr::Binary(node) => tokens(node.lhs, texts) + seq![node.op@] + tokens(node.rhs, texts),
    }
}

/// Whether the expression can be read back from its text: each operator is
/// one that its node applies, each string can stand between double quotes,
/// and the text of each number is a numeral.
///
/// The last leaves out the numbers that are written with a sign or a word:
/// the negative ones, the infinite ones, and what is no number.
pub open spec fn readable(expr: Expr, texts: spec_fn(u64) -> Seq<char>) -> bool
    decreases expr,
{
    match expr {
        Expr::NumberLiteral(node) => is_numeral(texts(node.value)),
        Expr::BooleanLiteral(node) => true,
        Expr::StringLiteral(node) => is_string_body(node.value@),
        Expr::Grouping(node) => readable(node.expr, texts),
        Expr::Unary(node) => (node.operator@.kind == TokenKind::Minus || node.operator@.kind
            == TokenKind::Bang) && readable(node.right, texts),
        Expr::Logical(node) => is_comparison(node.operator@.kind) && readable(node.left, texts)
            && readable(node.right, texts),
        Expr::Binary(node) => arithmetic(node.op@.kind) is Some && readable(node.lhs, texts)
            && readable(node.rhs, texts),
    }
}

/// An operator and a text behind it, with one space between them, scan to
/// the operator and then to what the text scans to.
pub proof fn lemma_prefixed_scans(
    before: Seq<char>,
    operator: TokenView,
    operand: Seq<char>,
    rest: Seq<TokenView>,
)
    requires
        is_operator(operator.kind),
        operator == TokenView::plain(operator.kind),
        scan(operand) == Ok::<Seq<TokenView>, Failure>(rest),
        no_comment(rest),
    ensures
        scan_from(before + prefixed(operator.lexeme(), operand), before.len() as int) == Ok::<
            Seq<TokenView>,
            Failure,
        >(seq![operator] + rest),
{
    reveal_strlit(" ");
    let lexeme = operator.lexeme();
    let p = before + lexeme + " "@;
    let empty = Seq::<char>::empty();
    let s = before + prefixed(lexeme, operand);
    assert(s =~= p + operand + empty);
    lemma_scan_in_context(p, operand, empty, 0);
    lemma_scan_at_end(s);
    assert(rest + Seq::<TokenView>::empty() =~= rest);
    let i = before.len() as int;
    assert(s.subrange(i, i + lexeme.len()) =~= lexeme);
    assert(s[i + lexeme.len()] == ' ');
    lemma_operator_then(s, i, operator.kind, rest);
}

/// The text of an expression that can be read back scans to the tokens of
/// that expression, of which none is a comment.
pub proof fn lemma_source_scans(expr: Expr, texts: spec_fn(u64) -> Seq<char>)
    requires
        readable(expr, texts),
    ensures
        scan(source(expr, texts)) == Ok::<Seq<TokenView>, Failure>(tokens(expr, texts)),
        no_comment(tokens(expr, texts)),
    decreases expr,
{
    let empty = Seq::<char>::empty();
    match expr {
        Expr::NumberLiteral(node) => {
            lemma_numeral_scans(texts(node.value));
        },
        Expr::BooleanLiteral(node) => {
            lemma_truth_scans(node.value);
        },
        Expr::StringLiteral(node) => {
            lemma_string_scans(node.value@);
        },
        Expr::Grouping(node) => {
            lemma_source_scans(node.expr, texts);
            reveal_strlit("(");
            reveal_strlit(")");
            let inner = source(node.expr, texts);
            let inside = tokens(node.expr, texts);
            let s = source(expr, texts);
            let open = TokenView::plain(TokenKind::LeftParen);
            let close = TokenView::plain(TokenKind::RightParen);
            assert(s =~= "("@ + inner + ")"@);
            lemma_scan_in_context("("@, inner, ")"@, 0);
            let last: int = (inner.len() + 1) as int;
            assert(s[0] == '(');
            assert(s[last] == ')');
            assert(s.len() == last + 1);
            lemma_scan_at_end(s);
            assert(token_at(s, last) == Some((close, last + 1)));
            assert(scan_from(s, last) == Ok::<Seq<TokenView>, Failure>(seq![close])) by {
                assert(seq![close] + Seq::<TokenView>::empty() =~= seq![close]);
            }
            assert(token_at(s, 0) == Some((open, 1int)));
            assert(seq![open] + (inside + seq![close]) =~= seq![open] + inside + seq![close]);
        },
        Expr::Unary(node) => {
            lemma_source_scans(node.right, texts);
            let operand = source(node.right, texts);
            lemma_prefixed_scans(empty, node.operator@, operand, tokens(node.right, texts));
            assert(empty + prefixed(node.operator@.lexeme(), operand) =~= source(expr, texts));
        },
        Expr::Logical(node) => {
            lemma_source_scans(node.left, texts);
            lemma_source_scans(node.right, texts);
            lemma_infixed_scans(
                source(node.left, texts),
                tokens(node.left, texts),
                node.operator@,
                source(node.right, texts),
                tokens(node.right, texts),
            );
        },
        Expr::Binary(node) => {
            lemma_source_scans(node.lhs, texts);
            lemma_source_scans(node.rhs, texts);
            lemma_infixed_scans(
                source(node.lhs, texts),
                tokens(node.lhs, texts),
                node.op@,
                source(node.rhs, texts),
                tokens(node.rhs, texts),
            );
        },
    }
}

/// Two texts with an operator between them, and one space at each side of
/// it, scan to what the first scans to, the operator, and what the second
/// scans to.
pub proof fn lemma_infixed_scans(
    left: Seq<char>,
    left_tokens: Seq<TokenView>,
    operator: TokenView,
    right: Seq<char>,
    right_tokens: Seq<TokenView>,
)
    requires
        is_operator(operator.kind),
        operator == TokenView::plain(operator.kind),
        scan(left) == Ok::<Seq<TokenView>, Failure>(left_tokens),
        no_comment(left_tokens),
        scan(right) == Ok::<Seq<TokenView>, Failure>(right_tokens),
        no_comment(right_tokens),
    ensures
        scan(infixed(left, operator.lexeme(), right)) == Ok::<Seq<TokenView>, Failure>(
            left_tokens + seq![operator] + right_tokens,
        ),
        no_comment(left_tokens + seq![operator] + right_tokens),
{
    reveal_strlit(" ");
    let empty = Seq::<char>::empty();
    let lexeme = operator.lexeme();
    let s = infixed(left, lexeme, right);
    let x = " "@ + prefixed(lexeme, right);
    assert(s =~= empty + left + x);
    lemma_scan_in_context(empty, left, x, 0);
    let before = left + " "@;
    assert(s =~= before + prefixed(lexeme, right));
    lemma_prefixed_scans(before, operator, right, right_tokens);
    assert(s[left.len() as int] == ' ');
    lemma_skip_space(s, left.len() as int);
    assert(left_tokens + (seq![operator] + right_tokens) =~= left_tokens + seq![operator]
        + right_tokens);
}

/// Whether `number_text` returns `texts(bits)` for each number `bits`, and
/// nothing else.
pub open spec fn computes<G: Fn(u64) -> String>(
    number_text: G,
    texts: spec_fn(u64) -> Seq<char>,
) -> bool {
    forall|bits: u64, numeral: String| #[trigger]
        call_ensures(number_text, (bits,), numeral) ==> numeral@ == texts(bits)
}

/// What an expression is printed as, where the text of each number is
/// determined: the expression written out with those texts.
pub proof fn lemma_printed_is_source<G: Fn(u64) -> String>(
    expr: Expr,
    number_text: G,
    texts: spec_fn(u64) -> Seq<char>,
    text: Seq<char>,
)
    requires
        prints(expr, number_text, text),
        computes(number_text, texts),
    ensures
        text == source(expr, texts),
    decreases expr,
{
    match expr {
        Expr::NumberLiteral(node) => {},
        Expr::BooleanLiteral(node) => {},
        Expr::StringLiteral(node) => {},
        Expr::Grouping(node) => {
            let inner = choose|inner: Seq<char>|
                written(inner) && prints(node.expr, number_text, inner) && text == grouped(inner);
            lemma_printed_is_source(node.expr, number_text, texts, inner);
        },
        Expr::Unary(node) => {
            let operand = choose|operand: Seq<char>|
                written(operand) && prints(node.right, number_text, operand) && text == prefixed(
                    node.operator@.lexeme(),
                    operand,
                );
            lemma_printed_is_source(node.right, number_text, texts, operand);
        },
        Expr::Logical(node) => {
            let (left, right) = choose|left: Seq<char>, right: Seq<char>|
                written(left) && written(right) && prints(node.left, number_text, left) && prints(
                    node.right,
                    number_text,
                    right,
                ) && text == infixed(left, node.operator@.lexeme(), right);
            lemma_printed_is_source(node.left, number_text, texts, left);
            lemma_printed_is_source(node.right, number_text, texts, right);
        },
        Expr::Binary(node) => {
            let (left, right) = choose|left: Seq<char>, right: Seq<char>|
                written(left) && written(right) && prints(node.lhs, number_text, left) && prints(
                    node.rhs,
                    number_text,
                    right,
                ) && text == infixed(left, node.op@.lexeme(), right);
            lemma_printed_is_source(node.lhs, number_text, texts, left);
            lemma_printed_is_source(node.rhs, number_text, texts, right);
        },
    }
}

/// What is printed can be read: the text that an expression is printed as
/// scans, without a failure, to the tokens of that expression, in the order
/// in which it is written. White space apart, printing gives back the source
/// of the expression.
///
/// This holds of the expressions that can be read back at all, where the
/// text of each number is determined: see `readable` and `computes`.
pub proof fn law_printed_text_scans<G: Fn(u64) -> String>(
    expr: Expr,
    number_text: G,
    texts: spec_fn(u64) -> Seq<char>,
    text: Seq<char>,
)
    requires
        prints(expr, number_text, text),
        computes(number_text, texts),
        readable(expr, texts),
    ensures
        scan(text) == Ok::<Seq<TokenView>, Failure>(tokens(expr, texts)),
{
    lemma_printed_is_source(expr, number_text, texts, text);
    lemma_source_scans(expr, texts);
}

/// The tokens as they are written, with one space between each two.
pub open spec fn spaced(tokens: Seq<TokenView>) -> Seq<char>
    decreases tokens.len(),
{
    if tokens.len() == 0 {
        Seq::empty()
    } else if tokens.len() == 1 {
        tokens[0].lexeme()
    } else {
        tokens[0].lexeme() + " "@ + spaced(tokens.skip(1))
    }
}

/// Tokens that scan alone scan together: where each of `tokens`, written out
/// by itself, scans to that one token, and none is a comment, all of them
/// written out with one space between each two scan to `tokens`.
pub proof fn law_spaced_tokens_scan(tokens: Seq<TokenView>)
    requires
        forall|k: int|
            0 <= k < tokens.len() ==> scan((#[trigger] tokens[k]).lexeme()) == Ok::<
                Seq<TokenView>,
                Failure,
            >(seq![tokens[k]]) && tokens[k].kind != TokenKind::LineComment,
    ensures
        scan(spaced(tokens)) == Ok::<Seq<TokenView>, Failure>(tokens),
    decreases tokens.len(),
{
    let empty = Seq::<char>::empty();
    if tokens.len() == 0 {
        assert(tokens =~= Seq::<TokenView>::empty());
    } else if tokens.len() == 1 {
        assert(tokens =~= seq![tokens[0]]);
    } else {
        reveal_strlit(" ");
        let token = tokens[0];
        let first = token.lexeme();
        let rest = tokens.skip(1);
        assert forall|k: int| 0 <= k < rest.len() implies scan((#[trigger] rest[k]).lexeme())
            == Ok::<Seq<TokenView>, Failure>(seq![rest[k]]) && rest[k].kind
            != TokenKind::LineComment by {
            assert(rest[k] == tokens[k + 1]);
        }
        law_spaced_tokens_scan(rest);
        let s = spaced(tokens);
        let x = " "@ + spaced(rest);
        assert(s =~= empty + first + x);
        assert(no_comment(seq![token]));
        lemma_scan_in_context(empty, first, x, 0);
        assert(s[first.len() as int] == ' ');
        lemma_skip_space(s, first.len() as int);
        let p = first + " "@;
        assert(s =~= p + spaced(rest) + empty);
        assert(no_comment(rest));
        lemma_scan_in_context(p, spaced(rest), empty, 0);
        lemma_scan_at_end(s);
        assert(rest + Seq::<TokenView>::empty() =~= rest);
        assert(seq![token] + rest =~= tokens);
    }
}

} // verus!
