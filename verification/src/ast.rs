//! Expressions: a tree of operators and literals, which can be printed and
//! evaluated.
//!
//! Numbers are held as bits (see `binary64`). Evaluation compares and negates
//! them itself; for sums, differences, products and quotients it calls the
//! arithmetic that the caller hands in, and its contract says what it makes of
//! whatever that arithmetic returns. Printing likewise calls what the caller
//! hands in for the text of a number.
use crate::binary64;
use crate::tokens::{quote, quoted, Token, TokenKind};
use vstd::prelude::*;

verus! {

/// The four operations that evaluation asks of its caller.
#[derive(Clone, Copy, Debug, PartialEq, Eq, Hash, Structural)]
pub enum ArithOp {
    Add,
    Subtract,
    Multiply,
    Divide,
}

/// The three kinds of value.
#[derive(Clone, Copy, Debug, PartialEq, Eq, Hash, Structural)]
pub enum ValueKind {
    Number,
    Boolean,
    String,
}

/// What an expression evaluates to.
#[derive(Clone, Debug, PartialEq)]
pub enum Value {
    /// A number, as its bits.
    Number(u64),
    Boolean(bool),
    String(String),
}

impl Value {
    /// The kind of this value.
    pub open spec fn spec_kind(&self) -> ValueKind {
        match self {
            Value::Number(_) => ValueKind::Number,
            Value::Boolean(_) => ValueKind::Boolean,
            Value::String(_) => ValueKind::String,
        }
    }

    /// The kind of this value.
    #[verifier::when_used_as_spec(spec_kind)]
    pub fn kind(&self) -> (kind: ValueKind)
        ensures
            kind == self.spec_kind(),
    {
        match self {
            Value::Number(_) => ValueKind::Number,
            Value::Boolean(_) => ValueKind::Boolean,
            Value::String(_) => ValueKind::String,
        }
    }

    /// The literal that stands for this value.
    pub fn literal(self) -> (expr: Expr)
        ensures
            expr == literal_of(self),
    {
        match self {
            Value::Number(value) => Expr::NumberLiteral(NumberLiteral::new(value)),
            Value::Boolean(value) => Expr::BooleanLiteral(BooleanLiteral::new(value)),
            Value::String(value) => Expr::StringLiteral(StringLiteral::new(value)),
        }
    }
}

/// The literal that stands for `value`.
pub open spec fn literal_of(value: Value) -> Expr {
    match value {
        Value::Number(value) => Expr::NumberLiteral(Box::new(NumberLiteral { value })),
        Value::Boolean(value) => Expr::BooleanLiteral(Box::new(BooleanLiteral { value })),
        Value::String(value) => Expr::StringLiteral(Box::new(StringLiteral { value })),
    }
}

/// Why an expression has no value.
#[derive(Clone, Copy, Debug, PartialEq, Eq, Hash, Structural)]
pub enum EvalError {
    /// The operator was applied to a value of a kind that it does not take.
    TypeMismatch { operator: TokenKind, expected: ValueKind, found: ValueKind },
    /// The token is no operator of the node that holds it.
    UnsupportedOperator { operator: TokenKind },
}

/// A value, or the reason why there is none.
pub type Outcome = Result<Value, EvalError>;

/// An expression. Each node owns its operands.
#[derive(Debug, PartialEq)]
pub enum Expr {
    Binary(Box<Binary>),
    Logical(Box<Logical>),
    Unary(Box<Unary>),
    Grouping(Box<Grouping>),
    StringLiteral(Box<StringLiteral>),
    NumberLiteral(Box<NumberLiteral>),
    BooleanLiteral(Box<BooleanLiteral>),
}

/// An arithmetic operator between two operands: `+`, `-`, `*` or `/`.
#[derive(Debug, PartialEq)]
pub struct Binary {
    pub lhs: Expr,
    pub op: Token,
    pub rhs: Expr,
}

/// An expression in parentheses.
#[derive(Debug, PartialEq)]
pub struct Grouping {
    pub expr: Expr,
}

/// A string.
#[derive(Debug, PartialEq)]
pub struct StringLiteral {
    pub value: String,
}

/// A number, as its bits.
#[derive(Debug, PartialEq)]
pub struct NumberLiteral {
    pub value: u64,
}

/// A truth value.
#[derive(Debug, PartialEq)]
pub struct BooleanLiteral {
    pub value: bool,
}

/// A comparison between two operands: `==`, `!=`, `>`, `>=`, `<` or `<=`.
#[derive(Debug, PartialEq)]
pub struct Logical {
    pub left: Expr,
    pub operator: Token,
    pub right: Expr,
}

/// An operator before its operand: `-` or `!`.
#[derive(Debug, PartialEq)]
pub struct Unary {
    pub operator: Token,
    pub right: Expr,
}

// ---------------------------------------------------------------------------
// What the operators do
// ---------------------------------------------------------------------------
/// What a unary operator makes of a value: `-` negates a number, `!` inverts
/// a truth value, and neither takes anything else.
pub open spec fn unary_outcome(operator: TokenKind, operand: Value) -> Outcome {
    match operator {
        TokenKind::Minus => match operand {
            Value::Number(n) => Ok(Value::Number(binary64::neg(n))),
            other => Err(
                EvalError::TypeMismatch {
                    operator,
                    expected: ValueKind::Number,
                    found: other.kind(),
                },
            ),
        },
        TokenKind::Bang => match operand {
            Value::Boolean(b) => Ok(Value::Boolean(!b)),
            other => Err(
                EvalError::TypeMismatch {
                    operator,
                    expected: ValueKind::Boolean,
                    found: other.kind(),
                },
            ),
        },
        _ => Err(EvalError::UnsupportedOperator { operator }),
    }
}

/// The two numbers that an operator on numbers is given, or the mismatch of
/// the first operand that is no number.
pub open spec fn number_operands(operator: TokenKind, left: Value, right: Value) -> Result<
    (u64, u64),
    EvalError,
> {
    match left {
        Value::Number(a) => match right {
            Value::Number(b) => Ok((a, b)),
            other => Err(
                EvalError::TypeMismatch {
                    operator,
                    expected: ValueKind::Number,
                    found: other.kind(),
                },
            ),
        },
        other => Err(
            EvalError::TypeMismatch { operator, expected: ValueKind::Number, found: other.kind() },
        ),
    }
}

/// What a comparison says of two numbers, or `None` where the token is no
/// comparison.
pub open spec fn comparison(operator: TokenKind, a: u64, b: u64) -> Option<bool> {
    match operator {
        TokenKind::EqualEqual => Some(binary64::eq(a, b)),
        TokenKind::BangEqual => Some(!binary64::eq(a, b)),
        TokenKind::Greater => Some(binary64::lt(b, a)),
        TokenKind::GreaterEqual => Some(binary64::le(b, a)),
        TokenKind::Less => Some(binary64::lt(a, b)),
        TokenKind::LessEqual => Some(binary64::le(a, b)),
        _ => None,
    }
}

/// Whether the token is a comparison.
pub open spec fn is_comparison(operator: TokenKind) -> bool {
    operator == TokenKind::EqualEqual || operator == TokenKind::BangEqual || operator
        == TokenKind::Greater || operator == TokenKind::GreaterEqual || operator
        == TokenKind::Less || operator == TokenKind::LessEqual
}

/// What a comparison makes of two values: a truth value where both are
/// numbers, a mismatch elsewhere.
pub open spec fn logical_outcome(operator: TokenKind, left: Value, right: Value) -> Outcome {
    if !is_comparison(operator) {
        Err(EvalError::UnsupportedOperator { operator })
    } else {
        match number_operands(operator, left, right) {
            Ok((a, b)) => Ok(Value::Boolean(comparison(operator, a, b)->0)),
            Err(error) => Err(error),
        }
    }
}

/// The operation that an arithmetic operator stands for, or `None` where the
/// token is no arithmetic operator.
pub open spec fn arithmetic(operator: TokenKind) -> Option<ArithOp> {
    match operator {
        TokenKind::Plus => Some(ArithOp::Add),
        TokenKind::Minus => Some(ArithOp::Subtract),
        TokenKind::Star => Some(ArithOp::Multiply),
        TokenKind::Slash => Some(ArithOp::Divide),
        _ => None,
    }
}

/// What an arithmetic operator asks of the arithmetic, given two values: the
/// operation and the two numbers; or why it asks nothing.
pub open spec fn binary_request(operator: TokenKind, left: Value, right: Value) -> Result<
    (ArithOp, u64, u64),
    EvalError,
> {
    match arithmetic(operator) {
        None => Err(EvalError::UnsupportedOperator { operator }),
        Some(op) => match number_operands(operator, left, right) {
            Ok((a, b)) => Ok((op, a, b)),
            Err(error) => Err(error),
        },
    }
}

/// Whether `outcome` is what an arithmetic operator makes of two values, with
/// `arith` as the arithmetic: a number that `arith` may return for the
/// operation and the two numbers; or the reason why `arith` is not asked.
pub open spec fn binary_outcome<F: Fn(ArithOp, u64, u64) -> u64>(
    operator: TokenKind,
    left: Value,
    right: Value,
    arith: F,
    outcome: Outcome,
) -> bool {
    match binary_request(operator, left, right) {
        Ok((op, a, b)) => exists|result: u64| #[trigger]
            call_ensures(arith, (op, a, b), result) && outcome == Ok::<Value, EvalError>(
                Value::Number(result),
            ),
        Err(error) => outcome == Err::<Value, EvalError>(error),
    }
}

/// Holds of every outcome. It stands in `evaluates` beside each outcome that
/// is quantified over, for the prover to find that outcome by.
pub open spec fn reached(outcome: Outcome) -> bool {
    true
}

/// Whether `outcome` is what `expr` evaluates to, with `arith` as the
/// arithmetic.
///
/// A literal evaluates to its value, a group to what its inside evaluates to.
/// An operator has its operands evaluated first, from left to right; the first
/// that fails is the outcome; where none fails, the operator is applied.
pub open spec fn evaluates<F: Fn(ArithOp, u64, u64) -> u64>(
    expr: Expr,
    arith: F,
    outcome: Outcome,
) -> bool
    decreases expr,
{
    match expr {
        Expr::NumberLiteral(node) => outcome == Ok::<Value, EvalError>(Value::Number(node.value)),
        Expr::BooleanLiteral(node) => outcome == Ok::<Value, EvalError>(
            Value::Boolean(node.value),
        ),
        Expr::StringLiteral(node) => outcome == Ok::<Value, EvalError>(Value::String(node.value)),
        Expr::Grouping(node) => evaluates(node.expr, arith, outcome),
        Expr::Unary(node) => exists|operand: Outcome|
            reached(operand) && evaluates(node.right, arith, operand) && match operand {
                Err(error) => outcome == Err::<Value, EvalError>(error),
                Ok(value) => outcome == unary_outcome(node.operator@.kind, value),
            },
        Expr::Logical(node) => exists|left: Outcome|
            reached(left) && evaluates(node.left, arith, left) && match left {
                Err(error) => outcome == Err::<Value, EvalError>(error),
                Ok(l) => exists|right: Outcome|
                    reached(right) && evaluates(node.right, arith, right) && match right {
                        Err(error) => outcome == Err::<Value, EvalError>(error),
                        Ok(r) => outcome == logical_outcome(node.operator@.kind, l, r),
                    },
            },
        Expr::Binary(node) => exists|left: Outcome|
            reached(left) && evaluates(node.lhs, arith, left) && match left {
                Err(error) => outcome == Err::<Value, EvalError>(error),
                Ok(l) => exists|right: Outcome|
                    reached(right) && evaluates(node.rhs, arith, right) && match right {
                        Err(error) => outcome == Err::<Value, EvalError>(error),
                        Ok(r) => binary_outcome(node.op@.kind, l, r, arith, outcome),
                    },
            },
    }
}

// ---------------------------------------------------------------------------
// How expressions are written
// ---------------------------------------------------------------------------
/// `true` or `false`.
pub open spec fn truth_text(value: bool) -> Seq<char> {
    if value {
        "true"@
    } else {
        "false"@
    }
}

/// `inner` between parentheses.
pub open spec fn grouped(inner: Seq<char>) -> Seq<char> {
    "("@ + inner + ")"@
}

/// The operator, one space, the operand.
pub open spec fn prefixed(operator: Seq<char>, operand: Seq<char>) -> Seq<char> {
    operator + " "@ + operand
}

/// The left operand, the operator and the right operand, one space between
/// each two.
pub open spec fn infixed(left: Seq<char>, operator: Seq<char>, right: Seq<char>) -> Seq<char> {
    left + " "@ + operator + " "@ + right
}

/// Holds of every text. It stands in `prints` beside each text that is
/// quantified over, for the prover to find that text by.
pub open spec fn written(text: Seq<char>) -> bool {
    true
}

/// Whether `text` is `expr` written out, with `number_text` giving the text
/// of each number.
///
/// A string stands between double quotes, a truth value is `true` or `false`,
/// a number is what `number_text` may return for it. A group stands between
/// parentheses. A unary operator stands before its operand, an operator on
/// two operands between them, with one space at each place where operator and
/// operand meet. Nothing is evaluated.
pub open spec fn prints<G: Fn(u64) -> String>(expr: Expr, number_text: G, text: Seq<char>) -> bool
    decreases expr,
{
    match expr {
        Expr::NumberLiteral(node) => exists|numeral: String| #[trigger]
            call_ensures(number_text, (node.value,), numeral) && text == numeral@,
        Expr::BooleanLiteral(node) => text == truth_text(node.value),
        Expr::StringLiteral(node) => text == quoted(node.value@),
        Expr::Grouping(node) => exists|inner: Seq<char>|
            written(inner) && prints(node.expr, number_text, inner) && text == grouped(inner),
        Expr::Unary(node) => exists|operand: Seq<char>|
            written(operand) && prints(node.right, number_text, operand) && text == prefixed(
                node.operator@.lexeme(),
                operand,
            ),
        Expr::Logical(node) => exists|left: Seq<char>, right: Seq<char>|
            written(left) && written(right) && prints(node.left, number_text, left) && prints(
                node.right,
                number_text,
                right,
            ) && text == infixed(left, node.operator@.lexeme(), right),
        Expr::Binary(node) => exists|left: Seq<char>, right: Seq<char>|
            written(left) && written(right) && prints(node.lhs, number_text, left) && prints(
                node.rhs,
                number_text,
                right,
            ) && text == infixed(left, node.op@.lexeme(), right),
    }
}

/// `inner` between parentheses.
pub fn group(inner: &str) -> (text: String)
    ensures
        text@ == grouped(inner@),
{
    let mut text = String::from_str("(");
    text.append(inner);
    text.append(")");
    text
}

/// The operator, one space, the operand.
pub fn prefix(operator: &str, operand: &str) -> (text: String)
    ensures
        text@ == prefixed(operator@, operand@),
{
    let mut text = String::from_str(operator);
    text.append(" ");
    text.append(operand);
    text
}

/// The left operand, the operator and the right operand, one space between
/// each two.
pub fn infix(left: &str, operator: &str, right: &str) -> (text: String)
    ensures
        text@ == infixed(left@, operator@, right@),
{
    let mut text = String::from_str(left);
    text.append(" ");
    text.append(operator);
    text.append(" ");
    text.append(right);
    text
}

/// Applies a unary operator to a value.
pub fn apply_unary(operator: TokenKind, operand: Value) -> (outcome: Outcome)
    ensures
        outcome == unary_outcome(operator, operand),
{
    match operator {
        TokenKind::Minus => match operand {
            Value::Number(n) => Ok(Value::Number(binary64::negate(n))),
            other => Err(
                EvalError::TypeMismatch {
                    operator,
                    expected: ValueKind::Number,
                    found: other.kind(),
                },
            ),
        },
        TokenKind::Bang => match operand {
            Value::Boolean(b) => Ok(Value::Boolean(!b)),
            other => Err(
                EvalError::TypeMismatch {
                    operator,
                    expected: ValueKind::Boolean,
                    found: other.kind(),
                },
            ),
        },
        _ => Err(EvalError::UnsupportedOperator { operator }),
    }
}

/// The two numbers that an operator on numbers is given, or the mismatch of
/// the first operand that is no number.
pub fn operands_of(operator: TokenKind, left: &Value, right: &Value) -> (operands: Result<
    (u64, u64),
    EvalError,
>)
    ensures
        operands == number_operands(operator, *left, *right),
{
    match left {
        Value::Number(a) => match right {
            Value::Number(b) => Ok((*a, *b)),
            other => Err(
                EvalError::TypeMismatch {
                    operator,
                    expected: ValueKind::Number,
                    found: other.kind(),
                },
            ),
        },
        other => Err(
            EvalError::TypeMismatch {
                operator,
                expected: ValueKind::Number,
                found: other.kind(),
            },
        ),
    }
}

/// What a comparison says of two numbers, or `None` where the token is no
/// comparison.
pub fn compare(operator: TokenKind, a: u64, b: u64) -> (truth: Option<bool>)
    ensures
        truth == comparison(operator, a, b),
        truth is Some == is_comparison(operator),
{
    match operator {
        TokenKind::EqualEqual => Some(binary64::equal(a, b)),
        TokenKind::BangEqual => Some(!binary64::equal(a, b)),
        TokenKind::Greater => Some(binary64::less(b, a)),
        TokenKind::GreaterEqual => Some(binary64::less_or_equal(b, a)),
        TokenKind::Less => Some(binary64::less(a, b)),
        TokenKind::LessEqual => Some(binary64::less_or_equal(a, b)),
        _ => None,
    }
}

/// Applies a comparison to two values.
pub fn apply_logical(operator: TokenKind, left: &Value, right: &Value) -> (outcome: Outcome)
    ensures
        outcome == logical_outcome(operator, *left, *right),
{
    if compare(operator, 0, 0).is_none() {
        return Err(EvalError::UnsupportedOperator { operator });
    }
    match operands_of(operator, left, right) {
        Ok((a, b)) => match compare(operator, a, b) {
            Some(truth) => Ok(Value::Boolean(truth)),
            None => Err(EvalError::UnsupportedOperator { operator }),
        },
        Err(error) => Err(error),
    }
}

/// What an arithmetic operator asks of the arithmetic, given two values.
pub fn request_of(operator: TokenKind, left: &Value, right: &Value) -> (request: Result<
    (ArithOp, u64, u64),
    EvalError,
>)
    ensures
        request == binary_request(operator, *left, *right),
{
    let op = match operator {
        TokenKind::Plus => ArithOp::Add,
        TokenKind::Minus => ArithOp::Subtract,
        TokenKind::Star => ArithOp::Multiply,
        TokenKind::Slash => ArithOp::Divide,
        _ => {
            return Err(EvalError::UnsupportedOperator { operator });
        },
    };
    match operands_of(operator, left, right) {
        Ok((a, b)) => Ok((op, a, b)),
        Err(error) => Err(error),
    }
}

impl Expr {
    /// Writes the expression out, with `number_text` giving the text of each
    /// number.
    pub fn print<G: Fn(u64) -> String>(&self, number_text: &G) -> (text: String)
        requires
            forall|bits: u64| call_requires(*number_text, (bits,)),
        ensures
            prints(*self, *number_text, text@),
        decreases self,
    {
        match self {
            Expr::Binary(node) => node.print(number_text),
            Expr::Logical(node) => node.print(number_text),
            Expr::Unary(node) => node.print(number_text),
            Expr::Grouping(node) => node.print(number_text),
            Expr::StringLiteral(node) => node.print(),
            Expr::NumberLiteral(node) => node.print(number_text),
            Expr::BooleanLiteral(node) => node.print(),
        }
    }

    /// Evaluates the expression, with `arith` as the arithmetic.
    pub fn eval<F: Fn(ArithOp, u64, u64) -> u64>(&self, arith: &F) -> (outcome: Outcome)
        requires
            forall|op: ArithOp, a: u64, b: u64| call_requires(*arith, (op, a, b)),
        ensures
            evaluates(*self, *arith, outcome),
        decreases self,
    {
        match self {
            Expr::Binary(node) => node.eval(arith),
            Expr::Logical(node) => node.eval(arith),
            Expr::Unary(node) => node.eval(arith),
            Expr::Grouping(node) => node.eval(arith),
            Expr::StringLiteral(node) => Ok(node.eval()),
            Expr::NumberLiteral(node) => Ok(node.eval()),
            Expr::BooleanLiteral(node) => Ok(node.eval()),
        }
    }
}

impl Binary {
    pub fn new(lhs: Expr, op: Token, rhs: Expr) -> (node: Box<Self>)
        ensures
            *node == (Binary { lhs, op, rhs }),
    {
        Box::new(Binary { lhs, op, rhs })
    }

    /// This node as an expression.
    pub open spec fn expr(self) -> Expr {
        Expr::Binary(Box::new(self))
    }

    /// Both operands, and the operator between them.
    pub fn print<G: Fn(u64) -> String>(&self, number_text: &G) -> (text: String)
        requires
            forall|bits: u64| call_requires(*number_text, (bits,)),
        ensures
            prints(self.expr(), *number_text, text@),
        decreases self,
    {
        let left = self.lhs.print(number_text);
        let right = self.rhs.print(number_text);
        proof {
            assert(written(left@) && written(right@));
        }
        infix(left.as_str(), self.op.lexeme().as_str(), right.as_str())
    }

    /// Evaluates both operands, then has `arith` apply the operator to the
    /// two numbers.
    pub fn eval<F: Fn(ArithOp, u64, u64) -> u64>(&self, arith: &F) -> (outcome: Outcome)
        requires
            forall|op: ArithOp, a: u64, b: u64| call_requires(*arith, (op, a, b)),
        ensures
            evaluates(self.expr(), *arith, outcome),
        decreases self,
    {
        let left = self.lhs.eval(arith);
        proof {
            assert(reached(left));
        }
        let l = match left {
            Ok(value) => value,
            Err(error) => {
                return Err(error);
            },
        };
        let right = self.rhs.eval(arith);
        proof {
            assert(reached(right));
        }
        let r = match right {
            Ok(value) => value,
            Err(error) => {
                return Err(error);
            },
        };
        match request_of(self.op.kind(), &l, &r) {
            Ok((op, a, b)) => Ok(Value::Number(arith(op, a, b))),
            Err(error) => Err(error),
        }
    }
}

impl Logical {
    pub fn new(left: Expr, operator: Token, right: Expr) -> (node: Box<Self>)
        ensures
            *node == (Logical { left, operator, right }),
    {
        Box::new(Logical { left, operator, right })
    }

    /// This node as an expression.
    pub open spec fn expr(self) -> Expr {
        Expr::Logical(Box::new(self))
    }

    /// Both operands, and the operator between them.
    pub fn print<G: Fn(u64) -> String>(&self, number_text: &G) -> (text: String)
        requires
            forall|bits: u64| call_requires(*number_text, (bits,)),
        ensures
            prints(self.expr(), *number_text, text@),
        decreases self,
    {
        let left = self.left.print(number_text);
        let right = self.right.print(number_text);
        proof {
            assert(written(left@) && written(right@));
        }
        infix(left.as_str(), self.operator.lexeme().as_str(), right.as_str())
    }

    /// Evaluates both operands, then compares the two numbers.
    pub fn eval<F: Fn(ArithOp, u64, u64) -> u64>(&self, arith: &F) -> (outcome: Outcome)
        requires
            forall|op: ArithOp, a: u64, b: u64| call_requires(*arith, (op, a, b)),
        ensures
            evaluates(self.expr(), *arith, outcome),
        decreases self,
    {
        let left = self.left.eval(arith);
        proof {
            assert(reached(left));
        }
        let l = match left {
            Ok(value) => value,
            Err(error) => {
                return Err(error);
            },
        };
        let right = self.right.eval(arith);
        proof {
            assert(reached(right));
        }
        let r = match right {
            Ok(value) => value,
            Err(error) => {
                return Err(error);
            },
        };
        apply_logical(self.operator.kind(), &l, &r)
    }
}

impl Unary {
    pub fn new(operator: Token, right: Expr) -> (node: Box<Self>)
        ensures
            *node == (Unary { operator, right }),
    {
        Box::new(Unary { operator, right })
    }

    /// This node as an expression.
    pub open spec fn expr(self) -> Expr {
        Expr::Unary(Box::new(self))
    }

    /// The operator, then the operand.
    pub fn print<G: Fn(u64) -> String>(&self, number_text: &G) -> (text: String)
        requires
            forall|bits: u64| call_requires(*number_text, (bits,)),
        ensures
            prints(self.expr(), *number_text, text@),
        decreases self,
    {
        let operand = self.right.print(number_text);
        proof {
            assert(written(operand@));
        }
        prefix(self.operator.lexeme().as_str(), operand.as_str())
    }

    /// Evaluates the operand, then applies the operator to it.
    pub fn eval<F: Fn(ArithOp, u64, u64) -> u64>(&self, arith: &F) -> (outcome: Outcome)
        requires
            forall|op: ArithOp, a: u64, b: u64| call_requires(*arith, (op, a, b)),
        ensures
            evaluates(self.expr(), *arith, outcome),
        decreases self,
    {
        let operand = self.right.eval(arith);
        proof {
            assert(reached(operand));
        }
        match operand {
            Ok(value) => apply_unary(self.operator.kind(), value),
            Err(error) => Err(error),
        }
    }
}

impl Grouping {
    pub fn new(expr: Expr) -> (node: Box<Self>)
        ensures
            *node == (Grouping { expr }),
    {
        Box::new(Grouping { expr })
    }

    /// This node as an expression.
    pub open spec fn expr(self) -> Expr {
        Expr::Grouping(Box::new(self))
    }

    /// What stands between the parentheses, and the parentheses.
    pub fn print<G: Fn(u64) -> String>(&self, number_text: &G) -> (text: String)
        requires
            forall|bits: u64| call_requires(*number_text, (bits,)),
        ensures
            prints(self.expr(), *number_text, text@),
        decreases self,
    {
        let inner = self.expr.print(number_text);
        proof {
            assert(written(inner@));
        }
        group(inner.as_str())
    }

    /// Evaluates what stands between the parentheses.
    pub fn eval<F: Fn(ArithOp, u64, u64) -> u64>(&self, arith: &F) -> (outcome: Outcome)
        requires
            forall|op: ArithOp, a: u64, b: u64| call_requires(*arith, (op, a, b)),
        ensures
            evaluates(self.expr(), *arith, outcome),
        decreases self,
    {
        self.expr.eval(arith)
    }
}

impl StringLiteral {
    pub fn new(value: String) -> (node: Box<Self>)
        ensures
            *node == (StringLiteral { value }),
    {
        Box::new(StringLiteral { value })
    }

    /// This node as an expression.
    pub open spec fn expr(self) -> Expr {
        Expr::StringLiteral(Box::new(self))
    }

    /// The string between double quotes.
    pub fn print(&self) -> (text: String)
        ensures
            text@ == quoted(self.value@),
    {
        quote(self.value.as_str())
    }

    /// The string itself.
    pub fn eval(&self) -> (value: Value)
        ensures
            value == Value::String(self.value),
    {
        Value::String(self.value.clone())
    }
}

impl NumberLiteral {
    pub fn new(value: u64) -> (node: Box<Self>)
        ensures
            *node == (NumberLiteral { value }),
    {
        Box::new(NumberLiteral { value })
    }

    /// This node as an expression.
    pub open spec fn expr(self) -> Expr {
        Expr::NumberLiteral(Box::new(self))
    }

    /// The text that `number_text` gives for the number.
    pub fn print<G: Fn(u64) -> String>(&self, number_text: &G) -> (text: String)
        requires
            call_requires(*number_text, (self.value,)),
        ensures
            call_ensures(*number_text, (self.value,), text),
    {
        number_text(self.value)
    }

    /// The number itself.
    pub fn eval(&self) -> (value: Value)
        ensures
            value == Value::Number(self.value),
    {
        Value::Number(self.value)
    }
}

impl BooleanLiteral {
    pub fn new(value: bool) -> (node: Box<Self>)
        ensures
            *node == (BooleanLiteral { value }),
    {
        Box::new(BooleanLiteral { value })
    }

    /// This node as an expression.
    pub open spec fn expr(self) -> Expr {
        Expr::BooleanLiteral(Box::new(self))
    }

    /// `true` or `false`.
    pub fn print(&self) -> (text: String)
        ensures
            text@ == truth_text(self.value),
    {
        if self.value {
            String::from_str("true")
        } else {
            String::from_str("false")
        }
    }

    /// The truth value itself.
    pub fn eval(&self) -> (value: Value)
        ensures
            value == Value::Boolean(self.value),
    {
        Value::Boolean(self.value)
    }
}

// ---------------------------------------------------------------------------
// What follows from the rules of evaluation
// ---------------------------------------------------------------------------
/// A literal evaluates to the value that it stands for, and to nothing else,
/// whatever the arithmetic: a number to itself, bit for bit.
pub proof fn law_literal<F: Fn(ArithOp, u64, u64) -> u64>(value: Value, arith: F, outcome: Outcome)
    ensures
        evaluates(literal_of(value), arith, outcome) <==> outcome == Ok::<Value, EvalError>(value),
{
}

/// Parentheses change nothing of what an expression evaluates to.
pub proof fn law_grouping<F: Fn(ArithOp, u64, u64) -> u64>(
    inner: Expr,
    arith: F,
    outcome: Outcome,
)
    ensures
        evaluates((Grouping { expr: inner }).expr(), arith, outcome) <==> evaluates(
            inner,
            arith,
            outcome,
        ),
{
}

/// An arithmetic operator between two numbers evaluates to what the
/// arithmetic returns for its operation and the two numbers, in that order,
/// and to nothing else: `+` to the sum, `-` to the difference, `*` to the
/// product and `/` to the quotient, whatever the divisor.
pub proof fn law_arithmetic<F: Fn(ArithOp, u64, u64) -> u64>(
    a: u64,
    operator: Token,
    b: u64,
    arith: F,
    outcome: Outcome,
)
    requires
        arithmetic(operator@.kind) is Some,
    ensures
        evaluates(
            (Binary {
                lhs: literal_of(Value::Number(a)),
                op: operator,
                rhs: literal_of(Value::Number(b)),
            }).expr(),
            arith,
            outcome,
        ) <==> exists|result: u64| #[trigger]
            call_ensures(arith, (arithmetic(operator@.kind)->0, a, b), result) && outcome == Ok::<
                Value,
                EvalError,
            >(Value::Number(result)),
{
    reveal_with_fuel(evaluates, 2);
    let left = Ok::<Value, EvalError>(Value::Number(a));
    let right = Ok::<Value, EvalError>(Value::Number(b));
    assert(reached(left) && reached(right));
}

/// A comparison between two numbers evaluates to the truth of that very
/// comparison of the two, in that order: `<=` holds where the left number is
/// less than the right or equal to it, `<` only where it is less.
pub proof fn law_comparison<F: Fn(ArithOp, u64, u64) -> u64>(
    a: u64,
    operator: Token,
    b: u64,
    arith: F,
    outcome: Outcome,
)
    requires
        is_comparison(operator@.kind),
    ensures
        evaluates(
            (Logical {
                left: literal_of(Value::Number(a)),
                operator,
                right: literal_of(Value::Number(b)),
            }).expr(),
            arith,
            outcome,
        ) <==> outcome == Ok::<Value, EvalError>(
            Value::Boolean(comparison(operator@.kind, a, b)->0),
        ),
        operator@.kind == TokenKind::LessEqual ==> comparison(operator@.kind, a, b) == Some(
            binary64::lt(a, b) || binary64::eq(a, b),
        ),
        operator@.kind == TokenKind::Less ==> comparison(operator@.kind, a, b) == Some(
            binary64::lt(a, b),
        ),
{
    reveal_with_fuel(evaluates, 2);
    let left = Ok::<Value, EvalError>(Value::Number(a));
    let right = Ok::<Value, EvalError>(Value::Number(b));
    assert(reached(left) && reached(right));
}

/// `!` before a truth value evaluates to the other truth value.
pub proof fn law_not<F: Fn(ArithOp, u64, u64) -> u64>(
    operator: Token,
    value: bool,
    arith: F,
    outcome: Outcome,
)
    requires
        operator@.kind == TokenKind::Bang,
    ensures
        evaluates(
            (Unary { operator, right: literal_of(Value::Boolean(value)) }).expr(),
            arith,
            outcome,
        ) <==> outcome == Ok::<Value, EvalError>(Value::Boolean(!value)),
{
    reveal_with_fuel(evaluates, 2);
    assert(reached(Ok::<Value, EvalError>(Value::Boolean(value))));
}

/// `-` before a number evaluates to the negated number.
pub proof fn law_negative<F: Fn(ArithOp, u64, u64) -> u64>(
    operator: Token,
    value: u64,
    arith: F,
    outcome: Outcome,
)
    requires
        operator@.kind == TokenKind::Minus,
    ensures
        evaluates(
            (Unary { operator, right: literal_of(Value::Number(value)) }).expr(),
            arith,
            outcome,
        ) <==> outcome == Ok::<Value, EvalError>(Value::Number(binary64::neg(value))),
{
    reveal_with_fuel(evaluates, 2);
    assert(reached(Ok::<Value, EvalError>(Value::Number(value))));
}

/// An operator on numbers between two values of which one is no number fails
/// with a mismatch that names the operator and the kind of the first operand
/// that is no number; the arithmetic is not asked. So `+` between a string
/// and a number is a mismatch, and no concatenation.
pub proof fn law_mismatch<F: Fn(ArithOp, u64, u64) -> u64>(
    left: Value,
    operator: Token,
    right: Value,
    arith: F,
    outcome: Outcome,
)
    requires
        arithmetic(operator@.kind) is Some,
        !(left is Number && right is Number),
    ensures
        evaluates(
            (Binary { lhs: literal_of(left), op: operator, rhs: literal_of(right) }).expr(),
            arith,
            outcome,
        ) <==> outcome == Err::<Value, EvalError>(
            EvalError::TypeMismatch {
                operator: operator@.kind,
                expected: ValueKind::Number,
                found: if left is Number {
                    right.kind()
                } else {
                    left.kind()
                },
            },
        ),
{
    reveal_with_fuel(evaluates, 2);
    assert(reached(Ok::<Value, EvalError>(left)) && reached(Ok::<Value, EvalError>(right)));
}

/// An expression evaluates to one outcome only, where the arithmetic returns
/// one result only for each operation and pair of numbers.
pub proof fn law_deterministic<F: Fn(ArithOp, u64, u64) -> u64>(
    expr: Expr,
    arith: F,
    first: Outcome,
    second: Outcome,
)
    requires
        forall|op: ArithOp, a: u64, b: u64, x: u64, y: u64|
            call_ensures(arith, (op, a, b), x) && call_ensures(arith, (op, a, b), y) ==> x == y,
        evaluates(expr, arith, first),
        evaluates(expr, arith, second),
    ensures
        first == second,
    decreases expr,
{
    match expr {
        Expr::NumberLiteral(_) => {},
        Expr::BooleanLiteral(_) => {},
        Expr::StringLiteral(_) => {},
        Expr::Grouping(node) => {
            law_deterministic(node.expr, arith, first, second);
        },
        Expr::Unary(node) => {
            let x = choose|operand: Outcome|
                reached(operand) && evaluates(node.right, arith, operand) && match operand {
                    Err(error) => first == Err::<Value, EvalError>(error),
                    Ok(value) => first == unary_outcome(node.operator@.kind, value),
                };
            let y = choose|operand: Outcome|
                reached(operand) && evaluates(node.right, arith, operand) && match operand {
                    Err(error) => second == Err::<Value, EvalError>(error),
                    Ok(value) => second == unary_outcome(node.operator@.kind, value),
                };
            law_deterministic(node.right, arith, x, y);
        },
        Expr::Logical(node) => {
            let lx = choose|left: Outcome|
                reached(left) && evaluates(node.left, arith, left) && match left {
                    Err(error) => first == Err::<Value, EvalError>(error),
                    Ok(l) => exists|right: Outcome|
                        reached(right) && evaluates(node.right, arith, right) && match right {
                            Err(error) => first == Err::<Value, EvalError>(error),
                            Ok(r) => first == logical_outcome(node.operator@.kind, l, r),
                        },
                };
            let ly = choose|left: Outcome|
                reached(left) && evaluates(node.left, arith, left) && match left {
                    Err(error) => second == Err::<Value, EvalError>(error),
                    Ok(l) => exists|right: Outcome|
                        reached(right) && evaluates(node.right, arith, right) && match right {
                            Err(error) => second == Err::<Value, EvalError>(error),
                            Ok(r) => second == logical_outcome(node.operator@.kind, l, r),
                        },
                };
            law_deterministic(node.left, arith, lx, ly);
            if let Ok(l) = lx {
                let rx = choose|right: Outcome|
                    reached(right) && evaluates(node.right, arith, right) && match right {
                        Err(error) => first == Err::<Value, EvalError>(error),
                        Ok(r) => first == logical_outcome(node.operator@.kind, l, r),
                    };
                let ry = choose|right: Outcome|
                    reached(right) && evaluates(node.right, arith, right) && match right {
                        Err(error) => second == Err::<Value, EvalError>(error),
                        Ok(r) => second == logical_outcome(node.operator@.kind, l, r),
                    };
                law_deterministic(node.right, arith, rx, ry);
            }
        },
        Expr::Binary(node) => {
            let lx = choose|left: Outcome|
                reached(left) && evaluates(node.lhs, arith, left) && match left {
                    Err(error) => first == Err::<Value, EvalError>(error),
                    Ok(l) => exists|right: Outcome|
                        reached(right) && evaluates(node.rhs, arith, right) && match right {
                            Err(error) => first == Err::<Value, EvalError>(error),
                            Ok(r) => binary_outcome(node.op@.kind, l, r, arith, first),
                        },
                };
            let ly = choose|left: Outcome|
                reached(left) && evaluates(node.lhs, arith, left) && match left {
                    Err(error) => second == Err::<Value, EvalError>(error),
                    Ok(l) => exists|right: Outcome|
                        reached(right) && evaluates(node.rhs, arith, right) && match right {
                            Err(error) => second == Err::<Value, EvalError>(error),
                            Ok(r) => binary_outcome(node.op@.kind, l, r, arith, second),
                        },
                };
            law_deterministic(node.lhs, arith, lx, ly);
            if let Ok(l) = lx {
                let rx = choose|right: Outcome|
                    reached(right) && evaluates(node.rhs, arith, right) && match right {
                        Err(error) => first == Err::<Value, EvalError>(error),
                        Ok(r) => binary_outcome(node.op@.kind, l, r, arith, first),
                    };
                let ry = choose|right: Outcome|
                    reached(right) && evaluates(node.rhs, arith, right) && match right {
                        Err(error) => second == Err::<Value, EvalError>(error),
                        Ok(r) => binary_outcome(node.op@.kind, l, r, arith, second),
                    };
                law_deterministic(node.rhs, arith, rx, ry);
            }
        },
    }
}

} // verus!
