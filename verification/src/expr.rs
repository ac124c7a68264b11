//! Values, the operators on them, and expressions.

use crate::lexer::{token_views, Token, TokenView};
use crate::lexer::{kind_name, LiteralView, TokenType};
use crate::number::{num_eq, num_le, num_lt, is_zero, Number, NumberRequest, NumberRequestView, NumberView};
use crate::text::{decimal, text_less, text_lt, usize_text};
use vstd::std_specs::cmp::PartialEqSpecImpl;
use crate::stmt::{duplicate_stmts, stmt_views, Stmt, StmtView};
use vstd::prelude::*;

verus! {

/// A value at run time.
#[derive(Debug)]
pub enum LiteralValue {
    Number(Number),
    StringValue(String),
    True,
    False,
    Nil,
    /// A function value: the name it is shown under, the number of
    /// arguments it takes, and which function of the interpreter it is.
    Callable { name: String, arity: usize, fun: usize },
}

/// What a value stands for in contracts.
pub enum ValueView {
    Number(NumberView),
    StringValue(Seq<char>),
    True,
    False,
    Nil,
    Callable { name: Seq<char>, arity: usize, fun: usize },
}

impl View for LiteralValue {
    type V = ValueView;

    open spec fn view(&self) -> ValueView {
        match self {
            LiteralValue::Number(n) => ValueView::Number(n@),
            LiteralValue::StringValue(s) => ValueView::StringValue(s@),
            LiteralValue::True => ValueView::True,
            LiteralValue::False => ValueView::False,
            LiteralValue::Nil => ValueView::Nil,
            LiteralValue::Callable { name, arity, fun } => ValueView::Callable {
                name: name@,
                arity: *arity,
                fun: *fun,
            },
        }
    }
}

/// The views of a sequence of values.
pub open spec fn value_views(values: Seq<LiteralValue>) -> Seq<ValueView> {
    Seq::new(values.len(), |i: int| values[i]@)
}

/// An expression of the language.
#[derive(Debug)]
#[allow(inconsistent_fields)]
pub enum Expr {
    AnonFunction { paren: Token, arguments: Vec<Token>, body: Vec<Box<Stmt>> },
    Assign { name: Token, value: Box<Expr> },
    Binary { left: Box<Expr>, operator: Token, right: Box<Expr> },
    Call { callee: Box<Expr>, paren: Token, arguments: Vec<Expr> },
    Grouping { expression: Box<Expr> },
    Logical { left: Box<Expr>, operator: Token, right: Box<Expr> },
    Literal { value: LiteralValue },
    Unary { operator: Token, right: Box<Expr> },
    Variable { name: Token },
}

/// What an expression stands for in contracts.
#[allow(inconsistent_fields)]
pub enum ExprView {
    AnonFunction { paren: TokenView, arguments: Seq<TokenView>, body: Seq<StmtView> },
    Assign { name: TokenView, value: Box<ExprView> },
    Binary { left: Box<ExprView>, operator: TokenView, right: Box<ExprView> },
    Call { callee: Box<ExprView>, paren: TokenView, arguments: Seq<ExprView> },
    Grouping { expression: Box<ExprView> },
    Logical { left: Box<ExprView>, operator: TokenView, right: Box<ExprView> },
    Literal { value: ValueView },
    Unary { operator: TokenView, right: Box<ExprView> },
    Variable { name: TokenView },
}

/// The view of an expression.
pub open spec fn expr_view(e: Expr) -> ExprView
    decreases e,
{
    match e {
        Expr::AnonFunction { paren, arguments, body } => ExprView::AnonFunction {
            paren: paren@,
            arguments: token_views(arguments@),
            body: stmt_views(body@),
        },
        Expr::Assign { name, value } => ExprView::Assign {
            name: name@,
            value: Box::new(expr_view(*value)),
        },
        Expr::Binary { left, operator, right } => ExprView::Binary {
            left: Box::new(expr_view(*left)),
            operator: operator@,
            right: Box::new(expr_view(*right)),
        },
        Expr::Call { callee, paren, arguments } => ExprView::Call {
            callee: Box::new(expr_view(*callee)),
            paren: paren@,
            arguments: expr_views(arguments@),
        },
        Expr::Grouping { expression } => ExprView::Grouping {
            expression: Box::new(expr_view(*expression)),
        },
        Expr::Logical { left, operator, right } => ExprView::Logical {
            left: Box::new(expr_view(*left)),
            operator: operator@,
            right: Box::new(expr_view(*right)),
        },
        Expr::Literal { value } => ExprView::Literal { value: value@ },
        Expr::Unary { operator, right } => ExprView::Unary {
            operator: operator@,
            right: Box::new(expr_view(*right)),
        },
        Expr::Variable { name } => ExprView::Variable { name: name@ },
    }
}

/// The views of a sequence of expressions.
pub open spec fn expr_views(exprs: Seq<Expr>) -> Seq<ExprView>
    decreases exprs,
{
    Seq::new(
        exprs.len(),
        |i: int|
            if 0 <= i < exprs.len() {
                expr_view(exprs[i])
            } else {
                ExprView::Literal { value: ValueView::Nil }
            },
    )
}

impl View for Expr {
    type V = ExprView;

    open spec fn view(&self) -> ExprView {
        expr_view(*self)
    }
}


impl LiteralValue {
    /// A copy with the same view.
    pub fn duplicate(&self) -> (r: LiteralValue)
        ensures
            r@ == self@,
    {
        match self {
            LiteralValue::Number(n) => LiteralValue::Number(n.duplicate()),
            LiteralValue::StringValue(s) => LiteralValue::StringValue(s.clone()),
            LiteralValue::True => LiteralValue::True,
            LiteralValue::False => LiteralValue::False,
            LiteralValue::Nil => LiteralValue::Nil,
            LiteralValue::Callable { name, arity, fun } => LiteralValue::Callable {
                name: name.clone(),
                arity: *arity,
                fun: *fun,
            },
        }
    }
}

/// Copies of the tokens of `tokens`, in order.
pub fn duplicate_tokens(tokens: &Vec<Token>) -> (r: Vec<Token>)
    ensures
        token_views(r@) == token_views(tokens@),
{
    let mut out: Vec<Token> = Vec::new();
    let mut i: usize = 0;
    while i < tokens.len()
        invariant
            i <= tokens.len(),
            out.len() == i,
            forall|j: int| 0 <= j < i ==> out@[j]@ == tokens@[j]@,
        decreases tokens.len() - i,
    {
        let token = tokens[i].duplicate();
        out.push(token);
        i = i + 1;
    }
    assert(token_views(out@) =~= token_views(tokens@));
    out
}

/// Copies of the expressions of `exprs`, in order.
pub fn duplicate_exprs(exprs: &Vec<Expr>) -> (r: Vec<Expr>)
    ensures
        expr_views(r@) == expr_views(exprs@),
    decreases exprs,
{
    let mut out: Vec<Expr> = Vec::new();
    let mut i: usize = 0;
    while i < exprs.len()
        invariant
            i <= exprs.len(),
            out.len() == i,
            forall|j: int| 0 <= j < i ==> expr_view(out@[j]) == expr_view(exprs@[j]),
        decreases exprs.len() - i,
    {
        let copy = exprs[i].duplicate();
        out.push(copy);
        i = i + 1;
    }
    assert(expr_views(out@) =~= expr_views(exprs@));
    out
}

impl Expr {
    /// A copy with the same view.
    pub fn duplicate(&self) -> (r: Expr)
        ensures
            r@ == self@,
        decreases self,
    {
        match self {
            Expr::AnonFunction { paren, arguments, body } => Expr::AnonFunction {
                paren: paren.duplicate(),
                arguments: duplicate_tokens(arguments),
                body: duplicate_stmts(body),
            },
            Expr::Assign { name, value } => Expr::Assign {
                name: name.duplicate(),
                value: Box::new(value.duplicate()),
            },
            Expr::Binary { left, operator, right } => Expr::Binary {
                left: Box::new(left.duplicate()),
                operator: operator.duplicate(),
                right: Box::new(right.duplicate()),
            },
            Expr::Call { callee, paren, arguments } => Expr::Call {
                callee: Box::new(callee.duplicate()),
                paren: paren.duplicate(),
                arguments: duplicate_exprs(arguments),
            },
            Expr::Grouping { expression } => Expr::Grouping {
                expression: Box::new(expression.duplicate()),
            },
            Expr::Logical { left, operator, right } => Expr::Logical {
                left: Box::new(left.duplicate()),
                operator: operator.duplicate(),
                right: Box::new(right.duplicate()),
            },
            Expr::Literal { value } => Expr::Literal { value: value.duplicate() },
            Expr::Unary { operator, right } => Expr::Unary {
                operator: operator.duplicate(),
                right: Box::new(right.duplicate()),
            },
            Expr::Variable { name } => Expr::Variable { name: name.duplicate() },
        }
    }
}


/// The Boolean value that stands for `b`.
pub open spec fn bool_value(b: bool) -> ValueView {
    if b {
        ValueView::True
    } else {
        ValueView::False
    }
}

/// Whether a value counts as true where a condition is asked for: `nil`,
/// `false`, zero and the empty string do not, every other number, string
/// and `true` do. A function value has no truth value.
pub open spec fn truthy(v: ValueView) -> Option<bool> {
    match v {
        ValueView::Number(n) => Some(!is_zero(n.bits)),
        ValueView::StringValue(s) => Some(s.len() != 0),
        ValueView::True => Some(true),
        ValueView::False => Some(false),
        ValueView::Nil => Some(false),
        ValueView::Callable { .. } => None,
    }
}

/// Equality of values: numbers by value, strings by content, function
/// values by name and arity, and two values of different kinds are unequal.
pub open spec fn value_eq(a: ValueView, b: ValueView) -> bool {
    match (a, b) {
        (ValueView::Number(x), ValueView::Number(y)) => num_eq(x.bits, y.bits),
        (
            ValueView::Callable { name, arity, fun: _ },
            ValueView::Callable { name: name2, arity: arity2, fun: _ },
        ) => name == name2 && arity == arity2,
        (ValueView::StringValue(x), ValueView::StringValue(y)) => x == y,
        (ValueView::True, ValueView::True) => true,
        (ValueView::False, ValueView::False) => true,
        (ValueView::Nil, ValueView::Nil) => true,
        _ => false,
    }
}

/// The text a value is printed as.
pub open spec fn value_text(v: ValueView) -> Seq<char> {
    match v {
        ValueView::Callable { name, arity, fun: _ } => name + "<"@ + decimal(arity as nat) + ">"@,
        ValueView::Number(n) => n.text,
        ValueView::StringValue(s) => s,
        ValueView::True => "true"@,
        ValueView::False => "false"@,
        ValueView::Nil => "nil"@,
    }
}

/// The name of a value's kind in messages.
pub open spec fn kind_of_value(v: ValueView) -> Seq<char> {
    match v {
        ValueView::StringValue(_) => "String"@,
        ValueView::Number(_) => "Number"@,
        ValueView::Callable { .. } => "Callable"@,
        ValueView::True => "Boolean"@,
        ValueView::False => "Boolean"@,
        ValueView::Nil => "nil"@,
    }
}

/// The value a literal token stands for, where it stands for one.
pub open spec fn token_value(t: TokenView) -> Option<ValueView> {
    match t.token_t {
        TokenType::String => match t.literal {
            Some(LiteralView::StringValue(s)) => Some(ValueView::StringValue(s)),
            Some(LiteralView::IdentifierValue(s)) => Some(ValueView::StringValue(s)),
            _ => None,
        },
        TokenType::Number => match t.literal {
            Some(LiteralView::FloatValue(n)) => Some(ValueView::Number(n)),
            _ => None,
        },
        TokenType::False => Some(ValueView::False),
        TokenType::True => Some(ValueView::True),
        TokenType::Nil => Some(ValueView::Nil),
        _ => None,
    }
}

/// What applying an operator comes to: a value, work on numbers that the
/// caller has to do, or a run-time error with its message.
#[derive(Debug)]
pub enum Outcome {
    Value(LiteralValue),
    Ask(NumberRequest),
    Error(String),
}

/// What an `Outcome` stands for in contracts.
pub enum OutcomeView {
    Value(ValueView),
    Ask(NumberRequestView),
    Error(Seq<char>),
}

impl View for Outcome {
    type V = OutcomeView;

    open spec fn view(&self) -> OutcomeView {
        match self {
            Outcome::Value(v) => OutcomeView::Value(v@),
            Outcome::Ask(r) => OutcomeView::Ask(r@),
            Outcome::Error(m) => OutcomeView::Error(m@),
        }
    }
}

/// The error of a binary operator that its operands do not fit.
pub open spec fn mismatch(left: ValueView, op: TokenType, right: ValueView) -> OutcomeView {
    OutcomeView::Error(
        kind_name(op) + " is not implemented for the operands `"@ + value_text(left) + "` and `"@
            + value_text(right) + "`"@,
    )
}

/// A binary operator between two numbers.
pub open spec fn number_outcome(x: NumberView, op: TokenType, y: NumberView) -> OutcomeView {
    match op {
        TokenType::Plus => OutcomeView::Ask(NumberRequestView::Add(x.bits, y.bits)),
        TokenType::Minus => OutcomeView::Ask(NumberRequestView::Subtract(x.bits, y.bits)),
        TokenType::Slash => OutcomeView::Ask(NumberRequestView::Divide(x.bits, y.bits)),
        TokenType::Star => OutcomeView::Ask(NumberRequestView::Multiply(x.bits, y.bits)),
        TokenType::Less => OutcomeView::Value(bool_value(num_lt(x.bits, y.bits))),
        TokenType::LessEqual => OutcomeView::Value(bool_value(num_le(x.bits, y.bits))),
        TokenType::Greater => OutcomeView::Value(bool_value(num_lt(y.bits, x.bits))),
        TokenType::GreaterEqual => OutcomeView::Value(bool_value(num_le(y.bits, x.bits))),
        _ => mismatch(ValueView::Number(x), op, ValueView::Number(y)),
    }
}

/// A binary operator between two strings.
pub open spec fn string_outcome(a: Seq<char>, op: TokenType, b: Seq<char>) -> OutcomeView {
    match op {
        TokenType::Plus => OutcomeView::Value(ValueView::StringValue(a + b)),
        TokenType::Greater => OutcomeView::Value(bool_value(text_lt(b, a))),
        TokenType::GreaterEqual => OutcomeView::Value(bool_value(!text_lt(a, b))),
        TokenType::Less => OutcomeView::Value(bool_value(text_lt(a, b))),
        TokenType::LessEqual => OutcomeView::Value(bool_value(!text_lt(b, a))),
        _ => mismatch(ValueView::StringValue(a), op, ValueView::StringValue(b)),
    }
}

/// What a binary operator comes to on two values. `==` and `!=` answer on
/// every pair; arithmetic is asked of the caller; the rest is decided here.
pub open spec fn binary_outcome(left: ValueView, op: TokenType, right: ValueView) -> OutcomeView {
    if op == TokenType::EqualEqual {
        OutcomeView::Value(bool_value(value_eq(left, right)))
    } else if op == TokenType::BangEqual {
        OutcomeView::Value(bool_value(!value_eq(left, right)))
    } else {
        match (left, right) {
            (ValueView::Number(x), ValueView::Number(y)) => number_outcome(x, op, y),
            (ValueView::StringValue(s), ValueView::Number(n)) => if op == TokenType::Plus {
                OutcomeView::Value(ValueView::StringValue(s + n.text))
            } else {
                mismatch(left, op, right)
            },
            (ValueView::Number(_), ValueView::StringValue(_)) => OutcomeView::Error(
                kind_name(op) + " is not defined for String and Number"@,
            ),
            (ValueView::StringValue(a), ValueView::StringValue(b)) => string_outcome(a, op, b),
            _ => mismatch(left, op, right),
        }
    }
}

/// What a unary operator comes to on a value. `operand` is the text of the
/// operand's expression, which the message of a failed negation names.
pub open spec fn unary_outcome(op: TokenType, value: ValueView, operand: Seq<char>)
    -> OutcomeView {
    if op == TokenType::Minus {
        match value {
            ValueView::Number(n) => OutcomeView::Ask(NumberRequestView::Negate(n.bits)),
            _ => OutcomeView::Error("Minus not implemented for "@ + operand),
        }
    } else if op == TokenType::Bang {
        match truthy(value) {
            Some(b) => OutcomeView::Value(bool_value(!b)),
            None => OutcomeView::Error("Cannot use callable as a falsy value"@),
        }
    } else {
        OutcomeView::Error(kind_name(op) + " is not valid unary operator"@)
    }
}

impl PartialEq for LiteralValue {
    fn eq(&self, other: &Self) -> (r: bool) {
        match (self, other) {
            (LiteralValue::Number(x), LiteralValue::Number(y)) => x.equals(y),
            (
                LiteralValue::Callable { name, arity, fun: _ },
                LiteralValue::Callable { name: name2, arity: arity2, fun: _ },
            ) => *name == *name2 && *arity == *arity2,
            (LiteralValue::StringValue(x), LiteralValue::StringValue(y)) => *x == *y,
            (LiteralValue::True, LiteralValue::True) => true,
            (LiteralValue::False, LiteralValue::False) => true,
            (LiteralValue::Nil, LiteralValue::Nil) => true,
            _ => false,
        }
    }
}

impl PartialEqSpecImpl for LiteralValue {
    open spec fn obeys_eq_spec() -> bool {
        true
    }

    open spec fn eq_spec(&self, other: &Self) -> bool {
        value_eq(self@, other@)
    }
}

impl LiteralValue {
    /// `True` or `False`, as `value` is.
    pub fn from_bool(value: bool) -> (r: LiteralValue)
        ensures
            r@ == bool_value(value),
    {
        if value {
            LiteralValue::True
        } else {
            LiteralValue::False
        }
    }

    /// Whether the token is a literal that stands for a value.
    pub fn is_literal(token: &Token) -> (r: bool)
        ensures
            r == token_value(token@) is Some,
    {
        match token.token_t {
            TokenType::String => match &token.literal {
                Some(crate::lexer::LiteralValue::StringValue(_)) => true,
                Some(crate::lexer::LiteralValue::IdentifierValue(_)) => true,
                _ => false,
            },
            TokenType::Number => match &token.literal {
                Some(crate::lexer::LiteralValue::FloatValue(_)) => true,
                _ => false,
            },
            TokenType::False => true,
            TokenType::True => true,
            TokenType::Nil => true,
            _ => false,
        }
    }

    /// The value of a literal token.
    pub fn from_token(token: Token) -> (r: LiteralValue)
        requires
            token_value(token@) is Some,
        ensures
            Some(r@) == token_value(token@),
    {
        match token.token_t {
            TokenType::String => match token.literal {
                Some(crate::lexer::LiteralValue::StringValue(s)) => LiteralValue::StringValue(s),
                Some(crate::lexer::LiteralValue::IdentifierValue(s)) => LiteralValue::StringValue(
                    s,
                ),
                _ => LiteralValue::Nil,
            },
            TokenType::Number => match token.literal {
                Some(crate::lexer::LiteralValue::FloatValue(n)) => LiteralValue::Number(n),
                _ => LiteralValue::Nil,
            },
            TokenType::False => LiteralValue::False,
            TokenType::True => LiteralValue::True,
            _ => LiteralValue::Nil,
        }
    }

    /// Whether the value is a function value, which has no truth value.
    pub fn is_callable(&self) -> (r: bool)
        ensures
            r == truthy(self@) is None,
    {
        match self {
            LiteralValue::Callable { .. } => true,
            _ => false,
        }
    }

    /// Whether the value counts as true; `None` for a function value.
    pub fn truth(&self) -> (r: Option<bool>)
        ensures
            r == truthy(self@),
    {
        match self {
            LiteralValue::Number(x) => Some(!x.is_zero()),
            LiteralValue::StringValue(s) => Some(!s.as_str().is_empty()),
            LiteralValue::True => Some(true),
            LiteralValue::False => Some(false),
            LiteralValue::Nil => Some(false),
            LiteralValue::Callable { .. } => None,
        }
    }

    /// `True` where the value counts as false, `False` where it counts as
    /// true.
    pub fn is_falsy(&self) -> (r: LiteralValue)
        requires
            truthy(self@) is Some,
        ensures
            r@ == bool_value(!truthy(self@)->0),
    {
        match self {
            LiteralValue::Number(x) => LiteralValue::from_bool(x.is_zero()),
            LiteralValue::StringValue(s) => LiteralValue::from_bool(s.as_str().is_empty()),
            LiteralValue::True => LiteralValue::False,
            LiteralValue::False => LiteralValue::True,
            _ => LiteralValue::True,
        }
    }

    /// `True` where the value counts as true, `False` where it does not.
    pub fn is_truthy(&self) -> (r: LiteralValue)
        requires
            truthy(self@) is Some,
        ensures
            r@ == bool_value(truthy(self@)->0),
    {
        match self {
            LiteralValue::Number(x) => LiteralValue::from_bool(!x.is_zero()),
            LiteralValue::StringValue(s) => LiteralValue::from_bool(!s.as_str().is_empty()),
            LiteralValue::True => LiteralValue::True,
            _ => LiteralValue::False,
        }
    }

    /// The text the value is printed as.
    pub fn to_text(&self) -> (r: String)
        ensures
            r@ == value_text(self@),
    {
        match self {
            LiteralValue::Callable { name, arity, fun: _ } => {
                let mut s = name.clone();
                s.append("<");
                s.append(usize_text(*arity).as_str());
                s.append(">");
                s
            },
            LiteralValue::Number(x) => x.text.clone(),
            LiteralValue::StringValue(x) => x.clone(),
            LiteralValue::True => String::from_str("true"),
            LiteralValue::False => String::from_str("false"),
            LiteralValue::Nil => String::from_str("nil"),
        }
    }

    /// The name of the value's kind in messages.
    pub fn type_text(&self) -> (r: String)
        ensures
            r@ == kind_of_value(self@),
    {
        match self {
            LiteralValue::StringValue(_) => String::from_str("String"),
            LiteralValue::Number(_) => String::from_str("Number"),
            LiteralValue::Callable { .. } => String::from_str("Callable"),
            LiteralValue::True => String::from_str("Boolean"),
            LiteralValue::False => String::from_str("Boolean"),
            LiteralValue::Nil => String::from_str("nil"),
        }
    }
}

fn mismatch_error(left: &LiteralValue, op: TokenType, right: &LiteralValue) -> (r: Outcome)
    ensures
        r@ == mismatch(left@, op, right@),
{
    let mut m = op.name();
    m.append(" is not implemented for the operands `");
    m.append(left.to_text().as_str());
    m.append("` and `");
    m.append(right.to_text().as_str());
    m.append("`");
    Outcome::Error(m)
}

/// Applies a binary operator to two values.
pub fn binary_operation(left: &LiteralValue, op: TokenType, right: &LiteralValue) -> (r: Outcome)
    ensures
        r@ == binary_outcome(left@, op, right@),
{
    if op == TokenType::EqualEqual {
        return Outcome::Value(LiteralValue::from_bool(*left == *right));
    }
    if op == TokenType::BangEqual {
        return Outcome::Value(LiteralValue::from_bool(!(*left == *right)));
    }
    match (left, right) {
        (LiteralValue::Number(x), LiteralValue::Number(y)) => match op {
            TokenType::Plus => Outcome::Ask(NumberRequest::Add(x.bits, y.bits)),
            TokenType::Minus => Outcome::Ask(NumberRequest::Subtract(x.bits, y.bits)),
            TokenType::Slash => Outcome::Ask(NumberRequest::Divide(x.bits, y.bits)),
            TokenType::Star => Outcome::Ask(NumberRequest::Multiply(x.bits, y.bits)),
            TokenType::Less => Outcome::Value(LiteralValue::from_bool(x.less(y))),
            TokenType::LessEqual => Outcome::Value(LiteralValue::from_bool(x.less_eq(y))),
            TokenType::Greater => Outcome::Value(LiteralValue::from_bool(y.less(x))),
            TokenType::GreaterEqual => Outcome::Value(LiteralValue::from_bool(y.less_eq(x))),
            _ => mismatch_error(left, op, right),
        },
        (LiteralValue::StringValue(s), LiteralValue::Number(n)) => {
            if op == TokenType::Plus {
                let mut joined = s.clone();
                joined.append(n.text.as_str());
                Outcome::Value(LiteralValue::StringValue(joined))
            } else {
                mismatch_error(left, op, right)
            }
        },
        (LiteralValue::Number(_), LiteralValue::StringValue(_)) => {
            let mut m = op.name();
            m.append(" is not defined for String and Number");
            Outcome::Error(m)
        },
        (LiteralValue::StringValue(a), LiteralValue::StringValue(b)) => match op {
            TokenType::Plus => {
                let mut joined = a.clone();
                joined.append(b.as_str());
                Outcome::Value(LiteralValue::StringValue(joined))
            },
            TokenType::Greater => Outcome::Value(
                LiteralValue::from_bool(text_less(b.as_str(), a.as_str())),
            ),
            TokenType::GreaterEqual => Outcome::Value(
                LiteralValue::from_bool(!text_less(a.as_str(), b.as_str())),
            ),
            TokenType::Less => Outcome::Value(
                LiteralValue::from_bool(text_less(a.as_str(), b.as_str())),
            ),
            TokenType::LessEqual => Outcome::Value(
                LiteralValue::from_bool(!text_less(b.as_str(), a.as_str())),
            ),
            _ => mismatch_error(left, op, right),
        },
        _ => mismatch_error(left, op, right),
    }
}

/// Applies a unary operator to a value; `operand` is the text of the
/// operand's expression.
pub fn unary_operation(op: TokenType, value: &LiteralValue, operand: &str) -> (r: Outcome)
    ensures
        r@ == unary_outcome(op, value@, operand@),
{
    if op == TokenType::Minus {
        match value {
            LiteralValue::Number(n) => Outcome::Ask(NumberRequest::Negate(n.bits)),
            _ => {
                let mut m = String::from_str("Minus not implemented for ");
                m.append(operand);
                Outcome::Error(m)
            },
        }
    } else if op == TokenType::Bang {
        if value.is_callable() {
            Outcome::Error(String::from_str("Cannot use callable as a falsy value"))
        } else {
            Outcome::Value(value.is_falsy())
        }
    } else {
        let mut m = op.name();
        m.append(" is not valid unary operator");
        Outcome::Error(m)
    }
}


/// The text an expression is shown as: operators in front of their
/// operands, in parentheses.
pub open spec fn expr_text(e: ExprView) -> Seq<char>
    decreases e,
{
    match e {
        ExprView::AnonFunction { paren: _, arguments, body: _ } => "anon/"@ + decimal(
            arguments.len(),
        ),
        ExprView::Call { callee, paren: _, arguments } => "("@ + expr_text(*callee) + " ["@
            + expr_list_text(arguments) + "])"@,
        ExprView::Logical { left, operator, right } => "("@ + operator.lexme + " "@ + expr_text(
            *left,
        ) + " "@ + expr_text(*right) + ")"@,
        ExprView::Assign { name, value } => "("@ + name.lexme + " = "@ + expr_text(*value) + ")"@,
        ExprView::Binary { left, operator, right } => "("@ + operator.lexme + " "@ + expr_text(
            *left,
        ) + " "@ + expr_text(*right) + ")"@,
        ExprView::Grouping { expression } => "(group "@ + expr_text(*expression) + ")"@,
        ExprView::Literal { value } => value_text(value),
        ExprView::Unary { operator, right } => "("@ + operator.lexme + " "@ + expr_text(*right)
            + ")"@,
        ExprView::Variable { name } => "(var "@ + name.lexme + ")"@,
    }
}

/// The texts of the expressions of `list`, separated by a comma and a space.
pub open spec fn expr_list_text(list: Seq<ExprView>) -> Seq<char>
    decreases list,
{
    if list.len() == 0 {
        Seq::empty()
    } else if list.len() == 1 {
        expr_text(list[0])
    } else {
        expr_list_text(list.drop_last()) + ", "@ + expr_text(list.last())
    }
}

/// The texts of the expressions of `list`, separated by a comma and a space.
pub fn expr_list_to_text(list: &Vec<Expr>) -> (r: String)
    ensures
        r@ == expr_list_text(expr_views(list@)),
    decreases list,
{
    let mut out = String::new();
    let mut i: usize = 0;
    while i < list.len()
        invariant
            i <= list.len(),
            out@ == expr_list_text(expr_views(list@).take(i as int)),
        decreases list.len() - i,
    {
        proof {
            let next = expr_views(list@).take(i + 1);
            assert(next.drop_last() =~= expr_views(list@).take(i as int));
            assert(next.last() == expr_view(list@[i as int]));
        }
        if i > 0 {
            out.append(", ");
        }
        out.append(list[i].to_text().as_str());
        i = i + 1;
        assert(out@ =~= expr_list_text(expr_views(list@).take(i as int)));
    }
    assert(expr_views(list@).take(i as int) =~= expr_views(list@));
    out
}

impl Expr {
    /// The text the expression is shown as.
    pub fn to_text(&self) -> (r: String)
        ensures
            r@ == expr_text(self@),
        decreases self,
    {
        match self {
            Expr::AnonFunction { paren: _, arguments, body: _ } => {
                let mut s = String::from_str("anon/");
                s.append(usize_text(arguments.len()).as_str());
                s
            },
            Expr::Call { callee, paren: _, arguments } => {
                let mut s = String::from_str("(");
                s.append(callee.to_text().as_str());
                s.append(" [");
                s.append(expr_list_to_text(arguments).as_str());
                s.append("])");
                s
            },
            Expr::Logical { left, operator, right } => {
                let mut s = String::from_str("(");
                s.append(operator.lexme.as_str());
                s.append(" ");
                s.append(left.to_text().as_str());
                s.append(" ");
                s.append(right.to_text().as_str());
                s.append(")");
                s
            },
            Expr::Assign { name, value } => {
                let mut s = String::from_str("(");
                s.append(name.lexme.as_str());
                s.append(" = ");
                s.append(value.to_text().as_str());
                s.append(")");
                s
            },
            Expr::Binary { left, operator, right } => {
                let mut s = String::from_str("(");
                s.append(operator.lexme.as_str());
                s.append(" ");
                s.append(left.to_text().as_str());
                s.append(" ");
                s.append(right.to_text().as_str());
                s.append(")");
                s
            },
            Expr::Grouping { expression } => {
                let mut s = String::from_str("(group ");
                s.append(expression.to_text().as_str());
                s.append(")");
                s
            },
            Expr::Literal { value } => value.to_text(),
            Expr::Unary { operator, right } => {
                let mut s = String::from_str("(");
                s.append(operator.lexme.as_str());
                s.append(" ");
                s.append(right.to_text().as_str());
                s.append(")");
                s
            },
            Expr::Variable { name } => {
                let mut s = String::from_str("(var ");
                s.append(name.lexme.as_str());
                s.append(")");
                s
            },
        }
    }
}

} // verus!
