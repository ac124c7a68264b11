//! The interpreter: a machine that runs a program step by step.
//!
//! Its state is the work at hand, a stack of what is left to do, the scopes
//! and the functions. `interpreter_step` says what one step does to that
//! state and what it hands to the caller; `Interpreter::step` does it.

use crate::environment::{
    assigned, chained, defined, extended, holder, lemma_define_is_local, lemma_holder_binds,
    lookup, rooted, Environment, EnvironmentView, ScopeView,
};
use crate::expr::{
    binary_operation, binary_outcome, bool_value, duplicate_exprs, duplicate_tokens, expr_text,
    expr_view, expr_views, kind_of_value, truthy, unary_operation, unary_outcome, value_text,
    value_views, Expr, ExprView, LiteralValue, Outcome, OutcomeView, ValueView,
};
use crate::lexer::{
    kind_name, lexer_report, lexer_start, scan_on, token_views, with_number, LexStep, LexStepView,
    Lexer, LexerView, Token, TokenType, TokenView,
};
use crate::number::{Number, NumberRequest, NumberRequestView, NumberView};
use crate::parser::{program, program_view, well_formed, Parser};
use crate::stmt::{duplicate_stmts, stmt_view, stmt_views, Stmt, StmtView};
use crate::text::{decimal, usize_text};
use vstd::prelude::*;

verus! {

/// A function that can be called: the built-in clock, or a function of the
/// program with the scope it was made in.
#[derive(Debug)]
pub enum Function {
    Clock,
    User { params: Vec<Token>, body: Vec<Box<Stmt>>, closure: usize },
}

/// What a `Function` stands for in contracts.
pub enum FunctionView {
    Clock,
    User { params: Seq<TokenView>, body: Seq<StmtView>, closure: usize },
}

impl View for Function {
    type V = FunctionView;

    open spec fn view(&self) -> FunctionView {
        match self {
            Function::Clock => FunctionView::Clock,
            Function::User { params, body, closure } => FunctionView::User {
                params: token_views(params@),
                body: stmt_views(body@),
                closure: *closure,
            },
        }
    }
}

/// The views of a sequence of functions.
pub open spec fn function_views(functions: Seq<Function>) -> Seq<FunctionView> {
    Seq::new(functions.len(), |i: int| functions[i]@)
}

/// What is left to do once the work at hand is done: one entry of the
/// interpreter's stack.
#[derive(Debug)]
#[allow(inconsistent_fields)]
pub enum Frame {
    /// An expression statement: its value is dropped.
    Discard,
    /// `print`: the value is handed out as a line.
    Print,
    /// `var`: the value is bound to the name in the current scope.
    Define { name: String },
    /// An assignment: the value is stored in the nearest binding.
    Assign { name: String },
    /// A unary operator waits for its operand, whose text is `operand`.
    Unary { op: TokenType, operand: String },
    /// A binary operator waits for its left operand.
    BinaryRight { op: TokenType, right: Expr },
    /// A binary operator has its left operand and waits for the right one.
    BinaryApply { op: TokenType, left: LiteralValue },
    /// `and` or `or` waits for its left operand.
    Logical { op: TokenType, right: Expr },
    /// A call waits for the value that is called.
    Callee { arguments: Vec<Expr> },
    /// A call of the function `fun` waits for an argument; `done` holds the
    /// arguments before it and `rest` the expressions after it.
    Arguments { fun: usize, done: Vec<LiteralValue>, rest: Vec<Expr> },
    /// `if` waits for its condition.
    If { then: Stmt, otherwise: Option<Stmt> },
    /// `while` waits for its condition.
    WhileTest { condition: Expr, body: Stmt },
    /// `while` waits for its body.
    WhileBody { condition: Expr, body: Stmt },
    /// `return` waits for its value.
    ReturnValue,
    /// A block: `rest` are its statements still to run, `saved` is the
    /// scope around it.
    Block { saved: usize, rest: Vec<Box<Stmt>> },
    /// The program: `rest` are its statements still to run.
    Program { rest: Vec<Box<Stmt>> },
    /// A call under way: `rest` are the statements of the body still to
    /// run, `saved` is the scope of the caller.
    Call { saved: usize, rest: Vec<Box<Stmt>> },
}

/// What a `Frame` stands for in contracts.
#[allow(inconsistent_fields)]
pub enum FrameView {
    Discard,
    Print,
    Define { name: Seq<char> },
    Assign { name: Seq<char> },
    Unary { op: TokenType, operand: Seq<char> },
    BinaryRight { op: TokenType, right: ExprView },
    BinaryApply { op: TokenType, left: ValueView },
    Logical { op: TokenType, right: ExprView },
    Callee { arguments: Seq<ExprView> },
    Arguments { fun: usize, done: Seq<ValueView>, rest: Seq<ExprView> },
    If { then: StmtView, otherwise: Option<StmtView> },
    WhileTest { condition: ExprView, body: StmtView },
    WhileBody { condition: ExprView, body: StmtView },
    ReturnValue,
    Block { saved: usize, rest: Seq<StmtView> },
    Program { rest: Seq<StmtView> },
    Call { saved: usize, rest: Seq<StmtView> },
}

impl View for Frame {
    type V = FrameView;

    open spec fn view(&self) -> FrameView {
        match self {
            Frame::Discard => FrameView::Discard,
            Frame::Print => FrameView::Print,
            Frame::Define { name } => FrameView::Define { name: name@ },
            Frame::Assign { name } => FrameView::Assign { name: name@ },
            Frame::Unary { op, operand } => FrameView::Unary { op: *op, operand: operand@ },
            Frame::BinaryRight { op, right } => FrameView::BinaryRight { op: *op, right: right@ },
            Frame::BinaryApply { op, left } => FrameView::BinaryApply { op: *op, left: left@ },
            Frame::Logical { op, right } => FrameView::Logical { op: *op, right: right@ },
            Frame::Callee { arguments } => FrameView::Callee { arguments: expr_views(arguments@) },
            Frame::Arguments { fun, done, rest } => FrameView::Arguments {
                fun: *fun,
                done: value_views(done@),
                rest: expr_views(rest@),
            },
            Frame::If { then, otherwise } => FrameView::If {
                then: then@,
                otherwise: match otherwise {
                    Some(s) => Some(s@),
                    None => None,
                },
            },
            Frame::WhileTest { condition, body } => FrameView::WhileTest {
                condition: condition@,
                body: body@,
            },
            Frame::WhileBody { condition, body } => FrameView::WhileBody {
                condition: condition@,
                body: body@,
            },
            Frame::ReturnValue => FrameView::ReturnValue,
            Frame::Block { saved, rest } => FrameView::Block {
                saved: *saved,
                rest: stmt_views(rest@),
            },
            Frame::Program { rest } => FrameView::Program { rest: stmt_views(rest@) },
            Frame::Call { saved, rest } => FrameView::Call { saved: *saved, rest: stmt_views(rest@) },
        }
    }
}

/// The views of a sequence of stack entries.
pub open spec fn frame_views(frames: Seq<Frame>) -> Seq<FrameView> {
    Seq::new(frames.len(), |i: int| frames[i]@)
}

/// The work at hand.
pub enum Control {
    /// Nothing is running.
    Idle,
    /// A source text is being scanned.
    Lexing(Lexer),
    /// The expression is to be evaluated in the current scope.
    Evaluate(Expr),
    /// The value goes to the entry on top of the stack.
    Value(LiteralValue),
    /// The statement is to be run in the current scope.
    Execute(Stmt),
    /// A statement is done; the entry on top of the stack says what is next.
    Complete,
    /// A `return` with this value is looking for the call it ends.
    Return(LiteralValue),
    /// The caller owes the number that answers this request.
    Awaiting(NumberRequest),
}

/// What a `Control` stands for in contracts.
pub enum ControlView {
    Idle,
    Lexing(LexerView),
    Evaluate(ExprView),
    Value(ValueView),
    Execute(StmtView),
    Complete,
    Return(ValueView),
    Awaiting(NumberRequestView),
}

impl View for Control {
    type V = ControlView;

    open spec fn view(&self) -> ControlView {
        match self {
            Control::Idle => ControlView::Idle,
            Control::Lexing(l) => ControlView::Lexing(l@),
            Control::Evaluate(e) => ControlView::Evaluate(e@),
            Control::Value(v) => ControlView::Value(v@),
            Control::Execute(s) => ControlView::Execute(s@),
            Control::Complete => ControlView::Complete,
            Control::Return(v) => ControlView::Return(v@),
            Control::Awaiting(r) => ControlView::Awaiting(r@),
        }
    }
}

/// What the interpreter hands to its caller after a step, and what the
/// caller does before the next one.
#[derive(Debug)]
pub enum Step {
    /// Nothing: step again.
    Continue,
    /// The caller works out the number asked for and hands it to the next
    /// step.
    NeedNumber(NumberRequest),
    /// The caller writes the line to the output, and a newline.
    Print(String),
    /// The run is over: it ended well, or with this error message.
    Finished(Result<(), String>),
}

/// What a `Step` stands for in contracts.
pub enum StepView {
    Continue,
    NeedNumber(NumberRequestView),
    Print(Seq<char>),
    Finished(Result<(), Seq<char>>),
}

impl View for Step {
    type V = StepView;

    open spec fn view(&self) -> StepView {
        match self {
            Step::Continue => StepView::Continue,
            Step::NeedNumber(r) => StepView::NeedNumber(r@),
            Step::Print(line) => StepView::Print(line@),
            Step::Finished(Ok(_)) => StepView::Finished(Ok(())),
            Step::Finished(Err(m)) => StepView::Finished(Err(m@)),
        }
    }
}

/// An interpreter as contracts see it.
pub struct InterpreterView {
    /// The scopes, the outermost one of the program first.
    pub environment: EnvironmentView,
    /// The functions made so far; a function value names one by its index.
    pub functions: Seq<FunctionView>,
    /// The stack, its top last.
    pub frames: Seq<FrameView>,
    /// The work at hand.
    pub control: ControlView,
    /// The current scope.
    pub scope: usize,
}


/// Whether the scope that an entry of the stack goes back to exists among
/// `scopes` scopes.
pub open spec fn frame_ok(frame: FrameView, scopes: nat) -> bool {
    match frame {
        FrameView::Block { saved, rest: _ } => saved < scopes,
        FrameView::Call { saved, rest: _ } => saved < scopes,
        _ => true,
    }
}

/// Whether the scope that a function was made in exists among `scopes`
/// scopes.
pub open spec fn function_ok(function: FunctionView, scopes: nat) -> bool {
    match function {
        FunctionView::User { params: _, body: _, closure } => closure < scopes,
        FunctionView::Clock => true,
    }
}

/// The scopes that the interpreter names exist: the current one, those its
/// stack goes back to, and those its functions were made in.
pub open spec fn valid(m: InterpreterView) -> bool {
    &&& m.scope < m.environment.scopes.len()
    &&& forall|i: int|
        0 <= i < m.frames.len() ==> frame_ok(#[trigger] m.frames[i], m.environment.scopes.len())
    &&& forall|j: int|
        0 <= j < m.functions.len() ==> function_ok(
            #[trigger] m.functions[j],
            m.environment.scopes.len(),
        )
}

/// The interpreter with its work at hand taken out.
pub open spec fn at_rest(m: InterpreterView) -> InterpreterView {
    InterpreterView { control: ControlView::Idle, ..m }
}

/// The interpreter with `control` as its work at hand.
pub open spec fn with_control(m: InterpreterView, control: ControlView) -> InterpreterView {
    InterpreterView { control, ..m }
}

/// The interpreter with one more entry on its stack.
pub open spec fn with_frame(m: InterpreterView, frame: FrameView) -> InterpreterView {
    InterpreterView { frames: m.frames.push(frame), ..m }
}

/// The interpreter without the top entry of its stack.
pub open spec fn below(m: InterpreterView) -> InterpreterView {
    InterpreterView { frames: m.frames.drop_last(), ..m }
}

/// A step that hands nothing to the caller.
pub open spec fn proceed(m: InterpreterView) -> (InterpreterView, StepView) {
    (m, StepView::Continue)
}

/// A run-time error: the run is given up, the stack is dropped, and the
/// current scope is the outermost one again. What was bound stays bound.
pub open spec fn failure(m: InterpreterView, message: Seq<char>) -> (InterpreterView, StepView) {
    (
        InterpreterView { frames: Seq::empty(), control: ControlView::Idle, scope: 0, ..m },
        StepView::Finished(Err(message)),
    )
}

/// The end of a run.
pub open spec fn finish(m: InterpreterView) -> (InterpreterView, StepView) {
    (with_control(m, ControlView::Idle), StepView::Finished(Ok(())))
}

/// What an operator came to: its value goes on, its question goes to the
/// caller, its error ends the run.
pub open spec fn settle(m: InterpreterView, outcome: OutcomeView) -> (InterpreterView, StepView) {
    match outcome {
        OutcomeView::Value(v) => proceed(with_control(m, ControlView::Value(v))),
        OutcomeView::Ask(request) => (
            with_control(m, ControlView::Awaiting(request)),
            StepView::NeedNumber(request),
        ),
        OutcomeView::Error(message) => failure(m, message),
    }
}

/// Whether a call is under way: whether the stack holds the entry of one.
pub open spec fn in_call(frames: Seq<FrameView>) -> bool
    decreases frames.len(),
{
    frames.len() > 0 && (frames.last() is Call || in_call(frames.drop_last()))
}

/// The message for reading a name that nothing binds.
pub open spec fn undeclared_read(name: Seq<char>) -> Seq<char> {
    "Variable '"@ + name + "' has not been declared"@
}

/// The message for assigning to a name that nothing binds.
pub open spec fn undeclared_write(name: Seq<char>) -> Seq<char> {
    "Variable "@ + name + " has not been declared"@
}

/// The message for a call with another number of arguments than the
/// callee takes.
pub open spec fn arity_message(name: Seq<char>, arity: usize, given: nat) -> Seq<char> {
    "Callable "@ + name + " expected "@ + decimal(arity as nat) + " arguments got "@ + decimal(given)
}

/// The function value for the function that is made next.
pub open spec fn new_callable(m: InterpreterView, name: Seq<char>, params: Seq<TokenView>)
    -> ValueView {
    ValueView::Callable { name, arity: params.len() as usize, fun: m.functions.len() as usize }
}

/// The interpreter with one more function, made in the current scope.
pub open spec fn with_function(m: InterpreterView, params: Seq<TokenView>, body: Seq<StmtView>)
    -> InterpreterView {
    InterpreterView {
        functions: m.functions.push(FunctionView::User { params, body, closure: m.scope }),
        ..m
    }
}

/// Starting on an expression.
pub open spec fn evaluate_step(m: InterpreterView, e: ExprView) -> (InterpreterView, StepView) {
    match e {
        ExprView::Literal { value } => proceed(with_control(m, ControlView::Value(value))),
        ExprView::Variable { name } => match lookup(m.environment, m.scope as int, name.lexme) {
            Some(v) => proceed(with_control(m, ControlView::Value(v))),
            None => failure(m, undeclared_read(name.lexme)),
        },
        ExprView::Grouping { expression } => proceed(
            with_control(m, ControlView::Evaluate(*expression)),
        ),
        ExprView::Assign { name, value } => proceed(
            with_control(
                with_frame(m, FrameView::Assign { name: name.lexme }),
                ControlView::Evaluate(*value),
            ),
        ),
        ExprView::Unary { operator, right } => proceed(
            with_control(
                with_frame(
                    m,
                    FrameView::Unary { op: operator.token_t, operand: expr_text(*right) },
                ),
                ControlView::Evaluate(*right),
            ),
        ),
        ExprView::Binary { left, operator, right } => proceed(
            with_control(
                with_frame(m, FrameView::BinaryRight { op: operator.token_t, right: *right }),
                ControlView::Evaluate(*left),
            ),
        ),
        ExprView::Logical { left, operator, right } => if operator.token_t == TokenType::Or
            || operator.token_t == TokenType::And {
            proceed(
                with_control(
                    with_frame(m, FrameView::Logical { op: operator.token_t, right: *right }),
                    ControlView::Evaluate(*left),
                ),
            )
        } else {
            failure(m, "Invalid token in logical expression: "@ + kind_name(operator.token_t))
        },
        ExprView::Call { callee, paren: _, arguments } => proceed(
            with_control(with_frame(m, FrameView::Callee { arguments }), ControlView::Evaluate(*callee)),
        ),
        ExprView::AnonFunction { paren: _, arguments, body } => proceed(
            with_control(
                with_function(m, arguments, body),
                ControlView::Value(new_callable(m, "anon_function"@, arguments)),
            ),
        ),
    }
}

/// The environment after the parameters from the `i`-th on are bound, in
/// `scope`, to the arguments in the same places.
pub open spec fn bind_from(
    env: EnvironmentView,
    scope: int,
    params: Seq<TokenView>,
    args: Seq<ValueView>,
    i: int,
) -> EnvironmentView
    decreases params.len() - i,
{
    if 0 <= i < params.len() && i < args.len() {
        bind_from(defined(env, scope, params[i].lexme, args[i]), scope, params, args, i + 1)
    } else {
        env
    }
}

/// The message for calling a function value that names no function of the
/// interpreter, or one with another number of parameters than it says.
pub open spec fn unknown_callable() -> Seq<char> {
    "Callable is not known to this interpreter"@
}

/// Calling the function `fun` with `args`: the clock asks the caller for
/// the time; a function of the program gets a scope of its own inside the
/// scope it was made in, its parameters bound there, and its body to run.
pub open spec fn invoke(m: InterpreterView, fun: usize, args: Seq<ValueView>) -> (
    InterpreterView,
    StepView,
) {
    if fun >= m.functions.len() {
        failure(m, unknown_callable())
    } else {
        match m.functions[fun as int] {
            FunctionView::Clock => (
                with_control(m, ControlView::Awaiting(NumberRequestView::Clock)),
                StepView::NeedNumber(NumberRequestView::Clock),
            ),
            FunctionView::User { params, body, closure } => if params.len() != args.len() {
                failure(m, unknown_callable())
            } else {
                proceed(
                    InterpreterView {
                        environment: bind_from(
                            extended(m.environment, Some(closure)),
                            m.environment.scopes.len() as int,
                            params,
                            args,
                            0,
                        ),
                        frames: m.frames.push(FrameView::Call { saved: m.scope, rest: body }),
                        scope: m.environment.scopes.len() as usize,
                        control: ControlView::Complete,
                        ..m
                    },
                )
            },
        }
    }
}

/// A value has arrived for a call: it is the callee.
pub open spec fn callee_step(m: InterpreterView, arguments: Seq<ExprView>, v: ValueView) -> (
    InterpreterView,
    StepView,
) {
    match v {
        ValueView::Callable { name, arity, fun } => if arguments.len() != arity {
            failure(m, arity_message(name, arity, arguments.len()))
        } else if arguments.len() == 0 {
            invoke(m, fun, Seq::empty())
        } else {
            proceed(
                with_control(
                    with_frame(
                        m,
                        FrameView::Arguments {
                            fun,
                            done: Seq::empty(),
                            rest: arguments.drop_first(),
                        },
                    ),
                    ControlView::Evaluate(arguments[0]),
                ),
            )
        },
        _ => failure(m, kind_of_value(v) + " is not callable"@),
    }
}

/// A value has arrived for a call: it is the next argument.
pub open spec fn argument_step(
    m: InterpreterView,
    fun: usize,
    done: Seq<ValueView>,
    rest: Seq<ExprView>,
    v: ValueView,
) -> (InterpreterView, StepView) {
    if rest.len() == 0 {
        invoke(m, fun, done.push(v))
    } else {
        proceed(
            with_control(
                with_frame(
                    m,
                    FrameView::Arguments { fun, done: done.push(v), rest: rest.drop_first() },
                ),
                ControlView::Evaluate(rest[0]),
            ),
        )
    }
}

/// The message for a function value where a condition is asked for.
pub open spec fn not_truthy() -> Seq<char> {
    "Cannot use callable as a truthy value"@
}

/// A value has arrived for the entry `frame`, which was on top of the
/// stack of `m` and is there no more.
pub open spec fn frame_step(m: InterpreterView, frame: FrameView, v: ValueView) -> (
    InterpreterView,
    StepView,
) {
    match frame {
        FrameView::Discard => proceed(with_control(m, ControlView::Complete)),
        FrameView::Print => (with_control(m, ControlView::Complete), StepView::Print(value_text(v))),
        FrameView::Define { name } => proceed(
            InterpreterView {
                environment: defined(m.environment, m.scope as int, name, v),
                control: ControlView::Complete,
                ..m
            },
        ),
        FrameView::Assign { name } => if holder(m.environment, m.scope as int, name) is Some {
            proceed(
                InterpreterView {
                    environment: assigned(m.environment, m.scope as int, name, v),
                    control: ControlView::Value(v),
                    ..m
                },
            )
        } else {
            failure(m, undeclared_write(name))
        },
        FrameView::Unary { op, operand } => settle(m, unary_outcome(op, v, operand)),
        FrameView::BinaryRight { op, right } => proceed(
            with_control(
                with_frame(m, FrameView::BinaryApply { op, left: v }),
                ControlView::Evaluate(right),
            ),
        ),
        FrameView::BinaryApply { op, left } => settle(m, binary_outcome(left, op, v)),
        FrameView::Logical { op, right } => match truthy(v) {
            None => failure(m, not_truthy()),
            Some(t) => if (op == TokenType::Or) == t {
                proceed(with_control(m, ControlView::Value(v)))
            } else {
                proceed(with_control(m, ControlView::Evaluate(right)))
            },
        },
        FrameView::Callee { arguments } => callee_step(m, arguments, v),
        FrameView::Arguments { fun, done, rest } => argument_step(m, fun, done, rest, v),
        FrameView::If { then, otherwise } => match truthy(v) {
            None => failure(m, not_truthy()),
            Some(t) => if t {
                proceed(with_control(m, ControlView::Execute(then)))
            } else {
                match otherwise {
                    Some(s) => proceed(with_control(m, ControlView::Execute(s))),
                    None => proceed(with_control(m, ControlView::Complete)),
                }
            },
        },
        FrameView::WhileTest { condition, body } => match truthy(v) {
            None => failure(m, not_truthy()),
            Some(t) => if t {
                proceed(
                    with_control(
                        with_frame(m, FrameView::WhileBody { condition, body }),
                        ControlView::Execute(body),
                    ),
                )
            } else {
                proceed(with_control(m, ControlView::Complete))
            },
        },
        FrameView::ReturnValue => if in_call(m.frames) {
            proceed(with_control(m, ControlView::Return(v)))
        } else {
            proceed(with_control(m, ControlView::Complete))
        },
        // An entry that waits for a statement stays where it was; the value
        // is dropped.
        _ => proceed(with_control(with_frame(m, frame), ControlView::Complete)),
    }
}

/// A value goes to the entry on top of the stack. With an empty stack the
/// run is over.
pub open spec fn value_step(m: InterpreterView, v: ValueView) -> (InterpreterView, StepView) {
    if m.frames.len() == 0 {
        finish(m)
    } else {
        frame_step(below(m), m.frames.last(), v)
    }
}

/// Starting on a statement.
pub open spec fn execute_step(m: InterpreterView, s: StmtView) -> (InterpreterView, StepView) {
    match s {
        StmtView::Expression { expression } => proceed(
            with_control(with_frame(m, FrameView::Discard), ControlView::Evaluate(expression)),
        ),
        StmtView::Print { expression } => proceed(
            with_control(with_frame(m, FrameView::Print), ControlView::Evaluate(expression)),
        ),
        StmtView::Var { name, initializer } => proceed(
            with_control(
                with_frame(m, FrameView::Define { name: name.lexme }),
                ControlView::Evaluate(initializer),
            ),
        ),
        StmtView::Block { statements } => proceed(
            InterpreterView {
                environment: extended(m.environment, Some(m.scope)),
                frames: m.frames.push(FrameView::Block { saved: m.scope, rest: statements }),
                scope: m.environment.scopes.len() as usize,
                control: ControlView::Complete,
                ..m
            },
        ),
        StmtView::IfStmt { predicate, then, else_branch } => proceed(
            with_control(
                with_frame(
                    m,
                    FrameView::If {
                        then: *then,
                        otherwise: match else_branch {
                            Some(s) => Some(*s),
                            None => None,
                        },
                    },
                ),
                ControlView::Evaluate(predicate),
            ),
        ),
        StmtView::WhileStmt { condition, body } => proceed(
            with_control(
                with_frame(m, FrameView::WhileTest { condition, body: *body }),
                ControlView::Evaluate(condition),
            ),
        ),
        StmtView::Function { name, params, body } => proceed(
            InterpreterView {
                environment: defined(
                    m.environment,
                    m.scope as int,
                    name.lexme,
                    new_callable(m, name.lexme, params),
                ),
                control: ControlView::Complete,
                ..with_function(m, params, body)
            },
        ),
        StmtView::ReturnStmt { keyword: _, value } => match value {
            Some(e) => proceed(
                with_control(with_frame(m, FrameView::ReturnValue), ControlView::Evaluate(e)),
            ),
            None => if in_call(m.frames) {
                proceed(with_control(m, ControlView::Return(ValueView::Nil)))
            } else {
                proceed(with_control(m, ControlView::Complete))
            },
        },
    }
}

/// A statement is done and the entry `frame`, which was on top of the
/// stack of `m` and is there no more, says what is next.
pub open spec fn next_step(m: InterpreterView, frame: FrameView) -> (InterpreterView, StepView) {
    match frame {
        FrameView::Block { saved, rest } => if rest.len() == 0 {
            proceed(InterpreterView { scope: saved, control: ControlView::Complete, ..m })
        } else {
            proceed(
                with_control(
                    with_frame(m, FrameView::Block { saved, rest: rest.drop_first() }),
                    ControlView::Execute(rest[0]),
                ),
            )
        },
        FrameView::Program { rest } => if rest.len() == 0 {
            proceed(with_control(m, ControlView::Complete))
        } else {
            proceed(
                with_control(
                    with_frame(m, FrameView::Program { rest: rest.drop_first() }),
                    ControlView::Execute(rest[0]),
                ),
            )
        },
        FrameView::Call { saved, rest } => if rest.len() == 0 {
            proceed(
                InterpreterView { scope: saved, control: ControlView::Value(ValueView::Nil), ..m },
            )
        } else {
            proceed(
                with_control(
                    with_frame(m, FrameView::Call { saved, rest: rest.drop_first() }),
                    ControlView::Execute(rest[0]),
                ),
            )
        },
        FrameView::WhileBody { condition, body } => proceed(
            with_control(
                with_frame(m, FrameView::WhileTest { condition, body }),
                ControlView::Evaluate(condition),
            ),
        ),
        // An entry that waits for a value gets none: it is dropped.
        _ => proceed(with_control(m, ControlView::Complete)),
    }
}

/// A statement is done. With an empty stack the run is over.
pub open spec fn complete_step(m: InterpreterView) -> (InterpreterView, StepView) {
    if m.frames.len() == 0 {
        finish(m)
    } else {
        next_step(below(m), m.frames.last())
    }
}

/// A `return` with the value `v` leaves the entry on top of the stack: at
/// the entry of a call the call ends with `v`; a block gives its scope up;
/// every other entry is dropped.
pub open spec fn return_step(m: InterpreterView, v: ValueView) -> (InterpreterView, StepView) {
    if m.frames.len() == 0 {
        finish(m)
    } else {
        match m.frames.last() {
            FrameView::Call { saved, rest: _ } => proceed(
                InterpreterView { scope: saved, control: ControlView::Value(v), ..below(m) },
            ),
            FrameView::Block { saved, rest: _ } => proceed(
                InterpreterView { scope: saved, control: ControlView::Return(v), ..below(m) },
            ),
            _ => proceed(with_control(below(m), ControlView::Return(v))),
        }
    }
}

/// The interpreter with a program to run and nothing else on its stack.
pub open spec fn loaded(m: InterpreterView, statements: Seq<StmtView>) -> InterpreterView {
    InterpreterView {
        frames: seq![FrameView::Program { rest: statements }],
        control: ControlView::Complete,
        scope: 0,
        ..m
    }
}

/// Scanning the source on: a number literal is asked of the caller; a
/// source that is read is parsed, and its program loaded; an error of
/// either stage ends the run.
pub open spec fn lexing_step(m: InterpreterView, l: LexerView, reply: Option<NumberView>) -> (
    InterpreterView,
    StepView,
) {
    let supplied = match reply {
        Some(n) => with_number(l, n),
        None => l,
    };
    let (after, report) = lexer_report(scan_on(supplied));
    match report {
        LexStepView::NeedNumber(text) => (
            with_control(m, ControlView::Lexing(after)),
            StepView::NeedNumber(NumberRequestView::Parse(text)),
        ),
        LexStepView::Done(Err(message)) => failure(m, message),
        LexStepView::Done(Ok(tokens)) => match program(tokens, 0, Seq::empty(), Seq::empty()) {
            Err(message) => failure(m, message),
            Ok(statements) => proceed(loaded(m, statements)),
        },
    }
}

/// One step of the interpreter. `reply` is the number that the step before
/// asked for; it is read only where one is owed.
pub open spec fn interpreter_step(m: InterpreterView, reply: Option<NumberView>) -> (
    InterpreterView,
    StepView,
) {
    match m.control {
        ControlView::Idle => finish(m),
        ControlView::Lexing(l) => lexing_step(at_rest(m), l, reply),
        ControlView::Awaiting(request) => match reply {
            Some(n) => proceed(with_control(m, ControlView::Value(ValueView::Number(n)))),
            None => (m, StepView::NeedNumber(request)),
        },
        ControlView::Evaluate(e) => evaluate_step(at_rest(m), e),
        ControlView::Value(v) => value_step(at_rest(m), v),
        ControlView::Execute(s) => execute_step(at_rest(m), s),
        ControlView::Complete => complete_step(at_rest(m)),
        ControlView::Return(v) => return_step(at_rest(m), v),
    }
}

/// The interpreter set to run `source`: what it was doing is given up, what
/// is bound stays bound.
pub open spec fn started(m: InterpreterView, source: Seq<char>) -> InterpreterView {
    InterpreterView {
        frames: Seq::empty(),
        control: ControlView::Lexing(lexer_start(source)),
        scope: 0,
        ..m
    }
}

/// The value of the built-in clock.
pub open spec fn clock_value() -> ValueView {
    ValueView::Callable { name: "clock"@, arity: 0, fun: 0 }
}

/// A new interpreter: one scope, in which `clock` is bound.
pub open spec fn fresh() -> InterpreterView {
    InterpreterView {
        environment: EnvironmentView {
            scopes: seq![
                ScopeView {
                    bindings: Map::empty().insert("clock"@, clock_value()),
                    enclosing: None,
                },
            ],
        },
        functions: seq![FunctionView::Clock],
        frames: Seq::empty(),
        control: ControlView::Idle,
        scope: 0,
    }
}


/// `print` hands out one line, the text of its value, and is done.
pub proof fn lemma_print_emits_the_text(m: InterpreterView, v: ValueView, reply: Option<NumberView>)
    requires
        m.control == ControlView::Value(v),
        m.frames.len() > 0,
        m.frames.last() is Print,
    ensures
        interpreter_step(m, reply).1 == StepView::Print(value_text(v)),
        interpreter_step(m, reply).0 == (InterpreterView {
            frames: m.frames.drop_last(),
            control: ControlView::Complete,
            ..m
        }),
{
}

/// No step hands out a line but the one that ends a `print`, and that line
/// is the text of the value printed.
pub proof fn lemma_lines_come_from_print(
    m: InterpreterView,
    reply: Option<NumberView>,
    line: Seq<char>,
)
    requires
        interpreter_step(m, reply).1 == StepView::Print(line),
    ensures
        m.control is Value,
        m.frames.len() > 0,
        m.frames.last() is Print,
        line == value_text(m.control->Value_0),
{
    match m.control {
        ControlView::Value(v) => {
            if m.frames.len() > 0 {
                let rest = below(at_rest(m));
                match m.frames.last() {
                    FrameView::Callee { arguments } => {
                        assert(callee_step(rest, arguments, v).1 != StepView::Print(line));
                    },
                    FrameView::Arguments { fun, done, rest: more } => {
                        assert(argument_step(rest, fun, done, more, v).1 != StepView::Print(line));
                    },
                    _ => {},
                }
            }
        },
        ControlView::Complete => {
            if m.frames.len() > 0 {
                assert(next_step(below(at_rest(m)), m.frames.last()).1 != StepView::Print(line));
            }
        },
        _ => {},
    }
}

/// `or` with a left operand that counts as true, and `and` with one that
/// counts as false, yield that operand; the right operand is dropped and
/// never evaluated.
pub proof fn lemma_short_circuit(
    m: InterpreterView,
    v: ValueView,
    op: TokenType,
    right: ExprView,
    reply: Option<NumberView>,
)
    requires
        m.control == ControlView::Value(v),
        m.frames.len() > 0,
        m.frames.last() == (FrameView::Logical { op, right }),
        (op == TokenType::Or && truthy(v) == Some(true)) || (op == TokenType::And && truthy(v)
            == Some(false)),
    ensures
        interpreter_step(m, reply) == proceed(
            InterpreterView {
                frames: m.frames.drop_last(),
                control: ControlView::Value(v),
                ..m
            },
        ),
{
}

/// `or` with a left operand that counts as false, and `and` with one that
/// counts as true, go on to evaluate the right operand, whose value is the
/// value of the whole.
pub proof fn lemma_logical_goes_on(
    m: InterpreterView,
    v: ValueView,
    op: TokenType,
    right: ExprView,
    reply: Option<NumberView>,
)
    requires
        m.control == ControlView::Value(v),
        m.frames.len() > 0,
        m.frames.last() == (FrameView::Logical { op, right }),
        (op == TokenType::Or && truthy(v) == Some(false)) || (op == TokenType::And && truthy(v)
            == Some(true)),
    ensures
        interpreter_step(m, reply) == proceed(
            InterpreterView {
                frames: m.frames.drop_last(),
                control: ControlView::Evaluate(right),
                ..m
            },
        ),
{
}

/// A call with another number of arguments than the callee takes is a
/// run-time error: the run ends with the message, no argument is
/// evaluated, no scope is made and nothing is bound.
pub proof fn lemma_arity_mismatch(
    m: InterpreterView,
    name: Seq<char>,
    arity: usize,
    fun: usize,
    arguments: Seq<ExprView>,
    reply: Option<NumberView>,
)
    requires
        m.control == (ControlView::Value(ValueView::Callable { name, arity, fun })),
        m.frames.len() > 0,
        m.frames.last() == (FrameView::Callee { arguments }),
        arguments.len() != arity,
    ensures
        interpreter_step(m, reply).1 == StepView::Finished(
            Err(arity_message(name, arity, arguments.len())),
        ),
        interpreter_step(m, reply).0 == (InterpreterView {
            frames: Seq::empty(),
            control: ControlView::Idle,
            scope: 0,
            ..m
        }),
{
}

/// Entering a block makes a new scope, newer than every other, inside the
/// scope that was current, and makes it the current one.
pub proof fn lemma_block_opens_a_scope(
    m: InterpreterView,
    statements: Seq<StmtView>,
    reply: Option<NumberView>,
)
    requires
        valid(m),
        m.environment.scopes.len() < usize::MAX,
        m.control == (ControlView::Execute(StmtView::Block { statements })),
    ensures
        ({
            let after = interpreter_step(m, reply).0;
            &&& after.scope == m.environment.scopes.len()
            &&& after.scope > m.scope
            &&& after.environment.scopes[after.scope as int].enclosing == Some(m.scope)
            &&& after.frames.last() == (FrameView::Block { saved: m.scope, rest: statements })
        }),
{
}

/// `var` binds in the current scope and nowhere else: what the scopes made
/// before the current one find under any name stays what it was. So what
/// a block declares does not reach the scope around the block.
pub proof fn lemma_var_is_local(
    m: InterpreterView,
    v: ValueView,
    name: Seq<char>,
    outer: int,
    other: Seq<char>,
    reply: Option<NumberView>,
)
    requires
        valid(m),
        chained(m.environment),
        m.control == ControlView::Value(v),
        m.frames.len() > 0,
        m.frames.last() == (FrameView::Define { name }),
        0 <= outer < m.scope,
    ensures
        interpreter_step(m, reply).0.environment == defined(
            m.environment,
            m.scope as int,
            name,
            v,
        ),
        lookup(interpreter_step(m, reply).0.environment, outer, other) == lookup(
            m.environment,
            outer,
            other,
        ),
{
    lemma_define_is_local(m.environment, m.scope as int, outer, name, v, other);
}

/// A block that is done gives its scope up: the scope around it is the
/// current one again.
pub proof fn lemma_block_restores_the_scope(
    m: InterpreterView,
    saved: usize,
    reply: Option<NumberView>,
)
    requires
        m.control == ControlView::Complete,
        m.frames.len() > 0,
        m.frames.last() == (FrameView::Block { saved, rest: Seq::empty() }),
    ensures
        interpreter_step(m, reply) == proceed(
            InterpreterView { frames: m.frames.drop_last(), scope: saved, ..m },
        ),
{
}

/// Binding parameters changes neither the number of scopes nor what
/// encloses what.
pub proof fn lemma_bind_keeps_the_chain(
    env: EnvironmentView,
    scope: int,
    params: Seq<TokenView>,
    args: Seq<ValueView>,
    i: int,
)
    requires
        0 <= scope < env.scopes.len(),
    ensures
        bind_from(env, scope, params, args, i).scopes.len() == env.scopes.len(),
        forall|k: int|
            0 <= k < env.scopes.len() ==> (#[trigger] bind_from(
                env,
                scope,
                params,
                args,
                i,
            ).scopes[k]).enclosing == env.scopes[k].enclosing,
    decreases params.len() - i,
{
    if 0 <= i < params.len() && i < args.len() {
        let next = defined(env, scope, params[i].lexme, args[i]);
        lemma_bind_keeps_the_chain(next, scope, params, args, i + 1);
        assert forall|k: int| 0 <= k < env.scopes.len() implies (#[trigger] bind_from(
            env,
            scope,
            params,
            args,
            i,
        ).scopes[k]).enclosing == env.scopes[k].enclosing by {
            assert(next.scopes[k].enclosing == env.scopes[k].enclosing);
        }
    }
}

/// A call runs in a new scope that lies directly inside the scope its
/// function was made in, whatever scope it is called from. Functions made
/// in one scope so share that scope, and see what each other assigns there.
pub proof fn lemma_call_runs_inside_the_closure(
    m: InterpreterView,
    fun: usize,
    args: Seq<ValueView>,
    params: Seq<TokenView>,
    body: Seq<StmtView>,
    closure: usize,
)
    requires
        valid(m),
        m.environment.scopes.len() < usize::MAX,
        fun < m.functions.len(),
        m.functions[fun as int] == (FunctionView::User { params, body, closure }),
        params.len() == args.len(),
    ensures
        ({
            let after = invoke(m, fun, args).0;
            &&& after.scope == m.environment.scopes.len()
            &&& after.environment.scopes.len() == m.environment.scopes.len() + 1
            &&& after.environment.scopes[after.scope as int].enclosing == Some(closure)
            &&& after.frames.last() == (FrameView::Call { saved: m.scope, rest: body })
            &&& after.control == ControlView::Complete
        }),
{
    let grown = extended(m.environment, Some(closure));
    lemma_bind_keeps_the_chain(grown, m.environment.scopes.len() as int, params, args, 0);
    let after = invoke(m, fun, args).0;
    assert(after.environment.scopes[m.environment.scopes.len() as int].enclosing
        == grown.scopes[m.environment.scopes.len() as int].enclosing);
}

/// A function made by a declaration or an expression keeps the scope it is
/// made in.
pub proof fn lemma_function_keeps_its_scope(
    m: InterpreterView,
    params: Seq<TokenView>,
    body: Seq<StmtView>,
)
    ensures
        with_function(m, params, body).functions.last() == (FunctionView::User {
            params,
            body,
            closure: m.scope,
        }),
{
}

/// `return` ends the call it is in: at the entry of the call the value goes
/// to the caller, whose scope is the current one again.
pub proof fn lemma_return_ends_the_call(
    m: InterpreterView,
    v: ValueView,
    saved: usize,
    rest: Seq<StmtView>,
    reply: Option<NumberView>,
)
    requires
        m.control == ControlView::Return(v),
        m.frames.len() > 0,
        m.frames.last() == (FrameView::Call { saved, rest }),
    ensures
        interpreter_step(m, reply) == proceed(
            InterpreterView {
                frames: m.frames.drop_last(),
                scope: saved,
                control: ControlView::Value(v),
                ..m
            },
        ),
{
}

/// A call whose body is done without a `return` yields `nil`.
pub proof fn lemma_call_without_return_yields_nil(
    m: InterpreterView,
    saved: usize,
    reply: Option<NumberView>,
)
    requires
        m.control == ControlView::Complete,
        m.frames.len() > 0,
        m.frames.last() == (FrameView::Call { saved, rest: Seq::empty() }),
    ensures
        interpreter_step(m, reply) == proceed(
            InterpreterView {
                frames: m.frames.drop_last(),
                scope: saved,
                control: ControlView::Value(ValueView::Nil),
                ..m
            },
        ),
{
}

/// A step reads the number it is handed only where one is owed: while a
/// request is open, or while a number literal is scanned. Every other step
/// is the same whatever it is handed.
pub proof fn lemma_reply_is_read_where_owed(
    m: InterpreterView,
    one: Option<NumberView>,
    other: Option<NumberView>,
)
    requires
        !(m.control is Awaiting),
        !(m.control is Lexing),
    ensures
        interpreter_step(m, one) == interpreter_step(m, other),
{
}

/// The number that a caller who answers the `i`-th request by `answers`
/// hands to the step after `step`.
pub open spec fn reply_to(
    step: StepView,
    answers: spec_fn(nat, NumberRequestView) -> NumberView,
    i: nat,
) -> Option<NumberView> {
    match step {
        StepView::NeedNumber(request) => Some(answers(i, request)),
        _ => None,
    }
}

/// A run of `n` steps from `m`, the first of which is handed `reply` and
/// the others what `answers` gives to the step before them; steps are
/// counted from `i`. It yields the interpreter after the steps and what the
/// steps handed out, in order.
pub open spec fn run_for(
    m: InterpreterView,
    reply: Option<NumberView>,
    answers: spec_fn(nat, NumberRequestView) -> NumberView,
    i: nat,
    n: nat,
) -> (InterpreterView, Seq<StepView>)
    decreases n,
{
    if n == 0 {
        (m, Seq::empty())
    } else {
        let (next, step) = interpreter_step(m, reply);
        let (last, steps) = run_for(
            next,
            reply_to(step, answers, i),
            answers,
            i + 1,
            (n - 1) as nat,
        );
        (last, seq![step] + steps)
    }
}

/// Whether none of the steps asks for the clock.
pub open spec fn clock_free(steps: Seq<StepView>) -> bool {
    forall|k: int|
        0 <= k < steps.len() ==> #[trigger] steps[k] != StepView::NeedNumber(
            NumberRequestView::Clock,
        )
}

/// A run is a matter of the interpreter's state and of the numbers it is
/// handed, and of nothing else. Two callers who answer every request but
/// the one for the clock alike see the same run, step for step and line for
/// line, as long as the clock is not asked for: the same source gives the
/// same output, and an expression evaluated again in the same state gives
/// the same value.
pub proof fn lemma_runs_agree_apart_from_the_clock(
    m: InterpreterView,
    reply: Option<NumberView>,
    one: spec_fn(nat, NumberRequestView) -> NumberView,
    other: spec_fn(nat, NumberRequestView) -> NumberView,
    i: nat,
    n: nat,
)
    requires
        forall|k: nat, request: NumberRequestView|
            request != NumberRequestView::Clock ==> #[trigger] one(k, request) == other(k, request),
        clock_free(run_for(m, reply, one, i, n).1),
    ensures
        run_for(m, reply, one, i, n) == run_for(m, reply, other, i, n),
    decreases n,
{
    if n > 0 {
        let (next, step) = interpreter_step(m, reply);
        let rest = run_for(next, reply_to(step, one, i), one, i + 1, (n - 1) as nat);
        let steps = run_for(m, reply, one, i, n).1;
        assert(steps == seq![step] + rest.1);
        assert(steps[0] == step);
        assert(reply_to(step, one, i) == reply_to(step, other, i));
        assert(clock_free(rest.1)) by {
            assert forall|k: int| 0 <= k < rest.1.len() implies #[trigger] rest.1[k]
                != StepView::NeedNumber(NumberRequestView::Clock) by {
                assert(steps[k + 1] == rest.1[k]);
            }
        }
        lemma_runs_agree_apart_from_the_clock(
            next,
            reply_to(step, one, i),
            one,
            other,
            i + 1,
            (n - 1) as nat,
        );
    }
}

/// The view of a number that may be missing.
pub open spec fn reply_view(reply: Option<Number>) -> Option<NumberView> {
    match reply {
        Some(n) => Some(n@),
        None => None,
    }
}

/// An interpreter: the scopes and functions of a program, and the state of
/// its run. It goes on step by step; what it cannot do itself (work on
/// numbers, the clock, output) each step hands to the caller.
pub struct Interpreter {
    environment: Environment,
    functions: Vec<Function>,
    frames: Vec<Frame>,
    control: Control,
    scope: usize,
}

impl View for Interpreter {
    type V = InterpreterView;

    closed spec fn view(&self) -> InterpreterView {
        InterpreterView {
            environment: self.environment@,
            functions: function_views(self.functions@),
            frames: frame_views(self.frames@),
            control: self.control@,
            scope: self.scope,
        }
    }
}

impl Interpreter {
    /// The interpreter's parts are in order, and the scopes it names
    /// exist.
    pub closed spec fn wf(&self) -> bool {
        &&& self.environment.wf()
        &&& valid(self@)
        &&& match self.control {
            Control::Lexing(l) => l.wf(),
            _ => true,
        }
    }

    /// In an interpreter that is in order the scopes that it names exist,
    /// and the scopes form one tree.
    pub proof fn lemma_wf_valid(&self)
        requires
            self.wf(),
        ensures
            valid(self@),
            rooted(self@.environment),
            chained(self@.environment),
    {
        self.environment.lemma_wf_chained();
    }

    /// A new interpreter, with `clock` bound in its outermost scope.
    pub fn new() -> (r: Interpreter)
        ensures
            r.wf(),
            r@ == fresh(),
    {
        let mut environment = Environment::new();
        environment.define(
            0,
            String::from_str("clock"),
            LiteralValue::Callable { name: String::from_str("clock"), arity: 0, fun: 0 },
        );
        let mut functions: Vec<Function> = Vec::new();
        functions.push(Function::Clock);
        let r = Interpreter {
            environment,
            functions,
            frames: Vec::new(),
            control: Control::Idle,
            scope: 0,
        };
        assert(r@.environment.scopes =~= fresh().environment.scopes);
        assert(r@.functions =~= fresh().functions);
        assert(r@.frames =~= fresh().frames);
        r
    }

    /// Loads a program: what the interpreter was doing is given up, and the
    /// next steps run the statements in order.
    pub fn interpret(&mut self, stmts: Vec<Box<Stmt>>)
        requires
            old(self).wf(),
        ensures
            final(self).wf(),
            final(self)@ == loaded(old(self)@, stmt_views(stmts@)),
    {
        let mut frames: Vec<Frame> = Vec::new();
        frames.push(Frame::Program { rest: stmts });
        self.frames = frames;
        self.scope = 0;
        self.control = Control::Complete;
        assert(self@.frames =~= seq![FrameView::Program { rest: stmt_views(stmts@) }]);
        assert(self@.functions == old(self)@.functions);
        assert(valid(self@));
    }

    /// Sets the interpreter to run `source` from its first character.
    pub fn start(&mut self, source: &str)
        requires
            old(self).wf(),
        ensures
            final(self).wf(),
            final(self)@ == started(old(self)@, source@),
    {
        self.frames = Vec::new();
        self.scope = 0;
        self.control = Control::Lexing(Lexer::new(source));
        assert(self@.frames =~= Seq::empty());
        assert(self@.functions == old(self)@.functions);
        assert(valid(self@));
    }

    /// What `name` is bound to in the outermost scope.
    pub fn global(&self, name: &str) -> (r: Option<LiteralValue>)
        requires
            self.wf(),
        ensures
            match r {
                Some(v) => lookup(self@.environment, 0, name@) == Some(v@),
                None => lookup(self@.environment, 0, name@) is None,
            },
    {
        self.environment.get(0, name)
    }

    /// Whether a run is under way.
    pub fn is_running(&self) -> (r: bool)
        ensures
            r == !(self@.control is Idle),
    {
        match &self.control {
            Control::Idle => false,
            _ => true,
        }
    }

    /// One step. `reply` is the number that the step before asked for.
    pub fn step(&mut self, reply: Option<Number>) -> (r: Step)
        requires
            old(self).wf(),
        ensures
            final(self).wf(),
            (final(self)@, r@) == interpreter_step(old(self)@, reply_view(reply)),
    {
        let mut control = Control::Idle;
        core::mem::swap(&mut control, &mut self.control);
        assert(self@ == at_rest(old(self)@));
        match control {
            Control::Idle => Step::Finished(Ok(())),
            Control::Lexing(lexer) => self.lexing(lexer, reply),
            Control::Awaiting(request) => match reply {
                Some(n) => self.go(Control::Value(LiteralValue::Number(n))),
                None => {
                    let again = request.duplicate();
                    self.set_control(Control::Awaiting(request));
                    Step::NeedNumber(again)
                },
            },
            Control::Evaluate(e) => self.evaluate(e),
            Control::Value(v) => self.deliver(v),
            Control::Execute(s) => self.execute(s),
            Control::Complete => self.complete(),
            Control::Return(v) => self.unwind(v),
        }
    }

    fn lexing(&mut self, lexer: Lexer, reply: Option<Number>) -> (r: Step)
        requires
            old(self).wf(),
            lexer.wf(),
        ensures
            final(self).wf(),
            (final(self)@, r@) == lexing_step(old(self)@, lexer@, reply_view(reply)),
    {
        let mut lexer = lexer;
        match reply {
            Some(n) => {
                lexer.supply_number(n);
            },
            None => {},
        }
        match lexer.scan_tokens() {
            LexStep::NeedNumber(text) => {
                self.set_control(Control::Lexing(lexer));
                Step::NeedNumber(NumberRequest::Parse(text))
            },
            LexStep::Done(Err(message)) => self.fail(message),
            LexStep::Done(Ok(tokens)) => {
                let mut parser = Parser::new(tokens);
                match parser.parse() {
                    Err(message) => self.fail(message),
                    Ok(stmts) => {
                        self.interpret(stmts);
                        Step::Continue
                    },
                }
            },
        }
    }

    fn set_control(&mut self, control: Control)
        requires
            old(self).wf(),
            match control {
                Control::Lexing(l) => l.wf(),
                _ => true,
            },
        ensures
            final(self).wf(),
            final(self)@ == with_control(old(self)@, control@),
    {
        self.control = control;
        assert(self@.frames == old(self)@.frames);
        assert(self@.functions == old(self)@.functions);
        assert(valid(self@));
    }

    fn set_scope(&mut self, scope: usize)
        requires
            old(self).wf(),
            scope < old(self)@.environment.scopes.len(),
        ensures
            final(self).wf(),
            final(self)@ == (InterpreterView { scope, ..old(self)@ }),
    {
        self.scope = scope;
        assert(self@.frames == old(self)@.frames);
        assert(self@.functions == old(self)@.functions);
        assert(valid(self@));
    }

    fn go(&mut self, control: Control) -> (r: Step)
        requires
            old(self).wf(),
            !(control is Lexing),
        ensures
            final(self).wf(),
            (final(self)@, r@) == proceed(with_control(old(self)@, control@)),
    {
        self.set_control(control);
        Step::Continue
    }

    fn fail(&mut self, message: String) -> (r: Step)
        requires
            old(self).wf(),
        ensures
            final(self).wf(),
            (final(self)@, r@) == failure(old(self)@, message@),
    {
        self.frames = Vec::new();
        self.scope = 0;
        self.control = Control::Idle;
        assert(self@.frames =~= Seq::empty());
        assert(self.environment.wf());
        assert(self@.environment == old(self)@.environment);
        assert(self@.scope < self@.environment.scopes.len());
        assert(self@.functions == old(self)@.functions);
        assert(valid(self@));
        Step::Finished(Err(message))
    }

    fn push_frame(&mut self, frame: Frame)
        requires
            old(self).wf(),
            frame_ok(frame@, old(self)@.environment.scopes.len()),
        ensures
            final(self).wf(),
            final(self)@ == with_frame(old(self)@, frame@),
    {
        self.frames.push(frame);
        assert(self@.frames =~= old(self)@.frames.push(frame@));
    }

    fn pop_frame(&mut self) -> (r: Option<Frame>)
        requires
            old(self).wf(),
        ensures
            final(self).wf(),
            match r {
                Some(frame) => old(self)@.frames.len() > 0 && frame@ == old(self)@.frames.last()
                    && final(self)@ == below(old(self)@) && frame_ok(
                    frame@,
                    old(self)@.environment.scopes.len(),
                ),
                None => old(self)@.frames.len() == 0 && final(self)@ == old(self)@,
            },
    {
        let r = self.frames.pop();
        proof {
            if r is Some {
                assert(self@.frames =~= old(self)@.frames.drop_last());
                assert(old(self)@.frames.last() == old(self).frames@.last()@);
                assert(frame_ok(
                    old(self)@.frames[old(self)@.frames.len() - 1],
                    old(self)@.environment.scopes.len(),
                ));
            } else {
                assert(self@.frames =~= old(self)@.frames);
            }
        }
        r
    }

    fn add_function(&mut self, params: Vec<Token>, body: Vec<Box<Stmt>>) -> (r: usize)
        requires
            old(self).wf(),
        ensures
            final(self).wf(),
            final(self)@ == with_function(old(self)@, token_views(params@), stmt_views(body@)),
            r == old(self)@.functions.len(),
    {
        let r = self.functions.len();
        let function = Function::User { params, body, closure: self.scope };
        self.functions.push(function);
        assert(self@.functions =~= old(self)@.functions.push(function@));
        r
    }

    fn define_in(&mut self, scope: usize, name: String, value: LiteralValue)
        requires
            old(self).wf(),
            scope < old(self)@.environment.scopes.len(),
        ensures
            final(self).wf(),
            final(self)@ == (InterpreterView {
                environment: defined(old(self)@.environment, scope as int, name@, value@),
                ..old(self)@
            }),
    {
        self.environment.define(scope, name, value);
        assert(self@.environment.scopes.len() == old(self)@.environment.scopes.len());
        assert(self@.frames == old(self)@.frames);
        assert(self@.functions == old(self)@.functions);
        assert(valid(self@));
    }

    fn define_here(&mut self, name: String, value: LiteralValue)
        requires
            old(self).wf(),
        ensures
            final(self).wf(),
            final(self)@ == (InterpreterView {
                environment: defined(
                    old(self)@.environment,
                    old(self)@.scope as int,
                    name@,
                    value@,
                ),
                ..old(self)@
            }),
    {
        self.define_in(self.scope, name, value);
    }

    fn open_scope(&mut self, enclosing: usize) -> (r: usize)
        requires
            old(self).wf(),
            enclosing < old(self)@.environment.scopes.len(),
        ensures
            final(self).wf(),
            r == old(self)@.environment.scopes.len(),
            final(self)@ == (InterpreterView {
                environment: extended(old(self)@.environment, Some(enclosing)),
                ..old(self)@
            }),
    {
        let r = self.environment.new_scope(enclosing);
        assert(self@.environment.scopes.len() == old(self)@.environment.scopes.len() + 1);
        assert(self@.frames == old(self)@.frames);
        assert(self@.functions == old(self)@.functions);
        assert(valid(self@));
        r
    }

    fn in_call(&self) -> (r: bool)
        ensures
            r == in_call(self@.frames),
    {
        let mut i: usize = self.frames.len();
        assert(self@.frames.take(i as int) =~= self@.frames);
        while i > 0
            invariant
                i <= self.frames.len(),
                in_call(self@.frames) == in_call(self@.frames.take(i as int)),
            decreases i,
        {
            proof {
                let here = self@.frames.take(i as int);
                assert(here.drop_last() =~= self@.frames.take(i - 1));
                assert(here.last() == self.frames@[i - 1]@);
            }
            match &self.frames[i - 1] {
                Frame::Call { .. } => {
                    return true;
                },
                _ => {},
            }
            i = i - 1;
        }
        false
    }

    fn settle(&mut self, outcome: Outcome) -> (r: Step)
        requires
            old(self).wf(),
        ensures
            final(self).wf(),
            (final(self)@, r@) == settle(old(self)@, outcome@),
    {
        match outcome {
            Outcome::Value(v) => self.go(Control::Value(v)),
            Outcome::Ask(request) => {
                let again = request.duplicate();
                self.set_control(Control::Awaiting(request));
                Step::NeedNumber(again)
            },
            Outcome::Error(message) => self.fail(message),
        }
    }

    fn evaluate(&mut self, e: Expr) -> (r: Step)
        requires
            old(self).wf(),
        ensures
            final(self).wf(),
            (final(self)@, r@) == evaluate_step(old(self)@, e@),
    {
        match e {
            Expr::Literal { value } => self.go(Control::Value(value)),
            Expr::Variable { name } => match self.environment.get(self.scope, name.lexme.as_str()) {
                Some(v) => self.go(Control::Value(v)),
                None => {
                    let mut message = String::from_str("Variable '");
                    message.append(name.lexme.as_str());
                    message.append("' has not been declared");
                    self.fail(message)
                },
            },
            Expr::Grouping { expression } => self.go(Control::Evaluate(*expression)),
            Expr::Assign { name, value } => {
                self.push_frame(Frame::Assign { name: name.lexme });
                self.go(Control::Evaluate(*value))
            },
            Expr::Unary { operator, right } => {
                let operand = right.to_text();
                self.push_frame(Frame::Unary { op: operator.token_t, operand });
                self.go(Control::Evaluate(*right))
            },
            Expr::Binary { left, operator, right } => {
                self.push_frame(Frame::BinaryRight { op: operator.token_t, right: *right });
                self.go(Control::Evaluate(*left))
            },
            Expr::Logical { left, operator, right } => {
                if operator.token_t == TokenType::Or || operator.token_t == TokenType::And {
                    self.push_frame(Frame::Logical { op: operator.token_t, right: *right });
                    self.go(Control::Evaluate(*left))
                } else {
                    let mut message = String::from_str("Invalid token in logical expression: ");
                    message.append(operator.token_t.name().as_str());
                    self.fail(message)
                }
            },
            Expr::Call { callee, paren: _, arguments } => {
                self.push_frame(Frame::Callee { arguments });
                self.go(Control::Evaluate(*callee))
            },
            Expr::AnonFunction { paren: _, arguments, body } => {
                let arity = arguments.len();
                let fun = self.add_function(arguments, body);
                self.go(
                    Control::Value(
                        LiteralValue::Callable {
                            name: String::from_str("anon_function"),
                            arity,
                            fun,
                        },
                    ),
                )
            },
        }
    }

    fn assign_here(&mut self, name: &str, value: LiteralValue) -> (r: bool)
        requires
            old(self).wf(),
        ensures
            final(self).wf(),
            r == holder(old(self)@.environment, old(self)@.scope as int, name@) is Some,
            final(self)@ == (InterpreterView {
                environment: assigned(
                    old(self)@.environment,
                    old(self)@.scope as int,
                    name@,
                    value@,
                ),
                ..old(self)@
            }),
    {
        proof {
            lemma_holder_binds(self@.environment, self@.scope as int, name@);
        }
        let r = self.environment.assign(self.scope, name, value);
        assert(self@.environment.scopes.len() == old(self)@.environment.scopes.len());
        assert(self@.frames == old(self)@.frames);
        assert(self@.functions == old(self)@.functions);
        assert(valid(self@));
        r
    }

    fn bind(&mut self, scope: usize, params: &Vec<Token>, args: &Vec<LiteralValue>)
        requires
            old(self).wf(),
            scope < old(self)@.environment.scopes.len(),
        ensures
            final(self).wf(),
            final(self)@.environment.scopes.len() == old(self)@.environment.scopes.len(),
            final(self)@ == (InterpreterView {
                environment: bind_from(
                    old(self)@.environment,
                    scope as int,
                    token_views(params@),
                    value_views(args@),
                    0,
                ),
                ..old(self)@
            }),
    {
        let mut i: usize = 0;
        while i < params.len() && i < args.len()
            invariant
                self.wf(),
                scope < self@.environment.scopes.len(),
                self@.environment.scopes.len() == old(self)@.environment.scopes.len(),
                bind_from(
                    self@.environment,
                    scope as int,
                    token_views(params@),
                    value_views(args@),
                    i as int,
                ) == bind_from(
                    old(self)@.environment,
                    scope as int,
                    token_views(params@),
                    value_views(args@),
                    0,
                ),
                self@ == (InterpreterView { environment: self@.environment, ..old(self)@ }),
            decreases params.len() - i,
        {
            self.define_in(scope, params[i].lexme.clone(), args[i].duplicate());
            i = i + 1;
        }
    }

    fn invoke(&mut self, fun: usize, args: Vec<LiteralValue>) -> (r: Step)
        requires
            old(self).wf(),
        ensures
            final(self).wf(),
            (final(self)@, r@) == invoke(old(self)@, fun, value_views(args@)),
    {
        if fun >= self.functions.len() {
            return self.fail(String::from_str("Callable is not known to this interpreter"));
        }
        assert(self@.functions[fun as int] == self.functions@[fun as int]@);
        assert(function_ok(self@.functions[fun as int], self@.environment.scopes.len()));
        let parts = match &self.functions[fun] {
            Function::Clock => None,
            Function::User { params, body, closure } => Some(
                (duplicate_tokens(params), duplicate_stmts(body), *closure),
            ),
        };
        let (params, body, closure) = match parts {
            None => {
                self.set_control(Control::Awaiting(NumberRequest::Clock));
                return Step::NeedNumber(NumberRequest::Clock);
            },
            Some(p) => p,
        };
        if params.len() != args.len() {
            return self.fail(String::from_str("Callable is not known to this interpreter"));
        }
        let saved = self.scope;
        let scope = self.open_scope(closure);
        self.bind(scope, &params, &args);
        self.push_frame(Frame::Call { saved, rest: body });
        self.set_scope(scope);
        self.go(Control::Complete)
    }

    fn on_callee(&mut self, arguments: Vec<Expr>, v: LiteralValue) -> (r: Step)
        requires
            old(self).wf(),
        ensures
            final(self).wf(),
            (final(self)@, r@) == callee_step(old(self)@, expr_views(arguments@), v@),
    {
        let mut arguments = arguments;
        match v {
            LiteralValue::Callable { name, arity, fun } => {
                if arguments.len() != arity {
                    let mut message = String::from_str("Callable ");
                    message.append(name.as_str());
                    message.append(" expected ");
                    message.append(usize_text(arity).as_str());
                    message.append(" arguments got ");
                    message.append(usize_text(arguments.len()).as_str());
                    self.fail(message)
                } else if arguments.len() == 0 {
                    let args: Vec<LiteralValue> = Vec::new();
                    assert(value_views(args@) =~= Seq::empty());
                    self.invoke(fun, args)
                } else {
                    let ghost all = expr_views(arguments@);
                    let first = arguments.remove(0);
                    assert(expr_views(arguments@) =~= all.drop_first());
                    assert(first@ == all[0]);
                    let done: Vec<LiteralValue> = Vec::new();
                    assert(value_views(done@) =~= Seq::empty());
                    self.push_frame(Frame::Arguments { fun, done, rest: arguments });
                    self.go(Control::Evaluate(first))
                }
            },
            other => {
                let mut message = other.type_text();
                message.append(" is not callable");
                self.fail(message)
            },
        }
    }

    fn on_argument(
        &mut self,
        fun: usize,
        done: Vec<LiteralValue>,
        rest: Vec<Expr>,
        v: LiteralValue,
    ) -> (r: Step)
        requires
            old(self).wf(),
        ensures
            final(self).wf(),
            (final(self)@, r@) == argument_step(
                old(self)@,
                fun,
                value_views(done@),
                expr_views(rest@),
                v@,
            ),
    {
        let mut done = done;
        let mut rest = rest;
        let ghost before = value_views(done@);
        done.push(v);
        assert(value_views(done@) =~= before.push(v@));
        if rest.len() == 0 {
            self.invoke(fun, done)
        } else {
            let ghost all = expr_views(rest@);
            let first = rest.remove(0);
            assert(expr_views(rest@) =~= all.drop_first());
            assert(first@ == all[0]);
            self.push_frame(Frame::Arguments { fun, done, rest });
            self.go(Control::Evaluate(first))
        }
    }

    fn on_frame(&mut self, frame: Frame, v: LiteralValue) -> (r: Step)
        requires
            old(self).wf(),
            frame_ok(frame@, old(self)@.environment.scopes.len()),
        ensures
            final(self).wf(),
            (final(self)@, r@) == frame_step(old(self)@, frame@, v@),
    {
        match frame {
            Frame::Discard => self.go(Control::Complete),
            Frame::Print => {
                let line = v.to_text();
                self.set_control(Control::Complete);
                Step::Print(line)
            },
            Frame::Define { name } => {
                self.define_here(name, v);
                self.go(Control::Complete)
            },
            Frame::Assign { name } => {
                let copy = v.duplicate();
                if self.assign_here(name.as_str(), copy) {
                    self.go(Control::Value(v))
                } else {
                    let mut message = String::from_str("Variable ");
                    message.append(name.as_str());
                    message.append(" has not been declared");
                    self.fail(message)
                }
            },
            Frame::Unary { op, operand } => {
                let outcome = unary_operation(op, &v, operand.as_str());
                self.settle(outcome)
            },
            Frame::BinaryRight { op, right } => {
                self.push_frame(Frame::BinaryApply { op, left: v });
                self.go(Control::Evaluate(right))
            },
            Frame::BinaryApply { op, left } => {
                let outcome = binary_operation(&left, op, &v);
                self.settle(outcome)
            },
            Frame::Logical { op, right } => match v.truth() {
                None => self.fail(String::from_str("Cannot use callable as a truthy value")),
                Some(t) => {
                    if (op == TokenType::Or) == t {
                        self.go(Control::Value(v))
                    } else {
                        self.go(Control::Evaluate(right))
                    }
                },
            },
            Frame::Callee { arguments } => self.on_callee(arguments, v),
            Frame::Arguments { fun, done, rest } => self.on_argument(fun, done, rest, v),
            Frame::If { then, otherwise } => match v.truth() {
                None => self.fail(String::from_str("Cannot use callable as a truthy value")),
                Some(t) => {
                    if t {
                        self.go(Control::Execute(then))
                    } else {
                        match otherwise {
                            Some(s) => self.go(Control::Execute(s)),
                            None => self.go(Control::Complete),
                        }
                    }
                },
            },
            Frame::WhileTest { condition, body } => match v.truth() {
                None => self.fail(String::from_str("Cannot use callable as a truthy value")),
                Some(t) => {
                    if t {
                        let run = body.duplicate();
                        self.push_frame(Frame::WhileBody { condition, body });
                        self.go(Control::Execute(run))
                    } else {
                        self.go(Control::Complete)
                    }
                },
            },
            Frame::ReturnValue => {
                if self.in_call() {
                    self.go(Control::Return(v))
                } else {
                    self.go(Control::Complete)
                }
            },
            other => {
                self.push_frame(other);
                self.go(Control::Complete)
            },
        }
    }

    fn deliver(&mut self, v: LiteralValue) -> (r: Step)
        requires
            old(self).wf(),
            old(self)@.control is Idle,
        ensures
            final(self).wf(),
            (final(self)@, r@) == value_step(old(self)@, v@),
    {
        match self.pop_frame() {
            None => Step::Finished(Ok(())),
            Some(frame) => self.on_frame(frame, v),
        }
    }

    fn execute(&mut self, s: Stmt) -> (r: Step)
        requires
            old(self).wf(),
        ensures
            final(self).wf(),
            (final(self)@, r@) == execute_step(old(self)@, s@),
    {
        match s {
            Stmt::Expression { expression } => {
                self.push_frame(Frame::Discard);
                self.go(Control::Evaluate(expression))
            },
            Stmt::Print { expression } => {
                self.push_frame(Frame::Print);
                self.go(Control::Evaluate(expression))
            },
            Stmt::Var { name, initializer } => {
                self.push_frame(Frame::Define { name: name.lexme });
                self.go(Control::Evaluate(initializer))
            },
            Stmt::Block { statements } => {
                let saved = self.scope;
                let scope = self.open_scope(saved);
                self.push_frame(Frame::Block { saved, rest: statements });
                self.set_scope(scope);
                self.go(Control::Complete)
            },
            Stmt::IfStmt { predicate, then, else_branch } => {
                let otherwise = match else_branch {
                    Some(s) => Some(*s),
                    None => None,
                };
                self.push_frame(Frame::If { then: *then, otherwise });
                self.go(Control::Evaluate(predicate))
            },
            Stmt::WhileStmt { condition, body } => {
                let test = condition.duplicate();
                self.push_frame(Frame::WhileTest { condition, body: *body });
                self.go(Control::Evaluate(test))
            },
            Stmt::Function { name, params, body } => {
                let arity = params.len();
                let shown = name.lexme.clone();
                let fun = self.add_function(params, body);
                self.define_here(name.lexme, LiteralValue::Callable { name: shown, arity, fun });
                self.go(Control::Complete)
            },
            Stmt::ReturnStmt { keyword: _, value } => match value {
                Some(e) => {
                    self.push_frame(Frame::ReturnValue);
                    self.go(Control::Evaluate(e))
                },
                None => {
                    if self.in_call() {
                        self.go(Control::Return(LiteralValue::Nil))
                    } else {
                        self.go(Control::Complete)
                    }
                },
            },
        }
    }

    fn after(&mut self, frame: Frame) -> (r: Step)
        requires
            old(self).wf(),
            frame_ok(frame@, old(self)@.environment.scopes.len()),
        ensures
            final(self).wf(),
            (final(self)@, r@) == next_step(old(self)@, frame@),
    {
        match frame {
            Frame::Block { saved, rest } => {
                let mut rest = rest;
                if rest.len() == 0 {
                    self.set_scope(saved);
                    self.go(Control::Complete)
                } else {
                    let ghost all = stmt_views(rest@);
                    let first = rest.remove(0);
                    assert(stmt_views(rest@) =~= all.drop_first());
                    assert(first@ == all[0]);
                    self.push_frame(Frame::Block { saved, rest });
                    self.go(Control::Execute(*first))
                }
            },
            Frame::Program { rest } => {
                let mut rest = rest;
                if rest.len() == 0 {
                    self.go(Control::Complete)
                } else {
                    let ghost all = stmt_views(rest@);
                    let first = rest.remove(0);
                    assert(stmt_views(rest@) =~= all.drop_first());
                    assert(first@ == all[0]);
                    self.push_frame(Frame::Program { rest });
                    self.go(Control::Execute(*first))
                }
            },
            Frame::Call { saved, rest } => {
                let mut rest = rest;
                if rest.len() == 0 {
                    self.set_scope(saved);
                    self.go(Control::Value(LiteralValue::Nil))
                } else {
                    let ghost all = stmt_views(rest@);
                    let first = rest.remove(0);
                    assert(stmt_views(rest@) =~= all.drop_first());
                    assert(first@ == all[0]);
                    self.push_frame(Frame::Call { saved, rest });
                    self.go(Control::Execute(*first))
                }
            },
            Frame::WhileBody { condition, body } => {
                let test = condition.duplicate();
                self.push_frame(Frame::WhileTest { condition, body });
                self.go(Control::Evaluate(test))
            },
            _ => self.go(Control::Complete),
        }
    }

    fn complete(&mut self) -> (r: Step)
        requires
            old(self).wf(),
            old(self)@.control is Idle,
        ensures
            final(self).wf(),
            (final(self)@, r@) == complete_step(old(self)@),
    {
        match self.pop_frame() {
            None => Step::Finished(Ok(())),
            Some(frame) => self.after(frame),
        }
    }

    fn unwind(&mut self, v: LiteralValue) -> (r: Step)
        requires
            old(self).wf(),
            old(self)@.control is Idle,
        ensures
            final(self).wf(),
            (final(self)@, r@) == return_step(old(self)@, v@),
    {
        match self.pop_frame() {
            None => Step::Finished(Ok(())),
            Some(Frame::Call { saved, rest: _ }) => {
                self.set_scope(saved);
                self.go(Control::Value(v))
            },
            Some(Frame::Block { saved, rest: _ }) => {
                self.set_scope(saved);
                self.go(Control::Return(v))
            },
            Some(_) => self.go(Control::Return(v)),
        }
    }
}

} // verus!
