//! The grammar, and the recursive-descent parser that follows it.

use crate::expr::{expr_view, expr_views, token_value, Expr, ExprView, LiteralValue, ValueView};
use crate::lexer::{all_carry_values, carries_value, token_views, Token, TokenType, TokenView};
use crate::stmt::{stmt_view, stmt_views, Stmt, StmtView};
use crate::text::{decimal, join_lines, join_text, texts, usize_text};
use vstd::prelude::*;

verus! {

/// What a rule of the grammar yields.
pub enum Node {
    Expr(ExprView),
    Stmt(StmtView),
    Exprs(Seq<ExprView>),
    Stmts(Seq<StmtView>),
    Tokens(Seq<TokenView>),
    /// The parenthesis, the parameters and the body of a function.
    Function(TokenView, Seq<TokenView>, Seq<StmtView>),
    MaybeStmt(Option<StmtView>),
    MaybeExpr(Option<ExprView>),
}

/// The outcome of parsing one construct: what it yields or the message of
/// the error, and the position reached.
pub struct Parse {
    pub result: Result<Node, Seq<char>>,
    pub pos: int,
}

/// The expression that a node holds. Each of the functions from here to
/// `as_maybe_expr` takes out of a node what a rule has put in.
pub open spec fn as_expr(node: Node) -> ExprView {
    match node {
        Node::Expr(e) => e,
        _ => ExprView::Literal { value: ValueView::Nil },
    }
}

/// The statement that a node holds.
pub open spec fn as_stmt(node: Node) -> StmtView {
    match node {
        Node::Stmt(s) => s,
        _ => StmtView::Block { statements: Seq::empty() },
    }
}

/// The expressions that a node holds.
pub open spec fn as_exprs(node: Node) -> Seq<ExprView> {
    match node {
        Node::Exprs(list) => list,
        _ => Seq::empty(),
    }
}

/// The statements that a node holds.
pub open spec fn as_stmts(node: Node) -> Seq<StmtView> {
    match node {
        Node::Stmts(list) => list,
        _ => Seq::empty(),
    }
}

/// The tokens that a node holds.
pub open spec fn as_tokens(node: Node) -> Seq<TokenView> {
    match node {
        Node::Tokens(list) => list,
        _ => Seq::empty(),
    }
}

/// The statement that a node holds, if it holds one.
pub open spec fn as_maybe_stmt(node: Node) -> Option<StmtView> {
    match node {
        Node::MaybeStmt(s) => s,
        _ => None,
    }
}

/// The expression that a node holds, if it holds one.
pub open spec fn as_maybe_expr(node: Node) -> Option<ExprView> {
    match node {
        Node::MaybeExpr(e) => e,
        _ => None,
    }
}

/// The kind of the token at `pos`; past the tokens, `Eof`.
pub open spec fn kind_at(ts: Seq<TokenView>, pos: int) -> TokenType {
    if 0 <= pos < ts.len() {
        ts[pos].token_t
    } else {
        TokenType::Eof
    }
}

/// Whether the token at `pos` ends the input.
pub open spec fn at_end(ts: Seq<TokenView>, pos: int) -> bool {
    kind_at(ts, pos) == TokenType::Eof
}

/// Whether the token at `pos` is of kind `kind` and can be consumed.
pub open spec fn matches_at(ts: Seq<TokenView>, pos: int, kind: TokenType) -> bool {
    !at_end(ts, pos) && kind_at(ts, pos) == kind
}

/// The position after the token at `pos`; the end of the input is not
/// passed.
pub open spec fn step(ts: Seq<TokenView>, pos: int) -> int {
    if at_end(ts, pos) {
        pos
    } else {
        pos + 1
    }
}

/// The position at which parsing goes on after a part that started at
/// `from` and reported `to`: a parse never moves backwards nor past the
/// tokens, and the definitions below rest on it to end.
pub open spec fn onward(ts: Seq<TokenView>, from: int, to: int) -> int {
    if from <= to <= ts.len() {
        to
    } else {
        from
    }
}

/// Token sequences that the parser takes: they end with `Eof`, and each
/// number and string token carries its value.
pub open spec fn well_formed(ts: Seq<TokenView>) -> bool {
    &&& ts.len() > 0
    &&& ts.last().token_t == TokenType::Eof
    &&& all_carry_values(ts)
}

/// A construct was read and the position behind it is `pos`.
pub open spec fn done(value: Node, pos: int) -> Parse {
    Parse { result: Ok(value), pos }
}

/// An error was found at `pos`.
pub open spec fn failed(message: Seq<char>, pos: int) -> Parse {
    Parse { result: Err(message), pos }
}

/// The levels of binary operators, from the one that binds tightest.
#[derive(Clone, Copy, PartialEq, Eq, Structural)]
pub enum Level {
    Factor,
    Term,
    Comparison,
    Equality,
    And,
    Or,
}

/// The place of a level among the levels, the tightest first.
pub open spec fn level_index(level: Level) -> int {
    match level {
        Level::Factor => 0,
        Level::Term => 1,
        Level::Comparison => 2,
        Level::Equality => 3,
        Level::And => 4,
        Level::Or => 5,
    }
}

/// Whether a token kind is an operator of the level.
pub open spec fn level_has(level: Level, kind: TokenType) -> bool {
    match level {
        Level::Factor => kind == TokenType::Slash || kind == TokenType::Star,
        Level::Term => kind == TokenType::Minus || kind == TokenType::Plus,
        Level::Comparison => kind == TokenType::Greater || kind == TokenType::GreaterEqual || kind
            == TokenType::Less || kind == TokenType::LessEqual,
        Level::Equality => kind == TokenType::BangEqual || kind == TokenType::EqualEqual,
        Level::And => kind == TokenType::And,
        Level::Or => kind == TokenType::Or,
    }
}

/// The node of an operator of the level between two operands.
pub open spec fn combine(level: Level, left: ExprView, operator: TokenView, right: ExprView)
    -> ExprView {
    match level {
        Level::And => ExprView::Logical {
            left: Box::new(left),
            operator,
            right: Box::new(right),
        },
        Level::Or => ExprView::Logical { left: Box::new(left), operator, right: Box::new(right) },
        _ => ExprView::Binary { left: Box::new(left), operator, right: Box::new(right) },
    }
}

/// The message for the argument or parameter that is one too many, at a
/// token on line `line`.
pub open spec fn too_many_message(prefix: Seq<char>, line: usize) -> Seq<char> {
    prefix + decimal(line as nat) + ": Cant have more than 255 arguments"@
}

/// The line of the token at `pos`.
pub open spec fn line_at(ts: Seq<TokenView>, pos: int) -> usize {
    if 0 <= pos < ts.len() {
        ts[pos].line_number
    } else {
        0
    }
}

/// `IDENT ("," IDENT)*`, at most 255 names, collected after `acc`.
pub open spec fn param_list(
    ts: Seq<TokenView>,
    pos: int,
    acc: Seq<TokenView>,
    prefix: Seq<char>,
    expected: Seq<char>,
) -> Parse
    decreases ts.len() - pos,
{
    if acc.len() >= 255 {
        failed(too_many_message(prefix, line_at(ts, pos)), pos)
    } else if !matches_at(ts, pos, TokenType::Identifier) {
        failed(expected, pos)
    } else if matches_at(ts, pos + 1, TokenType::Comma) {
        param_list(ts, pos + 2, acc.push(ts[pos]), prefix, expected)
    } else {
        done(Node::Tokens(acc.push(ts[pos])), pos + 1)
    }
}

/// What a `for` loop stands for: the body followed by the increment, run
/// while the condition holds (always, without one), after the initializer.
pub open spec fn for_loop(
    initializer: Option<StmtView>,
    cond: Option<ExprView>,
    increment: Option<ExprView>,
    body: StmtView,
) -> StmtView {
    let stepped = match increment {
        Some(e) => StmtView::Block { statements: seq![body, StmtView::Expression { expression: e }] },
        None => body,
    };
    let looped = StmtView::WhileStmt {
        condition: match cond {
            Some(c) => c,
            None => ExprView::Literal { value: ValueView::True },
        },
        body: Box::new(stepped),
    };
    match initializer {
        Some(i) => StmtView::Block { statements: seq![i, looped] },
        None => looped,
    }
}

/// The outcome `r` with what it yields turned into something else by `f`.
pub open spec fn mapped(r: Parse, f: spec_fn(Node) -> Node) -> Parse {
    match r.result {
        Err(m) => failed(m, r.pos),
        Ok(node) => done(f(node), r.pos),
    }
}

/// The outcome of a part `r` that started at `from`, followed by a token of
/// kind `closer`, which is required: what `r` yields, behind that token.
pub open spec fn closed_by(
    ts: Seq<TokenView>,
    from: int,
    r: Parse,
    closer: TokenType,
    message: Seq<char>,
) -> Parse {
    match r.result {
        Err(m) => failed(m, r.pos),
        Ok(node) => {
            let p = onward(ts, from, r.pos);
            if matches_at(ts, p, closer) {
                done(node, p + 1)
            } else {
                failed(message, p)
            }
        },
    }
}

/// The rules of the grammar, each with what it is given besides the
/// tokens and the position.
pub enum Rule {
    /// `primary`: a literal, a parenthesised expression, a name, or an
    /// anonymous function.
    Primary,
    /// `"(" params? ")" "{" declaration* "}"`: what follows the name of a
    /// function, or `fn` in an expression.
    FunctionRest {
        prefix: Seq<char>,
        open_message: Seq<char>,
        expected: Seq<char>,
        close_message: Seq<char>,
        brace_message: Seq<char>,
    },
    /// `expression ("," expression)*`, at most 255 of them, collected
    /// after `acc`.
    Arguments { acc: Seq<ExprView> },
    /// The arguments and closing parenthesis of a call of `callee`.
    FinishCall { callee: ExprView },
    /// The calls that follow `callee`, each applied to what precedes it.
    CallRest { callee: ExprView },
    /// `call := primary ("(" arguments? ")")*`
    Call,
    /// `unary := ("!" | "-") unary | call`
    Unary,
    /// An operand of the operators of `level`: an expression of the next
    /// tighter level.
    Operand { level: Level },
    /// The operators of `level` that follow `left`, with their operands,
    /// grouped to the left.
    ChainRest { level: Level, left: ExprView },
    /// `operand (operator operand)*` for the operators of `level`.
    Chain { level: Level },
    /// `assignment := IDENT "=" assignment | logicOr`. The target is parsed
    /// as an expression and must turn out to be a variable.
    Assignment,
    /// `expression := assignment`
    Expression,
    /// An expression and the semicolon that has to follow it.
    Terminated { message: Seq<char> },
    /// `varDecl`, after `var`.
    VarDeclaration,
    /// `returnStmt`, after `return`.
    ReturnStatement,
    /// A condition in parentheses, after the opening one.
    Condition { close_message: Seq<char> },
    /// `whileStmt`, after `while`.
    WhileStatement,
    /// The branches of an `if` whose condition is `predicate`.
    IfBranches { predicate: ExprView },
    /// `ifStmt`, after `if`.
    IfStatement,
    /// The first clause of `for`: nothing but `;`, a declaration, or an
    /// expression statement.
    ForInitializer,
    /// An expression that may be missing before the token `closer`, and
    /// that token.
    ForClause { closer: TokenType, message: Seq<char> },
    /// What follows the initializer of a `for` loop.
    ForRest { initializer: Option<StmtView> },
    /// `forStmt`, after `for`.
    ForStatement,
    /// The declarations of a block up to its closing brace, collected
    /// after `acc`.
    BlockItems { acc: Seq<StmtView> },
    /// `block`, after the opening brace: the statements of the block.
    BlockStatement,
    /// `statement`
    Statement,
    /// `funDecl`, after `fn`.
    Function,
    /// `declaration := varDecl | funDecl | statement`
    Declaration,
}

/// The order in which rules may use each other without reading a token.
pub open spec fn rank(rule: Rule) -> int {
    match rule {
        Rule::Primary => 0,
        Rule::CallRest { .. } => 1,
        Rule::Call => 2,
        Rule::Unary => 3,
        Rule::Operand { level } => 3 * level_index(level) + 4,
        Rule::ChainRest { level, .. } => 3 * level_index(level) + 5,
        Rule::Chain { level } => 3 * level_index(level) + 6,
        Rule::Assignment => 22,
        Rule::Expression => 23,
        Rule::Terminated { .. } => 24,
        Rule::VarDeclaration => 25,
        Rule::ReturnStatement => 25,
        Rule::Condition { .. } => 25,
        Rule::WhileStatement => 26,
        Rule::IfStatement => 26,
        Rule::ForInitializer => 26,
        Rule::ForClause { .. } => 26,
        Rule::ForRest { .. } => 42,
        Rule::ForStatement => 28,
        Rule::Arguments { .. } => 29,
        Rule::FinishCall { .. } => 30,
        Rule::Statement => 31,
        Rule::IfBranches { .. } => 32,
        Rule::Declaration => 33,
        Rule::BlockItems { .. } => 40,
        Rule::BlockStatement => 41,
        Rule::FunctionRest { .. } => 45,
        Rule::Function => 46,
    }
}

/// The anonymous function that the parts of a function stand for.
pub open spec fn anon_function(node: Node) -> Node {
    match node {
        Node::Function(paren, params, body) => Node::Expr(
            ExprView::AnonFunction { paren, arguments: params, body },
        ),
        other => other,
    }
}

/// The declaration of the function `name` with the given parts.
pub open spec fn named_function(name: TokenView, node: Node) -> Node {
    match node {
        Node::Function(_, params, body) => Node::Stmt(StmtView::Function { name, params, body }),
        other => other,
    }
}

/// The grammar. `parse_rule(rule, ts, pos)` is the outcome of reading the
/// construct of `rule` from the tokens `ts` at `pos`.
pub open spec fn parse_rule(rule: Rule, ts: Seq<TokenView>, pos: int) -> Parse
    decreases ts.len() - pos, rank(rule),
{
    match rule {
        Rule::Primary => {
            let kind = kind_at(ts, pos);
            if kind == TokenType::LeftParen {
                mapped(
                    closed_by(
                        ts,
                        pos + 1,
                        parse_rule(Rule::Expression, ts, pos + 1),
                        TokenType::RightParen,
                        "Expected ')'"@,
                    ),
                    |node: Node| Node::Expr(ExprView::Grouping { expression: Box::new(as_expr(node)) }),
                )
            } else if kind == TokenType::False || kind == TokenType::True || kind == TokenType::Nil
                || kind == TokenType::Number || kind == TokenType::String {
                done(
                    Node::Expr(
                        ExprView::Literal {
                            value: match token_value(ts[pos]) {
                                Some(v) => v,
                                None => ValueView::Nil,
                            },
                        },
                    ),
                    pos + 1,
                )
            } else if kind == TokenType::Fn {
                mapped(
                    parse_rule(
                        Rule::FunctionRest {
                            prefix: "line "@,
                            open_message: "Expected '(' after anonymous function"@,
                            expected: "Expected parameter name"@,
                            close_message: "Expected ')' after anonymous function paramters"@,
                            brace_message: "Expected '{' after anonymous function decleration"@,
                        },
                        ts,
                        pos + 1,
                    ),
                    |node: Node| anon_function(node),
                )
            } else if kind == TokenType::Identifier {
                done(Node::Expr(ExprView::Variable { name: ts[pos] }), pos + 1)
            } else {
                failed("Expected expression"@, pos)
            }
        },
        Rule::FunctionRest { prefix, open_message, expected, close_message, brace_message } => {
            if !matches_at(ts, pos, TokenType::LeftParen) {
                failed(open_message, pos)
            } else {
                let params = if kind_at(ts, pos + 1) != TokenType::RightParen {
                    param_list(ts, pos + 1, Seq::empty(), prefix, expected)
                } else {
                    done(Node::Tokens(Seq::empty()), pos + 1)
                };
                match params.result {
                    Err(m) => failed(m, params.pos),
                    Ok(names) => {
                        let p = onward(ts, pos + 1, params.pos);
                        if !matches_at(ts, p, TokenType::RightParen) {
                            failed(close_message, p)
                        } else if !matches_at(ts, p + 1, TokenType::LeftBrace) {
                            failed(brace_message, p + 1)
                        } else {
                            mapped(
                                parse_rule(Rule::BlockStatement, ts, p + 2),
                                |body: Node| Node::Function(ts[pos], as_tokens(names), as_stmts(body)),
                            )
                        }
                    },
                }
            }
        },
        Rule::Arguments { acc } => {
            if acc.len() >= 255 {
                failed(too_many_message("Line "@, line_at(ts, pos)), pos)
            } else {
                let arg = parse_rule(Rule::Expression, ts, pos);
                match arg.result {
                    Err(m) => failed(m, arg.pos),
                    Ok(e) => {
                        let p = onward(ts, pos, arg.pos);
                        if matches_at(ts, p, TokenType::Comma) {
                            parse_rule(Rule::Arguments { acc: acc.push(as_expr(e)) }, ts, p + 1)
                        } else {
                            done(Node::Exprs(acc.push(as_expr(e))), p)
                        }
                    },
                }
            }
        },
        Rule::FinishCall { callee } => {
            let args = if kind_at(ts, pos) != TokenType::RightParen {
                parse_rule(Rule::Arguments { acc: Seq::empty() }, ts, pos)
            } else {
                done(Node::Exprs(Seq::empty()), pos)
            };
            match args.result {
                Err(m) => failed(m, args.pos),
                Ok(list) => {
                    let p = onward(ts, pos, args.pos);
                    if matches_at(ts, p, TokenType::RightParen) {
                        done(
                            Node::Expr(
                                ExprView::Call {
                                    callee: Box::new(callee),
                                    paren: ts[p],
                                    arguments: as_exprs(list),
                                },
                            ),
                            p + 1,
                        )
                    } else {
                        failed("Expected ')' after arguments."@, p)
                    }
                },
            }
        },
        Rule::CallRest { callee } => {
            if matches_at(ts, pos, TokenType::LeftParen) {
                let c = parse_rule(Rule::FinishCall { callee }, ts, pos + 1);
                match c.result {
                    Err(m) => failed(m, c.pos),
                    Ok(e) => parse_rule(
                        Rule::CallRest { callee: as_expr(e) },
                        ts,
                        onward(ts, pos + 1, c.pos),
                    ),
                }
            } else {
                done(Node::Expr(callee), pos)
            }
        },
        Rule::Call => {
            let head = parse_rule(Rule::Primary, ts, pos);
            match head.result {
                Err(m) => failed(m, head.pos),
                Ok(e) => parse_rule(
                    Rule::CallRest { callee: as_expr(e) },
                    ts,
                    onward(ts, pos, head.pos),
                ),
            }
        },
        Rule::Unary => {
            if matches_at(ts, pos, TokenType::Bang) || matches_at(ts, pos, TokenType::Minus) {
                mapped(
                    parse_rule(Rule::Unary, ts, pos + 1),
                    |node: Node|
                        Node::Expr(ExprView::Unary { operator: ts[pos], right: Box::new(as_expr(node)) }),
                )
            } else {
                parse_rule(Rule::Call, ts, pos)
            }
        },
        Rule::Operand { level } => {
            match level {
                Level::Factor => parse_rule(Rule::Unary, ts, pos),
                Level::Term => parse_rule(Rule::Chain { level: Level::Factor }, ts, pos),
                Level::Comparison => parse_rule(Rule::Chain { level: Level::Term }, ts, pos),
                Level::Equality => parse_rule(Rule::Chain { level: Level::Comparison }, ts, pos),
                Level::And => parse_rule(Rule::Chain { level: Level::Equality }, ts, pos),
                Level::Or => parse_rule(Rule::Chain { level: Level::And }, ts, pos),
            }
        },
        Rule::ChainRest { level, left } => {
            if !at_end(ts, pos) && level_has(level, kind_at(ts, pos)) {
                let right = parse_rule(Rule::Operand { level }, ts, pos + 1);
                match right.result {
                    Err(m) => failed(m, right.pos),
                    Ok(e) => parse_rule(
                        Rule::ChainRest { level, left: combine(level, left, ts[pos], as_expr(e)) },
                        ts,
                        onward(ts, pos + 1, right.pos),
                    ),
                }
            } else {
                done(Node::Expr(left), pos)
            }
        },
        Rule::Chain { level } => {
            let left = parse_rule(Rule::Operand { level }, ts, pos);
            match left.result {
                Err(m) => failed(m, left.pos),
                Ok(e) => parse_rule(
                    Rule::ChainRest { level, left: as_expr(e) },
                    ts,
                    onward(ts, pos, left.pos),
                ),
            }
        },
        Rule::Assignment => {
            let target = parse_rule(Rule::Chain { level: Level::Or }, ts, pos);
            match target.result {
                Err(m) => failed(m, target.pos),
                Ok(e) => {
                    let p = onward(ts, pos, target.pos);
                    if matches_at(ts, p, TokenType::Equal) {
                        let value = parse_rule(Rule::Assignment, ts, p + 1);
                        match value.result {
                            Err(m) => failed(m, value.pos),
                            Ok(v) => match as_expr(e) {
                                ExprView::Variable { name } => done(
                                    Node::Expr(
                                        ExprView::Assign { name, value: Box::new(as_expr(v)) },
                                    ),
                                    value.pos,
                                ),
                                _ => failed("Invalid assignment target."@, value.pos),
                            },
                        }
                    } else {
                        done(e, p)
                    }
                },
            }
        },
        Rule::Expression => parse_rule(Rule::Assignment, ts, pos),
        Rule::Terminated { message } => closed_by(
            ts,
            pos,
            parse_rule(Rule::Expression, ts, pos),
            TokenType::Semicolon,
            message,
        ),
        Rule::VarDeclaration => {
            if !matches_at(ts, pos, TokenType::Identifier) {
                failed("Expected variable name"@, pos)
            } else if matches_at(ts, pos + 1, TokenType::Equal) {
                mapped(
                    parse_rule(
                        Rule::Terminated { message: "Expected a ';' after variable name"@ },
                        ts,
                        pos + 2,
                    ),
                    |node: Node|
                        Node::Stmt(StmtView::Var { name: ts[pos], initializer: as_expr(node) }),
                )
            } else if matches_at(ts, pos + 1, TokenType::Semicolon) {
                done(
                    Node::Stmt(
                        StmtView::Var {
                            name: ts[pos],
                            initializer: ExprView::Literal { value: ValueView::Nil },
                        },
                    ),
                    pos + 2,
                )
            } else {
                failed("Expected a ';' after variable name"@, pos + 1)
            }
        },
        Rule::ReturnStatement => {
            if kind_at(ts, pos) != TokenType::Semicolon {
                mapped(
                    parse_rule(
                        Rule::Terminated { message: "Expected ';' after return value"@ },
                        ts,
                        pos,
                    ),
                    |node: Node|
                        Node::Stmt(
                            StmtView::ReturnStmt { keyword: ts[pos - 1], value: Some(as_expr(node)) },
                        ),
                )
            } else {
                done(Node::Stmt(StmtView::ReturnStmt { keyword: ts[pos - 1], value: None }), pos + 1)
            }
        },
        Rule::Condition { close_message } => closed_by(
            ts,
            pos,
            parse_rule(Rule::Expression, ts, pos),
            TokenType::RightParen,
            close_message,
        ),
        Rule::WhileStatement => {
            if !matches_at(ts, pos, TokenType::LeftParen) {
                failed("Expected '(' after while"@, pos)
            } else {
                let c = parse_rule(
                    Rule::Condition { close_message: "Expected ')' after condition"@ },
                    ts,
                    pos + 1,
                );
                match c.result {
                    Err(m) => failed(m, c.pos),
                    Ok(cond) => mapped(
                        parse_rule(Rule::Statement, ts, onward(ts, pos + 1, c.pos)),
                        |body: Node|
                            Node::Stmt(
                                StmtView::WhileStmt {
                                    condition: as_expr(cond),
                                    body: Box::new(as_stmt(body)),
                                },
                            ),
                    ),
                }
            }
        },
        Rule::IfBranches { predicate } => {
            let then = parse_rule(Rule::Statement, ts, pos);
            match then.result {
                Err(m) => failed(m, then.pos),
                Ok(t) => {
                    let p = onward(ts, pos, then.pos);
                    if matches_at(ts, p, TokenType::Else) {
                        mapped(
                            parse_rule(Rule::Statement, ts, p + 1),
                            |other: Node|
                                Node::Stmt(
                                    StmtView::IfStmt {
                                        predicate,
                                        then: Box::new(as_stmt(t)),
                                        else_branch: Some(Box::new(as_stmt(other))),
                                    },
                                ),
                        )
                    } else {
                        done(
                            Node::Stmt(
                                StmtView::IfStmt {
                                    predicate,
                                    then: Box::new(as_stmt(t)),
                                    else_branch: None,
                                },
                            ),
                            p,
                        )
                    }
                },
            }
        },
        Rule::IfStatement => {
            if !matches_at(ts, pos, TokenType::LeftParen) {
                failed("Expected '(' after if-statement"@, pos)
            } else {
                let c = parse_rule(
                    Rule::Condition { close_message: "Expected ')' after if-predicate"@ },
                    ts,
                    pos + 1,
                );
                match c.result {
                    Err(m) => failed(m, c.pos),
                    Ok(predicate) => parse_rule(
                        Rule::IfBranches { predicate: as_expr(predicate) },
                        ts,
                        onward(ts, pos + 1, c.pos),
                    ),
                }
            }
        },
        Rule::ForInitializer => {
            if matches_at(ts, pos, TokenType::Semicolon) {
                done(Node::MaybeStmt(None), pos + 1)
            } else if matches_at(ts, pos, TokenType::Var) {
                mapped(
                    parse_rule(Rule::VarDeclaration, ts, pos + 1),
                    |node: Node| Node::MaybeStmt(Some(as_stmt(node))),
                )
            } else {
                mapped(
                    parse_rule(
                        Rule::Terminated { message: "Expected ';' after expression"@ },
                        ts,
                        pos,
                    ),
                    |node: Node|
                        Node::MaybeStmt(Some(StmtView::Expression { expression: as_expr(node) })),
                )
            }
        },
        Rule::ForClause { closer, message } => {
            if kind_at(ts, pos) != closer {
                mapped(
                    closed_by(ts, pos, parse_rule(Rule::Expression, ts, pos), closer, message),
                    |node: Node| Node::MaybeExpr(Some(as_expr(node))),
                )
            } else if matches_at(ts, pos, closer) {
                done(Node::MaybeExpr(None), pos + 1)
            } else {
                failed(message, pos)
            }
        },
        Rule::ForRest { initializer } => {
            let cond = parse_rule(
                Rule::ForClause {
                    closer: TokenType::Semicolon,
                    message: "Expected ';' after loop condition"@,
                },
                ts,
                pos,
            );
            match cond.result {
                Err(m) => failed(m, cond.pos),
                Ok(c) => {
                    let p = onward(ts, pos, cond.pos);
                    let inc = parse_rule(
                        Rule::ForClause {
                            closer: TokenType::RightParen,
                            message: "Expected ')' after for clauses"@,
                        },
                        ts,
                        p,
                    );
                    match inc.result {
                        Err(m) => failed(m, inc.pos),
                        Ok(n) => mapped(
                            parse_rule(Rule::Statement, ts, onward(ts, p, inc.pos)),
                            |body: Node|
                                Node::Stmt(
                                    for_loop(
                                        initializer,
                                        as_maybe_expr(c),
                                        as_maybe_expr(n),
                                        as_stmt(body),
                                    ),
                                ),
                        ),
                    }
                },
            }
        },
        Rule::ForStatement => {
            if !matches_at(ts, pos, TokenType::LeftParen) {
                failed("Expected '(' after for"@, pos)
            } else {
                let init = parse_rule(Rule::ForInitializer, ts, pos + 1);
                match init.result {
                    Err(m) => failed(m, init.pos),
                    Ok(i) => parse_rule(
                        Rule::ForRest { initializer: as_maybe_stmt(i) },
                        ts,
                        onward(ts, pos + 1, init.pos),
                    ),
                }
            }
        },
        Rule::BlockItems { acc } => {
            if kind_at(ts, pos) == TokenType::RightBrace || at_end(ts, pos) {
                done(Node::Stmts(acc), pos)
            } else {
                let d = parse_rule(Rule::Declaration, ts, pos);
                match d.result {
                    Err(m) => failed(m, d.pos),
                    Ok(s) => parse_rule(
                        Rule::BlockItems { acc: acc.push(as_stmt(s)) },
                        ts,
                        onward(ts, pos + 1, d.pos),
                    ),
                }
            }
        },
        Rule::BlockStatement => closed_by(
            ts,
            pos,
            parse_rule(Rule::BlockItems { acc: Seq::empty() }, ts, pos),
            TokenType::RightBrace,
            "Expected '}' after a block"@,
        ),
        Rule::Statement => {
            if matches_at(ts, pos, TokenType::Print) {
                mapped(
                    parse_rule(Rule::Terminated { message: "Expected ';' after value"@ }, ts, pos + 1),
                    |node: Node| Node::Stmt(StmtView::Print { expression: as_expr(node) }),
                )
            } else if matches_at(ts, pos, TokenType::LeftBrace) {
                mapped(
                    parse_rule(Rule::BlockStatement, ts, pos + 1),
                    |node: Node| Node::Stmt(StmtView::Block { statements: as_stmts(node) }),
                )
            } else if matches_at(ts, pos, TokenType::If) {
                parse_rule(Rule::IfStatement, ts, pos + 1)
            } else if matches_at(ts, pos, TokenType::While) {
                parse_rule(Rule::WhileStatement, ts, pos + 1)
            } else if matches_at(ts, pos, TokenType::For) {
                parse_rule(Rule::ForStatement, ts, pos + 1)
            } else if matches_at(ts, pos, TokenType::Return) {
                parse_rule(Rule::ReturnStatement, ts, pos + 1)
            } else {
                mapped(
                    parse_rule(
                        Rule::Terminated { message: "Expected ';' after expression"@ },
                        ts,
                        pos,
                    ),
                    |node: Node| Node::Stmt(StmtView::Expression { expression: as_expr(node) }),
                )
            }
        },
        Rule::Function => {
            if !matches_at(ts, pos, TokenType::Identifier) {
                failed("Expected Function name"@, pos)
            } else {
                mapped(
                    parse_rule(
                        Rule::FunctionRest {
                            prefix: "Line "@,
                            open_message: "Expected '(' after Function name"@,
                            expected: "Expected paramter name"@,
                            close_message: "Expected ')' after parameters."@,
                            brace_message: "Expected '{' Function body."@,
                        },
                        ts,
                        pos + 1,
                    ),
                    |node: Node| named_function(ts[pos], node),
                )
            }
        },
        Rule::Declaration => {
            if matches_at(ts, pos, TokenType::Var) {
                parse_rule(Rule::VarDeclaration, ts, pos + 1)
            } else if matches_at(ts, pos, TokenType::Fn) {
                parse_rule(Rule::Function, ts, pos + 1)
            } else {
                parse_rule(Rule::Statement, ts, pos)
            }
        },
    }
}

/// Whether a statement may start with a token of this kind.
pub open spec fn starts_statement(kind: TokenType) -> bool {
    kind == TokenType::Class || kind == TokenType::Fn || kind == TokenType::Var || kind
        == TokenType::For || kind == TokenType::If || kind == TokenType::While || kind
        == TokenType::Print || kind == TokenType::Return
}

/// Skipping from `pos` to where parsing can go on after an error: behind a
/// semicolon, in front of a token that starts a statement, or at the end.
pub open spec fn resume_point(ts: Seq<TokenView>, pos: int) -> int
    decreases ts.len() - pos,
{
    if at_end(ts, pos) {
        pos
    } else if pos >= 1 && ts[pos - 1].token_t == TokenType::Semicolon {
        pos
    } else if starts_statement(kind_at(ts, pos)) {
        pos
    } else {
        resume_point(ts, pos + 1)
    }
}

/// Where parsing goes on after an error at `pos`: one token is given up,
/// then tokens are skipped to a resume point.
pub open spec fn synchronize(ts: Seq<TokenView>, pos: int) -> int {
    resume_point(ts, step(ts, pos))
}

/// `program := declaration* Eof`, from `pos`, with the statements and the
/// error messages collected so far: the statements of the program, or all
/// messages joined by newlines.
pub open spec fn program(
    ts: Seq<TokenView>,
    pos: int,
    statements: Seq<StmtView>,
    errors: Seq<Seq<char>>,
) -> Result<Seq<StmtView>, Seq<char>>
    decreases ts.len() - pos,
{
    if at_end(ts, pos) {
        if errors.len() == 0 {
            Ok(statements)
        } else {
            Err(join_lines(errors))
        }
    } else {
        let d = parse_rule(Rule::Declaration, ts, pos);
        match d.result {
            Ok(s) => program(ts, onward(ts, pos + 1, d.pos), statements.push(as_stmt(s)), errors),
            Err(m) => program(
                ts,
                onward(ts, pos + 1, synchronize(ts, onward(ts, pos, d.pos))),
                statements,
                errors.push(m),
            ),
        }
    }
}


// The rules by name, as the contracts of the parser's functions use them.

spec fn primary(ts: Seq<TokenView>, pos: int) -> Parse {
    parse_rule(Rule::Primary, ts, pos)
}

spec fn function_rest(
    ts: Seq<TokenView>,
    pos: int,
    prefix: Seq<char>,
    open_message: Seq<char>,
    expected: Seq<char>,
    close_message: Seq<char>,
    brace_message: Seq<char>,
) -> Parse {
    parse_rule(
        Rule::FunctionRest { prefix, open_message, expected, close_message, brace_message },
        ts,
        pos,
    )
}

spec fn arguments(ts: Seq<TokenView>, pos: int, acc: Seq<ExprView>) -> Parse {
    parse_rule(Rule::Arguments { acc }, ts, pos)
}

spec fn finish_call(ts: Seq<TokenView>, pos: int, callee: ExprView) -> Parse {
    parse_rule(Rule::FinishCall { callee }, ts, pos)
}

spec fn call_rest(ts: Seq<TokenView>, pos: int, callee: ExprView) -> Parse {
    parse_rule(Rule::CallRest { callee }, ts, pos)
}

spec fn call(ts: Seq<TokenView>, pos: int) -> Parse {
    parse_rule(Rule::Call, ts, pos)
}

spec fn unary(ts: Seq<TokenView>, pos: int) -> Parse {
    parse_rule(Rule::Unary, ts, pos)
}

spec fn operand(ts: Seq<TokenView>, pos: int, level: Level) -> Parse {
    parse_rule(Rule::Operand { level }, ts, pos)
}

spec fn chain_rest(ts: Seq<TokenView>, pos: int, level: Level, left: ExprView) -> Parse {
    parse_rule(Rule::ChainRest { level, left }, ts, pos)
}

spec fn chain(ts: Seq<TokenView>, pos: int, level: Level) -> Parse {
    parse_rule(Rule::Chain { level }, ts, pos)
}

spec fn assignment(ts: Seq<TokenView>, pos: int) -> Parse {
    parse_rule(Rule::Assignment, ts, pos)
}

spec fn expression(ts: Seq<TokenView>, pos: int) -> Parse {
    parse_rule(Rule::Expression, ts, pos)
}

spec fn terminated(ts: Seq<TokenView>, pos: int, message: Seq<char>) -> Parse {
    parse_rule(Rule::Terminated { message }, ts, pos)
}

spec fn var_declaration(ts: Seq<TokenView>, pos: int) -> Parse {
    parse_rule(Rule::VarDeclaration, ts, pos)
}

spec fn return_statement(ts: Seq<TokenView>, pos: int) -> Parse {
    parse_rule(Rule::ReturnStatement, ts, pos)
}

spec fn condition(ts: Seq<TokenView>, pos: int, close_message: Seq<char>) -> Parse {
    parse_rule(Rule::Condition { close_message }, ts, pos)
}

spec fn while_statement(ts: Seq<TokenView>, pos: int) -> Parse {
    parse_rule(Rule::WhileStatement, ts, pos)
}

spec fn if_branches(ts: Seq<TokenView>, pos: int, predicate: ExprView) -> Parse {
    parse_rule(Rule::IfBranches { predicate }, ts, pos)
}

spec fn if_statement(ts: Seq<TokenView>, pos: int) -> Parse {
    parse_rule(Rule::IfStatement, ts, pos)
}

spec fn for_initializer(ts: Seq<TokenView>, pos: int) -> Parse {
    parse_rule(Rule::ForInitializer, ts, pos)
}

spec fn for_clause(ts: Seq<TokenView>, pos: int, closer: TokenType, message: Seq<char>)
    -> Parse {
    parse_rule(Rule::ForClause { closer, message }, ts, pos)
}

spec fn for_rest(ts: Seq<TokenView>, pos: int, initializer: Option<StmtView>) -> Parse {
    parse_rule(Rule::ForRest { initializer }, ts, pos)
}

spec fn for_statement(ts: Seq<TokenView>, pos: int) -> Parse {
    parse_rule(Rule::ForStatement, ts, pos)
}

spec fn block_items(ts: Seq<TokenView>, pos: int, acc: Seq<StmtView>) -> Parse {
    parse_rule(Rule::BlockItems { acc }, ts, pos)
}

spec fn block_statement(ts: Seq<TokenView>, pos: int) -> Parse {
    parse_rule(Rule::BlockStatement, ts, pos)
}

spec fn statement(ts: Seq<TokenView>, pos: int) -> Parse {
    parse_rule(Rule::Statement, ts, pos)
}

spec fn function(ts: Seq<TokenView>, pos: int) -> Parse {
    parse_rule(Rule::Function, ts, pos)
}

spec fn declaration(ts: Seq<TokenView>, pos: int) -> Parse {
    parse_rule(Rule::Declaration, ts, pos)
}

// What the parser's functions hand back, as the grammar states it.

spec fn expr_parse(r: Result<Expr, String>, pos: int) -> Parse {
    Parse {
        result: match r {
            Ok(e) => Ok(Node::Expr(e@)),
            Err(m) => Err(m@),
        },
        pos,
    }
}

spec fn stmt_parse(r: Result<Stmt, String>, pos: int) -> Parse {
    Parse {
        result: match r {
            Ok(s) => Ok(Node::Stmt(s@)),
            Err(m) => Err(m@),
        },
        pos,
    }
}

spec fn stmts_parse(r: Result<Vec<Box<Stmt>>, String>, pos: int) -> Parse {
    Parse {
        result: match r {
            Ok(list) => Ok(Node::Stmts(stmt_views(list@))),
            Err(m) => Err(m@),
        },
        pos,
    }
}

spec fn tokens_parse(r: Result<Vec<Token>, String>, pos: int) -> Parse {
    Parse {
        result: match r {
            Ok(list) => Ok(Node::Tokens(token_views(list@))),
            Err(m) => Err(m@),
        },
        pos,
    }
}

spec fn exprs_parse(r: Result<Vec<Expr>, String>, pos: int) -> Parse {
    Parse {
        result: match r {
            Ok(list) => Ok(Node::Exprs(expr_views(list@))),
            Err(m) => Err(m@),
        },
        pos,
    }
}

spec fn function_parse(
    r: Result<(Token, Vec<Token>, Vec<Box<Stmt>>), String>,
    pos: int,
) -> Parse {
    Parse {
        result: match r {
            Ok(parts) => Ok(
                Node::Function(parts.0@, token_views(parts.1@), stmt_views(parts.2@)),
            ),
            Err(m) => Err(m@),
        },
        pos,
    }
}

spec fn optional_stmt_parse(r: Result<Option<Stmt>, String>, pos: int) -> Parse {
    Parse {
        result: match r {
            Ok(Some(s)) => Ok(Node::MaybeStmt(Some(s@))),
            Ok(None) => Ok(Node::MaybeStmt(None)),
            Err(m) => Err(m@),
        },
        pos,
    }
}

spec fn optional_expr_parse(r: Result<Option<Expr>, String>, pos: int) -> Parse {
    Parse {
        result: match r {
            Ok(Some(e)) => Ok(Node::MaybeExpr(Some(e@))),
            Ok(None) => Ok(Node::MaybeExpr(None)),
            Err(m) => Err(m@),
        },
        pos,
    }
}

/// The statements or the message of an executable parse, as views.
pub open spec fn program_view(r: Result<Vec<Box<Stmt>>, String>) -> Result<
    Seq<StmtView>,
    Seq<char>,
> {
    match r {
        Ok(list) => Ok(stmt_views(list@)),
        Err(m) => Err(m@),
    }
}

/// A recursive-descent parser over one token sequence.
pub struct Parser {
    tokens: Vec<Token>,
    current: usize,
}

impl Parser {
    /// The tokens the parser reads.
    pub closed spec fn tokens(&self) -> Seq<TokenView> {
        token_views(self.tokens@)
    }

    /// The index of the next token to read.
    pub closed spec fn position(&self) -> int {
        self.current as int
    }

    /// The tokens are well formed and the position is inside them.
    pub open spec fn wf(&self) -> bool {
        well_formed(self.tokens()) && 0 <= self.position() < self.tokens().len()
    }

    /// The parser reads the same tokens as `before` and has not moved back.
    pub open spec fn follows(&self, before: &Parser) -> bool {
        self.wf() && self.tokens() == before.tokens() && before.position() <= self.position()
    }

    /// Whether `tokens` is a sequence that a parser takes.
    pub fn accepts(tokens: &Vec<Token>) -> (r: bool)
        ensures
            r == well_formed(token_views(tokens@)),
    {
        if tokens.len() == 0 {
            return false;
        }
        if tokens[tokens.len() - 1].token_t != TokenType::Eof {
            return false;
        }
        let mut i: usize = 0;
        while i < tokens.len()
            invariant
                i <= tokens.len(),
                forall|j: int| 0 <= j < i ==> carries_value(#[trigger] token_views(tokens@)[j]),
            decreases tokens.len() - i,
        {
            if !tokens[i].has_value() {
                assert(!carries_value(token_views(tokens@)[i as int]));
                return false;
            }
            i = i + 1;
        }
        true
    }

    /// A parser at the first of `tokens`.
    pub fn new(tokens: Vec<Token>) -> (r: Parser)
        requires
            well_formed(token_views(tokens@)),
        ensures
            r.wf(),
            r.tokens() == token_views(tokens@),
            r.position() == 0,
    {
        Parser { tokens, current: 0 }
    }

    /// Parses the whole input: the statements of the program, or the
    /// messages of all syntax errors joined by newlines.
    pub fn parse(&mut self) -> (r: Result<Vec<Box<Stmt>>, String>)
        requires
            old(self).wf(),
        ensures
            final(self).follows(old(self)),
            program_view(r) == program(
                old(self).tokens(),
                old(self).position(),
                Seq::empty(),
                Seq::empty(),
            ),
    {
        let mut stmts: Vec<Box<Stmt>> = Vec::new();
        let mut errs: Vec<String> = Vec::new();
        assert(stmt_views(stmts@) =~= Seq::empty());
        assert(texts(errs@) =~= Seq::empty());
        while !self.is_end()
            invariant
                self.follows(old(self)),
                program(self.tokens(), self.position(), stmt_views(stmts@), texts(errs@))
                    == program(
                    old(self).tokens(),
                    old(self).position(),
                    Seq::empty(),
                    Seq::empty(),
                ),
            decreases self.tokens().len() - self.position(),
        {
            let ghost before_stmts = stmts@;
            let ghost before_errs = errs@;
            let ghost start = self.position();
            match self.declaration() {
                Ok(s) => {
                    stmts.push(Box::new(s));
                    assert(stmt_views(stmts@) =~= stmt_views(before_stmts).push(s@));
                },
                Err(msg) => {
                    errs.push(msg);
                    assert(texts(errs@) =~= texts(before_errs).push(msg@));
                    self.synchronize();
                },
            }
        }
        if errs.len() == 0 {
            Ok(stmts)
        } else {
            Err(join_text(&errs))
        }
    }

    fn declaration(&mut self) -> (r: Result<Stmt, String>)
        requires
            old(self).wf(),
        ensures
            final(self).follows(old(self)),
            r is Ok ==> old(self).position() < final(self).position(),
            stmt_parse(r, final(self).position()) == declaration(
                old(self).tokens(),
                old(self).position(),
            ),
        decreases old(self).tokens().len() - old(self).position(), 33int,
    {
        if self.match_token(&TokenType::Var) {
            self.var_declaration()
        } else if self.match_token(&TokenType::Fn) {
            self.function()
        } else {
            self.statement()
        }
    }

    fn function(&mut self) -> (r: Result<Stmt, String>)
        requires
            old(self).wf(),
        ensures
            final(self).follows(old(self)),
            r is Ok ==> old(self).position() < final(self).position(),
            stmt_parse(r, final(self).position()) == function(
                old(self).tokens(),
                old(self).position(),
            ),
        decreases old(self).tokens().len() - old(self).position(), 46int,
    {
        let name = match self.consume(TokenType::Identifier, "Expected Function name") {
            Ok(t) => t,
            Err(m) => {
                return Err(m);
            },
        };
        match self.function_rest(
            "Line ",
            "Expected '(' after Function name",
            "Expected paramter name",
            "Expected ')' after parameters.",
            "Expected '{' Function body.",
        ) {
            Ok(parts) => Ok(Stmt::Function { name, params: parts.1, body: parts.2 }),
            Err(m) => Err(m),
        }
    }

    fn function_rest(
        &mut self,
        prefix: &str,
        open_message: &str,
        expected: &str,
        close_message: &str,
        brace_message: &str,
    ) -> (r: Result<(Token, Vec<Token>, Vec<Box<Stmt>>), String>)
        requires
            old(self).wf(),
        ensures
            final(self).follows(old(self)),
            r is Ok ==> old(self).position() < final(self).position(),
            function_parse(r, final(self).position()) == function_rest(
                old(self).tokens(),
                old(self).position(),
                prefix@,
                open_message@,
                expected@,
                close_message@,
                brace_message@,
            ),
        decreases old(self).tokens().len() - old(self).position(), 45int,
    {
        let paren = match self.consume(TokenType::LeftParen, open_message) {
            Ok(t) => t,
            Err(m) => {
                return Err(m);
            },
        };
        let params = if !self.check(TokenType::RightParen) {
            match self.param_list(prefix, expected) {
                Ok(list) => list,
                Err(m) => {
                    return Err(m);
                },
            }
        } else {
            let list: Vec<Token> = Vec::new();
            assert(token_views(list@) =~= Seq::empty());
            list
        };
        match self.consume(TokenType::RightParen, close_message) {
            Ok(_) => {},
            Err(m) => {
                return Err(m);
            },
        }
        match self.consume(TokenType::LeftBrace, brace_message) {
            Ok(_) => {},
            Err(m) => {
                return Err(m);
            },
        }
        match self.block_statement() {
            Ok(body) => Ok((paren, params, body)),
            Err(m) => Err(m),
        }
    }

    fn param_list(&mut self, prefix: &str, expected: &str) -> (r: Result<Vec<Token>, String>)
        requires
            old(self).wf(),
        ensures
            final(self).follows(old(self)),
            tokens_parse(r, final(self).position()) == param_list(
                old(self).tokens(),
                old(self).position(),
                Seq::empty(),
                prefix@,
                expected@,
            ),
    {
        let mut params: Vec<Token> = Vec::new();
        assert(token_views(params@) =~= Seq::empty());
        loop
            invariant
                self.follows(old(self)),
                param_list(
                    self.tokens(),
                    self.position(),
                    token_views(params@),
                    prefix@,
                    expected@,
                ) == param_list(
                    old(self).tokens(),
                    old(self).position(),
                    Seq::empty(),
                    prefix@,
                    expected@,
                ),
            decreases self.tokens().len() - self.position(),
        {
            if params.len() >= 255 {
                let mut m = String::from_str(prefix);
                m.append(usize_text(self.tokens[self.current].line_number).as_str());
                m.append(": Cant have more than 255 arguments");
                return Err(m);
            }
            let ghost before = params@;
            let param = match self.consume(TokenType::Identifier, expected) {
                Ok(t) => t,
                Err(m) => {
                    return Err(m);
                },
            };
            params.push(param);
            assert(token_views(params@) =~= token_views(before).push(param@));
            if !self.match_token(&TokenType::Comma) {
                return Ok(params);
            }
        }
    }

    fn var_declaration(&mut self) -> (r: Result<Stmt, String>)
        requires
            old(self).wf(),
        ensures
            final(self).follows(old(self)),
            r is Ok ==> old(self).position() < final(self).position(),
            stmt_parse(r, final(self).position()) == var_declaration(
                old(self).tokens(),
                old(self).position(),
            ),
        decreases old(self).tokens().len() - old(self).position(), 25int,
    {
        let token = match self.consume(TokenType::Identifier, "Expected variable name") {
            Ok(t) => t,
            Err(m) => {
                return Err(m);
            },
        };
        if self.match_token(&TokenType::Equal) {
            match self.terminated("Expected a ';' after variable name") {
                Ok(initializer) => Ok(Stmt::Var { name: token, initializer }),
                Err(m) => Err(m),
            }
        } else {
            match self.consume(TokenType::Semicolon, "Expected a ';' after variable name") {
                Ok(_) => {
                    let initializer = Expr::Literal { value: LiteralValue::Nil };
                    assert(initializer@ == ExprView::Literal { value: ValueView::Nil });
                    Ok(Stmt::Var { name: token, initializer })
                },
                Err(m) => Err(m),
            }
        }
    }

    fn statement(&mut self) -> (r: Result<Stmt, String>)
        requires
            old(self).wf(),
        ensures
            final(self).follows(old(self)),
            r is Ok ==> old(self).position() < final(self).position(),
            stmt_parse(r, final(self).position()) == statement(
                old(self).tokens(),
                old(self).position(),
            ),
        decreases old(self).tokens().len() - old(self).position(), 31int,
    {
        if self.match_token(&TokenType::Print) {
            self.print_statement()
        } else if self.match_token(&TokenType::LeftBrace) {
            match self.block_statement() {
                Ok(statements) => Ok(Stmt::Block { statements }),
                Err(m) => Err(m),
            }
        } else if self.match_token(&TokenType::If) {
            self.if_statement()
        } else if self.match_token(&TokenType::While) {
            self.while_statement()
        } else if self.match_token(&TokenType::For) {
            self.for_statement()
        } else if self.match_token(&TokenType::Return) {
            self.return_statement()
        } else {
            self.expression_statement()
        }
    }

    fn return_statement(&mut self) -> (r: Result<Stmt, String>)
        requires
            old(self).wf(),
            old(self).position() >= 1,
        ensures
            final(self).follows(old(self)),
            r is Ok ==> old(self).position() < final(self).position(),
            stmt_parse(r, final(self).position()) == return_statement(
                old(self).tokens(),
                old(self).position(),
            ),
        decreases old(self).tokens().len() - old(self).position(), 25int,
    {
        let keyword = self.previous();
        if !self.check(TokenType::Semicolon) {
            match self.terminated("Expected ';' after return value") {
                Ok(e) => Ok(Stmt::ReturnStmt { keyword, value: Some(e) }),
                Err(m) => Err(m),
            }
        } else {
            self.advance();
            Ok(Stmt::ReturnStmt { keyword, value: None })
        }
    }

    fn for_initializer(&mut self) -> (r: Result<Option<Stmt>, String>)
        requires
            old(self).wf(),
        ensures
            final(self).follows(old(self)),
            optional_stmt_parse(r, final(self).position()) == for_initializer(
                old(self).tokens(),
                old(self).position(),
            ),
        decreases old(self).tokens().len() - old(self).position(), 26int,
    {
        if self.match_token(&TokenType::Semicolon) {
            Ok(None)
        } else if self.match_token(&TokenType::Var) {
            match self.var_declaration() {
                Ok(s) => Ok(Some(s)),
                Err(m) => Err(m),
            }
        } else {
            match self.expression_statement() {
                Ok(s) => Ok(Some(s)),
                Err(m) => Err(m),
            }
        }
    }

    fn for_clause(&mut self, closer: TokenType, message: &str) -> (r: Result<Option<Expr>, String>)
        requires
            old(self).wf(),
            closer != TokenType::Eof,
        ensures
            final(self).follows(old(self)),
            optional_expr_parse(r, final(self).position()) == for_clause(
                old(self).tokens(),
                old(self).position(),
                closer,
                message@,
            ),
        decreases old(self).tokens().len() - old(self).position(), 26int,
    {
        let value = if !self.check(closer) {
            match self.expression() {
                Ok(e) => Some(e),
                Err(m) => {
                    return Err(m);
                },
            }
        } else {
            None
        };
        match self.consume(closer, message) {
            Ok(_) => Ok(value),
            Err(m) => Err(m),
        }
    }

    fn for_statement(&mut self) -> (r: Result<Stmt, String>)
        requires
            old(self).wf(),
        ensures
            final(self).follows(old(self)),
            r is Ok ==> old(self).position() < final(self).position(),
            stmt_parse(r, final(self).position()) == for_statement(
                old(self).tokens(),
                old(self).position(),
            ),
        decreases old(self).tokens().len() - old(self).position(), 28int,
    {
        match self.consume(TokenType::LeftParen, "Expected '(' after for") {
            Ok(_) => {},
            Err(m) => {
                return Err(m);
            },
        }
        let initializer = match self.for_initializer() {
            Ok(i) => i,
            Err(m) => {
                return Err(m);
            },
        };
        self.for_rest(initializer)
    }

    fn for_rest(&mut self, initializer: Option<Stmt>) -> (r: Result<Stmt, String>)
        requires
            old(self).wf(),
        ensures
            final(self).follows(old(self)),
            stmt_parse(r, final(self).position()) == for_rest(
                old(self).tokens(),
                old(self).position(),
                match initializer {
                    Some(s) => Some(s@),
                    None => None,
                },
            ),
        decreases old(self).tokens().len() - old(self).position(), 42int,
    {
        let cond = match self.for_clause(
            TokenType::Semicolon,
            "Expected ';' after loop condition",
        ) {
            Ok(c) => c,
            Err(m) => {
                return Err(m);
            },
        };
        let increment = match self.for_clause(
            TokenType::RightParen,
            "Expected ')' after for clauses",
        ) {
            Ok(n) => n,
            Err(m) => {
                return Err(m);
            },
        };
        let inner = match self.statement() {
            Ok(b) => b,
            Err(m) => {
                return Err(m);
            },
        };
        Ok(Parser::for_loop(initializer, cond, increment, inner))
    }

    /// Builds what a `for` loop stands for from its parts.
    fn for_loop(
        initializer: Option<Stmt>,
        cond: Option<Expr>,
        increment: Option<Expr>,
        inner: Stmt,
    ) -> (r: Stmt)
        ensures
            r@ == for_loop(
                match initializer {
                    Some(s) => Some(s@),
                    None => None,
                },
                match cond {
                    Some(e) => Some(e@),
                    None => None,
                },
                match increment {
                    Some(e) => Some(e@),
                    None => None,
                },
                inner@,
            ),
    {
        let ghost inner_view = inner@;
        let stepped = match increment {
            Some(then) => {
                let statements = vec![
                    Box::new(inner),
                    Box::new(Stmt::Expression { expression: then }),
                ];
                assert(stmt_views(statements@) =~= seq![
                    inner_view,
                    StmtView::Expression { expression: then@ },
                ]);
                Stmt::Block { statements }
            },
            None => inner,
        };
        let ghost stepped_view = stepped@;
        assert(stepped_view == match increment {
            Some(e) => StmtView::Block {
                statements: seq![inner_view, StmtView::Expression { expression: e@ }],
            },
            None => inner_view,
        });
        let test = match cond {
            None => Expr::Literal { value: LiteralValue::True },
            Some(c) => c,
        };
        let ghost test_view = test@;
        let looped = Stmt::WhileStmt { condition: test, body: Box::new(stepped) };
        let ghost looped_view = looped@;
        assert(looped_view == StmtView::WhileStmt {
            condition: test_view,
            body: Box::new(stepped_view),
        });
        match initializer {
            Some(init) => {
                let statements = vec![Box::new(init), Box::new(looped)];
                assert(stmt_views(statements@) =~= seq![init@, looped_view]);
                Stmt::Block { statements }
            },
            None => looped,
        }
    }

    fn condition(&mut self, close_message: &str) -> (r: Result<Expr, String>)
        requires
            old(self).wf(),
        ensures
            final(self).follows(old(self)),
            expr_parse(r, final(self).position()) == condition(
                old(self).tokens(),
                old(self).position(),
                close_message@,
            ),
        decreases old(self).tokens().len() - old(self).position(), 25int,
    {
        let e = match self.expression() {
            Ok(e) => e,
            Err(m) => {
                return Err(m);
            },
        };
        match self.consume(TokenType::RightParen, close_message) {
            Ok(_) => Ok(e),
            Err(m) => Err(m),
        }
    }

    fn while_statement(&mut self) -> (r: Result<Stmt, String>)
        requires
            old(self).wf(),
        ensures
            final(self).follows(old(self)),
            r is Ok ==> old(self).position() < final(self).position(),
            stmt_parse(r, final(self).position()) == while_statement(
                old(self).tokens(),
                old(self).position(),
            ),
        decreases old(self).tokens().len() - old(self).position(), 26int,
    {
        match self.consume(TokenType::LeftParen, "Expected '(' after while") {
            Ok(_) => {},
            Err(m) => {
                return Err(m);
            },
        }
        let test = match self.condition("Expected ')' after condition") {
            Ok(e) => e,
            Err(m) => {
                return Err(m);
            },
        };
        match self.statement() {
            Ok(body) => Ok(Stmt::WhileStmt { condition: test, body: Box::new(body) }),
            Err(m) => Err(m),
        }
    }

    fn if_statement(&mut self) -> (r: Result<Stmt, String>)
        requires
            old(self).wf(),
        ensures
            final(self).follows(old(self)),
            r is Ok ==> old(self).position() < final(self).position(),
            stmt_parse(r, final(self).position()) == if_statement(
                old(self).tokens(),
                old(self).position(),
            ),
        decreases old(self).tokens().len() - old(self).position(), 26int,
    {
        match self.consume(TokenType::LeftParen, "Expected '(' after if-statement") {
            Ok(_) => {},
            Err(m) => {
                return Err(m);
            },
        }
        let predicate = match self.condition("Expected ')' after if-predicate") {
            Ok(e) => e,
            Err(m) => {
                return Err(m);
            },
        };
        self.if_branches(predicate)
    }

    fn if_branches(&mut self, predicate: Expr) -> (r: Result<Stmt, String>)
        requires
            old(self).wf(),
        ensures
            final(self).follows(old(self)),
            stmt_parse(r, final(self).position()) == if_branches(
                old(self).tokens(),
                old(self).position(),
                predicate@,
            ),
        decreases old(self).tokens().len() - old(self).position(), 32int,
    {
        let then = match self.statement() {
            Ok(s) => Box::new(s),
            Err(m) => {
                return Err(m);
            },
        };
        let else_branch = if self.match_token(&TokenType::Else) {
            match self.statement() {
                Ok(s) => Some(Box::new(s)),
                Err(m) => {
                    return Err(m);
                },
            }
        } else {
            None
        };
        Ok(Stmt::IfStmt { predicate, then, else_branch })
    }

    fn block_statement(&mut self) -> (r: Result<Vec<Box<Stmt>>, String>)
        requires
            old(self).wf(),
        ensures
            final(self).follows(old(self)),
            r is Ok ==> old(self).position() < final(self).position(),
            stmts_parse(r, final(self).position()) == block_statement(
                old(self).tokens(),
                old(self).position(),
            ),
        decreases old(self).tokens().len() - old(self).position(), 41int,
    {
        let mut statements: Vec<Box<Stmt>> = Vec::new();
        assert(stmt_views(statements@) =~= Seq::empty());
        while !self.check(TokenType::RightBrace) && !self.is_end()
            invariant
                self.follows(old(self)),
                block_items(self.tokens(), self.position(), stmt_views(statements@))
                    == block_items(old(self).tokens(), old(self).position(), Seq::empty()),
            decreases self.tokens().len() - self.position(),
        {
            let ghost before = statements@;
            let decl = match self.declaration() {
                Ok(d) => d,
                Err(m) => {
                    return Err(m);
                },
            };
            statements.push(Box::new(decl));
            assert(stmt_views(statements@) =~= stmt_views(before).push(decl@));
        }
        match self.consume(TokenType::RightBrace, "Expected '}' after a block") {
            Ok(_) => Ok(statements),
            Err(m) => Err(m),
        }
    }

    fn check(&self, ty: TokenType) -> (r: bool)
        requires
            self.wf(),
        ensures
            r == (kind_at(self.tokens(), self.position()) == ty),
    {
        self.tokens[self.current].token_t == ty
    }

    fn print_statement(&mut self) -> (r: Result<Stmt, String>)
        requires
            old(self).wf(),
        ensures
            final(self).follows(old(self)),
            r is Ok ==> old(self).position() < final(self).position(),
            stmt_parse(r, final(self).position()) == mapped(
                terminated(old(self).tokens(), old(self).position(), "Expected ';' after value"@),
                |node: Node| Node::Stmt(StmtView::Print { expression: as_expr(node) }),
            ),
        decreases old(self).tokens().len() - old(self).position(), 25int,
    {
        match self.terminated("Expected ';' after value") {
            Ok(value) => Ok(Stmt::Print { expression: value }),
            Err(m) => Err(m),
        }
    }

    fn expression_statement(&mut self) -> (r: Result<Stmt, String>)
        requires
            old(self).wf(),
        ensures
            final(self).follows(old(self)),
            r is Ok ==> old(self).position() < final(self).position(),
            stmt_parse(r, final(self).position()) == mapped(
                terminated(
                    old(self).tokens(),
                    old(self).position(),
                    "Expected ';' after expression"@,
                ),
                |node: Node| Node::Stmt(StmtView::Expression { expression: as_expr(node) }),
            ),
        decreases old(self).tokens().len() - old(self).position(), 25int,
    {
        match self.terminated("Expected ';' after expression") {
            Ok(expr) => Ok(Stmt::Expression { expression: expr }),
            Err(m) => Err(m),
        }
    }

    fn terminated(&mut self, message: &str) -> (r: Result<Expr, String>)
        requires
            old(self).wf(),
        ensures
            final(self).follows(old(self)),
            r is Ok ==> old(self).position() < final(self).position(),
            expr_parse(r, final(self).position()) == terminated(
                old(self).tokens(),
                old(self).position(),
                message@,
            ),
        decreases old(self).tokens().len() - old(self).position(), 24int,
    {
        let e = match self.expression() {
            Ok(e) => e,
            Err(m) => {
                return Err(m);
            },
        };
        match self.consume(TokenType::Semicolon, message) {
            Ok(_) => Ok(e),
            Err(m) => Err(m),
        }
    }

    fn expression(&mut self) -> (r: Result<Expr, String>)
        requires
            old(self).wf(),
        ensures
            final(self).follows(old(self)),
            expr_parse(r, final(self).position()) == expression(
                old(self).tokens(),
                old(self).position(),
            ),
        decreases old(self).tokens().len() - old(self).position(), 23int,
    {
        self.assignment()
    }

    fn function_expression(&mut self) -> (r: Result<Expr, String>)
        requires
            old(self).wf(),
        ensures
            final(self).follows(old(self)),
            expr_parse(r, final(self).position()) == mapped(
                function_rest(
                    old(self).tokens(),
                    old(self).position(),
                    "line "@,
                    "Expected '(' after anonymous function"@,
                    "Expected parameter name"@,
                    "Expected ')' after anonymous function paramters"@,
                    "Expected '{' after anonymous function decleration"@,
                ),
                |node: Node| anon_function(node),
            ),
        decreases old(self).tokens().len() - old(self).position(), 46int,
    {
        match self.function_rest(
            "line ",
            "Expected '(' after anonymous function",
            "Expected parameter name",
            "Expected ')' after anonymous function paramters",
            "Expected '{' after anonymous function decleration",
        ) {
            Ok(parts) => Ok(
                Expr::AnonFunction { paren: parts.0, arguments: parts.1, body: parts.2 },
            ),
            Err(m) => Err(m),
        }
    }

    fn assignment(&mut self) -> (r: Result<Expr, String>)
        requires
            old(self).wf(),
        ensures
            final(self).follows(old(self)),
            expr_parse(r, final(self).position()) == assignment(
                old(self).tokens(),
                old(self).position(),
            ),
        decreases old(self).tokens().len() - old(self).position(), 22int,
    {
        let expr = match self.or() {
            Ok(e) => e,
            Err(m) => {
                return Err(m);
            },
        };
        if self.match_token(&TokenType::Equal) {
            let value = match self.assignment() {
                Ok(v) => v,
                Err(m) => {
                    return Err(m);
                },
            };
            match expr {
                Expr::Variable { name } => Ok(Expr::Assign { name, value: Box::new(value) }),
                _ => Err(String::from_str("Invalid assignment target.")),
            }
        } else {
            Ok(expr)
        }
    }

    fn or(&mut self) -> (r: Result<Expr, String>)
        requires
            old(self).wf(),
        ensures
            final(self).follows(old(self)),
            expr_parse(r, final(self).position()) == chain(
                old(self).tokens(),
                old(self).position(),
                Level::Or,
            ),
        decreases old(self).tokens().len() - old(self).position(), 21int,
    {
        self.chain(Level::Or)
    }

    fn and(&mut self) -> (r: Result<Expr, String>)
        requires
            old(self).wf(),
        ensures
            final(self).follows(old(self)),
            expr_parse(r, final(self).position()) == chain(
                old(self).tokens(),
                old(self).position(),
                Level::And,
            ),
        decreases old(self).tokens().len() - old(self).position(), 18int,
    {
        self.chain(Level::And)
    }

    fn equality(&mut self) -> (r: Result<Expr, String>)
        requires
            old(self).wf(),
        ensures
            final(self).follows(old(self)),
            expr_parse(r, final(self).position()) == chain(
                old(self).tokens(),
                old(self).position(),
                Level::Equality,
            ),
        decreases old(self).tokens().len() - old(self).position(), 15int,
    {
        self.chain(Level::Equality)
    }

    fn comparison(&mut self) -> (r: Result<Expr, String>)
        requires
            old(self).wf(),
        ensures
            final(self).follows(old(self)),
            expr_parse(r, final(self).position()) == chain(
                old(self).tokens(),
                old(self).position(),
                Level::Comparison,
            ),
        decreases old(self).tokens().len() - old(self).position(), 12int,
    {
        self.chain(Level::Comparison)
    }

    fn term(&mut self) -> (r: Result<Expr, String>)
        requires
            old(self).wf(),
        ensures
            final(self).follows(old(self)),
            expr_parse(r, final(self).position()) == chain(
                old(self).tokens(),
                old(self).position(),
                Level::Term,
            ),
        decreases old(self).tokens().len() - old(self).position(), 9int,
    {
        self.chain(Level::Term)
    }

    fn factor(&mut self) -> (r: Result<Expr, String>)
        requires
            old(self).wf(),
        ensures
            final(self).follows(old(self)),
            expr_parse(r, final(self).position()) == chain(
                old(self).tokens(),
                old(self).position(),
                Level::Factor,
            ),
        decreases old(self).tokens().len() - old(self).position(), 6int,
    {
        self.chain(Level::Factor)
    }

    fn operand(&mut self, level: Level) -> (r: Result<Expr, String>)
        requires
            old(self).wf(),
        ensures
            final(self).follows(old(self)),
            expr_parse(r, final(self).position()) == operand(
                old(self).tokens(),
                old(self).position(),
                level,
            ),
        decreases old(self).tokens().len() - old(self).position(), 3 * level_index(level) + 4,
    {
        match level {
            Level::Factor => self.unary(),
            Level::Term => self.factor(),
            Level::Comparison => self.term(),
            Level::Equality => self.comparison(),
            Level::And => self.equality(),
            Level::Or => self.and(),
        }
    }

    fn chain(&mut self, level: Level) -> (r: Result<Expr, String>)
        requires
            old(self).wf(),
        ensures
            final(self).follows(old(self)),
            expr_parse(r, final(self).position()) == chain(
                old(self).tokens(),
                old(self).position(),
                level,
            ),
        decreases old(self).tokens().len() - old(self).position(), 3 * level_index(level) + 5,
    {
        let mut expr = match self.operand(level) {
            Ok(e) => e,
            Err(m) => {
                return Err(m);
            },
        };
        while self.match_tokens(level)
            invariant
                self.follows(old(self)),
                chain_rest(self.tokens(), self.position(), level, expr@) == chain(
                    old(self).tokens(),
                    old(self).position(),
                    level,
                ),
            decreases self.tokens().len() - self.position(),
        {
            let operator = self.previous();
            let right = match self.operand(level) {
                Ok(e) => e,
                Err(m) => {
                    return Err(m);
                },
            };
            expr = match level {
                Level::And => Expr::Logical {
                    left: Box::new(expr),
                    operator,
                    right: Box::new(right),
                },
                Level::Or => Expr::Logical {
                    left: Box::new(expr),
                    operator,
                    right: Box::new(right),
                },
                _ => Expr::Binary { left: Box::new(expr), operator, right: Box::new(right) },
            };
        }
        Ok(expr)
    }

    fn advance(&mut self)
        requires
            old(self).wf(),
        ensures
            final(self).follows(old(self)),
            final(self).position() == step(old(self).tokens(), old(self).position()),
    {
        if !self.is_end() {
            let n = self.tokens.len();
            assert(self.current < n);
            self.current += 1;
        }
    }

    fn unary(&mut self) -> (r: Result<Expr, String>)
        requires
            old(self).wf(),
        ensures
            final(self).follows(old(self)),
            expr_parse(r, final(self).position()) == unary(
                old(self).tokens(),
                old(self).position(),
            ),
        decreases old(self).tokens().len() - old(self).position(), 3int,
    {
        if self.match_token(&TokenType::Bang) || self.match_token(&TokenType::Minus) {
            let op = self.previous();
            match self.unary() {
                Ok(rhs) => Ok(Expr::Unary { operator: op, right: Box::new(rhs) }),
                Err(m) => Err(m),
            }
        } else {
            self.call()
        }
    }

    fn call(&mut self) -> (r: Result<Expr, String>)
        requires
            old(self).wf(),
        ensures
            final(self).follows(old(self)),
            expr_parse(r, final(self).position()) == call(old(self).tokens(), old(self).position()),
        decreases old(self).tokens().len() - old(self).position(), 2int,
    {
        let mut expr = match self.primary() {
            Ok(e) => e,
            Err(m) => {
                return Err(m);
            },
        };
        loop
            invariant
                self.follows(old(self)),
                call_rest(self.tokens(), self.position(), expr@) == call(
                    old(self).tokens(),
                    old(self).position(),
                ),
            decreases self.tokens().len() - self.position(),
        {
            if self.match_token(&TokenType::LeftParen) {
                expr = match self.finish_call(expr) {
                    Ok(e) => e,
                    Err(m) => {
                        return Err(m);
                    },
                };
            } else {
                return Ok(expr);
            }
        }
    }

    fn arguments(&mut self) -> (r: Result<Vec<Expr>, String>)
        requires
            old(self).wf(),
        ensures
            final(self).follows(old(self)),
            exprs_parse(r, final(self).position()) == arguments(
                old(self).tokens(),
                old(self).position(),
                Seq::empty(),
            ),
        decreases old(self).tokens().len() - old(self).position(), 29int,
    {
        let mut list: Vec<Expr> = Vec::new();
        assert(expr_views(list@) =~= Seq::empty());
        loop
            invariant
                self.follows(old(self)),
                arguments(self.tokens(), self.position(), expr_views(list@)) == arguments(
                    old(self).tokens(),
                    old(self).position(),
                    Seq::empty(),
                ),
            decreases self.tokens().len() - self.position(),
        {
            if list.len() >= 255 {
                let mut m = String::from_str("Line ");
                m.append(usize_text(self.tokens[self.current].line_number).as_str());
                m.append(": Cant have more than 255 arguments");
                return Err(m);
            }
            let ghost before = list@;
            let arg = match self.expression() {
                Ok(e) => e,
                Err(m) => {
                    return Err(m);
                },
            };
            list.push(arg);
            assert(expr_views(list@) =~= expr_views(before).push(arg@));
            if !self.match_token(&TokenType::Comma) {
                return Ok(list);
            }
        }
    }

    fn finish_call(&mut self, callee: Expr) -> (r: Result<Expr, String>)
        requires
            old(self).wf(),
        ensures
            final(self).follows(old(self)),
            expr_parse(r, final(self).position()) == finish_call(
                old(self).tokens(),
                old(self).position(),
                callee@,
            ),
        decreases old(self).tokens().len() - old(self).position(), 30int,
    {
        let arguments = if !self.check(TokenType::RightParen) {
            match self.arguments() {
                Ok(list) => list,
                Err(m) => {
                    return Err(m);
                },
            }
        } else {
            let list: Vec<Expr> = Vec::new();
            assert(expr_views(list@) =~= Seq::empty());
            list
        };
        match self.consume(TokenType::RightParen, "Expected ')' after arguments.") {
            Ok(paren) => Ok(Expr::Call { callee: Box::new(callee), paren, arguments }),
            Err(m) => Err(m),
        }
    }

    fn consume(&mut self, token_t: TokenType, msg: &str) -> (r: Result<Token, String>)
        requires
            old(self).wf(),
            token_t != TokenType::Eof,
        ensures
            final(self).follows(old(self)),
            match r {
                Ok(t) => matches_at(old(self).tokens(), old(self).position(), token_t) && t@
                    == old(self).tokens()[old(self).position()] && final(self).position()
                    == old(self).position() + 1,
                Err(m) => !matches_at(old(self).tokens(), old(self).position(), token_t) && m@
                    == msg@ && final(self).position() == old(self).position(),
            },
    {
        if self.tokens[self.current].token_t == token_t {
            self.advance();
            let token = self.previous();
            Ok(token)
        } else {
            Err(String::from_str(msg))
        }
    }

    fn primary(&mut self) -> (r: Result<Expr, String>)
        requires
            old(self).wf(),
        ensures
            final(self).follows(old(self)),
            expr_parse(r, final(self).position()) == primary(
                old(self).tokens(),
                old(self).position(),
            ),
        decreases old(self).tokens().len() - old(self).position(), 0int,
    {
        let token = self.peek();
        match token.token_t {
            TokenType::LeftParen => {
                self.advance();
                let expr = match self.expression() {
                    Ok(e) => e,
                    Err(m) => {
                        return Err(m);
                    },
                };
                match self.consume(TokenType::RightParen, "Expected ')'") {
                    Ok(_) => Ok(Expr::Grouping { expression: Box::new(expr) }),
                    Err(m) => Err(m),
                }
            },
            TokenType::False
            | TokenType::True
            | TokenType::Nil
            | TokenType::Number
            | TokenType::String => {
                self.advance();
                Ok(Expr::Literal { value: LiteralValue::from_token(token) })
            },
            TokenType::Fn => {
                self.advance();
                self.function_expression()
            },
            TokenType::Identifier => {
                self.advance();
                Ok(Expr::Variable { name: self.previous() })
            },
            _ => Err(String::from_str("Expected expression")),
        }
    }

    fn peek(&self) -> (r: Token)
        requires
            self.wf(),
        ensures
            r@ == self.tokens()[self.position()],
    {
        self.tokens[self.current].duplicate()
    }

    fn previous(&self) -> (r: Token)
        requires
            self.wf(),
            self.position() >= 1,
        ensures
            r@ == self.tokens()[self.position() - 1],
    {
        self.tokens[self.current - 1].duplicate()
    }

    fn is_end(&self) -> (r: bool)
        requires
            self.wf(),
        ensures
            r == at_end(self.tokens(), self.position()),
    {
        self.tokens[self.current].token_t == TokenType::Eof
    }

    fn synchronize(&mut self)
        requires
            old(self).wf(),
        ensures
            final(self).follows(old(self)),
            final(self).position() == synchronize(old(self).tokens(), old(self).position()),
            final(self).position() >= step(old(self).tokens(), old(self).position()),
    {
        self.advance();
        while !self.is_end()
            invariant
                self.follows(old(self)),
                self.position() >= step(old(self).tokens(), old(self).position()),
                resume_point(self.tokens(), self.position()) == synchronize(
                    old(self).tokens(),
                    old(self).position(),
                ),
            ensures
                self.follows(old(self)),
                self.position() >= step(old(self).tokens(), old(self).position()),
                self.position() == synchronize(old(self).tokens(), old(self).position()),
            decreases self.tokens().len() - self.position(),
        {
            if self.current >= 1 && self.tokens[self.current - 1].token_t
                == TokenType::Semicolon {
                break ;
            }
            match self.tokens[self.current].token_t {
                TokenType::Class
                | TokenType::Fn
                | TokenType::Var
                | TokenType::For
                | TokenType::If
                | TokenType::While
                | TokenType::Print
                | TokenType::Return => {
                    break ;
                },
                _ => (),
            }
            self.advance();
        }
    }

    fn match_token(&mut self, ty: &TokenType) -> (r: bool)
        requires
            old(self).wf(),
        ensures
            final(self).follows(old(self)),
            r == matches_at(old(self).tokens(), old(self).position(), *ty),
            final(self).position() == if r {
                old(self).position() + 1
            } else {
                old(self).position()
            },
    {
        if self.is_end() {
            false
        } else {
            if self.tokens[self.current].token_t == *ty {
                self.advance();
                true
            } else {
                false
            }
        }
    }

    fn match_tokens(&mut self, level: Level) -> (r: bool)
        requires
            old(self).wf(),
        ensures
            final(self).follows(old(self)),
            r == (!at_end(old(self).tokens(), old(self).position()) && level_has(
                level,
                kind_at(old(self).tokens(), old(self).position()),
            )),
            final(self).position() == if r {
                old(self).position() + 1
            } else {
                old(self).position()
            },
    {
        match level {
            Level::Factor => self.match_token(&TokenType::Slash) || self.match_token(
                &TokenType::Star,
            ),
            Level::Term => self.match_token(&TokenType::Minus) || self.match_token(
                &TokenType::Plus,
            ),
            Level::Comparison => self.match_token(&TokenType::Greater) || self.match_token(
                &TokenType::GreaterEqual,
            ) || self.match_token(&TokenType::Less) || self.match_token(&TokenType::LessEqual),
            Level::Equality => self.match_token(&TokenType::BangEqual) || self.match_token(
                &TokenType::EqualEqual,
            ),
            Level::And => self.match_token(&TokenType::And),
            Level::Or => self.match_token(&TokenType::Or),
        }
    }
}

} // verus!
