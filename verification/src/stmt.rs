//! Statements.

use crate::expr::{duplicate_tokens, expr_text, expr_view, Expr, ExprView};
use crate::lexer::{token_views, Token, TokenView};
use vstd::prelude::*;

verus! {

/// A statement of the language.
#[derive(Debug)]
#[allow(inconsistent_fields)]
pub enum Stmt {
    Expression { expression: Expr },
    Print { expression: Expr },
    Var { name: Token, initializer: Expr },
    Block { statements: Vec<Box<Stmt>> },
    IfStmt { predicate: Expr, then: Box<Stmt>, else_branch: Option<Box<Stmt>> },
    WhileStmt { condition: Expr, body: Box<Stmt> },
    Function { name: Token, params: Vec<Token>, body: Vec<Box<Stmt>> },
    ReturnStmt { keyword: Token, value: Option<Expr> },
}

/// What a statement stands for in contracts.
#[allow(inconsistent_fields)]
pub enum StmtView {
    Expression { expression: ExprView },
    Print { expression: ExprView },
    Var { name: TokenView, initializer: ExprView },
    Block { statements: Seq<StmtView> },
    IfStmt { predicate: ExprView, then: Box<StmtView>, else_branch: Option<Box<StmtView>> },
    WhileStmt { condition: ExprView, body: Box<StmtView> },
    Function { name: TokenView, params: Seq<TokenView>, body: Seq<StmtView> },
    ReturnStmt { keyword: TokenView, value: Option<ExprView> },
}

/// The view of a statement.
pub open spec fn stmt_view(s: Stmt) -> StmtView
    decreases s,
{
    match s {
        Stmt::Expression { expression } => StmtView::Expression {
            expression: expr_view(expression),
        },
        Stmt::Print { expression } => StmtView::Print { expression: expr_view(expression) },
        Stmt::Var { name, initializer } => StmtView::Var {
            name: name@,
            initializer: expr_view(initializer),
        },
        Stmt::Block { statements } => StmtView::Block { statements: stmt_views(statements@) },
        Stmt::IfStmt { predicate, then, else_branch } => StmtView::IfStmt {
            predicate: expr_view(predicate),
            then: Box::new(stmt_view(*then)),
            else_branch: match else_branch {
                Some(e) => Some(Box::new(stmt_view(*e))),
                None => None,
            },
        },
        Stmt::WhileStmt { condition, body } => StmtView::WhileStmt {
            condition: expr_view(condition),
            body: Box::new(stmt_view(*body)),
        },
        Stmt::Function { name, params, body } => StmtView::Function {
            name: name@,
            params: token_views(params@),
            body: stmt_views(body@),
        },
        Stmt::ReturnStmt { keyword, value } => StmtView::ReturnStmt {
            keyword: keyword@,
            value: match value {
                Some(v) => Some(expr_view(v)),
                None => None,
            },
        },
    }
}

/// The views of a sequence of statements.
pub open spec fn stmt_views(statements: Seq<Box<Stmt>>) -> Seq<StmtView>
    decreases statements,
{
    Seq::new(
        statements.len(),
        |i: int|
            if 0 <= i < statements.len() {
                stmt_view(*statements[i])
            } else {
                StmtView::Block { statements: Seq::empty() }
            },
    )
}

impl View for Stmt {
    type V = StmtView;

    open spec fn view(&self) -> StmtView {
        stmt_view(*self)
    }
}


/// Copies of the statements of `statements`, in order.
pub fn duplicate_stmts(statements: &Vec<Box<Stmt>>) -> (r: Vec<Box<Stmt>>)
    ensures
        stmt_views(r@) == stmt_views(statements@),
    decreases statements,
{
    let mut out: Vec<Box<Stmt>> = Vec::new();
    let mut i: usize = 0;
    while i < statements.len()
        invariant
            i <= statements.len(),
            out.len() == i,
            forall|j: int| 0 <= j < i ==> stmt_view(*out@[j]) == stmt_view(*statements@[j]),
        decreases statements.len() - i,
    {
        let copy = statements[i].duplicate();
        out.push(Box::new(copy));
        i = i + 1;
    }
    assert(stmt_views(out@) =~= stmt_views(statements@));
    out
}

impl Stmt {
    /// A copy with the same view.
    pub fn duplicate(&self) -> (r: Stmt)
        ensures
            r@ == self@,
        decreases self,
    {
        match self {
            Stmt::Expression { expression } => Stmt::Expression {
                expression: expression.duplicate(),
            },
            Stmt::Print { expression } => Stmt::Print { expression: expression.duplicate() },
            Stmt::Var { name, initializer } => Stmt::Var {
                name: name.duplicate(),
                initializer: initializer.duplicate(),
            },
            Stmt::Block { statements } => Stmt::Block { statements: duplicate_stmts(statements) },
            Stmt::IfStmt { predicate, then, else_branch } => Stmt::IfStmt {
                predicate: predicate.duplicate(),
                then: Box::new(then.duplicate()),
                else_branch: match else_branch {
                    Some(e) => Some(Box::new(e.duplicate())),
                    None => None,
                },
            },
            Stmt::WhileStmt { condition, body } => Stmt::WhileStmt {
                condition: condition.duplicate(),
                body: Box::new(body.duplicate()),
            },
            Stmt::Function { name, params, body } => Stmt::Function {
                name: name.duplicate(),
                params: duplicate_tokens(params),
                body: duplicate_stmts(body),
            },
            Stmt::ReturnStmt { keyword, value } => Stmt::ReturnStmt {
                keyword: keyword.duplicate(),
                value: match value {
                    Some(v) => Some(v.duplicate()),
                    None => None,
                },
            },
        }
    }
}


/// Whether a statement has a text form: expression statements, `print`,
/// `var` and blocks of such statements have one.
pub open spec fn has_text(s: StmtView) -> bool
    decreases s,
{
    match s {
        StmtView::Expression { .. } => true,
        StmtView::Print { .. } => true,
        StmtView::Var { .. } => true,
        StmtView::Block { statements } => all_have_text(statements),
        _ => false,
    }
}

/// Whether every statement of `list` has a text form.
pub open spec fn all_have_text(list: Seq<StmtView>) -> bool
    decreases list,
{
    list.len() == 0 || (all_have_text(list.drop_last()) && has_text(list.last()))
}

/// In a list whose statements all have a text form, each one has.
pub proof fn lemma_all_have_text(list: Seq<StmtView>, i: int)
    requires
        all_have_text(list),
        0 <= i < list.len(),
    ensures
        has_text(list[i]),
    decreases list.len(),
{
    if i < list.len() - 1 {
        lemma_all_have_text(list.drop_last(), i);
    }
}

/// The text a statement is shown as.
pub open spec fn stmt_text(s: StmtView) -> Seq<char>
    decreases s,
{
    match s {
        StmtView::Block { statements } => "(block "@ + stmt_list_text(statements) + ")"@,
        StmtView::Expression { expression } => expr_text(expression),
        StmtView::Print { expression } => "(print "@ + expr_text(expression) + ")"@,
        StmtView::Var { name, initializer: _ } => "(var "@ + name.lexme + ")"@,
        _ => Seq::empty(),
    }
}

/// The texts of the statements of `list`, separated by commas.
pub open spec fn stmt_list_text(list: Seq<StmtView>) -> Seq<char>
    decreases list,
{
    if list.len() == 0 {
        Seq::empty()
    } else if list.len() == 1 {
        stmt_text(list[0])
    } else {
        stmt_list_text(list.drop_last()) + ","@ + stmt_text(list.last())
    }
}

/// Whether every statement of `list` has a text form.
pub fn stmts_have_text(list: &Vec<Box<Stmt>>) -> (r: bool)
    ensures
        r == all_have_text(stmt_views(list@)),
    decreases list,
{
    let mut i: usize = list.len();
    assert(stmt_views(list@).take(i as int) =~= stmt_views(list@));
    while i > 0
        invariant
            i <= list.len(),
            all_have_text(stmt_views(list@)) == all_have_text(stmt_views(list@).take(i as int)),
        decreases i,
    {
        proof {
            let here = stmt_views(list@).take(i as int);
            assert(here.drop_last() =~= stmt_views(list@).take(i - 1));
            assert(here.last() == stmt_view(*list@[i - 1]));
        }
        if !list[i - 1].has_text_form() {
            return false;
        }
        i = i - 1;
    }
    true
}

/// The texts of the statements of `list`, separated by commas.
pub fn stmt_list_to_text(list: &Vec<Box<Stmt>>) -> (r: String)
    requires
        all_have_text(stmt_views(list@)),
    ensures
        r@ == stmt_list_text(stmt_views(list@)),
    decreases list,
{
    let mut out = String::new();
    let mut i: usize = 0;
    while i < list.len()
        invariant
            i <= list.len(),
            out@ == stmt_list_text(stmt_views(list@).take(i as int)),
            all_have_text(stmt_views(list@)),
        decreases list.len() - i,
    {
        proof {
            let next = stmt_views(list@).take(i + 1);
            assert(next.drop_last() =~= stmt_views(list@).take(i as int));
            assert(next.last() == stmt_view(*list@[i as int]));
            lemma_all_have_text(stmt_views(list@), i as int);
        }
        if i > 0 {
            out.append(",");
        }
        out.append(list[i].to_text().as_str());
        i = i + 1;
        assert(out@ =~= stmt_list_text(stmt_views(list@).take(i as int)));
    }
    assert(stmt_views(list@).take(i as int) =~= stmt_views(list@));
    out
}

impl Stmt {
    /// Whether the statement has a text form.
    pub fn has_text_form(&self) -> (r: bool)
        ensures
            r == has_text(self@),
        decreases self,
    {
        match self {
            Stmt::Expression { .. } => true,
            Stmt::Print { .. } => true,
            Stmt::Var { .. } => true,
            Stmt::Block { statements } => stmts_have_text(statements),
            _ => false,
        }
    }

    /// The text the statement is shown as.
    pub fn to_text(&self) -> (r: String)
        requires
            has_text(self@),
        ensures
            r@ == stmt_text(self@),
        decreases self,
    {
        match self {
            Stmt::Block { statements } => {
                let mut s = String::from_str("(block ");
                s.append(stmt_list_to_text(statements).as_str());
                s.append(")");
                s
            },
            Stmt::Expression { expression } => expression.to_text(),
            Stmt::Print { expression } => {
                let mut s = String::from_str("(print ");
                s.append(expression.to_text().as_str());
                s.append(")");
                s
            },
            Stmt::Var { name, initializer: _ } => {
                let mut s = String::from_str("(var ");
                s.append(name.lexme.as_str());
                s.append(")");
                s
            },
            _ => String::new(),
        }
    }
}

} // verus!
