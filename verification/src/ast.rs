//! The syntax tree of Void programs, and its mathematical form.
use vstd::prelude::*;

verus! {

#[derive(Clone, Copy, Debug, PartialEq, Eq, Structural)]
pub enum BinaryOp {
    Add,
    Sub,
    Mul,
    Div,
    Eq,
    Ne,
    Lt,
    Lte,
    Gt,
    Gte,
    And,
    Or,
}

#[derive(Clone, Copy, Debug, PartialEq, Eq, Structural)]
pub enum UnaryOp {
    Neg,
    Not,
}

#[allow(inconsistent_fields)]
pub enum Expr {
    /// A number literal, as written in the source.
    Number(String),
    String(String),
    Bool(bool),
    Null,
    Var(String),
    Member { object: Box<Expr>, property: String },
    Call { callee: Box<Expr>, args: Vec<Expr> },
    Binary { left: Box<Expr>, op: BinaryOp, right: Box<Expr> },
    Unary { op: UnaryOp, expr: Box<Expr> },
    FnLiteral { params: Vec<String>, body: Vec<Stmt> },
}

pub enum Stmt {
    Use { specifier: String, alias: String },
    Let { name: String, expr: Expr },
    Assign { target: Vec<String>, expr: Expr },
    If { condition: Expr, then_branch: Vec<Stmt>, else_branch: Vec<Stmt> },
    While { condition: Expr, body: Vec<Stmt> },
    Repeat { count: Expr, body: Vec<Stmt> },
    Return(Expr),
    Expr(Expr),
}

/// The mathematical form of an expression.
#[allow(inconsistent_fields)]
pub enum ExprV {
    Number(Seq<char>),
    Str(Seq<char>),
    Bool(bool),
    Null,
    Var(Seq<char>),
    Member { object: Box<ExprV>, property: Seq<char> },
    Call { callee: Box<ExprV>, args: Seq<ExprV> },
    Binary { left: Box<ExprV>, op: BinaryOp, right: Box<ExprV> },
    Unary { op: UnaryOp, expr: Box<ExprV> },
    FnLiteral { params: Seq<Seq<char>>, body: Seq<StmtV> },
}

/// The mathematical form of a statement.
pub enum StmtV {
    Use { specifier: Seq<char>, alias: Seq<char> },
    Let { name: Seq<char>, expr: ExprV },
    Assign { target: Seq<Seq<char>>, expr: ExprV },
    If { condition: ExprV, then_branch: Seq<StmtV>, else_branch: Seq<StmtV> },
    While { condition: ExprV, body: Seq<StmtV> },
    Repeat { count: ExprV, body: Seq<StmtV> },
    Return(ExprV),
    Expr(ExprV),
}

pub open spec fn names_v(v: Seq<String>) -> Seq<Seq<char>> {
    v.map_values(|s: String| s@)
}

pub open spec fn expr_v(e: Expr) -> ExprV
    decreases e,
{
    match e {
        Expr::Number(s) => ExprV::Number(s@),
        Expr::String(s) => ExprV::Str(s@),
        Expr::Bool(b) => ExprV::Bool(b),
        Expr::Null => ExprV::Null,
        Expr::Var(s) => ExprV::Var(s@),
        Expr::Member { object, property } => ExprV::Member {
            object: Box::new(expr_v(*object)),
            property: property@,
        },
        Expr::Call { callee, args } => ExprV::Call {
            callee: Box::new(expr_v(*callee)),
            args: exprs_v(args@),
        },
        Expr::Binary { left, op, right } => ExprV::Binary {
            left: Box::new(expr_v(*left)),
            op,
            right: Box::new(expr_v(*right)),
        },
        Expr::Unary { op, expr } => ExprV::Unary { op, expr: Box::new(expr_v(*expr)) },
        Expr::FnLiteral { params, body } => ExprV::FnLiteral {
            params: names_v(params@),
            body: stmts_v(body@),
        },
    }
}

pub open spec fn exprs_v(es: Seq<Expr>) -> Seq<ExprV>
    decreases es,
{
    if es.len() == 0 {
        Seq::empty()
    } else {
        exprs_v(es.drop_last()).push(expr_v(es.last()))
    }
}

pub open spec fn stmt_v(s: Stmt) -> StmtV
    decreases s,
{
    match s {
        Stmt::Use { specifier, alias } => StmtV::Use { specifier: specifier@, alias: alias@ },
        Stmt::Let { name, expr } => StmtV::Let { name: name@, expr: expr_v(expr) },
        Stmt::Assign { target, expr } => StmtV::Assign {
            target: names_v(target@),
            expr: expr_v(expr),
        },
        Stmt::If { condition, then_branch, else_branch } => StmtV::If {
            condition: expr_v(condition),
            then_branch: stmts_v(then_branch@),
            else_branch: stmts_v(else_branch@),
        },
        Stmt::While { condition, body } => StmtV::While {
            condition: expr_v(condition),
            body: stmts_v(body@),
        },
        Stmt::Repeat { count, body } => StmtV::Repeat {
            count: expr_v(count),
            body: stmts_v(body@),
        },
        Stmt::Return(e) => StmtV::Return(expr_v(e)),
        Stmt::Expr(e) => StmtV::Expr(expr_v(e)),
    }
}

pub open spec fn stmts_v(ss: Seq<Stmt>) -> Seq<StmtV>
    decreases ss,
{
    if ss.len() == 0 {
        Seq::empty()
    } else {
        stmts_v(ss.drop_last()).push(stmt_v(ss.last()))
    }
}

impl View for Expr {
    type V = ExprV;

    open spec fn view(&self) -> ExprV {
        expr_v(*self)
    }
}

impl View for Stmt {
    type V = StmtV;

    open spec fn view(&self) -> StmtV {
        stmt_v(*self)
    }
}

} // verus!
