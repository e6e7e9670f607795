//! The Void parser: a token stream to a list of statements, by recursive descent.
//!
//! The grammar is stated below as spec functions over the token view. Each of
//! them answers, for a start position `p`, either an error message or a value
//! together with `k`, where the value was read from the `k + 1` tokens that
//! start at `p`: a construct that parses always takes at least one token.
use vstd::prelude::*;

use crate::ast::{
    exprs_v, names_v, stmts_v, BinaryOp, Expr, ExprV, Stmt, StmtV, UnaryOp,
};
use crate::lexer::{tok, toks, Kind, Tok, Token, TokenKind};
use crate::text::{decimal, push_decimal};

verus! {

/// A value read from `k + 1` tokens, or an error message.
pub type Parsed<T> = Result<(T, nat), Seq<char>>;

// ---------------------------------------------------------------------------
// Looking at tokens
// ---------------------------------------------------------------------------

pub open spec fn kind_at(t: Seq<Tok>, p: nat) -> Option<Kind> {
    if p < t.len() {
        Some(t[p as int].kind)
    } else {
        None
    }
}

pub open spec fn at(t: Seq<Tok>, p: nat, k: Kind) -> bool {
    kind_at(t, p) == Some(k)
}

pub open spec fn at_eof(t: Seq<Tok>, p: nat) -> bool {
    kind_at(t, p) is None || at(t, p, Kind::Eof)
}

/// The line reported in an error at `p`: that of the token there, else that
/// of the last token, else 0.
pub open spec fn line_at(t: Seq<Tok>, p: nat) -> nat {
    if p < t.len() {
        t[p as int].line
    } else if t.len() > 0 {
        t.last().line
    } else {
        0
    }
}

pub open spec fn err_at(t: Seq<Tok>, p: nat, msg: Seq<char>) -> Seq<char> {
    msg + " at line "@ + decimal(line_at(t, p))
}

/// The number of semicolons that start at `p`.
pub open spec fn semis(t: Seq<Tok>, p: nat) -> nat
    decreases t.len() - p,
{
    if at(t, p, Kind::Semicolon) {
        semis(t, p + 1) + 1
    } else {
        0
    }
}

/// A position from which no progress can be made any more counts as zero.
pub open spec fn room(t: Seq<Tok>, p: nat) -> int {
    if p < t.len() {
        t.len() - p
    } else {
        0
    }
}

/// `looks_like_assignment` from the dot chain that follows the first name.
pub open spec fn assign_ahead(t: Seq<Tok>, i: nat) -> bool
    decreases t.len() - i,
{
    if at(t, i, Kind::Dot) {
        if kind_at(t, i + 1) matches Some(Kind::Ident(_)) {
            assign_ahead(t, i + 2)
        } else {
            false
        }
    } else {
        at(t, i, Kind::Equal)
    }
}

/// Whether the statement at `p` is an assignment `a.b.c = ...`.
pub open spec fn looks_like_assignment(t: Seq<Tok>, p: nat) -> bool {
    kind_at(t, p) matches Some(Kind::Ident(_)) && assign_ahead(t, p + 1)
}

// ---------------------------------------------------------------------------
// Single tokens
// ---------------------------------------------------------------------------

pub open spec fn ident(t: Seq<Tok>, p: nat) -> Result<Seq<char>, Seq<char>> {
    match kind_at(t, p) {
        Some(Kind::Ident(name)) => Ok(name),
        _ => Err(err_at(t, p, "Expected identifier"@)),
    }
}

pub open spec fn string_lit(t: Seq<Tok>, p: nat) -> Result<Seq<char>, Seq<char>> {
    match kind_at(t, p) {
        Some(Kind::Str(s)) => Ok(s),
        _ => Err(err_at(t, p, "Expected string"@)),
    }
}

/// The dotted names `a.b.c` of an assignment target, from the name at `p`.
pub open spec fn dotted(t: Seq<Tok>, p: nat, acc: Seq<Seq<char>>) -> Parsed<Seq<Seq<char>>>
    decreases t.len() - p,
{
    match ident(t, p) {
        Err(e) => Err(e),
        Ok(name) => if at(t, p + 1, Kind::Dot) {
            match dotted(t, p + 2, acc.push(name)) {
                Ok((names, k)) => Ok((names, k + 2)),
                Err(e) => Err(e),
            }
        } else {
            Ok((acc.push(name), 0))
        },
    }
}

/// The parameter names of a function literal, from the first one at `p`.
pub open spec fn params(t: Seq<Tok>, p: nat, acc: Seq<Seq<char>>) -> Parsed<Seq<Seq<char>>>
    decreases t.len() - p,
{
    match ident(t, p) {
        Err(e) => Err(e),
        Ok(name) => if at(t, p + 1, Kind::Comma) {
            match params(t, p + 2, acc.push(name)) {
                Ok((names, k)) => Ok((names, k + 2)),
                Err(e) => Err(e),
            }
        } else {
            Ok((acc.push(name), 0))
        },
    }
}

pub open spec fn binary(left: ExprV, op: BinaryOp, right: ExprV) -> ExprV {
    ExprV::Binary { left: Box::new(left), op, right: Box::new(right) }
}

/// The operator that continues an expression at precedence `level`:
/// 0 is `||`, 1 is `&&`, 2 is equality, 3 is comparison, 4 is `+ -`, 5 is `* /`.
pub open spec fn level_op(level: nat, k: Kind) -> Option<BinaryOp> {
    if level == 0 {
        if k == Kind::OrOr { Some(BinaryOp::Or) } else { None }
    } else if level == 1 {
        if k == Kind::AndAnd { Some(BinaryOp::And) } else { None }
    } else if level == 2 {
        if k == Kind::EqualEqual {
            Some(BinaryOp::Eq)
        } else if k == Kind::BangEqual {
            Some(BinaryOp::Ne)
        } else {
            None
        }
    } else if level == 3 {
        if k == Kind::Less {
            Some(BinaryOp::Lt)
        } else if k == Kind::LessEqual {
            Some(BinaryOp::Lte)
        } else if k == Kind::Greater {
            Some(BinaryOp::Gt)
        } else if k == Kind::GreaterEqual {
            Some(BinaryOp::Gte)
        } else {
            None
        }
    } else if level == 4 {
        if k == Kind::Plus {
            Some(BinaryOp::Add)
        } else if k == Kind::Minus {
            Some(BinaryOp::Sub)
        } else {
            None
        }
    } else {
        if k == Kind::Star {
            Some(BinaryOp::Mul)
        } else if k == Kind::Slash {
            Some(BinaryOp::Div)
        } else {
            None
        }
    }
}

pub open spec fn op_at(t: Seq<Tok>, p: nat, level: nat) -> Option<BinaryOp> {
    match kind_at(t, p) {
        Some(k) => level_op(level, k),
        None => None,
    }
}

// ---------------------------------------------------------------------------
// The grammar
// ---------------------------------------------------------------------------

/// The statements of a block body from `p` up to its `}`: the answer holds the
/// statements and the offset `d` of the `}` from `p`.
pub open spec fn items(t: Seq<Tok>, p: nat, acc: Seq<StmtV>) -> Parsed<Seq<StmtV>>
    decreases room(t, p), 41nat,
{
    let q = p + semis(t, p);
    if at(t, q, Kind::RBrace) {
        Ok((acc, semis(t, p)))
    } else if at_eof(t, q) {
        Err(err_at(t, q, "Unterminated block"@))
    } else {
        match stmt(t, q) {
            Err(e) => Err(e),
            Ok((s, k)) => match items(t, q + k + 1, acc.push(s)) {
                Err(e) => Err(e),
                Ok((ss, d)) => Ok((ss, semis(t, p) + k + 1 + d)),
            },
        }
    }
}

/// `{ statements }`.
pub open spec fn block(t: Seq<Tok>, p: nat) -> Parsed<Seq<StmtV>>
    decreases room(t, p), 0nat,
{
    if at(t, p, Kind::LBrace) {
        match items(t, p + 1, Seq::empty()) {
            Err(e) => Err(e),
            Ok((ss, d)) => Ok((ss, d + 1)),
        }
    } else {
        Err(err_at(t, p, "Expected '{'"@))
    }
}

/// A statement.
pub open spec fn stmt(t: Seq<Tok>, p: nat) -> Parsed<StmtV>
    decreases room(t, p), 40nat,
{
    if at(t, p, Kind::Use) {
        match string_lit(t, p + 1) {
            Err(e) => Err(e),
            Ok(specifier) => if !at(t, p + 2, Kind::As) {
                Err(err_at(t, p + 2, "Expected 'as'"@))
            } else {
                match ident(t, p + 3) {
                    Err(e) => Err(e),
                    Ok(alias) => Ok((StmtV::Use { specifier, alias }, 3)),
                }
            },
        }
    } else if at(t, p, Kind::Let) {
        match ident(t, p + 1) {
            Err(e) => Err(e),
            Ok(name) => if !at(t, p + 2, Kind::Equal) {
                Err(err_at(t, p + 2, "Expected '='"@))
            } else {
                match expr(t, p + 3) {
                    Err(e) => Err(e),
                    Ok((e, k)) => Ok((StmtV::Let { name, expr: e }, k + 3)),
                }
            },
        }
    } else if at(t, p, Kind::If) {
        if_stmt(t, p)
    } else if at(t, p, Kind::While) || at(t, p, Kind::Repeat) {
        match expr(t, p + 1) {
            Err(e) => Err(e),
            Ok((c, k1)) => match block(t, p + k1 + 2) {
                Err(e) => Err(e),
                Ok((body, k2)) => if at(t, p, Kind::While) {
                    Ok((StmtV::While { condition: c, body }, k1 + k2 + 2))
                } else {
                    Ok((StmtV::Repeat { count: c, body }, k1 + k2 + 2))
                },
            },
        }
    } else if at(t, p, Kind::Return) {
        if at(t, p + 1, Kind::Semicolon) || at(t, p + 1, Kind::RBrace) {
            Ok((StmtV::Return(ExprV::Null), 0))
        } else {
            match expr(t, p + 1) {
                Err(e) => Err(e),
                Ok((e, k)) => Ok((StmtV::Return(e), k + 1)),
            }
        }
    } else if looks_like_assignment(t, p) {
        match dotted(t, p, Seq::empty()) {
            Err(e) => Err(e),
            Ok((target, k1)) => if !at(t, p + k1 + 1, Kind::Equal) {
                Err(err_at(t, p + k1 + 1, "Expected '='"@))
            } else {
                match expr(t, p + k1 + 2) {
                    Err(e) => Err(e),
                    Ok((e, k2)) => Ok((StmtV::Assign { target, expr: e }, k1 + k2 + 2)),
                }
            },
        }
    } else {
        match expr(t, p) {
            Err(e) => Err(e),
            Ok((e, k)) => Ok((StmtV::Expr(e), k)),
        }
    }
}

/// `if cond { ... }`, optionally followed by `else { ... }` or `else if ...`.
pub open spec fn if_stmt(t: Seq<Tok>, p: nat) -> Parsed<StmtV>
    decreases room(t, p), 39nat,
{
    if !at(t, p, Kind::If) {
        Err(err_at(t, p, "Expected 'if'"@))
    } else {
        match expr(t, p + 1) {
            Err(e) => Err(e),
            Ok((c, k1)) => match block(t, p + k1 + 2) {
                Err(e) => Err(e),
                Ok((then_branch, k2)) => {
                    let r = p + k1 + k2 + 3;
                    if !at(t, r, Kind::Else) {
                        Ok(
                            (
                                StmtV::If { condition: c, then_branch, else_branch: Seq::empty() },
                                k1 + k2 + 2,
                            ),
                        )
                    } else if at(t, r + 1, Kind::If) {
                        match if_stmt(t, r + 1) {
                            Err(e) => Err(e),
                            Ok((s, k3)) => Ok(
                                (
                                    StmtV::If { condition: c, then_branch, else_branch: seq![s] },
                                    k1 + k2 + k3 + 4,
                                ),
                            ),
                        }
                    } else {
                        match block(t, r + 1) {
                            Err(e) => Err(e),
                            Ok((else_branch, k3)) => Ok(
                                (StmtV::If { condition: c, then_branch, else_branch }, k1 + k2 + k3
                                    + 4),
                            ),
                        }
                    }
                },
            },
        }
    }
}

/// An expression: the loosest level, `||`.
pub open spec fn expr(t: Seq<Tok>, p: nat) -> Parsed<ExprV>
    decreases room(t, p), 31nat,
{
    level(t, p, 0)
}

/// The operands of the binary level `n` (0 to 5) are those of level `n + 1`,
/// and those of level 5 are unary expressions.
pub open spec fn level(t: Seq<Tok>, p: nat, n: nat) -> Parsed<ExprV>
    decreases room(t, p), if n <= 5 { 30 - 2 * n } else { 20 },
{
    if n > 5 {
        unary(t, p)
    } else {
        match operand(t, p, n) {
            Err(e) => Err(e),
            Ok((left, k)) => match level_tail(t, p + k + 1, n, left) {
                Err(e) => Err(e),
                Ok((e, d)) => Ok((e, k + d)),
            },
        }
    }
}

/// An operand of level `n`.
pub open spec fn operand(t: Seq<Tok>, p: nat, n: nat) -> Parsed<ExprV>
    decreases room(t, p), if n <= 5 { 29 - 2 * n } else { 19 },
{
    if n >= 5 {
        unary(t, p)
    } else {
        level(t, p, n + 1)
    }
}

/// Continues the left operand `left` of level `n` with the operators at `p`;
/// the count is that of the tokens read here (possibly none).
pub open spec fn level_tail(t: Seq<Tok>, p: nat, n: nat, left: ExprV) -> Result<
    (ExprV, nat),
    Seq<char>,
>
    decreases room(t, p), 0nat,
{
    match op_at(t, p, n) {
        None => Ok((left, 0)),
        Some(op) => match operand(t, p + 1, n) {
            Err(e) => Err(e),
            Ok((right, k)) => match level_tail(t, p + k + 2, n, binary(left, op, right)) {
                Err(e) => Err(e),
                Ok((e, d)) => Ok((e, k + 2 + d)),
            },
        },
    }
}

/// `-x`, `!x`, or a postfix expression.
pub open spec fn unary(t: Seq<Tok>, p: nat) -> Parsed<ExprV>
    decreases room(t, p), 11nat,
{
    if at(t, p, Kind::Minus) || at(t, p, Kind::Bang) {
        match unary(t, p + 1) {
            Err(e) => Err(e),
            Ok((e, k)) => Ok(
                (
                    ExprV::Unary {
                        op: if at(t, p, Kind::Minus) { UnaryOp::Neg } else { UnaryOp::Not },
                        expr: Box::new(e),
                    },
                    k + 1,
                ),
            ),
        }
    } else {
        postfix(t, p)
    }
}

/// A primary expression followed by calls and member accesses.
pub open spec fn postfix(t: Seq<Tok>, p: nat) -> Parsed<ExprV>
    decreases room(t, p), 10nat,
{
    match primary(t, p) {
        Err(e) => Err(e),
        Ok((e, k)) => match postfix_tail(t, p + k + 1, e) {
            Err(e) => Err(e),
            Ok((e, d)) => Ok((e, k + d)),
        },
    }
}

/// The argument list `( ... )` of a call, from its `(` at `p`.
pub open spec fn call_args(t: Seq<Tok>, p: nat) -> Parsed<Seq<ExprV>>
    decreases room(t, p), 1nat,
{
    if !at(t, p, Kind::LParen) {
        Err(err_at(t, p, "Expected '('"@))
    } else if at(t, p + 1, Kind::RParen) {
        Ok((Seq::empty(), 1))
    } else {
        match args(t, p + 1, Seq::empty()) {
            Err(e) => Err(e),
            Ok((a, k)) => if !at(t, p + k + 2, Kind::RParen) {
                Err(err_at(t, p + k + 2, "Expected ')'"@))
            } else {
                Ok((a, k + 2))
            },
        }
    }
}

/// Calls `f(args)` and members `x.name` after the expression `e`; the count is
/// that of the tokens read here (possibly none).
pub open spec fn postfix_tail(t: Seq<Tok>, p: nat, e: ExprV) -> Result<(ExprV, nat), Seq<char>>
    decreases room(t, p), 2nat,
{
    if at(t, p, Kind::LParen) {
        match call_args(t, p) {
            Err(e) => Err(e),
            Ok((a, k)) => shift(
                postfix_tail(t, p + k + 1, ExprV::Call { callee: Box::new(e), args: a }),
                k + 1,
            ),
        }
    } else if at(t, p, Kind::Dot) {
        match ident(t, p + 1) {
            Err(e) => Err(e),
            Ok(name) => shift(
                postfix_tail(t, p + 2, ExprV::Member { object: Box::new(e), property: name }),
                2,
            ),
        }
    } else {
        Ok((e, 0))
    }
}

/// A comma-separated list of call arguments, from the first one at `p`.
pub open spec fn args(t: Seq<Tok>, p: nat, acc: Seq<ExprV>) -> Parsed<Seq<ExprV>>
    decreases room(t, p), 35nat,
{
    match expr(t, p) {
        Err(e) => Err(e),
        Ok((a, k)) => if at(t, p + k + 1, Kind::Comma) {
            match args(t, p + k + 2, acc.push(a)) {
                Err(e) => Err(e),
                Ok((all, k2)) => Ok((all, k + k2 + 2)),
            }
        } else {
            Ok((acc.push(a), k))
        },
    }
}

/// Literals, names, function literals and parenthesized expressions.
pub open spec fn primary(t: Seq<Tok>, p: nat) -> Parsed<ExprV>
    decreases room(t, p), 9nat,
{
    match kind_at(t, p) {
        Some(Kind::Number(n)) => Ok((ExprV::Number(n), 0)),
        Some(Kind::Str(s)) => Ok((ExprV::Str(s), 0)),
        Some(Kind::True) => Ok((ExprV::Bool(true), 0)),
        Some(Kind::False) => Ok((ExprV::Bool(false), 0)),
        Some(Kind::Null) => Ok((ExprV::Null, 0)),
        Some(Kind::Ident(name)) => Ok((ExprV::Var(name), 0)),
        Some(Kind::Fn) => fn_literal(t, p),
        Some(Kind::LParen) => match expr(t, p + 1) {
            Err(e) => Err(e),
            Ok((e, k)) => if !at(t, p + k + 2, Kind::RParen) {
                Err(err_at(t, p + k + 2, "Expected ')'"@))
            } else {
                Ok((e, k + 2))
            },
        },
        _ => Err(err_at(t, p, "Expected expression"@)),
    }
}

/// The parameter list `( ... )` of a function literal, from its `(` at `p`.
pub open spec fn param_list(t: Seq<Tok>, p: nat) -> Parsed<Seq<Seq<char>>> {
    if !at(t, p, Kind::LParen) {
        Err(err_at(t, p, "Expected '('"@))
    } else if at(t, p + 1, Kind::RParen) {
        Ok((Seq::empty(), 1))
    } else {
        match params(t, p + 1, Seq::empty()) {
            Err(e) => Err(e),
            Ok((ps, k)) => if !at(t, p + k + 2, Kind::RParen) {
                Err(err_at(t, p + k + 2, "Expected ')'"@))
            } else {
                Ok((ps, k + 2))
            },
        }
    }
}

/// `fn(params) { body }`.
pub open spec fn fn_literal(t: Seq<Tok>, p: nat) -> Parsed<ExprV>
    decreases room(t, p), 8nat,
{
    if !at(t, p, Kind::Fn) {
        Err(err_at(t, p, "Expected 'fn'"@))
    } else {
        match param_list(t, p + 1) {
            Err(e) => Err(e),
            Ok((ps, k1)) => match block(t, p + k1 + 2) {
                Err(e) => Err(e),
                Ok((body, k2)) => Ok((ExprV::FnLiteral { params: ps, body }, k1 + k2 + 2)),
            },
        }
    }
}

/// The statements of a whole program from `p`, after those in `acc`.
pub open spec fn program_from(t: Seq<Tok>, p: nat, acc: Seq<StmtV>) -> Result<
    Seq<StmtV>,
    Seq<char>,
>
    decreases room(t, p),
{
    if at_eof(t, p) {
        Ok(acc)
    } else {
        let q = p + semis(t, p);
        if at_eof(t, q) {
            Ok(acc)
        } else {
            match stmt(t, q) {
                Err(e) => Err(e),
                Ok((s, k)) => program_from(t, q + k + 1, acc.push(s)),
            }
        }
    }
}

pub open spec fn program(t: Seq<Tok>) -> Result<Seq<StmtV>, Seq<char>> {
    program_from(t, 0, Seq::empty())
}


/// `r` with `n` more tokens counted.
pub open spec fn shift<T>(r: Parsed<T>, n: nat) -> Parsed<T> {
    match r {
        Ok((v, k)) => Ok((v, k + n)),
        Err(e) => Err(e),
    }
}

pub proof fn lemma_semis(t: Seq<Tok>, p: nat)
    ensures
        !at(t, p + semis(t, p), Kind::Semicolon),
        p + semis(t, p) <= t.len() || semis(t, p) == 0,
    decreases t.len() - p,
{
    if at(t, p, Kind::Semicolon) {
        lemma_semis(t, p + 1);
    }
}

pub proof fn lemma_items_skip(t: Seq<Tok>, p: nat, acc: Seq<StmtV>)
    ensures
        items(t, p, acc) == shift(items(t, p + semis(t, p), acc), semis(t, p)),
{
    lemma_semis(t, p);
    let q = p + semis(t, p);
    assert(semis(t, q) == 0);
}

pub proof fn lemma_program_skip(t: Seq<Tok>, p: nat, acc: Seq<StmtV>)
    ensures
        program_from(t, p, acc) == program_from(t, p + semis(t, p), acc),
{
    lemma_semis(t, p);
    let q = p + semis(t, p);
    assert(semis(t, q) == 0);
    if at_eof(t, p) {
        assert(semis(t, p) == 0);
    }
}

// ---------------------------------------------------------------------------
// How an answer of the exec parser relates to the grammar
// ---------------------------------------------------------------------------

pub open spec fn expr_ok(r: Result<Expr, String>, s: Parsed<ExprV>, p0: nat, p1: nat) -> bool {
    match r {
        Ok(e) => p0 < p1 && s == Ok::<(ExprV, nat), Seq<char>>((e@, (p1 - p0 - 1) as nat)),
        Err(m) => s == Err::<(ExprV, nat), Seq<char>>(m@),
    }
}

pub open spec fn stmt_ok(r: Result<Stmt, String>, s: Parsed<StmtV>, p0: nat, p1: nat) -> bool {
    match r {
        Ok(x) => p0 < p1 && s == Ok::<(StmtV, nat), Seq<char>>((x@, (p1 - p0 - 1) as nat)),
        Err(m) => s == Err::<(StmtV, nat), Seq<char>>(m@),
    }
}

pub open spec fn block_ok(r: Result<Vec<Stmt>, String>, s: Parsed<Seq<StmtV>>, p0: nat, p1: nat) -> bool {
    match r {
        Ok(x) => p0 < p1 && s == Ok::<(Seq<StmtV>, nat), Seq<char>>(
            (stmts_v(x@), (p1 - p0 - 1) as nat),
        ),
        Err(m) => s == Err::<(Seq<StmtV>, nat), Seq<char>>(m@),
    }
}

pub proof fn lemma_stmts_push(v: Seq<Stmt>, x: Stmt)
    ensures
        stmts_v(v.push(x)) == stmts_v(v).push(x@),
{
    assert(v.push(x).drop_last() == v);
}

pub proof fn lemma_exprs_push(v: Seq<Expr>, x: Expr)
    ensures
        exprs_v(v.push(x)) == exprs_v(v).push(x@),
{
    assert(v.push(x).drop_last() == v);
}

pub proof fn lemma_names_push(v: Seq<String>, x: String)
    ensures
        names_v(v.push(x)) == names_v(v).push(x@),
{
    assert(names_v(v.push(x)) =~= names_v(v).push(x@));
}


pub open spec fn args_ok(r: Result<Vec<Expr>, String>, s: Parsed<Seq<ExprV>>, p0: nat, p1: nat) -> bool {
    match r {
        Ok(x) => p0 < p1 && s == Ok::<(Seq<ExprV>, nat), Seq<char>>(
            (exprs_v(x@), (p1 - p0 - 1) as nat),
        ),
        Err(m) => s == Err::<(Seq<ExprV>, nat), Seq<char>>(m@),
    }
}

pub open spec fn names_ok(
    r: Result<Vec<String>, String>,
    s: Parsed<Seq<Seq<char>>>,
    p0: nat,
    p1: nat,
) -> bool {
    match r {
        Ok(x) => p0 < p1 && s == Ok::<(Seq<Seq<char>>, nat), Seq<char>>(
            (names_v(x@), (p1 - p0 - 1) as nat),
        ),
        Err(m) => s == Err::<(Seq<Seq<char>>, nat), Seq<char>>(m@),
    }
}

/// What is left of an assignment target once the name before `i` is read; the
/// count is that of the tokens read from `i` (possibly none).
pub open spec fn dotted_rest(t: Seq<Tok>, i: nat, acc: Seq<Seq<char>>) -> Parsed<Seq<Seq<char>>> {
    if at(t, i, Kind::Dot) {
        shift(dotted(t, i + 1, acc), 2)
    } else {
        Ok((acc, 0))
    }
}

// ---------------------------------------------------------------------------
// The parser
// ---------------------------------------------------------------------------

pub struct Parser {
    tokens: Vec<Token>,
    pos: usize,
}

impl Parser {
    /// The tokens being parsed, as values.
    pub closed spec fn tokens_view(&self) -> Seq<Tok> {
        toks(self.tokens@)
    }

    /// The index of the next token to read.
    pub closed spec fn position(&self) -> nat {
        self.pos as nat
    }

    pub closed spec fn wf(&self) -> bool {
        self.pos <= self.tokens@.len() <= usize::MAX
    }

    /// `next` reads the same tokens as `self`, and is well formed.
    pub closed spec fn keeps(self, next: Parser) -> bool {
        next.tokens@ == self.tokens@ && next.wf()
    }

    pub fn new(tokens: Vec<Token>) -> (p: Self)
        ensures
            p.wf(),
            p.tokens_view() == toks(tokens@),
            p.position() == 0,
    {
        let _ = tokens.len();
        Self { tokens, pos: 0 }
    }

    fn current_kind(&self) -> (r: Option<&TokenKind>)
        requires
            self.wf(),
        ensures
            match r {
                Some(k) => kind_at(self.tokens_view(), self.pos as nat) == Some(k@),
                None => kind_at(self.tokens_view(), self.pos as nat) is None,
            },
    {
        if self.pos < self.tokens.len() {
            Some(&self.tokens[self.pos].kind)
        } else {
            None
        }
    }

    fn kind_after(&self, n: usize) -> (r: Option<&TokenKind>)
        requires
            self.wf(),
            n <= 2,
        ensures
            match r {
                Some(k) => kind_at(self.tokens_view(), (self.pos + n) as nat) == Some(k@),
                None => kind_at(self.tokens_view(), (self.pos + n) as nat) is None,
            },
    {
        if n < self.tokens.len() - self.pos {
            Some(&self.tokens[self.pos + n].kind)
        } else {
            None
        }
    }

    fn current_line(&self) -> (r: usize)
        requires
            self.wf(),
        ensures
            r as nat == line_at(self.tokens_view(), self.pos as nat),
    {
        if self.pos < self.tokens.len() {
            self.tokens[self.pos].line
        } else if self.tokens.len() > 0 {
            self.tokens[self.tokens.len() - 1].line
        } else {
            0
        }
    }

    fn error_here(&self, message: &str) -> (r: String)
        requires
            self.wf(),
        ensures
            r@ == err_at(self.tokens_view(), self.pos as nat, message@),
    {
        let mut out = String::from_str(message);
        out.append(" at line ");
        push_decimal(&mut out, self.current_line() as u128);
        out
    }

    fn is_eof(&self) -> (b: bool)
        requires
            self.wf(),
        ensures
            b == at_eof(self.tokens_view(), self.pos as nat),
    {
        match self.current_kind() {
            None => true,
            Some(TokenKind::Eof) => true,
            _ => false,
        }
    }

    /// Moves past the current token when `ok`; otherwise reports `message` here.
    fn expect(&mut self, ok: bool, message: &str) -> (r: Result<(), String>)
        requires
            old(self).wf(),
            ok ==> old(self).pos < old(self).tokens@.len(),
        ensures
            old(self).keeps(*final(self)),
            match r {
                Ok(_) => ok && final(self).pos == old(self).pos + 1,
                Err(m) => !ok && final(self).pos == old(self).pos && m@ == err_at(
                    old(self).tokens_view(),
                    old(self).pos as nat,
                    message@,
                ),
            },
    {
        if ok {
            self.pos = self.pos + 1;
            Ok(())
        } else {
            Err(self.error_here(message))
        }
    }

    fn skip_semicolons(&mut self)
        requires
            old(self).wf(),
        ensures
            old(self).keeps(*final(self)),
            final(self).pos == old(self).pos + semis(old(self).tokens_view(), old(self).pos as nat),
    {
        let ghost t = self.tokens_view();
        let ghost p0 = self.pos as nat;
        while matches!(self.current_kind(), Some(TokenKind::Semicolon))
            invariant
                self.wf(),
                self.tokens@ == old(self).tokens@,
                t == self.tokens_view(),
                p0 == old(self).pos,
                p0 <= self.pos,
                semis(t, p0) == (self.pos - p0) + semis(t, self.pos as nat),
            decreases self.tokens@.len() - self.pos,
        {
            self.pos = self.pos + 1;
        }
    }

    fn consume_ident(&mut self) -> (r: Result<String, String>)
        requires
            old(self).wf(),
        ensures
            old(self).keeps(*final(self)),
            match r {
                Ok(n) => ident(old(self).tokens_view(), old(self).pos as nat) == Ok::<
                    Seq<char>,
                    Seq<char>,
                >(n@) && final(self).pos == old(self).pos + 1,
                Err(m) => ident(old(self).tokens_view(), old(self).pos as nat) == Err::<
                    Seq<char>,
                    Seq<char>,
                >(m@) && final(self).pos == old(self).pos,
            },
    {
        let out = match self.current_kind() {
            Some(TokenKind::Ident(name)) => Some(name.clone()),
            _ => None,
        };
        match out {
            Some(name) => {
                self.pos = self.pos + 1;
                Ok(name)
            },
            None => Err(self.error_here("Expected identifier")),
        }
    }

    fn consume_string(&mut self) -> (r: Result<String, String>)
        requires
            old(self).wf(),
        ensures
            old(self).keeps(*final(self)),
            match r {
                Ok(n) => string_lit(old(self).tokens_view(), old(self).pos as nat) == Ok::<
                    Seq<char>,
                    Seq<char>,
                >(n@) && final(self).pos == old(self).pos + 1,
                Err(m) => string_lit(old(self).tokens_view(), old(self).pos as nat) == Err::<
                    Seq<char>,
                    Seq<char>,
                >(m@) && final(self).pos == old(self).pos,
            },
    {
        let out = match self.current_kind() {
            Some(TokenKind::String(s)) => Some(s.clone()),
            _ => None,
        };
        match out {
            Some(s) => {
                self.pos = self.pos + 1;
                Ok(s)
            },
            None => Err(self.error_here("Expected string")),
        }
    }

    fn level_op_here(&self, n: usize) -> (r: Option<BinaryOp>)
        requires
            self.wf(),
        ensures
            r == op_at(self.tokens_view(), self.pos as nat, n as nat),
    {
        let k = self.current_kind();
        if n == 0 {
            if matches!(k, Some(TokenKind::OrOr)) {
                Some(BinaryOp::Or)
            } else {
                None
            }
        } else if n == 1 {
            if matches!(k, Some(TokenKind::AndAnd)) {
                Some(BinaryOp::And)
            } else {
                None
            }
        } else if n == 2 {
            if matches!(k, Some(TokenKind::EqualEqual)) {
                Some(BinaryOp::Eq)
            } else if matches!(k, Some(TokenKind::BangEqual)) {
                Some(BinaryOp::Ne)
            } else {
                None
            }
        } else if n == 3 {
            if matches!(k, Some(TokenKind::Less)) {
                Some(BinaryOp::Lt)
            } else if matches!(k, Some(TokenKind::LessEqual)) {
                Some(BinaryOp::Lte)
            } else if matches!(k, Some(TokenKind::Greater)) {
                Some(BinaryOp::Gt)
            } else if matches!(k, Some(TokenKind::GreaterEqual)) {
                Some(BinaryOp::Gte)
            } else {
                None
            }
        } else if n == 4 {
            if matches!(k, Some(TokenKind::Plus)) {
                Some(BinaryOp::Add)
            } else if matches!(k, Some(TokenKind::Minus)) {
                Some(BinaryOp::Sub)
            } else {
                None
            }
        } else {
            if matches!(k, Some(TokenKind::Star)) {
                Some(BinaryOp::Mul)
            } else if matches!(k, Some(TokenKind::Slash)) {
                Some(BinaryOp::Div)
            } else {
                None
            }
        }
    }

    fn parse_expr(&mut self) -> (r: Result<Expr, String>)
        requires
            old(self).wf(),
        ensures
            old(self).keeps(*final(self)),
            expr_ok(
                r,
                expr(old(self).tokens_view(), old(self).pos as nat),
                old(self).pos as nat,
                final(self).pos as nat,
            ),
        decreases old(self).tokens@.len() - old(self).pos, 31nat,
    {
        self.parse_level(0)
    }

    /// Binary operators of level `n` and tighter: `||`, `&&`, `== !=`,
    /// `< <= > >=`, `+ -` and `* /`, each left-associative.
    fn parse_level(&mut self, n: usize) -> (r: Result<Expr, String>)
        requires
            old(self).wf(),
            n <= 5,
        ensures
            old(self).keeps(*final(self)),
            expr_ok(
                r,
                level(old(self).tokens_view(), old(self).pos as nat, n as nat),
                old(self).pos as nat,
                final(self).pos as nat,
            ),
        decreases old(self).tokens@.len() - old(self).pos, 30 - 2 * n,
    {
        let ghost t = self.tokens_view();
        let ghost p0 = self.pos as nat;
        let mut expr = match self.parse_operand(n) {
            Ok(e) => e,
            Err(m) => return Err(m),
        };
        loop
            invariant
                self.wf(),
                self.tokens@ == old(self).tokens@,
                t == self.tokens_view(),
                p0 == old(self).pos,
                p0 < self.pos,
                n <= 5,
                level(t, p0, n as nat) == shift(
                    level_tail(t, self.pos as nat, n as nat, expr@),
                    (self.pos - p0 - 1) as nat,
                ),
            decreases self.tokens@.len() - self.pos,
        {
            let op = match self.level_op_here(n) {
                Some(op) => op,
                None => return Ok(expr),
            };
            let ghost q = self.pos as nat;
            self.pos = self.pos + 1;
            let right = match self.parse_operand(n) {
                Ok(e) => e,
                Err(m) => return Err(m),
            };
            let ghost left = expr@;
            expr = Expr::Binary { left: Box::new(expr), op, right: Box::new(right) };
            assert(expr@ == binary(left, op, right@));
        }
    }

    fn parse_operand(&mut self, n: usize) -> (r: Result<Expr, String>)
        requires
            old(self).wf(),
            n <= 5,
        ensures
            old(self).keeps(*final(self)),
            expr_ok(
                r,
                operand(old(self).tokens_view(), old(self).pos as nat, n as nat),
                old(self).pos as nat,
                final(self).pos as nat,
            ),
        decreases old(self).tokens@.len() - old(self).pos, 29 - 2 * n,
    {
        if n >= 5 {
            self.parse_unary()
        } else {
            self.parse_level(n + 1)
        }
    }

    fn parse_unary(&mut self) -> (r: Result<Expr, String>)
        requires
            old(self).wf(),
        ensures
            old(self).keeps(*final(self)),
            expr_ok(
                r,
                unary(old(self).tokens_view(), old(self).pos as nat),
                old(self).pos as nat,
                final(self).pos as nat,
            ),
        decreases old(self).tokens@.len() - old(self).pos, 11nat,
    {
        let neg = matches!(self.current_kind(), Some(TokenKind::Minus));
        let not = matches!(self.current_kind(), Some(TokenKind::Bang));
        if neg || not {
            self.pos = self.pos + 1;
            let inner = match self.parse_unary() {
                Ok(e) => e,
                Err(m) => return Err(m),
            };
            let op = if neg {
                UnaryOp::Neg
            } else {
                UnaryOp::Not
            };
            Ok(Expr::Unary { op, expr: Box::new(inner) })
        } else {
            self.parse_postfix()
        }
    }

    #[verifier::rlimit(100)]
    fn parse_postfix(&mut self) -> (r: Result<Expr, String>)
        requires
            old(self).wf(),
        ensures
            old(self).keeps(*final(self)),
            expr_ok(
                r,
                postfix(old(self).tokens_view(), old(self).pos as nat),
                old(self).pos as nat,
                final(self).pos as nat,
            ),
        decreases old(self).tokens@.len() - old(self).pos, 10nat,
    {
        let ghost t = self.tokens_view();
        let ghost p0 = self.pos as nat;
        let mut expr = match self.parse_primary() {
            Ok(e) => e,
            Err(m) => return Err(m),
        };
        loop
            invariant
                self.wf(),
                self.tokens@ == old(self).tokens@,
                t == self.tokens_view(),
                p0 == old(self).pos,
                p0 < self.pos,
                postfix(t, p0) == shift(
                    postfix_tail(t, self.pos as nat, expr@),
                    (self.pos - p0 - 1) as nat,
                ),
            decreases self.tokens@.len() - self.pos,
        {
            let ghost q = self.pos as nat;
            if matches!(self.current_kind(), Some(TokenKind::LParen)) {
                let args = match self.parse_call() {
                    Ok(a) => a,
                    Err(m) => return Err(m),
                };
                let ghost callee = expr@;
                expr = Expr::Call { callee: Box::new(expr), args };
                assert(expr@ == ExprV::Call { callee: Box::new(callee), args: exprs_v(args@) });
            } else if matches!(self.current_kind(), Some(TokenKind::Dot)) {
                self.pos = self.pos + 1;
                let property = match self.consume_ident() {
                    Ok(name) => name,
                    Err(m) => return Err(m),
                };
                expr = Expr::Member { object: Box::new(expr), property };
            } else {
                return Ok(expr);
            }
        }
    }

    /// The argument list `( ... )` of a call.
    fn parse_call(&mut self) -> (r: Result<Vec<Expr>, String>)
        requires
            old(self).wf(),
        ensures
            old(self).keeps(*final(self)),
            args_ok(
                r,
                call_args(old(self).tokens_view(), old(self).pos as nat),
                old(self).pos as nat,
                final(self).pos as nat,
            ),
        decreases old(self).tokens@.len() - old(self).pos, 1nat,
    {
        let lparen = matches!(self.current_kind(), Some(TokenKind::LParen));
        match self.expect(lparen, "Expected '('") {
            Ok(_) => {},
            Err(m) => return Err(m),
        }
        let args = if matches!(self.current_kind(), Some(TokenKind::RParen)) {
            Vec::new()
        } else {
            match self.parse_args() {
                Ok(a) => a,
                Err(m) => return Err(m),
            }
        };
        assert(exprs_v(Seq::<Expr>::empty()) == Seq::<ExprV>::empty());
        let rparen = matches!(self.current_kind(), Some(TokenKind::RParen));
        match self.expect(rparen, "Expected ')'") {
            Ok(_) => Ok(args),
            Err(m) => Err(m),
        }
    }

    /// Call arguments, from the first one up to (not including) the `)`.
    fn parse_args(&mut self) -> (r: Result<Vec<Expr>, String>)
        requires
            old(self).wf(),
        ensures
            old(self).keeps(*final(self)),
            args_ok(
                r,
                args(old(self).tokens_view(), old(self).pos as nat, Seq::empty()),
                old(self).pos as nat,
                final(self).pos as nat,
            ),
        decreases old(self).tokens@.len() - old(self).pos, 35nat,
    {
        let ghost t = self.tokens_view();
        let ghost p0 = self.pos as nat;
        let mut out: Vec<Expr> = Vec::new();
        assert(exprs_v(out@) == Seq::<ExprV>::empty());
        loop
            invariant
                self.wf(),
                self.tokens@ == old(self).tokens@,
                t == self.tokens_view(),
                p0 == old(self).pos,
                p0 <= self.pos,
                args(t, p0, Seq::empty()) == shift(
                    args(t, self.pos as nat, exprs_v(out@)),
                    (self.pos - p0) as nat,
                ),
            decreases self.tokens@.len() - self.pos,
        {
            let a = match self.parse_expr() {
                Ok(e) => e,
                Err(m) => return Err(m),
            };
            proof {
                lemma_exprs_push(out@, a);
            }
            out.push(a);
            if matches!(self.current_kind(), Some(TokenKind::Comma)) {
                self.pos = self.pos + 1;
            } else {
                return Ok(out);
            }
        }
    }

    #[verifier::rlimit(60)]
    fn parse_primary(&mut self) -> (r: Result<Expr, String>)
        requires
            old(self).wf(),
        ensures
            old(self).keeps(*final(self)),
            expr_ok(
                r,
                primary(old(self).tokens_view(), old(self).pos as nat),
                old(self).pos as nat,
                final(self).pos as nat,
            ),
        decreases old(self).tokens@.len() - old(self).pos, 9nat,
    {
        let literal = match self.current_kind() {
            Some(TokenKind::Number(n)) => Some(Expr::Number(n.clone())),
            Some(TokenKind::String(text)) => Some(Expr::String(text.clone())),
            Some(TokenKind::True) => Some(Expr::Bool(true)),
            Some(TokenKind::False) => Some(Expr::Bool(false)),
            Some(TokenKind::Null) => Some(Expr::Null),
            Some(TokenKind::Ident(name)) => Some(Expr::Var(name.clone())),
            _ => None,
        };
        if let Some(e) = literal {
            self.pos = self.pos + 1;
            return Ok(e);
        }
        if matches!(self.current_kind(), Some(TokenKind::Fn)) {
            return self.parse_fn_literal();
        }
        if matches!(self.current_kind(), Some(TokenKind::LParen)) {
            self.pos = self.pos + 1;
            let e = match self.parse_expr() {
                Ok(e) => e,
                Err(m) => return Err(m),
            };
            let rparen = matches!(self.current_kind(), Some(TokenKind::RParen));
            return match self.expect(rparen, "Expected ')'") {
                Ok(_) => Ok(e),
                Err(m) => Err(m),
            };
        }
        Err(self.error_here("Expected expression"))
    }

    /// Parameter names, from the first one up to (not including) the `)`.
    fn parse_params(&mut self) -> (r: Result<Vec<String>, String>)
        requires
            old(self).wf(),
        ensures
            old(self).keeps(*final(self)),
            names_ok(
                r,
                params(old(self).tokens_view(), old(self).pos as nat, Seq::empty()),
                old(self).pos as nat,
                final(self).pos as nat,
            ),
    {
        let ghost t = self.tokens_view();
        let ghost p0 = self.pos as nat;
        let mut out: Vec<String> = Vec::new();
        assert(names_v(out@) =~= Seq::<Seq<char>>::empty());
        loop
            invariant
                self.wf(),
                self.tokens@ == old(self).tokens@,
                t == self.tokens_view(),
                p0 == old(self).pos,
                p0 <= self.pos,
                params(t, p0, Seq::empty()) == shift(
                    params(t, self.pos as nat, names_v(out@)),
                    (self.pos - p0) as nat,
                ),
            decreases self.tokens@.len() - self.pos,
        {
            let name = match self.consume_ident() {
                Ok(n) => n,
                Err(m) => return Err(m),
            };
            proof {
                lemma_names_push(out@, name);
            }
            out.push(name);
            if matches!(self.current_kind(), Some(TokenKind::Comma)) {
                self.pos = self.pos + 1;
            } else {
                return Ok(out);
            }
        }
    }

    /// The parameter list `( ... )` of a function literal.
    fn parse_param_list(&mut self) -> (r: Result<Vec<String>, String>)
        requires
            old(self).wf(),
        ensures
            old(self).keeps(*final(self)),
            names_ok(
                r,
                param_list(old(self).tokens_view(), old(self).pos as nat),
                old(self).pos as nat,
                final(self).pos as nat,
            ),
    {
        let lparen = matches!(self.current_kind(), Some(TokenKind::LParen));
        match self.expect(lparen, "Expected '('") {
            Ok(_) => {},
            Err(m) => return Err(m),
        }
        let params = if matches!(self.current_kind(), Some(TokenKind::RParen)) {
            Vec::new()
        } else {
            match self.parse_params() {
                Ok(ps) => ps,
                Err(m) => return Err(m),
            }
        };
        assert(names_v(Seq::<String>::empty()) =~= Seq::<Seq<char>>::empty());
        let rparen = matches!(self.current_kind(), Some(TokenKind::RParen));
        match self.expect(rparen, "Expected ')'") {
            Ok(_) => Ok(params),
            Err(m) => Err(m),
        }
    }

    #[verifier::rlimit(100)]
    fn parse_fn_literal(&mut self) -> (r: Result<Expr, String>)
        requires
            old(self).wf(),
        ensures
            old(self).keeps(*final(self)),
            expr_ok(
                r,
                fn_literal(old(self).tokens_view(), old(self).pos as nat),
                old(self).pos as nat,
                final(self).pos as nat,
            ),
        decreases old(self).tokens@.len() - old(self).pos, 8nat,
    {
        let is_fn = matches!(self.current_kind(), Some(TokenKind::Fn));
        match self.expect(is_fn, "Expected 'fn'") {
            Ok(_) => {},
            Err(m) => return Err(m),
        }
        let params = match self.parse_param_list() {
            Ok(ps) => ps,
            Err(m) => return Err(m),
        };
        let body = match self.parse_block() {
            Ok(b) => b,
            Err(m) => return Err(m),
        };
        Ok(Expr::FnLiteral { params, body })
    }

    fn parse_block(&mut self) -> (r: Result<Vec<Stmt>, String>)
        requires
            old(self).wf(),
        ensures
            old(self).keeps(*final(self)),
            block_ok(
                r,
                block(old(self).tokens_view(), old(self).pos as nat),
                old(self).pos as nat,
                final(self).pos as nat,
            ),
        decreases old(self).tokens@.len() - old(self).pos, 0nat,
    {
        let ghost t = self.tokens_view();
        let ghost p0 = self.pos as nat;
        let lbrace = matches!(self.current_kind(), Some(TokenKind::LBrace));
        match self.expect(lbrace, "Expected '{'") {
            Ok(_) => {},
            Err(m) => return Err(m),
        }
        let mut body: Vec<Stmt> = Vec::new();
        assert(stmts_v(body@) == Seq::<StmtV>::empty());
        loop
            invariant
                self.wf(),
                self.tokens@ == old(self).tokens@,
                t == self.tokens_view(),
                p0 == old(self).pos,
                p0 < self.pos,
                at(t, p0, Kind::LBrace),
                items(t, p0 + 1, Seq::empty()) == shift(
                    items(t, self.pos as nat, stmts_v(body@)),
                    (self.pos - p0 - 1) as nat,
                ),
            decreases self.tokens@.len() - self.pos,
        {
            proof {
                lemma_items_skip(t, self.pos as nat, stmts_v(body@));
            }
            self.skip_semicolons();
            if matches!(self.current_kind(), Some(TokenKind::RBrace)) {
                self.pos = self.pos + 1;
                return Ok(body);
            }
            if self.is_eof() {
                return Err(self.error_here("Unterminated block"));
            }
            let s = match self.parse_stmt() {
                Ok(s) => s,
                Err(m) => return Err(m),
            };
            proof {
                lemma_stmts_push(body@, s);
            }
            body.push(s);
        }
    }

    fn looks_like_assignment(&self) -> (b: bool)
        requires
            self.wf(),
        ensures
            b == looks_like_assignment(self.tokens_view(), self.pos as nat),
    {
        let ghost t = self.tokens_view();
        if !matches!(self.current_kind(), Some(TokenKind::Ident(_))) {
            return false;
        }
        let mut i = self.pos + 1;
        loop
            invariant
                self.wf(),
                t == self.tokens_view(),
                self.pos < i <= self.tokens@.len(),
                kind_at(t, self.pos as nat) matches Some(Kind::Ident(_)),
                assign_ahead(t, (self.pos + 1) as nat) == assign_ahead(t, i as nat),
            decreases self.tokens@.len() - i,
        {
            if i >= self.tokens.len() {
                return false;
            }
            match &self.tokens[i].kind {
                TokenKind::Dot => {
                    if i + 1 < self.tokens.len() && matches!(
                        &self.tokens[i + 1].kind,
                        TokenKind::Ident(_)
                    ) {
                        i = i + 2;
                        if i > self.tokens.len() {
                            return false;
                        }
                    } else {
                        return false;
                    }
                },
                TokenKind::Equal => return true,
                _ => return false,
            }
        }
    }

    fn parse_stmt(&mut self) -> (r: Result<Stmt, String>)
        requires
            old(self).wf(),
        ensures
            old(self).keeps(*final(self)),
            stmt_ok(
                r,
                stmt(old(self).tokens_view(), old(self).pos as nat),
                old(self).pos as nat,
                final(self).pos as nat,
            ),
        decreases old(self).tokens@.len() - old(self).pos, 40nat,
    {
        if matches!(self.current_kind(), Some(TokenKind::Use)) {
            return self.parse_use();
        }
        if matches!(self.current_kind(), Some(TokenKind::Let)) {
            return self.parse_let();
        }
        if matches!(self.current_kind(), Some(TokenKind::If)) {
            return self.parse_if();
        }
        if matches!(self.current_kind(), Some(TokenKind::While)) || matches!(
            self.current_kind(),
            Some(TokenKind::Repeat)
        ) {
            return self.parse_loop();
        }
        if matches!(self.current_kind(), Some(TokenKind::Return)) {
            return self.parse_return();
        }
        if self.looks_like_assignment() {
            return self.parse_assign();
        }
        match self.parse_expr() {
            Ok(e) => Ok(Stmt::Expr(e)),
            Err(m) => Err(m),
        }
    }

    fn parse_use(&mut self) -> (r: Result<Stmt, String>)
        requires
            old(self).wf(),
            at(old(self).tokens_view(), old(self).pos as nat, Kind::Use),
        ensures
            old(self).keeps(*final(self)),
            stmt_ok(
                r,
                stmt(old(self).tokens_view(), old(self).pos as nat),
                old(self).pos as nat,
                final(self).pos as nat,
            ),
    {
        self.pos = self.pos + 1;
        let specifier = match self.consume_string() {
            Ok(s) => s,
            Err(m) => return Err(m),
        };
        let is_as = matches!(self.current_kind(), Some(TokenKind::As));
        match self.expect(is_as, "Expected 'as'") {
            Ok(_) => {},
            Err(m) => return Err(m),
        }
        let alias = match self.consume_ident() {
            Ok(a) => a,
            Err(m) => return Err(m),
        };
        Ok(Stmt::Use { specifier, alias })
    }

    fn parse_let(&mut self) -> (r: Result<Stmt, String>)
        requires
            old(self).wf(),
            at(old(self).tokens_view(), old(self).pos as nat, Kind::Let),
        ensures
            old(self).keeps(*final(self)),
            stmt_ok(
                r,
                stmt(old(self).tokens_view(), old(self).pos as nat),
                old(self).pos as nat,
                final(self).pos as nat,
            ),
        decreases old(self).tokens@.len() - old(self).pos, 39nat,
    {
        self.pos = self.pos + 1;
        let name = match self.consume_ident() {
            Ok(n) => n,
            Err(m) => return Err(m),
        };
        let equal = matches!(self.current_kind(), Some(TokenKind::Equal));
        match self.expect(equal, "Expected '='") {
            Ok(_) => {},
            Err(m) => return Err(m),
        }
        match self.parse_expr() {
            Ok(expr) => Ok(Stmt::Let { name, expr }),
            Err(m) => Err(m),
        }
    }

    #[verifier::rlimit(60)]
    fn parse_if(&mut self) -> (r: Result<Stmt, String>)
        requires
            old(self).wf(),
        ensures
            old(self).keeps(*final(self)),
            stmt_ok(
                r,
                if_stmt(old(self).tokens_view(), old(self).pos as nat),
                old(self).pos as nat,
                final(self).pos as nat,
            ),
        decreases old(self).tokens@.len() - old(self).pos, 39nat,
    {
        let is_if = matches!(self.current_kind(), Some(TokenKind::If));
        match self.expect(is_if, "Expected 'if'") {
            Ok(_) => {},
            Err(m) => return Err(m),
        }
        let condition = match self.parse_expr() {
            Ok(e) => e,
            Err(m) => return Err(m),
        };
        let then_branch = match self.parse_block() {
            Ok(b) => b,
            Err(m) => return Err(m),
        };
        let else_branch = if matches!(self.current_kind(), Some(TokenKind::Else)) {
            self.pos = self.pos + 1;
            if matches!(self.current_kind(), Some(TokenKind::If)) {
                let nested = match self.parse_if() {
                    Ok(s) => s,
                    Err(m) => return Err(m),
                };
                let v = vec![nested];
                proof {
                    lemma_stmts_push(Seq::empty(), nested);
                    assert(v@ == Seq::<Stmt>::empty().push(nested));
                }
                v
            } else {
                match self.parse_block() {
                    Ok(b) => b,
                    Err(m) => return Err(m),
                }
            }
        } else {
            Vec::new()
        };
        assert(stmts_v(Seq::<Stmt>::empty()) == Seq::<StmtV>::empty());
        Ok(Stmt::If { condition, then_branch, else_branch })
    }

    /// `while cond { ... }` and `repeat count { ... }`.
    fn parse_loop(&mut self) -> (r: Result<Stmt, String>)
        requires
            old(self).wf(),
            at(old(self).tokens_view(), old(self).pos as nat, Kind::While) || at(
                old(self).tokens_view(),
                old(self).pos as nat,
                Kind::Repeat,
            ),
        ensures
            old(self).keeps(*final(self)),
            stmt_ok(
                r,
                stmt(old(self).tokens_view(), old(self).pos as nat),
                old(self).pos as nat,
                final(self).pos as nat,
            ),
        decreases old(self).tokens@.len() - old(self).pos, 39nat,
    {
        let is_while = matches!(self.current_kind(), Some(TokenKind::While));
        self.pos = self.pos + 1;
        let head = match self.parse_expr() {
            Ok(e) => e,
            Err(m) => return Err(m),
        };
        let body = match self.parse_block() {
            Ok(b) => b,
            Err(m) => return Err(m),
        };
        if is_while {
            Ok(Stmt::While { condition: head, body })
        } else {
            Ok(Stmt::Repeat { count: head, body })
        }
    }

    fn parse_return(&mut self) -> (r: Result<Stmt, String>)
        requires
            old(self).wf(),
            at(old(self).tokens_view(), old(self).pos as nat, Kind::Return),
        ensures
            old(self).keeps(*final(self)),
            stmt_ok(
                r,
                stmt(old(self).tokens_view(), old(self).pos as nat),
                old(self).pos as nat,
                final(self).pos as nat,
            ),
        decreases old(self).tokens@.len() - old(self).pos, 39nat,
    {
        self.pos = self.pos + 1;
        if matches!(self.current_kind(), Some(TokenKind::Semicolon)) || matches!(
            self.current_kind(),
            Some(TokenKind::RBrace)
        ) {
            return Ok(Stmt::Return(Expr::Null));
        }
        match self.parse_expr() {
            Ok(e) => Ok(Stmt::Return(e)),
            Err(m) => Err(m),
        }
    }

    #[verifier::loop_isolation(false)]
    fn parse_assign(&mut self) -> (r: Result<Stmt, String>)
        requires
            old(self).wf(),
            looks_like_assignment(old(self).tokens_view(), old(self).pos as nat),
            !at(old(self).tokens_view(), old(self).pos as nat, Kind::Use),
            !at(old(self).tokens_view(), old(self).pos as nat, Kind::Let),
            !at(old(self).tokens_view(), old(self).pos as nat, Kind::If),
            !at(old(self).tokens_view(), old(self).pos as nat, Kind::While),
            !at(old(self).tokens_view(), old(self).pos as nat, Kind::Repeat),
            !at(old(self).tokens_view(), old(self).pos as nat, Kind::Return),
        ensures
            old(self).keeps(*final(self)),
            stmt_ok(
                r,
                stmt(old(self).tokens_view(), old(self).pos as nat),
                old(self).pos as nat,
                final(self).pos as nat,
            ),
        decreases old(self).tokens@.len() - old(self).pos, 39nat,
    {
        let ghost t = self.tokens_view();
        let ghost p0 = self.pos as nat;
        let first = match self.consume_ident() {
            Ok(n) => n,
            Err(m) => return Err(m),
        };
        let mut target: Vec<String> = Vec::new();
        proof {
            lemma_names_push(target@, first);
            assert(names_v(target@) =~= Seq::<Seq<char>>::empty());
        }
        target.push(first);
        while matches!(self.current_kind(), Some(TokenKind::Dot))
            invariant
                self.wf(),
                self.tokens@ == old(self).tokens@,
                t == self.tokens_view(),
                p0 == old(self).pos,
                p0 < self.pos,
                dotted(t, p0, Seq::empty()) == shift(
                    dotted_rest(t, self.pos as nat, names_v(target@)),
                    (self.pos - p0 - 1) as nat,
                ),
            decreases self.tokens@.len() - self.pos,
        {
            let ghost q = self.pos as nat;
            self.pos = self.pos + 1;
            let name = match self.consume_ident() {
                Ok(n) => n,
                Err(m) => {
                    assert(dotted(t, q + 1, names_v(target@)) == Err::<
                        (Seq<Seq<char>>, nat),
                        Seq<char>,
                    >(m@));
                    assert(dotted(t, p0, Seq::empty()) == Err::<(Seq<Seq<char>>, nat), Seq<char>>(
                        m@,
                    ));
                    return Err(m);
                },
            };
            proof {
                lemma_names_push(target@, name);
            }
            target.push(name);
        }
        let equal = matches!(self.current_kind(), Some(TokenKind::Equal));
        match self.expect(equal, "Expected '='") {
            Ok(_) => {},
            Err(m) => return Err(m),
        }
        match self.parse_expr() {
            Ok(expr) => Ok(Stmt::Assign { target, expr }),
            Err(m) => Err(m),
        }
    }

    /// Parses the statements from the current position to the end of the tokens.
    pub fn parse_program(&mut self) -> (r: Result<Vec<Stmt>, String>)
        requires
            old(self).wf(),
        ensures
            final(self).wf(),
            final(self).tokens_view() == old(self).tokens_view(),
            match r {
                Ok(v) => program_from(old(self).tokens_view(), old(self).position(), Seq::empty())
                    == Ok::<Seq<StmtV>, Seq<char>>(stmts_v(v@)),
                Err(m) => program_from(old(self).tokens_view(), old(self).position(), Seq::empty())
                    == Err::<Seq<StmtV>, Seq<char>>(m@),
            },
    {
        let ghost t = self.tokens_view();
        let ghost p0 = self.pos as nat;
        let mut out: Vec<Stmt> = Vec::new();
        assert(stmts_v(out@) == Seq::<StmtV>::empty());
        loop
            invariant
                self.wf(),
                self.tokens@ == old(self).tokens@,
                t == self.tokens_view(),
                p0 == old(self).pos,
                program_from(t, p0, Seq::empty()) == program_from(
                    t,
                    self.pos as nat,
                    stmts_v(out@),
                ),
            decreases self.tokens@.len() - self.pos,
        {
            if self.is_eof() {
                return Ok(out);
            }
            self.skip_semicolons();
            if self.is_eof() {
                return Ok(out);
            }
            let s = match self.parse_stmt() {
                Ok(s) => s,
                Err(m) => return Err(m),
            };
            proof {
                lemma_stmts_push(out@, s);
            }
            out.push(s);
            proof {
                lemma_program_skip(t, self.pos as nat, stmts_v(out@));
            }
            self.skip_semicolons();
        }
    }
}

/// The program made of one comparison `x op y` between two number literals.
proof fn lemma_number_comparison(t: Seq<Tok>, x: Seq<char>, y: Seq<char>, k: Kind, op: BinaryOp)
    requires
        t.len() == 4,
        t[0].kind == Kind::Number(x),
        t[1].kind == k,
        t[2].kind == Kind::Number(y),
        t[3].kind == Kind::Eof,
        level_op(3, k) == Some(op),
        level_op(4, k) is None,
        level_op(5, k) is None,
    ensures
        program(t) == Ok::<Seq<StmtV>, Seq<char>>(
            seq![StmtV::Expr(binary(ExprV::Number(x), op, ExprV::Number(y)))],
        ),
{
    let ex = ExprV::Number(x);
    let ey = ExprV::Number(y);
    let b = binary(ex, op, ey);
    assert(kind_at(t, 0) == Some(Kind::Number(x)));
    assert(kind_at(t, 1) == Some(k));
    assert(kind_at(t, 2) == Some(Kind::Number(y)));
    assert(kind_at(t, 3) == Some(Kind::Eof));
    // the left operand
    assert(primary(t, 0) == Ok::<(ExprV, nat), Seq<char>>((ex, 0nat)));
    assert(postfix_tail(t, 1, ex) == Ok::<(ExprV, nat), Seq<char>>((ex, 0nat)));
    assert(postfix(t, 0) == Ok::<(ExprV, nat), Seq<char>>((ex, 0nat)));
    assert(unary(t, 0) == Ok::<(ExprV, nat), Seq<char>>((ex, 0nat)));
    assert(operand(t, 0, 5) == Ok::<(ExprV, nat), Seq<char>>((ex, 0nat)));
    assert(level_tail(t, 1, 5, ex) == Ok::<(ExprV, nat), Seq<char>>((ex, 0nat)));
    assert(level(t, 0, 5) == Ok::<(ExprV, nat), Seq<char>>((ex, 0nat)));
    assert(operand(t, 0, 4) == Ok::<(ExprV, nat), Seq<char>>((ex, 0nat)));
    assert(level_tail(t, 1, 4, ex) == Ok::<(ExprV, nat), Seq<char>>((ex, 0nat)));
    assert(level(t, 0, 4) == Ok::<(ExprV, nat), Seq<char>>((ex, 0nat)));
    assert(operand(t, 0, 3) == Ok::<(ExprV, nat), Seq<char>>((ex, 0nat)));
    // the right operand
    assert(primary(t, 2) == Ok::<(ExprV, nat), Seq<char>>((ey, 0nat)));
    assert(postfix_tail(t, 3, ey) == Ok::<(ExprV, nat), Seq<char>>((ey, 0nat)));
    assert(postfix(t, 2) == Ok::<(ExprV, nat), Seq<char>>((ey, 0nat)));
    assert(unary(t, 2) == Ok::<(ExprV, nat), Seq<char>>((ey, 0nat)));
    assert(operand(t, 2, 5) == Ok::<(ExprV, nat), Seq<char>>((ey, 0nat)));
    assert(level_tail(t, 3, 5, ey) == Ok::<(ExprV, nat), Seq<char>>((ey, 0nat)));
    assert(level(t, 2, 5) == Ok::<(ExprV, nat), Seq<char>>((ey, 0nat)));
    assert(operand(t, 2, 4) == Ok::<(ExprV, nat), Seq<char>>((ey, 0nat)));
    assert(level_tail(t, 3, 4, ey) == Ok::<(ExprV, nat), Seq<char>>((ey, 0nat)));
    assert(level(t, 2, 4) == Ok::<(ExprV, nat), Seq<char>>((ey, 0nat)));
    assert(operand(t, 2, 3) == Ok::<(ExprV, nat), Seq<char>>((ey, 0nat)));
    // the comparison, and the looser levels around it
    assert(op_at(t, 1, 3) == Some(op));
    assert(level_tail(t, 3, 3, b) == Ok::<(ExprV, nat), Seq<char>>((b, 0nat)));
    assert(level_tail(t, 1, 3, ex) == Ok::<(ExprV, nat), Seq<char>>((b, 2nat)));
    assert(level(t, 0, 3) == Ok::<(ExprV, nat), Seq<char>>((b, 2nat)));
    assert(operand(t, 0, 2) == Ok::<(ExprV, nat), Seq<char>>((b, 2nat)));
    assert(level_tail(t, 3, 2, b) == Ok::<(ExprV, nat), Seq<char>>((b, 0nat)));
    assert(level(t, 0, 2) == Ok::<(ExprV, nat), Seq<char>>((b, 2nat)));
    assert(operand(t, 0, 1) == Ok::<(ExprV, nat), Seq<char>>((b, 2nat)));
    assert(level_tail(t, 3, 1, b) == Ok::<(ExprV, nat), Seq<char>>((b, 0nat)));
    assert(level(t, 0, 1) == Ok::<(ExprV, nat), Seq<char>>((b, 2nat)));
    assert(operand(t, 0, 0) == Ok::<(ExprV, nat), Seq<char>>((b, 2nat)));
    assert(level_tail(t, 3, 0, b) == Ok::<(ExprV, nat), Seq<char>>((b, 0nat)));
    assert(level(t, 0, 0) == Ok::<(ExprV, nat), Seq<char>>((b, 2nat)));
    assert(expr(t, 0) == Ok::<(ExprV, nat), Seq<char>>((b, 2nat)));
    // the statement and the program
    assert(!looks_like_assignment(t, 0));
    assert(stmt(t, 0) == Ok::<(StmtV, nat), Seq<char>>((StmtV::Expr(b), 2nat)));
    assert(semis(t, 0) == 0);
    assert(at_eof(t, 3));
    assert(program_from(t, 3, seq![StmtV::Expr(b)]) == Ok::<Seq<StmtV>, Seq<char>>(
        seq![StmtV::Expr(b)],
    ));
    assert(seq![StmtV::Expr(b)] =~= Seq::<StmtV>::empty().push(StmtV::Expr(b)));
}

/// Each comparison token parses to its own operator: `x > y` is `Gt`,
/// `x >= y` is `Gte`, `x < y` is `Lt` and `x <= y` is `Lte`, for any two
/// number literals on any lines.
pub proof fn law_comparisons_keep_their_operator(
    x: Seq<char>,
    y: Seq<char>,
    l0: nat,
    l1: nat,
    l2: nat,
    l3: nat,
)
    ensures
        program(seq![tok(Kind::Number(x), l0), tok(Kind::Greater, l1), tok(Kind::Number(y), l2), tok(Kind::Eof, l3)])
            == Ok::<Seq<StmtV>, Seq<char>>(
            seq![StmtV::Expr(binary(ExprV::Number(x), BinaryOp::Gt, ExprV::Number(y)))],
        ),
        program(seq![tok(Kind::Number(x), l0), tok(Kind::GreaterEqual, l1), tok(Kind::Number(y), l2), tok(Kind::Eof, l3)])
            == Ok::<Seq<StmtV>, Seq<char>>(
            seq![StmtV::Expr(binary(ExprV::Number(x), BinaryOp::Gte, ExprV::Number(y)))],
        ),
        program(seq![tok(Kind::Number(x), l0), tok(Kind::Less, l1), tok(Kind::Number(y), l2), tok(Kind::Eof, l3)])
            == Ok::<Seq<StmtV>, Seq<char>>(
            seq![StmtV::Expr(binary(ExprV::Number(x), BinaryOp::Lt, ExprV::Number(y)))],
        ),
        program(seq![tok(Kind::Number(x), l0), tok(Kind::LessEqual, l1), tok(Kind::Number(y), l2), tok(Kind::Eof, l3)])
            == Ok::<Seq<StmtV>, Seq<char>>(
            seq![StmtV::Expr(binary(ExprV::Number(x), BinaryOp::Lte, ExprV::Number(y)))],
        ),
{
    lemma_number_comparison(
        seq![tok(Kind::Number(x), l0), tok(Kind::Greater, l1), tok(Kind::Number(y), l2), tok(Kind::Eof, l3)],
        x,
        y,
        Kind::Greater,
        BinaryOp::Gt,
    );
    lemma_number_comparison(
        seq![tok(Kind::Number(x), l0), tok(Kind::GreaterEqual, l1), tok(Kind::Number(y), l2), tok(Kind::Eof, l3)],
        x,
        y,
        Kind::GreaterEqual,
        BinaryOp::Gte,
    );
    lemma_number_comparison(
        seq![tok(Kind::Number(x), l0), tok(Kind::Less, l1), tok(Kind::Number(y), l2), tok(Kind::Eof, l3)],
        x,
        y,
        Kind::Less,
        BinaryOp::Lt,
    );
    lemma_number_comparison(
        seq![tok(Kind::Number(x), l0), tok(Kind::LessEqual, l1), tok(Kind::Number(y), l2), tok(Kind::Eof, l3)],
        x,
        y,
        Kind::LessEqual,
        BinaryOp::Lte,
    );
}

} // verus!
