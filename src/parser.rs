//! Recursive-descent parser for canonical arithmetic syntax:
//!
//! ```text
//! expression := term (('+' | '-') term)*
//! term       := unary (('*' | '/') unary)*
//! unary      := '-' unary | power
//! power      := atom ('^' unary)?
//! atom       := Number | '(' expression ')' | Function '(' expression ')'
//! ```
use vstd::prelude::*;
use crate::error::EvalError;
use crate::lexer::{lex, tokenize, Token, TokenKind};

verus! {

#[derive(Clone, Copy, PartialEq, Eq, Debug)]
pub enum BinOp {
    Add,
    Sub,
    Mul,
    Div,
    Pow,
}

#[derive(Clone, Copy, PartialEq, Eq, Debug)]
pub enum Func {
    Sqrt,
    Abs,
}

/// An expression tree. A literal names the characters `start..end` of the
/// canonical string that spell the number.
#[derive(PartialEq, Eq, Debug)]
pub enum Expr {
    Literal { start: usize, end: usize },
    Binary { op: BinOp, left: Box<Expr>, right: Box<Expr> },
    Neg { operand: Box<Expr> },
    Call { func: Func, arg: Box<Expr> },
}

/// The outcome of parsing from a token position: the tree and the position
/// after it, or the position of the offending token.
pub type Parsed = Result<(Expr, int), int>;

pub open spec fn kind_at(t: Seq<Token>, p: int) -> Option<TokenKind> {
    if 0 <= p < t.len() {
        Some(t[p].kind)
    } else {
        None
    }
}

pub open spec fn binary(op: BinOp, l: Expr, r: Expr) -> Expr {
    Expr::Binary { op, left: Box::new(l), right: Box::new(r) }
}

pub open spec fn additive(k: Option<TokenKind>) -> Option<BinOp> {
    if k == Some(TokenKind::Plus) {
        Some(BinOp::Add)
    } else if k == Some(TokenKind::Minus) {
        Some(BinOp::Sub)
    } else {
        None
    }
}

pub open spec fn multiplicative(k: Option<TokenKind>) -> Option<BinOp> {
    if k == Some(TokenKind::Star) {
        Some(BinOp::Mul)
    } else if k == Some(TokenKind::Slash) {
        Some(BinOp::Div)
    } else {
        None
    }
}

pub open spec fn function_of(k: Option<TokenKind>) -> Option<Func> {
    if k == Some(TokenKind::Sqrt) {
        Some(Func::Sqrt)
    } else if k == Some(TokenKind::Abs) {
        Some(Func::Abs)
    } else {
        None
    }
}

pub open spec fn parse_expr(t: Seq<Token>, p: int) -> Parsed
    decreases t.len() - p, 5int,
{
    match parse_term(t, p) {
        Ok((l, q)) => if p < q <= t.len() {
            expr_rest(t, q, l)
        } else {
            Err(q)
        },
        Err(k) => Err(k),
    }
}

/// The `(('+' | '-') term)*` tail, with `l` the tree so far.
pub open spec fn expr_rest(t: Seq<Token>, p: int, l: Expr) -> Parsed
    decreases t.len() - p, 0int,
{
    match additive(kind_at(t, p)) {
        Some(op) => match parse_term(t, p + 1) {
            Ok((r, q)) => if p < q <= t.len() {
                expr_rest(t, q, binary(op, l, r))
            } else {
                Err(q)
            },
            Err(k) => Err(k),
        },
        None => Ok((l, p)),
    }
}

pub open spec fn parse_term(t: Seq<Token>, p: int) -> Parsed
    decreases t.len() - p, 4int,
{
    match parse_unary(t, p) {
        Ok((l, q)) => if p < q <= t.len() {
            term_rest(t, q, l)
        } else {
            Err(q)
        },
        Err(k) => Err(k),
    }
}

/// The `(('*' | '/') unary)*` tail, with `l` the tree so far.
pub open spec fn term_rest(t: Seq<Token>, p: int, l: Expr) -> Parsed
    decreases t.len() - p, 0int,
{
    match multiplicative(kind_at(t, p)) {
        Some(op) => match parse_unary(t, p + 1) {
            Ok((r, q)) => if p < q <= t.len() {
                term_rest(t, q, binary(op, l, r))
            } else {
                Err(q)
            },
            Err(k) => Err(k),
        },
        None => Ok((l, p)),
    }
}

pub open spec fn parse_unary(t: Seq<Token>, p: int) -> Parsed
    decreases t.len() - p, 3int,
{
    if kind_at(t, p) == Some(TokenKind::Minus) {
        match parse_unary(t, p + 1) {
            Ok((e, q)) => Ok((Expr::Neg { operand: Box::new(e) }, q)),
            Err(k) => Err(k),
        }
    } else {
        parse_power(t, p)
    }
}

/// An atom, raised to a right-hand `unary` when `^` follows; the right-hand
/// side may hold another `^`, so powers group to the right.
pub open spec fn parse_power(t: Seq<Token>, p: int) -> Parsed
    decreases t.len() - p, 2int,
{
    match parse_atom(t, p) {
        Ok((a, q)) => if p <= q && kind_at(t, q) == Some(TokenKind::Caret) {
            match parse_unary(t, q + 1) {
                Ok((r, q2)) => Ok((binary(BinOp::Pow, a, r), q2)),
                Err(k) => Err(k),
            }
        } else {
            Ok((a, q))
        },
        Err(k) => Err(k),
    }
}

/// An inner parse that must be followed by `)`, which it then consumes.
pub open spec fn closed(t: Seq<Token>, inner: Parsed) -> Parsed {
    match inner {
        Ok((e, q)) => if kind_at(t, q) == Some(TokenKind::RParen) {
            Ok((e, q + 1))
        } else {
            Err(q)
        },
        Err(k) => Err(k),
    }
}

pub open spec fn parse_atom(t: Seq<Token>, p: int) -> Parsed
    decreases t.len() - p, 1int,
{
    if kind_at(t, p) == Some(TokenKind::Number) {
        Ok((Expr::Literal { start: t[p].start, end: t[p].end }, p + 1))
    } else if kind_at(t, p) == Some(TokenKind::LParen) {
        closed(t, parse_expr(t, p + 1))
    } else if function_of(kind_at(t, p)) is Some {
        if kind_at(t, p + 1) == Some(TokenKind::LParen) {
            match closed(t, parse_expr(t, p + 2)) {
                Ok((e, q)) => Ok((Expr::Call { func: function_of(kind_at(t, p))->0, arg: Box::new(e) }, q)),
                Err(k) => Err(k),
            }
        } else {
            Err(p + 1)
        }
    } else {
        Err(p)
    }
}

/// A whole token sequence as one expression, or the index of the offending
/// token (the length of `t` for a premature end).
pub open spec fn parse_tokens(t: Seq<Token>) -> Result<Expr, int> {
    match parse_expr(t, 0) {
        Ok((e, q)) => if q == t.len() {
            Ok(e)
        } else {
            Err(q)
        },
        Err(k) => Err(k),
    }
}

/// The character position of token `k`, or `n` past the last token.
pub open spec fn position_of(t: Seq<Token>, k: int, n: int) -> usize {
    if 0 <= k < t.len() {
        t[k].start
    } else {
        n as usize
    }
}

/// What parsing the canonical string `s` yields.
pub open spec fn parse_spec(s: Seq<char>) -> Result<Expr, EvalError> {
    match lex(s, 0) {
        Err(k) => Err(EvalError::Tokenize { pos: k as usize }),
        Ok(ts) => match parse_tokens(ts) {
            Ok(e) => Ok(e),
            Err(k) => Err(EvalError::Parse { pos: position_of(ts, k, s.len() as int) }),
        },
    }
}

pub open spec fn lift(r: Result<(Expr, usize), usize>) -> Parsed {
    match r {
        Ok((e, q)) => Ok((e, q as int)),
        Err(k) => Err(k as int),
    }
}

pub open spec fn well_placed(r: Result<(Expr, usize), usize>, p: int, n: int) -> bool {
    match r {
        Ok((_, q)) => p < q <= n,
        Err(k) => k <= n,
    }
}

fn kind_at_exec(t: &Vec<Token>, p: usize) -> (r: Option<TokenKind>)
    ensures
        r == kind_at(t@, p as int),
{
    if p < t.len() {
        Some(t[p].kind)
    } else {
        None
    }
}

fn expr(t: &Vec<Token>, p: usize) -> (r: Result<(Expr, usize), usize>)
    requires
        p <= t@.len(),
    ensures
        lift(r) == parse_expr(t@, p as int),
        well_placed(r, p as int, t@.len() as int),
    decreases t@.len() - p, 5int,
{
    let (mut l, mut q) = match term(t, p) {
        Ok(v) => v,
        Err(k) => return Err(k),
    };
    while q < t.len() && (t[q].kind == TokenKind::Plus || t[q].kind == TokenKind::Minus)
        invariant
            p < q <= t@.len(),
            parse_expr(t@, p as int) == expr_rest(t@, q as int, l),
        decreases t@.len() - q,
    {
        let op = if t[q].kind == TokenKind::Plus {
            BinOp::Add
        } else {
            BinOp::Sub
        };
        let (r, q2) = match term(t, q + 1) {
            Ok(v) => v,
            Err(k) => return Err(k),
        };
        l = Expr::Binary { op, left: Box::new(l), right: Box::new(r) };
        q = q2;
    }
    Ok((l, q))
}

fn term(t: &Vec<Token>, p: usize) -> (r: Result<(Expr, usize), usize>)
    requires
        p <= t@.len(),
    ensures
        lift(r) == parse_term(t@, p as int),
        well_placed(r, p as int, t@.len() as int),
    decreases t@.len() - p, 4int,
{
    let (mut l, mut q) = match unary(t, p) {
        Ok(v) => v,
        Err(k) => return Err(k),
    };
    while q < t.len() && (t[q].kind == TokenKind::Star || t[q].kind == TokenKind::Slash)
        invariant
            p < q <= t@.len(),
            parse_term(t@, p as int) == term_rest(t@, q as int, l),
        decreases t@.len() - q,
    {
        let op = if t[q].kind == TokenKind::Star {
            BinOp::Mul
        } else {
            BinOp::Div
        };
        let (r, q2) = match unary(t, q + 1) {
            Ok(v) => v,
            Err(k) => return Err(k),
        };
        l = Expr::Binary { op, left: Box::new(l), right: Box::new(r) };
        q = q2;
    }
    Ok((l, q))
}

fn unary(t: &Vec<Token>, p: usize) -> (r: Result<(Expr, usize), usize>)
    requires
        p <= t@.len(),
    ensures
        lift(r) == parse_unary(t@, p as int),
        well_placed(r, p as int, t@.len() as int),
    decreases t@.len() - p, 3int,
{
    if p < t.len() && t[p].kind == TokenKind::Minus {
        match unary(t, p + 1) {
            Ok((e, q)) => Ok((Expr::Neg { operand: Box::new(e) }, q)),
            Err(k) => Err(k),
        }
    } else {
        power(t, p)
    }
}

fn power(t: &Vec<Token>, p: usize) -> (r: Result<(Expr, usize), usize>)
    requires
        p <= t@.len(),
    ensures
        lift(r) == parse_power(t@, p as int),
        well_placed(r, p as int, t@.len() as int),
    decreases t@.len() - p, 2int,
{
    let (a, q) = match atom(t, p) {
        Ok(v) => v,
        Err(k) => return Err(k),
    };
    if q < t.len() && t[q].kind == TokenKind::Caret {
        match unary(t, q + 1) {
            Ok((r, q2)) => Ok((Expr::Binary { op: BinOp::Pow, left: Box::new(a), right: Box::new(r) }, q2)),
            Err(k) => Err(k),
        }
    } else {
        Ok((a, q))
    }
}

/// Parses an expression that must be followed by `)`.
fn group(t: &Vec<Token>, p: usize) -> (r: Result<(Expr, usize), usize>)
    requires
        0 < p <= t@.len(),
    ensures
        lift(r) == closed(t@, parse_expr(t@, p as int)),
        well_placed(r, p as int, t@.len() as int),
    decreases t@.len() - p + 1, 0int,
{
    match expr(t, p) {
        Ok((e, q)) => if q < t.len() && t[q].kind == TokenKind::RParen {
            Ok((e, q + 1))
        } else {
            Err(q)
        },
        Err(k) => Err(k),
    }
}

fn atom(t: &Vec<Token>, p: usize) -> (r: Result<(Expr, usize), usize>)
    requires
        p <= t@.len(),
    ensures
        lift(r) == parse_atom(t@, p as int),
        well_placed(r, p as int, t@.len() as int),
    decreases t@.len() - p, 1int,
{
    if p >= t.len() {
        return Err(p);
    }
    let k = t[p].kind;
    if k == TokenKind::Number {
        Ok((Expr::Literal { start: t[p].start, end: t[p].end }, p + 1))
    } else if k == TokenKind::LParen {
        group(t, p + 1)
    } else if k == TokenKind::Sqrt || k == TokenKind::Abs {
        let func = if k == TokenKind::Sqrt {
            Func::Sqrt
        } else {
            Func::Abs
        };
        if p + 1 < t.len() && t[p + 1].kind == TokenKind::LParen {
            match group(t, p + 2) {
                Ok((e, q)) => Ok((Expr::Call { func, arg: Box::new(e) }, q)),
                Err(k) => Err(k),
            }
        } else {
            Err(p + 1)
        }
    } else {
        Err(p)
    }
}

/// Parses a whole token sequence as one expression.
pub fn parse_token_seq(t: &Vec<Token>) -> (r: Result<Expr, usize>)
    ensures
        match parse_tokens(t@) {
            Ok(e) => r == Ok::<Expr, usize>(e),
            Err(k) => r == Err::<Expr, usize>(k as usize) && 0 <= k <= t@.len(),
        },
{
    match expr(t, 0) {
        Ok((e, q)) => if q == t.len() {
            Ok(e)
        } else {
            Err(q)
        },
        Err(k) => Err(k),
    }
}

/// Tokenizes and parses canonical syntax into an expression tree.
pub fn parse(src: &str) -> (r: Result<Expr, EvalError>)
    ensures
        r == parse_spec(src@),
{
    let toks = match tokenize(src) {
        Ok(ts) => ts,
        Err(e) => return Err(e),
    };
    assert(lex(src@, 0) == Ok::<Seq<Token>, int>(toks@));
    match parse_token_seq(&toks) {
        Ok(e) => Ok(e),
        Err(k) => {
            let pos = if k < toks.len() {
                toks[k].start
            } else {
                src.unicode_len()
            };
            Err(EvalError::Parse { pos })
        },
    }
}

/// Parsing keeps no state between calls: the same characters always give
/// the same tree or the same error, so evaluating one canonical string twice
/// starts from the same tree.
pub proof fn lemma_parse_is_pure(a: Seq<char>, b: Seq<char>)
    requires
        a == b,
    ensures
        parse_spec(a) == parse_spec(b),
{
}

} // verus!
