//! The recursive-descent parser: token stream to `Code` tree, or a located
//! syntax error. The grammar covers modules with port lists, declaration
//! groups, `reg`/`wire`/instantiation/`parameter` declarations, `always`
//! blocks, `if`/`else` (the `else` binds to the nearest open `if`),
//! `case` blocks, assignments (whole, bit-select and range-select), and a
//! precedence-climbing expression grammar.
//!
//! Every function ensures that a successful parse consumed at least one
//! token, that the produced node is well formed (`code_wf` and friends: in
//! particular a `begin`/`end` group with a single statement comes out as
//! `SeqBlock::Single`, never as a one-element `Block`), and that a reported
//! error offset is the offset of one of the input tokens.

use vstd::prelude::*;

use crate::ast::Arg;
use crate::ast::BlockType;
use crate::ast::Code;
use crate::ast::Decl;
use crate::ast::Dir;
use crate::ast::Edge;
use crate::ast::EdgeRef;
use crate::ast::Expr;
use crate::ast::Ident;
use crate::ast::Op;
use crate::ast::SeqBlock;
use crate::ast::Stmt;
use crate::ast::Toplevel;
use crate::ast::UnaryOp;
use crate::ast::arg_wf;
use crate::ast::code_wf;
use crate::ast::decl_wf;
use crate::ast::expr_wf;
use crate::ast::ident_wf;
use crate::ast::match_arm_wf;
use crate::ast::seq_block_wf;
use crate::ast::stmt_wf;
use crate::ast::toplevel_wf;
use crate::lexer::Token;
use crate::lexer::TokenKind;
use crate::lexer::tok_id_wf;
use vstd::string::StringSliceAdditionalSpecFns;

verus! {

/// A located syntax error. `InvalidToken` comes from the lexer (a byte no
/// token can start or continue at), the other two from the parser proper.
#[derive(Clone, Debug, Eq, PartialEq)]
pub enum ParseError {
    InvalidToken { offset: usize },
    UnexpectedToken { offset: usize },
    UnexpectedEnd,
}

/// Every identifier token carries a non-empty name and every numeric token
/// a non-negative value.
pub open spec fn toks_ids_wf(toks: Seq<Token>) -> bool {
    forall|k: int| 0 <= k < toks.len() ==> tok_id_wf(#[trigger] toks[k])
}

/// A parser-reported error is never `InvalidToken`, and an
/// `UnexpectedToken` offset is the offset of one of the input tokens.
pub open spec fn err_src_ok(e: ParseError, toks: Seq<Token>) -> bool {
    match e {
        ParseError::InvalidToken { offset } => false,
        ParseError::UnexpectedToken { offset } => exists|k: int|
            0 <= k < toks.len() && (#[trigger] toks[k]).offset == offset,
        ParseError::UnexpectedEnd => true,
    }
}

fn err_at(toks: &Vec<Token>, k: usize) -> (r: ParseError)
    requires
        k < toks@.len(),
    ensures
        err_src_ok(r, toks@),
        r is UnexpectedToken,
{
    let r = ParseError::UnexpectedToken { offset: toks[k].offset };
    proof {
        assert(toks@[k as int].offset == r->UnexpectedToken_offset);
    }
    r
}

fn eat_lparen(toks: &Vec<Token>, p: usize) -> (r: Result<usize, ParseError>)
    requires
        p <= toks@.len(),
    ensures
        r is Ok ==> r->Ok_0 == p + 1 && p < toks@.len(),
        r is Err ==> err_src_ok(r->Err_0, toks@),
{
    if p >= toks.len() {
        Err(ParseError::UnexpectedEnd)
    } else if matches!(&toks[p].kind, TokenKind::LParen) {
        Ok(p + 1)
    } else {
        Err(err_at(toks, p))
    }
}

fn eat_rparen(toks: &Vec<Token>, p: usize) -> (r: Result<usize, ParseError>)
    requires
        p <= toks@.len(),
    ensures
        r is Ok ==> r->Ok_0 == p + 1 && p < toks@.len(),
        r is Err ==> err_src_ok(r->Err_0, toks@),
{
    if p >= toks.len() {
        Err(ParseError::UnexpectedEnd)
    } else if matches!(&toks[p].kind, TokenKind::RParen) {
        Ok(p + 1)
    } else {
        Err(err_at(toks, p))
    }
}

fn eat_semi(toks: &Vec<Token>, p: usize) -> (r: Result<usize, ParseError>)
    requires
        p <= toks@.len(),
    ensures
        r is Ok ==> r->Ok_0 == p + 1 && p < toks@.len(),
        r is Err ==> err_src_ok(r->Err_0, toks@),
{
    if p >= toks.len() {
        Err(ParseError::UnexpectedEnd)
    } else if matches!(&toks[p].kind, TokenKind::Semi) {
        Ok(p + 1)
    } else {
        Err(err_at(toks, p))
    }
}

fn eat_colon(toks: &Vec<Token>, p: usize) -> (r: Result<usize, ParseError>)
    requires
        p <= toks@.len(),
    ensures
        r is Ok ==> r->Ok_0 == p + 1 && p < toks@.len(),
        r is Err ==> err_src_ok(r->Err_0, toks@),
{
    if p >= toks.len() {
        Err(ParseError::UnexpectedEnd)
    } else if matches!(&toks[p].kind, TokenKind::Colon) {
        Ok(p + 1)
    } else {
        Err(err_at(toks, p))
    }
}

fn eat_rbracket(toks: &Vec<Token>, p: usize) -> (r: Result<usize, ParseError>)
    requires
        p <= toks@.len(),
    ensures
        r is Ok ==> r->Ok_0 == p + 1 && p < toks@.len(),
        r is Err ==> err_src_ok(r->Err_0, toks@),
{
    if p >= toks.len() {
        Err(ParseError::UnexpectedEnd)
    } else if matches!(&toks[p].kind, TokenKind::RBracket) {
        Ok(p + 1)
    } else {
        Err(err_at(toks, p))
    }
}

fn eat_rbrace(toks: &Vec<Token>, p: usize) -> (r: Result<usize, ParseError>)
    requires
        p <= toks@.len(),
    ensures
        r is Ok ==> r->Ok_0 == p + 1 && p < toks@.len(),
        r is Err ==> err_src_ok(r->Err_0, toks@),
{
    if p >= toks.len() {
        Err(ParseError::UnexpectedEnd)
    } else if matches!(&toks[p].kind, TokenKind::RBrace) {
        Ok(p + 1)
    } else {
        Err(err_at(toks, p))
    }
}

fn eat_equal(toks: &Vec<Token>, p: usize) -> (r: Result<usize, ParseError>)
    requires
        p <= toks@.len(),
    ensures
        r is Ok ==> r->Ok_0 == p + 1 && p < toks@.len(),
        r is Err ==> err_src_ok(r->Err_0, toks@),
{
    if p >= toks.len() {
        Err(ParseError::UnexpectedEnd)
    } else if matches!(&toks[p].kind, TokenKind::Equal) {
        Ok(p + 1)
    } else {
        Err(err_at(toks, p))
    }
}

fn eat_id(toks: &Vec<Token>, p: usize) -> (r: Result<(Ident, usize), ParseError>)
    requires
        p <= toks@.len(),
        toks_ids_wf(toks@),
    ensures
        r is Ok ==> r->Ok_0.1 == p + 1 && p < toks@.len() && ident_wf(r->Ok_0.0),
        r is Err ==> err_src_ok(r->Err_0, toks@),
{
    if p >= toks.len() {
        return Err(ParseError::UnexpectedEnd);
    }
    proof {
        assert(tok_id_wf(toks@[p as int]));
    }
    match &toks[p].kind {
        TokenKind::Id(s) => Ok((Ident(s.clone()), p + 1)),
        _ => Err(err_at(toks, p)),
    }
}

fn eat_num(toks: &Vec<Token>, p: usize) -> (r: Result<(i32, usize), ParseError>)
    requires
        p <= toks@.len(),
        toks_ids_wf(toks@),
    ensures
        r is Ok ==> r->Ok_0.1 == p + 1 && p < toks@.len() && r->Ok_0.0 >= 0,
        r is Err ==> err_src_ok(r->Err_0, toks@),
{
    if p >= toks.len() {
        return Err(ParseError::UnexpectedEnd);
    }
    proof {
        assert(tok_id_wf(toks@[p as int]));
    }
    match &toks[p].kind {
        TokenKind::Num(v) => Ok((*v, p + 1)),
        _ => Err(err_at(toks, p)),
    }
}

/// Primary expressions: a reference or slice, a number, a parenthesized
/// expression, a concatenation `{a, b}` or a replication `{n{v}}`.
fn parse_primary(toks: &Vec<Token>, pos: usize) -> (r: Result<(Expr, usize), ParseError>)
    requires
        pos <= toks@.len(),
        toks_ids_wf(toks@),
    ensures
        r is Ok ==> pos < r->Ok_0.1 <= toks@.len() && expr_wf(r->Ok_0.0),
        r is Err ==> err_src_ok(r->Err_0, toks@),
    decreases toks@.len() - pos, 0int,
{
    if pos >= toks.len() {
        return Err(ParseError::UnexpectedEnd);
    }
    match &toks[pos].kind {
        TokenKind::Id(s) => {
            proof {
                assert(tok_id_wf(toks@[pos as int]));
            }
            let name = Ident(s.clone());
            let p = pos + 1;
            if p < toks.len() && matches!(&toks[p].kind, TokenKind::LBracket) {
                let (hi, p) = match parse_expr(toks, p + 1) {
                    Ok(x) => x,
                    Err(e) => {
                        return Err(e);
                    },
                };
                if p < toks.len() && matches!(&toks[p].kind, TokenKind::Colon) {
                    let (lo, p) = match parse_expr(toks, p + 1) {
                        Ok(x) => x,
                        Err(e) => {
                            return Err(e);
                        },
                    };
                    let p = match eat_rbracket(toks, p) {
                        Ok(x) => x,
                        Err(e) => {
                            return Err(e);
                        },
                    };
                    Ok((Expr::Slice(name, Box::new(hi), Some(Box::new(lo))), p))
                } else {
                    let p = match eat_rbracket(toks, p) {
                        Ok(x) => x,
                        Err(e) => {
                            return Err(e);
                        },
                    };
                    Ok((Expr::Slice(name, Box::new(hi), None), p))
                }
            } else {
                Ok((Expr::Ref(name), p))
            }
        },
        TokenKind::Num(v) => Ok((Expr::Num(*v), pos + 1)),
        TokenKind::LParen => {
            let (e, p) = match parse_expr(toks, pos + 1) {
                Ok(x) => x,
                Err(er) => {
                    return Err(er);
                },
            };
            let p = match eat_rparen(toks, p) {
                Ok(x) => x,
                Err(er) => {
                    return Err(er);
                },
            };
            Ok((e, p))
        },
        TokenKind::LBrace => {
            let (first, p) = match parse_expr(toks, pos + 1) {
                Ok(x) => x,
                Err(er) => {
                    return Err(er);
                },
            };
            if p < toks.len() && matches!(&toks[p].kind, TokenKind::LBrace) {
                // replication: {count{item, item, ...}}
                let mut p = p + 1;
                let mut items: Vec<Expr> = Vec::new();
                let (item0, p2) = match parse_expr(toks, p) {
                    Ok(x) => x,
                    Err(er) => {
                        return Err(er);
                    },
                };
                items.push(item0);
                p = p2;
                while p < toks.len() && matches!(&toks[p].kind, TokenKind::Comma)
                    invariant
                        pos < p <= toks@.len(),
                        toks_ids_wf(toks@),
                        items@.len() >= 1,
                        forall|k: int| 0 <= k < items@.len() ==> expr_wf(#[trigger] items@[k]),
                    decreases toks@.len() - p,
                {
                    let (item, p2) = match parse_expr(toks, p + 1) {
                        Ok(x) => x,
                        Err(er) => {
                            return Err(er);
                        },
                    };
                    items.push(item);
                    p = p2;
                }
                let p = match eat_rbrace(toks, p) {
                    Ok(x) => x,
                    Err(er) => {
                        return Err(er);
                    },
                };
                let p = match eat_rbrace(toks, p) {
                    Ok(x) => x,
                    Err(er) => {
                        return Err(er);
                    },
                };
                let value = if items.len() == 1 {
                    match items.pop() {
                        Some(v) => v,
                        None => vstd::pervasive::unreached(),
                    }
                } else {
                    Expr::Concat(items)
                };
                proof {
                    assert(expr_wf(value));
                }
                Ok((Expr::Repeat(Box::new(first), Box::new(value)), p))
            } else {
                // concatenation: {a, b, ...}
                let mut p = p;
                let mut items: Vec<Expr> = Vec::new();
                items.push(first);
                while p < toks.len() && matches!(&toks[p].kind, TokenKind::Comma)
                    invariant
                        pos < p <= toks@.len(),
                        toks_ids_wf(toks@),
                        forall|k: int| 0 <= k < items@.len() ==> expr_wf(#[trigger] items@[k]),
                    decreases toks@.len() - p,
                {
                    let (item, p2) = match parse_expr(toks, p + 1) {
                        Ok(x) => x,
                        Err(er) => {
                            return Err(er);
                        },
                    };
                    items.push(item);
                    p = p2;
                }
                let p = match eat_rbrace(toks, p) {
                    Ok(x) => x,
                    Err(er) => {
                        return Err(er);
                    },
                };
                Ok((Expr::Concat(items), p))
            }
        },
        _ => Err(err_at(toks, pos)),
    }
}

/// Unary `!`, binding tighter than any binary operator.
fn parse_unary(toks: &Vec<Token>, pos: usize) -> (r: Result<(Expr, usize), ParseError>)
    requires
        pos <= toks@.len(),
        toks_ids_wf(toks@),
    ensures
        r is Ok ==> pos < r->Ok_0.1 <= toks@.len() && expr_wf(r->Ok_0.0),
        r is Err ==> err_src_ok(r->Err_0, toks@),
    decreases toks@.len() - pos, 1int,
{
    if pos < toks.len() && matches!(&toks[pos].kind, TokenKind::Bang) {
        let (x, p) = match parse_unary(toks, pos + 1) {
            Ok(x) => x,
            Err(e) => {
                return Err(e);
            },
        };
        Ok((Expr::Unary(UnaryOp::Not, Box::new(x)), p))
    } else {
        parse_primary(toks, pos)
    }
}

/// Multiplicative `* /`, left-associative.
fn parse_mul(toks: &Vec<Token>, pos: usize) -> (r: Result<(Expr, usize), ParseError>)
    requires
        pos <= toks@.len(),
        toks_ids_wf(toks@),
    ensures
        r is Ok ==> pos < r->Ok_0.1 <= toks@.len() && expr_wf(r->Ok_0.0),
        r is Err ==> err_src_ok(r->Err_0, toks@),
    decreases toks@.len() - pos, 2int,
{
    let (mut l, mut p) = match parse_unary(toks, pos) {
        Ok(x) => x,
        Err(e) => {
            return Err(e);
        },
    };
    loop
        invariant
            pos < p <= toks@.len(),
            toks_ids_wf(toks@),
            expr_wf(l),
        decreases toks@.len() - p,
    {
        let op = if p < toks.len() && matches!(&toks[p].kind, TokenKind::Star) {
            Op::Mul
        } else if p < toks.len() && matches!(&toks[p].kind, TokenKind::Slash) {
            Op::Div
        } else {
            return Ok((l, p));
        };
        let (rhs, p2) = match parse_unary(toks, p + 1) {
            Ok(x) => x,
            Err(e) => {
                return Err(e);
            },
        };
        l = Expr::Arith(op, Box::new(l), Box::new(rhs));
        p = p2;
    }
}

/// Additive `+ -`, left-associative.
fn parse_add(toks: &Vec<Token>, pos: usize) -> (r: Result<(Expr, usize), ParseError>)
    requires
        pos <= toks@.len(),
        toks_ids_wf(toks@),
    ensures
        r is Ok ==> pos < r->Ok_0.1 <= toks@.len() && expr_wf(r->Ok_0.0),
        r is Err ==> err_src_ok(r->Err_0, toks@),
    decreases toks@.len() - pos, 3int,
{
    let (mut l, mut p) = match parse_mul(toks, pos) {
        Ok(x) => x,
        Err(e) => {
            return Err(e);
        },
    };
    loop
        invariant
            pos < p <= toks@.len(),
            toks_ids_wf(toks@),
            expr_wf(l),
        decreases toks@.len() - p,
    {
        let op = if p < toks.len() && matches!(&toks[p].kind, TokenKind::Plus) {
            Op::Add
        } else if p < toks.len() && matches!(&toks[p].kind, TokenKind::Minus) {
            Op::Sub
        } else {
            return Ok((l, p));
        };
        let (rhs, p2) = match parse_mul(toks, p + 1) {
            Ok(x) => x,
            Err(e) => {
                return Err(e);
            },
        };
        l = Expr::Arith(op, Box::new(l), Box::new(rhs));
        p = p2;
    }
}

/// Shifts `<< >>`, left-associative.
fn parse_shift(toks: &Vec<Token>, pos: usize) -> (r: Result<(Expr, usize), ParseError>)
    requires
        pos <= toks@.len(),
        toks_ids_wf(toks@),
    ensures
        r is Ok ==> pos < r->Ok_0.1 <= toks@.len() && expr_wf(r->Ok_0.0),
        r is Err ==> err_src_ok(r->Err_0, toks@),
    decreases toks@.len() - pos, 4int,
{
    let (mut l, mut p) = match parse_add(toks, pos) {
        Ok(x) => x,
        Err(e) => {
            return Err(e);
        },
    };
    loop
        invariant
            pos < p <= toks@.len(),
            toks_ids_wf(toks@),
            expr_wf(l),
        decreases toks@.len() - p,
    {
        let op = if p < toks.len() && matches!(&toks[p].kind, TokenKind::Shl) {
            Op::LShift
        } else if p < toks.len() && matches!(&toks[p].kind, TokenKind::Shr) {
            Op::RShift
        } else {
            return Ok((l, p));
        };
        let (rhs, p2) = match parse_add(toks, p + 1) {
            Ok(x) => x,
            Err(e) => {
                return Err(e);
            },
        };
        l = Expr::Arith(op, Box::new(l), Box::new(rhs));
        p = p2;
    }
}

/// Bitwise `| &`, left-associative.
fn parse_bitwise(toks: &Vec<Token>, pos: usize) -> (r: Result<(Expr, usize), ParseError>)
    requires
        pos <= toks@.len(),
        toks_ids_wf(toks@),
    ensures
        r is Ok ==> pos < r->Ok_0.1 <= toks@.len() && expr_wf(r->Ok_0.0),
        r is Err ==> err_src_ok(r->Err_0, toks@),
    decreases toks@.len() - pos, 5int,
{
    let (mut l, mut p) = match parse_shift(toks, pos) {
        Ok(x) => x,
        Err(e) => {
            return Err(e);
        },
    };
    loop
        invariant
            pos < p <= toks@.len(),
            toks_ids_wf(toks@),
            expr_wf(l),
        decreases toks@.len() - p,
    {
        let op = if p < toks.len() && matches!(&toks[p].kind, TokenKind::Pipe) {
            Op::BinOr
        } else if p < toks.len() && matches!(&toks[p].kind, TokenKind::Amp) {
            Op::BinAnd
        } else {
            return Ok((l, p));
        };
        let (rhs, p2) = match parse_shift(toks, p + 1) {
            Ok(x) => x,
            Err(e) => {
                return Err(e);
            },
        };
        l = Expr::Arith(op, Box::new(l), Box::new(rhs));
        p = p2;
    }
}

/// Relational `< > <= >=`, left-associative.
fn parse_rel(toks: &Vec<Token>, pos: usize) -> (r: Result<(Expr, usize), ParseError>)
    requires
        pos <= toks@.len(),
        toks_ids_wf(toks@),
    ensures
        r is Ok ==> pos < r->Ok_0.1 <= toks@.len() && expr_wf(r->Ok_0.0),
        r is Err ==> err_src_ok(r->Err_0, toks@),
    decreases toks@.len() - pos, 6int,
{
    let (mut l, mut p) = match parse_bitwise(toks, pos) {
        Ok(x) => x,
        Err(e) => {
            return Err(e);
        },
    };
    loop
        invariant
            pos < p <= toks@.len(),
            toks_ids_wf(toks@),
            expr_wf(l),
        decreases toks@.len() - p,
    {
        let op = if p < toks.len() && matches!(&toks[p].kind, TokenKind::Lt) {
            Op::Lt
        } else if p < toks.len() && matches!(&toks[p].kind, TokenKind::Gt) {
            Op::Gt
        } else if p < toks.len() && matches!(&toks[p].kind, TokenKind::Lte) {
            Op::Lte
        } else if p < toks.len() && matches!(&toks[p].kind, TokenKind::Gte) {
            Op::Gte
        } else {
            return Ok((l, p));
        };
        let (rhs, p2) = match parse_bitwise(toks, p + 1) {
            Ok(x) => x,
            Err(e) => {
                return Err(e);
            },
        };
        l = Expr::Arith(op, Box::new(l), Box::new(rhs));
        p = p2;
    }
}

/// Equality `== !=`, left-associative.
fn parse_eq(toks: &Vec<Token>, pos: usize) -> (r: Result<(Expr, usize), ParseError>)
    requires
        pos <= toks@.len(),
        toks_ids_wf(toks@),
    ensures
        r is Ok ==> pos < r->Ok_0.1 <= toks@.len() && expr_wf(r->Ok_0.0),
        r is Err ==> err_src_ok(r->Err_0, toks@),
    decreases toks@.len() - pos, 7int,
{
    let (mut l, mut p) = match parse_rel(toks, pos) {
        Ok(x) => x,
        Err(e) => {
            return Err(e);
        },
    };
    loop
        invariant
            pos < p <= toks@.len(),
            toks_ids_wf(toks@),
            expr_wf(l),
        decreases toks@.len() - p,
    {
        let op = if p < toks.len() && matches!(&toks[p].kind, TokenKind::EqEq) {
            Op::Eq
        } else if p < toks.len() && matches!(&toks[p].kind, TokenKind::NotEq) {
            Op::Ne
        } else {
            return Ok((l, p));
        };
        let (rhs, p2) = match parse_rel(toks, p + 1) {
            Ok(x) => x,
            Err(e) => {
                return Err(e);
            },
        };
        l = Expr::Arith(op, Box::new(l), Box::new(rhs));
        p = p2;
    }
}

/// Logical `|| &&`, left-associative.
fn parse_logic(toks: &Vec<Token>, pos: usize) -> (r: Result<(Expr, usize), ParseError>)
    requires
        pos <= toks@.len(),
        toks_ids_wf(toks@),
    ensures
        r is Ok ==> pos < r->Ok_0.1 <= toks@.len() && expr_wf(r->Ok_0.0),
        r is Err ==> err_src_ok(r->Err_0, toks@),
    decreases toks@.len() - pos, 8int,
{
    let (mut l, mut p) = match parse_eq(toks, pos) {
        Ok(x) => x,
        Err(e) => {
            return Err(e);
        },
    };
    loop
        invariant
            pos < p <= toks@.len(),
            toks_ids_wf(toks@),
            expr_wf(l),
        decreases toks@.len() - p,
    {
        let op = if p < toks.len() && matches!(&toks[p].kind, TokenKind::OrOr) {
            Op::Or
        } else if p < toks.len() && matches!(&toks[p].kind, TokenKind::AndAnd) {
            Op::And
        } else {
            return Ok((l, p));
        };
        let (rhs, p2) = match parse_eq(toks, p + 1) {
            Ok(x) => x,
            Err(e) => {
                return Err(e);
            },
        };
        l = Expr::Arith(op, Box::new(l), Box::new(rhs));
        p = p2;
    }
}

/// A full expression: the ternary `?:` tier, right-associative, above the
/// logical tier.
fn parse_expr(toks: &Vec<Token>, pos: usize) -> (r: Result<(Expr, usize), ParseError>)
    requires
        pos <= toks@.len(),
        toks_ids_wf(toks@),
    ensures
        r is Ok ==> pos < r->Ok_0.1 <= toks@.len() && expr_wf(r->Ok_0.0),
        r is Err ==> err_src_ok(r->Err_0, toks@),
    decreases toks@.len() - pos, 9int,
{
    let (c, p) = match parse_logic(toks, pos) {
        Ok(x) => x,
        Err(e) => {
            return Err(e);
        },
    };
    if p < toks.len() && matches!(&toks[p].kind, TokenKind::Question) {
        let (t, p) = match parse_expr(toks, p + 1) {
            Ok(x) => x,
            Err(e) => {
                return Err(e);
            },
        };
        let p = match eat_colon(toks, p) {
            Ok(x) => x,
            Err(e) => {
                return Err(e);
            },
        };
        let (f, p) = match parse_expr(toks, p) {
            Ok(x) => x,
            Err(e) => {
                return Err(e);
            },
        };
        Ok((Expr::Ternary(Box::new(c), Box::new(t), Box::new(f)), p))
    } else {
        Ok((c, p))
    }
}

/// A single statement: `if`, `case`, or an assignment to a whole signal,
/// a bit-select, or a range-select.
fn parse_stmt(toks: &Vec<Token>, pos: usize) -> (r: Result<(Stmt, usize), ParseError>)
    requires
        pos <= toks@.len(),
        toks_ids_wf(toks@),
    ensures
        r is Ok ==> pos < r->Ok_0.1 <= toks@.len() && stmt_wf(r->Ok_0.0),
        r is Err ==> err_src_ok(r->Err_0, toks@),
    decreases toks@.len() - pos, 0int,
{
    if pos >= toks.len() {
        return Err(ParseError::UnexpectedEnd);
    }
    match &toks[pos].kind {
        TokenKind::KwIf => {
            let p = match eat_lparen(toks, pos + 1) {
                Ok(x) => x,
                Err(e) => {
                    return Err(e);
                },
            };
            let (cond, p) = match parse_expr(toks, p) {
                Ok(x) => x,
                Err(e) => {
                    return Err(e);
                },
            };
            let p = match eat_rparen(toks, p) {
                Ok(x) => x,
                Err(e) => {
                    return Err(e);
                },
            };
            let (then, p) = match parse_seq_block(toks, p) {
                Ok(x) => x,
                Err(e) => {
                    return Err(e);
                },
            };
            if p < toks.len() && matches!(&toks[p].kind, TokenKind::KwElse) {
                let (alt, p) = match parse_seq_block(toks, p + 1) {
                    Ok(x) => x,
                    Err(e) => {
                        return Err(e);
                    },
                };
                Ok((Stmt::If(cond, then, Some(alt)), p))
            } else {
                Ok((Stmt::If(cond, then, None), p))
            }
        },
        TokenKind::KwCase => {
            let p = match eat_lparen(toks, pos + 1) {
                Ok(x) => x,
                Err(e) => {
                    return Err(e);
                },
            };
            let (sel, p) = match parse_expr(toks, p) {
                Ok(x) => x,
                Err(e) => {
                    return Err(e);
                },
            };
            let mut p = match eat_rparen(toks, p) {
                Ok(x) => x,
                Err(e) => {
                    return Err(e);
                },
            };
            let mut arms: Vec<(Vec<Expr>, SeqBlock)> = Vec::new();
            while p < toks.len() && !(matches!(&toks[p].kind, TokenKind::KwEndcase))
                invariant
                    pos < p <= toks@.len(),
                    toks_ids_wf(toks@),
                    forall|k: int| 0 <= k < arms@.len() ==> match_arm_wf(#[trigger] arms@[k]),
                decreases toks@.len() - p,
            {
                let ghost arm_start: int = p as int;
                let (pat0, p2) = match parse_expr(toks, p) {
                    Ok(x) => x,
                    Err(e) => {
                        return Err(e);
                    },
                };
                let mut pats: Vec<Expr> = Vec::new();
                pats.push(pat0);
                p = p2;
                while p < toks.len() && matches!(&toks[p].kind, TokenKind::Comma)
                    invariant
                        pos < p <= toks@.len(),
                        arm_start < p,
                        toks_ids_wf(toks@),
                        pats@.len() >= 1,
                        forall|k: int| 0 <= k < pats@.len() ==> expr_wf(#[trigger] pats@[k]),
                    decreases toks@.len() - p,
                {
                    let (pat, p2) = match parse_expr(toks, p + 1) {
                        Ok(x) => x,
                        Err(e) => {
                            return Err(e);
                        },
                    };
                    pats.push(pat);
                    p = p2;
                }
                p = match eat_colon(toks, p) {
                    Ok(x) => x,
                    Err(e) => {
                        return Err(e);
                    },
                };
                let (body, p2) = match parse_seq_block(toks, p) {
                    Ok(x) => x,
                    Err(e) => {
                        return Err(e);
                    },
                };
                arms.push((pats, body));
                p = p2;
            }
            if p >= toks.len() {
                return Err(ParseError::UnexpectedEnd);
            }
            if arms.len() == 0 {
                return Err(err_at(toks, p));
            }
            Ok((Stmt::Match(sel, arms), p + 1))
        },
        TokenKind::Id(s) => {
            proof {
                assert(tok_id_wf(toks@[pos as int]));
            }
            let name = Ident(s.clone());
            let mut p = pos + 1;
            let mut idx1: Option<Expr> = None;
            let mut idx2: Option<Expr> = None;
            if p < toks.len() && matches!(&toks[p].kind, TokenKind::LBracket) {
                let (i1, p2) = match parse_expr(toks, p + 1) {
                    Ok(x) => x,
                    Err(e) => {
                        return Err(e);
                    },
                };
                p = p2;
                idx1 = Some(i1);
                if p < toks.len() && matches!(&toks[p].kind, TokenKind::Colon) {
                    let (i2, p2) = match parse_expr(toks, p + 1) {
                        Ok(x) => x,
                        Err(e) => {
                            return Err(e);
                        },
                    };
                    p = p2;
                    idx2 = Some(i2);
                }
                p = match eat_rbracket(toks, p) {
                    Ok(x) => x,
                    Err(e) => {
                        return Err(e);
                    },
                };
            }
            if p >= toks.len() {
                return Err(ParseError::UnexpectedEnd);
            }
            let kind = if matches!(&toks[p].kind, TokenKind::Equal) {
                BlockType::Blocking
            } else if matches!(&toks[p].kind, TokenKind::Lte) {
                BlockType::NonBlocking
            } else {
                return Err(err_at(toks, p));
            };
            let (value, p2) = match parse_expr(toks, p + 1) {
                Ok(x) => x,
                Err(e) => {
                    return Err(e);
                },
            };
            p = p2;
            p = match eat_semi(toks, p) {
                Ok(x) => x,
                Err(e) => {
                    return Err(e);
                },
            };
            let stmt = match (idx1, idx2) {
                (None, _) => Stmt::Assign(kind, name, value),
                (Some(i1), None) => Stmt::SetIndex(kind, name, i1, value),
                (Some(i1), Some(i2)) => Stmt::SetRange(kind, name, i1, i2, value),
            };
            Ok((stmt, p))
        },
        _ => Err(err_at(toks, pos)),
    }
}

/// A statement group: either a bare statement (`Single`) or `begin` ...
/// `end`. A delimited group with one statement also comes out as `Single`;
/// an empty delimited group is a syntax error, so a produced `Block`
/// always holds at least two statements.
fn parse_seq_block(toks: &Vec<Token>, pos: usize) -> (r: Result<(SeqBlock, usize), ParseError>)
    requires
        pos <= toks@.len(),
        toks_ids_wf(toks@),
    ensures
        r is Ok ==> pos < r->Ok_0.1 <= toks@.len() && seq_block_wf(r->Ok_0.0),
        r is Err ==> err_src_ok(r->Err_0, toks@),
    decreases toks@.len() - pos, 1int,
{
    if pos >= toks.len() {
        return Err(ParseError::UnexpectedEnd);
    }
    if matches!(&toks[pos].kind, TokenKind::KwBegin) {
        let mut p = pos + 1;
        let mut stmts: Vec<Stmt> = Vec::new();
        while p < toks.len() && !(matches!(&toks[p].kind, TokenKind::KwEnd))
            invariant
                pos < p <= toks@.len(),
                toks_ids_wf(toks@),
                forall|k: int| 0 <= k < stmts@.len() ==> stmt_wf(#[trigger] stmts@[k]),
            decreases toks@.len() - p,
        {
            let (s, p2) = match parse_stmt(toks, p) {
                Ok(x) => x,
                Err(e) => {
                    return Err(e);
                },
            };
            stmts.push(s);
            p = p2;
        }
        if p >= toks.len() {
            return Err(ParseError::UnexpectedEnd);
        }
        if stmts.len() == 0 {
            return Err(err_at(toks, p));
        }
        if stmts.len() == 1 {
            let s = match stmts.pop() {
                Some(s) => s,
                None => vstd::pervasive::unreached(),
            };
            Ok((SeqBlock::Single(Box::new(s)), p + 1))
        } else {
            Ok((SeqBlock::Block(stmts), p + 1))
        }
    } else {
        let (s, p) = match parse_stmt(toks, pos) {
            Ok(x) => x,
            Err(e) => {
                return Err(e);
            },
        };
        Ok((SeqBlock::Single(Box::new(s)), p))
    }
}

/// A comma-separated list of names closed by `;`, each becoming an `Arg`
/// with the given direction and width.
fn parse_name_group(toks: &Vec<Token>, pos: usize, dir: Option<Dir>, width: Option<i32>) -> (r:
    Result<(Vec<Arg>, usize), ParseError>)
    requires
        pos <= toks@.len(),
        toks_ids_wf(toks@),
    ensures
        r is Ok ==> pos < r->Ok_0.1 <= toks@.len() && (forall|k: int|
            0 <= k < r->Ok_0.0@.len() ==> arg_wf(#[trigger] r->Ok_0.0@[k])),
        r is Err ==> err_src_ok(r->Err_0, toks@),
{
    let (name0, p0) = match eat_id(toks, pos) {
        Ok(x) => x,
        Err(e) => {
            return Err(e);
        },
    };
    let mut args: Vec<Arg> = Vec::new();
    let mut p = p0;
    args.push((name0, dir_copy(&dir), width));
    while p < toks.len() && matches!(&toks[p].kind, TokenKind::Comma)
        invariant
            pos < p <= toks@.len(),
            toks_ids_wf(toks@),
            forall|k: int| 0 <= k < args@.len() ==> arg_wf(#[trigger] args@[k]),
        decreases toks@.len() - p,
    {
        let (name, p2) = match eat_id(toks, p + 1) {
            Ok(x) => x,
            Err(e) => {
                return Err(e);
            },
        };
        args.push((name, dir_copy(&dir), width));
        p = p2;
    }
    let p = match eat_semi(toks, p) {
        Ok(x) => x,
        Err(e) => {
            return Err(e);
        },
    };
    Ok((args, p))
}

fn dir_copy(d: &Option<Dir>) -> (r: Option<Dir>)
    ensures
        r == *d,
{
    match d {
        None => None,
        Some(Dir::Input) => Some(Dir::Input),
        Some(Dir::Output) => Some(Dir::Output),
    }
}

/// An optional inline `[hi:lo]` width on a declaration group, folded to
/// the number of bits it spans.
fn parse_group_width(toks: &Vec<Token>, pos: usize) -> (r: Result<(Option<i32>, usize), ParseError>)
    requires
        pos <= toks@.len(),
        toks_ids_wf(toks@),
    ensures
        r is Ok ==> pos <= r->Ok_0.1 <= toks@.len(),
        r is Err ==> err_src_ok(r->Err_0, toks@),
{
    if pos < toks.len() && matches!(&toks[pos].kind, TokenKind::LBracket) {
        let (hi, p) = match eat_num(toks, pos + 1) {
            Ok(x) => x,
            Err(e) => {
                return Err(e);
            },
        };
        let p = match eat_colon(toks, p) {
            Ok(x) => x,
            Err(e) => {
                return Err(e);
            },
        };
        let (lo, p) = match eat_num(toks, p) {
            Ok(x) => x,
            Err(e) => {
                return Err(e);
            },
        };
        let p = match eat_rbracket(toks, p) {
            Ok(x) => x,
            Err(e) => {
                return Err(e);
            },
        };
        let d: i64 = (hi as i64) - (lo as i64);
        let span: i64 = if d < 0 {
            -d
        } else {
            d
        };
        if span + 1 > 0x7fff_ffff {
            return Err(err_at(toks, pos));
        }
        Ok((Some((span + 1) as i32), p))
    } else {
        Ok((None, pos))
    }
}

/// An optional `[hi:lo]` dimension pair on a `reg` or `wire` declaration.
fn parse_dims(toks: &Vec<Token>, pos: usize) -> (r: Result<(Vec<Expr>, usize), ParseError>)
    requires
        pos <= toks@.len(),
        toks_ids_wf(toks@),
    ensures
        r is Ok ==> pos <= r->Ok_0.1 <= toks@.len() && (forall|k: int|
            0 <= k < r->Ok_0.0@.len() ==> expr_wf(#[trigger] r->Ok_0.0@[k])),
        r is Err ==> err_src_ok(r->Err_0, toks@),
{
    if pos < toks.len() && matches!(&toks[pos].kind, TokenKind::LBracket) {
        let (hi, p) = match parse_expr(toks, pos + 1) {
            Ok(x) => x,
            Err(e) => {
                return Err(e);
            },
        };
        let p = match eat_colon(toks, p) {
            Ok(x) => x,
            Err(e) => {
                return Err(e);
            },
        };
        let (lo, p) = match parse_expr(toks, p) {
            Ok(x) => x,
            Err(e) => {
                return Err(e);
            },
        };
        let p = match eat_rbracket(toks, p) {
            Ok(x) => x,
            Err(e) => {
                return Err(e);
            },
        };
        let mut dims: Vec<Expr> = Vec::new();
        dims.push(hi);
        dims.push(lo);
        Ok((dims, p))
    } else {
        Ok((Vec::new(), pos))
    }
}

/// One module-body declaration.
fn parse_decl(toks: &Vec<Token>, pos: usize) -> (r: Result<(Decl, usize), ParseError>)
    requires
        pos <= toks@.len(),
        toks_ids_wf(toks@),
    ensures
        r is Ok ==> pos < r->Ok_0.1 <= toks@.len() && decl_wf(r->Ok_0.0),
        r is Err ==> err_src_ok(r->Err_0, toks@),
{
    if pos >= toks.len() {
        return Err(ParseError::UnexpectedEnd);
    }
    match &toks[pos].kind {
        TokenKind::KwInput => {
            let (width, p) = match parse_group_width(toks, pos + 1) {
                Ok(x) => x,
                Err(e) => {
                    return Err(e);
                },
            };
            let (args, p) = match parse_name_group(toks, p, Some(Dir::Input), width) {
                Ok(x) => x,
                Err(e) => {
                    return Err(e);
                },
            };
            Ok((Decl::InnerArg(args), p))
        },
        TokenKind::KwOutput => {
            let (width, p) = match parse_group_width(toks, pos + 1) {
                Ok(x) => x,
                Err(e) => {
                    return Err(e);
                },
            };
            let (args, p) = match parse_name_group(toks, p, Some(Dir::Output), width) {
                Ok(x) => x,
                Err(e) => {
                    return Err(e);
                },
            };
            Ok((Decl::InnerArg(args), p))
        },
        TokenKind::KwReg => {
            let (dims, p) = match parse_dims(toks, pos + 1) {
                Ok(x) => x,
                Err(e) => {
                    return Err(e);
                },
            };
            let (name, p) = match eat_id(toks, p) {
                Ok(x) => x,
                Err(e) => {
                    return Err(e);
                },
            };
            let p = match eat_semi(toks, p) {
                Ok(x) => x,
                Err(e) => {
                    return Err(e);
                },
            };
            Ok((Decl::Reg(name, dims), p))
        },
        TokenKind::KwWire => {
            let (dims, p) = match parse_dims(toks, pos + 1) {
                Ok(x) => x,
                Err(e) => {
                    return Err(e);
                },
            };
            let (name, p) = match eat_id(toks, p) {
                Ok(x) => x,
                Err(e) => {
                    return Err(e);
                },
            };
            if p < toks.len() && matches!(&toks[p].kind, TokenKind::Equal) {
                let (init, p) = match parse_expr(toks, p + 1) {
                    Ok(x) => x,
                    Err(e) => {
                        return Err(e);
                    },
                };
                let p = match eat_semi(toks, p) {
                    Ok(x) => x,
                    Err(e) => {
                        return Err(e);
                    },
                };
                Ok((Decl::Wire(name, dims, Some(init)), p))
            } else {
                let p = match eat_semi(toks, p) {
                    Ok(x) => x,
                    Err(e) => {
                        return Err(e);
                    },
                };
                Ok((Decl::Wire(name, dims, None), p))
            }
        },
        TokenKind::KwParameter => {
            let (name, p) = match eat_id(toks, pos + 1) {
                Ok(x) => x,
                Err(e) => {
                    return Err(e);
                },
            };
            let p = match eat_equal(toks, p) {
                Ok(x) => x,
                Err(e) => {
                    return Err(e);
                },
            };
            let (value, p) = match parse_expr(toks, p) {
                Ok(x) => x,
                Err(e) => {
                    return Err(e);
                },
            };
            let p = match eat_semi(toks, p) {
                Ok(x) => x,
                Err(e) => {
                    return Err(e);
                },
            };
            Ok((Decl::Const(name, value), p))
        },
        TokenKind::KwAlways => {
            let p = pos + 1;
            if p >= toks.len() {
                return Err(ParseError::UnexpectedEnd);
            }
            if !(matches!(&toks[p].kind, TokenKind::At)) {
                return Err(err_at(toks, p));
            }
            let p = match eat_lparen(toks, p + 1) {
                Ok(x) => x,
                Err(e) => {
                    return Err(e);
                },
            };
            if p >= toks.len() {
                return Err(ParseError::UnexpectedEnd);
            }
            let edge = if matches!(&toks[p].kind, TokenKind::KwPosedge) {
                Edge::Pos
            } else if matches!(&toks[p].kind, TokenKind::KwNegedge) {
                Edge::Neg
            } else {
                return Err(err_at(toks, p));
            };
            let (signal, p) = match eat_id(toks, p + 1) {
                Ok(x) => x,
                Err(e) => {
                    return Err(e);
                },
            };
            let p = match eat_rparen(toks, p) {
                Ok(x) => x,
                Err(e) => {
                    return Err(e);
                },
            };
            let (body, p) = match parse_seq_block(toks, p) {
                Ok(x) => x,
                Err(e) => {
                    return Err(e);
                },
            };
            Ok((Decl::Always(EdgeRef(signal, edge), body), p))
        },
        TokenKind::Id(s) => {
            if pos + 1 < toks.len() && matches!(&toks[pos + 1].kind, TokenKind::Id(_)) {
                // a sub-module instantiation: Type instance (.port(expr), ...)
                proof {
                    assert(tok_id_wf(toks@[pos as int]));
                }
                let mod_name = Ident(s.clone());
                let (instance_name, p) = match eat_id(toks, pos + 1) {
                    Ok(x) => x,
                    Err(e) => {
                        return Err(e);
                    },
                };
                let mut p = match eat_lparen(toks, p) {
                    Ok(x) => x,
                    Err(e) => {
                        return Err(e);
                    },
                };
                let mut bindings: Vec<(Ident, Expr)> = Vec::new();
                while p < toks.len() && matches!(&toks[p].kind, TokenKind::Dot)
                    invariant
                        pos < p <= toks@.len(),
                        toks_ids_wf(toks@),
                        forall|k: int| 0 <= k < bindings@.len() ==> ident_wf(
                            (#[trigger] bindings@[k]).0,
                        ) && expr_wf(bindings@[k].1),
                    decreases toks@.len() - p,
                {
                    let (port, p2) = match eat_id(toks, p + 1) {
                        Ok(x) => x,
                        Err(e) => {
                            return Err(e);
                        },
                    };
                    let p2 = match eat_lparen(toks, p2) {
                        Ok(x) => x,
                        Err(e) => {
                            return Err(e);
                        },
                    };
                    let (value, p2) = match parse_expr(toks, p2) {
                        Ok(x) => x,
                        Err(e) => {
                            return Err(e);
                        },
                    };
                    let p2 = match eat_rparen(toks, p2) {
                        Ok(x) => x,
                        Err(e) => {
                            return Err(e);
                        },
                    };
                    bindings.push((port, value));
                    p = p2;
                    if p < toks.len() && matches!(&toks[p].kind, TokenKind::Comma) {
                        p = p + 1;
                    } else {
                        break ;
                    }
                }
                let p = match eat_rparen(toks, p) {
                    Ok(x) => x,
                    Err(e) => {
                        return Err(e);
                    },
                };
                let p = match eat_semi(toks, p) {
                    Ok(x) => x,
                    Err(e) => {
                        return Err(e);
                    },
                };
                Ok((Decl::Let(mod_name, instance_name, bindings), p))
            } else {
                // a plain signal group: name, name, ... ;
                let (args, p) = match parse_name_group(toks, pos, None, None) {
                    Ok(x) => x,
                    Err(e) => {
                        return Err(e);
                    },
                };
                Ok((Decl::InnerArg(args), p))
            }
        },
        _ => Err(err_at(toks, pos)),
    }
}

/// One `module` ... `endmodule` item.
fn parse_toplevel(toks: &Vec<Token>, pos: usize) -> (r: Result<(Toplevel, usize), ParseError>)
    requires
        pos <= toks@.len(),
        toks_ids_wf(toks@),
    ensures
        r is Ok ==> pos < r->Ok_0.1 <= toks@.len() && toplevel_wf(r->Ok_0.0),
        r is Ok ==> toks@[pos as int].kind is KwModule,
        r is Err ==> err_src_ok(r->Err_0, toks@),
{
    if pos >= toks.len() {
        return Err(ParseError::UnexpectedEnd);
    }
    if !(matches!(&toks[pos].kind, TokenKind::KwModule)) {
        return Err(err_at(toks, pos));
    }
    let (name, p) = match eat_id(toks, pos + 1) {
        Ok(x) => x,
        Err(e) => {
            return Err(e);
        },
    };
    let mut p = match eat_lparen(toks, p) {
        Ok(x) => x,
        Err(e) => {
            return Err(e);
        },
    };
    let mut args: Vec<Arg> = Vec::new();
    if p < toks.len() && !(matches!(&toks[p].kind, TokenKind::RParen)) {
        let (port0, p2) = match eat_id(toks, p) {
            Ok(x) => x,
            Err(e) => {
                return Err(e);
            },
        };
        args.push((port0, None, None));
        p = p2;
        while p < toks.len() && matches!(&toks[p].kind, TokenKind::Comma)
            invariant
                pos < p <= toks@.len(),
                toks_ids_wf(toks@),
                forall|k: int| 0 <= k < args@.len() ==> arg_wf(#[trigger] args@[k]),
            decreases toks@.len() - p,
        {
            let (port, p2) = match eat_id(toks, p + 1) {
                Ok(x) => x,
                Err(e) => {
                    return Err(e);
                },
            };
            args.push((port, None, None));
            p = p2;
        }
    }
    let p = match eat_rparen(toks, p) {
        Ok(x) => x,
        Err(e) => {
            return Err(e);
        },
    };
    let mut p = match eat_semi(toks, p) {
        Ok(x) => x,
        Err(e) => {
            return Err(e);
        },
    };
    let mut decls: Vec<Decl> = Vec::new();
    while p < toks.len() && !(matches!(&toks[p].kind, TokenKind::KwEndmodule))
        invariant
            pos < p <= toks@.len(),
            toks_ids_wf(toks@),
            forall|k: int| 0 <= k < decls@.len() ==> decl_wf(#[trigger] decls@[k]),
        decreases toks@.len() - p,
    {
        let (d, p2) = match parse_decl(toks, p) {
            Ok(x) => x,
            Err(e) => {
                return Err(e);
            },
        };
        decls.push(d);
        p = p2;
    }
    if p >= toks.len() {
        return Err(ParseError::UnexpectedEnd);
    }
    Ok((Toplevel::Module(name, args, decls), p + 1))
}

/// Parses a whole token stream into a `Code` tree: a sequence of modules
/// covering all tokens. On success the tree is well formed (`code_wf`);
/// on failure the reported offset, if any, comes from one of the tokens.
pub fn parse_tokens(toks: &Vec<Token>) -> (r: Result<Code, ParseError>)
    requires
        toks_ids_wf(toks@),
    ensures
        r is Ok ==> code_wf(r->Ok_0),
        r is Err ==> err_src_ok(r->Err_0, toks@),
        toks@.len() == 0 ==> r is Ok && r->Ok_0.0@.len() == 0,
        r is Ok && toks@.len() > 0 ==> toks@[0].kind is KwModule && r->Ok_0.0@.len() > 0,
        toks@.len() > 0 && !(toks@[0].kind is KwModule) ==> r is Err,
{
    let mut items: Vec<Toplevel> = Vec::new();
    let mut p: usize = 0;
    while p < toks.len()
        invariant
            p <= toks@.len(),
            toks_ids_wf(toks@),
            toks@.len() == 0 ==> items@.len() == 0,
            p > 0 ==> items@.len() > 0 && toks@[0].kind is KwModule,
            forall|k: int| 0 <= k < items@.len() ==> toplevel_wf(#[trigger] items@[k]),
        decreases toks@.len() - p,
    {
        let (t, p2) = match parse_toplevel(toks, p) {
            Ok(x) => x,
            Err(e) => {
                return Err(e);
            },
        };
        items.push(t);
        p = p2;
    }
    Ok(Code(items))
}

/// An error reported by `parse` lies inside the comment-stripped source:
/// an `UnexpectedToken` offset is the start of a token, an `InvalidToken`
/// offset is at most the text's length (the end, for a literal cut off by
/// the end of input).
pub open spec fn parse_error_in_src(e: ParseError, n: int) -> bool {
    match e {
        ParseError::InvalidToken { offset } => offset <= n,
        ParseError::UnexpectedToken { offset } => offset < n,
        ParseError::UnexpectedEnd => true,
    }
}

/// Parses Verilog source text: strips comments, lexes, and parses. On
/// success the returned tree is well formed (`code_wf`: non-empty
/// identifiers, and every `SeqBlock::Block` with two or more statements);
/// on failure the error's offset is a byte offset into the
/// comment-stripped text.
pub fn parse(code: &str) -> (r: Result<Code, ParseError>)
    ensures
        r is Ok ==> code_wf(r->Ok_0),
        r is Err ==> parse_error_in_src(
            r->Err_0,
            vstd::utf8::encode_utf8(crate::strip::spec_strip_comments(code@)).len() as int,
        ),
        code@.len() == 0 ==> r is Ok && r->Ok_0.0@.len() == 0,
        r is Ok ==> ({
            // success is only possible when the comment-stripped text is
            // blank, or begins, after whitespace, with the word `module`
            let s = vstd::utf8::encode_utf8(crate::strip::spec_strip_comments(code@));
            let f = crate::lexer::spec_skip_space(s, 0);
            f == s.len() || (crate::lexer::spec_word_at(s, f, crate::lexer::spec_ident_end(s, f))
                && s.subrange(f, crate::lexer::spec_ident_end(s, f)) == "module".spec_bytes())
        }),
{
    let stripped = crate::strip::strip_comments(code);
    let bytes: &[u8] = stripped.as_str().as_bytes();
    let ghost n: int = vstd::utf8::encode_utf8(crate::strip::spec_strip_comments(code@)).len()
        as int;
    proof {
        assert(bytes@.len() == n);
    }
    match crate::lexer::lex(bytes) {
        Err(off) => Err(ParseError::InvalidToken { offset: off }),
        Ok(toks) => {
            proof {
                assert forall|k: int| 0 <= k < toks@.len() implies tok_id_wf(
                    #[trigger] toks@[k],
                ) by {
                    assert(crate::lexer::token_wf(toks@[k], bytes@.len() as int));
                }
            }
            match parse_tokens(&toks) {
                Ok(c) => {
                    proof {
                        if toks@.len() == 0 {
                            crate::lexer::lemma_skip_space_interval(
                                bytes@,
                                0,
                                bytes@.len() as int,
                            );
                        } else {
                            let t0 = toks@[0];
                            assert(crate::lexer::spec_token_at(
                                bytes@,
                                t0,
                                crate::lexer::spec_token_end(bytes@, t0),
                            ));
                            assert(!crate::lexer::is_space_byte(bytes@[t0.offset as int]));
                            crate::lexer::lemma_skip_space_interval(
                                bytes@,
                                0,
                                t0.offset as int,
                            );
                        }
                    }
                    Ok(c)
                },
                Err(e) => {
                    proof {
                        if e is UnexpectedToken {
                            let k = choose|k: int|
                                0 <= k < toks@.len() && (#[trigger] toks@[k]).offset
                                    == e->UnexpectedToken_offset;
                            assert(crate::lexer::token_wf(toks@[k], bytes@.len() as int));
                        }
                    }
                    Err(e)
                },
            }
        },
    }
}

} // verus!
