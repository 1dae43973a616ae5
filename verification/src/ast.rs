//! The abstract syntax tree for the supported Verilog subset: pure data,
//! produced by the parser and consumed by the printer.
//!
//! Well-formedness of a tree is captured by the `*_wf` spec functions:
//! every identifier is non-empty, and every `SeqBlock::Block` holds at
//! least two statements (a single statement must be `SeqBlock::Single`,
//! so the printer can pick `begin`/`end` framing without looking inside).

use vstd::prelude::*;

verus! {

/// A parse result: an ordered sequence of top-level items.
#[derive(Debug, Eq, Hash, PartialEq)]
pub struct Code(pub Vec<Toplevel>);

/// A port or signal entry: name, optional direction, optional bit width.
pub type Arg = (Ident, Option<Dir>, Option<i32>);

#[derive(Debug, Eq, Hash, PartialEq)]
pub enum Toplevel {
    Module(Ident, Vec<Arg>, Vec<Decl>),
}

/// A non-empty identifier; equality is structural and case-sensitive.
#[derive(Clone, Debug, Eq, Hash, PartialEq)]
pub struct Ident(pub String);

/// Port direction.
#[derive(Clone, Debug, Eq, Hash, PartialEq)]
pub enum Dir {
    Input,
    Output,
}

/// Clock-edge polarity.
#[derive(Clone, Debug, Eq, Hash, PartialEq)]
pub enum Edge {
    Pos,
    Neg,
}

/// The clock sensitivity of an `always` block: a signal and an edge.
#[derive(Clone, Debug, Eq, Hash, PartialEq)]
pub struct EdgeRef(pub Ident, pub Edge);

/// A module-body item.
#[derive(Debug, Eq, Hash, PartialEq)]
pub enum Decl {
    InnerArg(Vec<Arg>),
    Reg(Ident, Vec<Expr>),
    Wire(Ident, Vec<Expr>, Option<Expr>),
    Let(Ident, Ident, Vec<(Ident, Expr)>),
    Const(Ident, Expr),
    Always(EdgeRef, SeqBlock),
}

/// The body of a sequential process: either a `begin`/`end` block of two
/// or more statements, or a single statement without delimiters.
#[derive(Debug, Eq, Hash, PartialEq)]
pub enum SeqBlock {
    Block(Vec<Stmt>),
    Single(Box<Stmt>),
}

/// Assignment kind: immediate (`=`), scheduled (`<=`), or static.
#[derive(Copy, Clone, Debug, Eq, Hash, PartialEq)]
pub enum BlockType {
    Blocking,
    NonBlocking,
    Static,
}

/// A statement inside a sequential process.
#[derive(Debug, Eq, Hash, PartialEq)]
pub enum Stmt {
    If(Expr, SeqBlock, Option<SeqBlock>),
    Assign(BlockType, Ident, Expr),
    SetIndex(BlockType, Ident, Expr, Expr),
    SetRange(BlockType, Ident, Expr, Expr, Expr),
    Match(Expr, Vec<(Vec<Expr>, SeqBlock)>),
}

/// Binary operators, lowest to tightest precedence tier in the grammar.
#[derive(Clone, Debug, Eq, Hash, PartialEq)]
pub enum Op {
    Add,
    Sub,
    Mul,
    Div,
    Eq,
    Lte,
    Gte,
    And,
    Or,
    Lt,
    Gt,
    Ne,
    BinOr,
    BinAnd,
    LShift,
    RShift,
}

#[derive(Clone, Debug, Eq, Hash, PartialEq)]
pub enum UnaryOp {
    Not,
}

/// An expression tree. Sized literals such as `8'b0` are folded into a
/// plain `Num` at parse time; width and base are not retained.
#[derive(Debug, Eq, Hash, PartialEq)]
pub enum Expr {
    Ref(Ident),
    Slice(Ident, Box<Expr>, Option<Box<Expr>>),
    Ternary(Box<Expr>, Box<Expr>, Box<Expr>),
    Concat(Vec<Expr>),
    Repeat(Box<Expr>, Box<Expr>),
    Arith(Op, Box<Expr>, Box<Expr>),
    Unary(UnaryOp, Box<Expr>),
    Num(i32),
}

pub open spec fn ident_wf(i: Ident) -> bool {
    i.0@.len() > 0
}

pub open spec fn arg_wf(a: Arg) -> bool {
    ident_wf(a.0)
}

pub open spec fn expr_wf(e: Expr) -> bool
    decreases e,
{
    match e {
        Expr::Ref(name) => ident_wf(name),
        Expr::Slice(name, hi, lo) => ident_wf(name) && expr_wf(*hi) && (match lo {
            Some(l) => expr_wf(*l),
            None => true,
        }),
        Expr::Ternary(c, t, f) => expr_wf(*c) && expr_wf(*t) && expr_wf(*f),
        Expr::Concat(parts) => forall|i: int|
            0 <= i < parts@.len() ==> expr_wf(#[trigger] parts@[i]),
        Expr::Repeat(count, value) => expr_wf(*count) && expr_wf(*value),
        Expr::Arith(_, l, r) => expr_wf(*l) && expr_wf(*r),
        Expr::Unary(_, x) => expr_wf(*x),
        Expr::Num(_) => true,
    }
}

pub open spec fn stmt_wf(s: Stmt) -> bool
    decreases s,
{
    match s {
        Stmt::If(cond, then, alt) => expr_wf(cond) && seq_block_wf(then) && (match alt {
            Some(b) => seq_block_wf(b),
            None => true,
        }),
        Stmt::Assign(_, name, value) => ident_wf(name) && expr_wf(value),
        Stmt::SetIndex(_, name, index, value) => ident_wf(name) && expr_wf(index) && expr_wf(
            value,
        ),
        Stmt::SetRange(_, name, hi, lo, value) => ident_wf(name) && expr_wf(hi) && expr_wf(lo)
            && expr_wf(value),
        Stmt::Match(sel, arms) => expr_wf(sel) && arms@.len() > 0 && forall|i: int|
            0 <= i < arms@.len() ==> match_arm_wf(#[trigger] arms@[i]),
    }
}

pub open spec fn match_arm_wf(arm: (Vec<Expr>, SeqBlock)) -> bool
    decreases arm,
{
    &&& arm.0@.len() > 0
    &&& forall|j: int| 0 <= j < arm.0@.len() ==> expr_wf(#[trigger] arm.0@[j])
    &&& seq_block_wf(arm.1)
}

pub open spec fn seq_block_wf(b: SeqBlock) -> bool
    decreases b,
{
    match b {
        SeqBlock::Block(stmts) => stmts@.len() >= 2 && forall|i: int|
            0 <= i < stmts@.len() ==> stmt_wf(#[trigger] stmts@[i]),
        SeqBlock::Single(s) => stmt_wf(*s),
    }
}

pub open spec fn decl_wf(d: Decl) -> bool
    decreases d,
{
    match d {
        Decl::InnerArg(args) => forall|i: int|
            0 <= i < args@.len() ==> arg_wf(#[trigger] args@[i]),
        Decl::Reg(name, dims) => ident_wf(name) && forall|i: int|
            0 <= i < dims@.len() ==> expr_wf(#[trigger] dims@[i]),
        Decl::Wire(name, dims, init) => ident_wf(name) && (forall|i: int|
            0 <= i < dims@.len() ==> expr_wf(#[trigger] dims@[i])) && (match init {
            Some(e) => expr_wf(e),
            None => true,
        }),
        Decl::Let(mod_name, instance_name, bindings) => ident_wf(mod_name) && ident_wf(
            instance_name,
        ) && forall|i: int|
            0 <= i < bindings@.len() ==> ident_wf(#[trigger] bindings@[i].0) && expr_wf(
                bindings@[i].1,
            ),
        Decl::Const(name, value) => ident_wf(name) && expr_wf(value),
        Decl::Always(edge, body) => ident_wf(edge.0) && seq_block_wf(body),
    }
}

pub open spec fn toplevel_wf(t: Toplevel) -> bool
    decreases t,
{
    match t {
        Toplevel::Module(name, args, decls) => {
            &&& ident_wf(name)
            &&& forall|i: int| 0 <= i < args@.len() ==> arg_wf(#[trigger] args@[i])
            &&& forall|i: int| 0 <= i < decls@.len() ==> decl_wf(#[trigger] decls@[i])
        },
    }
}

/// Every `SeqBlock::Block` anywhere in the tree has two or more statements,
/// and every identifier is non-empty.
pub open spec fn code_wf(c: Code) -> bool {
    forall|i: int| 0 <= i < c.0@.len() ==> toplevel_wf(#[trigger] c.0@[i])
}

impl Expr {
    /// The integer value of a `Num` node; not defined on other variants.
    pub fn to_i32(&self) -> (r: i32)
        requires
            self is Num,
        ensures
            r == self->Num_0,
    {
        match self {
            Expr::Num(value) => *value,
            _ => vstd::pervasive::unreached(),
        }
    }
}

} // verus!
