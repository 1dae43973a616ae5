//! The tree-to-text serializer. Rendering is total: constructs the printer
//! does not yet support come out as a visible placeholder (`TODO`), never as
//! silently dropped output. The `spec_render_*` functions are the exact
//! mathematical statement of the produced text; every `to_verilog` method
//! ensures its result equals the corresponding spec.

use vstd::prelude::*;

use crate::ast::BlockType;
use crate::ast::Code;
use crate::ast::Decl;
use crate::ast::Edge;
use crate::ast::EdgeRef;
use crate::ast::Expr;
use crate::ast::Op;
use crate::ast::SeqBlock;
use crate::ast::Stmt;
use crate::ast::Toplevel;
use crate::ast::Arg;
use vstd::string::StringExecFns;

verus! {

pub open spec fn spec_render_edge(e: Edge) -> Seq<char> {
    match e {
        Edge::Pos => "posedge"@,
        Edge::Neg => "negedge"@,
    }
}

pub open spec fn spec_render_edge_ref(er: EdgeRef) -> Seq<char> {
    spec_render_edge(er.1) + " "@ + er.0.0@
}

pub open spec fn spec_digit(d: int) -> Seq<char> {
    if d == 0 {
        "0"@
    } else if d == 1 {
        "1"@
    } else if d == 2 {
        "2"@
    } else if d == 3 {
        "3"@
    } else if d == 4 {
        "4"@
    } else if d == 5 {
        "5"@
    } else if d == 6 {
        "6"@
    } else if d == 7 {
        "7"@
    } else if d == 8 {
        "8"@
    } else {
        "9"@
    }
}

/// Decimal digits of a non-negative integer, most significant first.
pub open spec fn spec_dec(n: int) -> Seq<char>
    decreases n,
{
    if n < 10 {
        spec_digit(n)
    } else {
        spec_dec(n / 10) + spec_digit(n % 10)
    }
}

/// The standard decimal rendering of an integer, `-` prefixed if negative.
pub open spec fn spec_render_i32(v: int) -> Seq<char> {
    if v < 0 {
        "-"@ + spec_dec(-v)
    } else {
        spec_dec(v)
    }
}

pub open spec fn spec_render_op(op: Op) -> Seq<char> {
    match op {
        Op::Add => "+"@,
        _ => "??"@,
    }
}

pub open spec fn spec_render_expr(e: Expr) -> Seq<char>
    decreases e,
{
    match e {
        Expr::Ref(name) => name.0@,
        Expr::Num(v) => spec_render_i32(v as int),
        Expr::Arith(op, l, r) => spec_render_expr(*l) + " "@ + spec_render_op(op) + " "@
            + spec_render_expr(*r),
        _ => "TODO EXPR"@,
    }
}

/// The assignment operator for the immediate and scheduled kinds; the
/// static kind has no source form, so an assignment of that kind renders
/// as the placeholder.
pub open spec fn spec_render_assign_op(k: BlockType) -> Seq<char> {
    match k {
        BlockType::Blocking => "="@,
        BlockType::NonBlocking => "<="@,
        BlockType::Static => Seq::<char>::empty(),
    }
}

pub open spec fn spec_render_stmt(s: Stmt) -> Seq<char>
    decreases s,
{
    match s {
        Stmt::If(cond, then, alt) => "\nif ("@ + spec_render_expr(cond) + ") "@
            + spec_render_seq_block(then) + (match alt {
            Some(a) => "\nelse "@ + spec_render_seq_block(a),
            None => Seq::<char>::empty(),
        }),
        Stmt::Assign(kind, name, value) => if kind is Static {
            "\nTODO;"@
        } else {
            "\n"@ + name.0@ + " "@ + spec_render_assign_op(kind) + " "@ + spec_render_expr(value)
                + ";"@
        },
        _ => "\nTODO;"@,
    }
}

pub open spec fn spec_render_stmts(v: Seq<Stmt>) -> Seq<char>
    decreases v,
{
    if v.len() == 0 {
        Seq::<char>::empty()
    } else {
        spec_render_stmts(v.subrange(0, v.len() - 1)) + spec_render_stmt(v[v.len() - 1])
    }
}

pub open spec fn spec_render_seq_block(b: SeqBlock) -> Seq<char>
    decreases b,
{
    match b {
        SeqBlock::Single(s) => spec_render_stmt(*s),
        SeqBlock::Block(stmts) => "\nbegin"@ + spec_render_stmts(stmts@) + "\nend"@,
    }
}

/// Inner declaration names, joined by `", "`.
pub open spec fn spec_render_arg_names(args: Seq<Arg>) -> Seq<char>
    decreases args,
{
    if args.len() == 0 {
        Seq::<char>::empty()
    } else if args.len() == 1 {
        args[0].0.0@
    } else {
        spec_render_arg_names(args.subrange(0, args.len() - 1)) + ", "@ + args[args.len() - 1].0.0@
    }
}

/// Register dimensions, joined by `":"`.
pub open spec fn spec_render_dims(dims: Seq<Expr>) -> Seq<char>
    decreases dims,
{
    if dims.len() == 0 {
        Seq::<char>::empty()
    } else if dims.len() == 1 {
        spec_render_expr(dims[0])
    } else {
        spec_render_dims(dims.subrange(0, dims.len() - 1)) + ":"@ + spec_render_expr(
            dims[dims.len() - 1],
        )
    }
}

pub open spec fn spec_render_decl(d: Decl) -> Seq<char> {
    match d {
        Decl::InnerArg(args) => "\n"@ + spec_render_arg_names(args@) + ";"@,
        Decl::Reg(name, dims) => "\nreg ["@ + spec_render_dims(dims@) + "] "@ + name.0@ + ";"@,
        Decl::Always(er, body) => "\nalways @("@ + spec_render_edge_ref(er) + ") "@
            + spec_render_seq_block(body),
        _ => "\nTODO;"@,
    }
}

pub open spec fn spec_render_decls(v: Seq<Decl>) -> Seq<char>
    decreases v,
{
    if v.len() == 0 {
        Seq::<char>::empty()
    } else {
        spec_render_decls(v.subrange(0, v.len() - 1)) + spec_render_decl(v[v.len() - 1])
    }
}

/// Module header ports: each rendered on a fresh line, joined by `","`.
pub open spec fn spec_render_module_args(args: Seq<Arg>) -> Seq<char>
    decreases args,
{
    if args.len() == 0 {
        Seq::<char>::empty()
    } else if args.len() == 1 {
        "\n"@ + args[0].0.0@
    } else {
        spec_render_module_args(args.subrange(0, args.len() - 1)) + ","@ + "\n"@ + args[args.len()
            - 1].0.0@
    }
}

pub open spec fn spec_render_toplevel(t: Toplevel) -> Seq<char> {
    match t {
        Toplevel::Module(name, args, decls) => "module "@ + name.0@ + " ("@
            + spec_render_module_args(args@) + "\n);"@ + spec_render_decls(decls@)
            + "\nendmodule\n"@,
    }
}

/// Top-level items, joined by `"\n"`.
pub open spec fn spec_render_toplevels(v: Seq<Toplevel>) -> Seq<char>
    decreases v,
{
    if v.len() == 0 {
        Seq::<char>::empty()
    } else if v.len() == 1 {
        spec_render_toplevel(v[0])
    } else {
        spec_render_toplevels(v.subrange(0, v.len() - 1)) + "\n"@ + spec_render_toplevel(
            v[v.len() - 1],
        )
    }
}

pub open spec fn spec_render_code(c: Code) -> Seq<char> {
    spec_render_toplevels(c.0@)
}

fn digit_str(d: u32) -> (r: &'static str)
    requires
        d < 10,
    ensures
        r@ == spec_digit(d as int),
{
    match d {
        0 => "0",
        1 => "1",
        2 => "2",
        3 => "3",
        4 => "4",
        5 => "5",
        6 => "6",
        7 => "7",
        8 => "8",
        9 => "9",
        _ => vstd::pervasive::unreached(),
    }
}

fn render_dec(n: u32) -> (r: String)
    ensures
        r@ == spec_dec(n as int),
    decreases n,
{
    if n < 10 {
        digit_str(n).to_owned()
    } else {
        let mut s = render_dec(n / 10);
        s.append(digit_str(n % 10));
        s
    }
}

fn render_i32(v: i32) -> (r: String)
    ensures
        r@ == spec_render_i32(v as int),
{
    if v < 0 {
        let mag: u32 = (-(v as i64)) as u32;
        let mut s = "-".to_owned();
        s.append(render_dec(mag).as_str());
        s
    } else {
        render_dec(v as u32)
    }
}

fn op_str(op: &Op) -> (r: &'static str)
    ensures
        r@ == spec_render_op(*op),
{
    match op {
        Op::Add => "+",
        _ => "??",
    }
}

impl Edge {
    pub fn to_verilog(&self) -> (r: String)
        ensures
            r@ == spec_render_edge(*self),
    {
        match self {
            Edge::Pos => "posedge".to_owned(),
            Edge::Neg => "negedge".to_owned(),
        }
    }
}

impl EdgeRef {
    pub fn to_verilog(&self) -> (r: String)
        ensures
            r@ == spec_render_edge_ref(*self),
    {
        let mut s = self.1.to_verilog();
        s.append(" ");
        s.append(self.0.0.as_str());
        s
    }
}

impl Expr {
    pub fn to_verilog(&self) -> (r: String)
        ensures
            r@ == spec_render_expr(*self),
        decreases *self,
    {
        match self {
            Expr::Ref(name) => name.0.clone(),
            Expr::Num(v) => render_i32(*v),
            Expr::Arith(op, l, r) => {
                let mut s = l.to_verilog();
                s.append(" ");
                s.append(op_str(op));
                s.append(" ");
                let right = r.to_verilog();
                s.append(right.as_str());
                s
            },
            _ => "TODO EXPR".to_owned(),
        }
    }
}

impl Stmt {
    pub fn to_verilog(&self) -> (r: String)
        ensures
            r@ == spec_render_stmt(*self),
        decreases *self,
    {
        match self {
            Stmt::If(cond, then, alt) => {
                let mut s = "\nif (".to_owned();
                s.append(cond.to_verilog().as_str());
                s.append(") ");
                s.append(then.to_verilog().as_str());
                match alt {
                    Some(a) => {
                        s.append("\nelse ");
                        s.append(a.to_verilog().as_str());
                    },
                    None => {},
                }
                s
            },
            Stmt::Assign(kind, name, value) => {
                match kind {
                    BlockType::Static => "\nTODO;".to_owned(),
                    _ => {
                        let mut s = "\n".to_owned();
                        s.append(name.0.as_str());
                        s.append(" ");
                        match kind {
                            BlockType::Blocking => s.append("="),
                            _ => s.append("<="),
                        }
                        s.append(" ");
                        s.append(value.to_verilog().as_str());
                        s.append(";");
                        s
                    },
                }
            },
            _ => "\nTODO;".to_owned(),
        }
    }
}

impl SeqBlock {
    pub fn to_verilog(&self) -> (r: String)
        ensures
            r@ == spec_render_seq_block(*self),
        decreases *self,
    {
        match self {
            SeqBlock::Single(s) => s.to_verilog(),
            SeqBlock::Block(stmts) => {
                let mut out = "\nbegin".to_owned();
                let mut i: usize = 0;
                while i < stmts.len()
                    invariant
                        i <= stmts.len(),
                        *self == SeqBlock::Block(*stmts),
                        out@ == "\nbegin"@ + spec_render_stmts(stmts@.subrange(0, i as int)),
                    decreases stmts.len() - i,
                {
                    proof {
                        assert(decreases_to!(*self => self->Block_0@[i as int]));
                        assert(self->Block_0@[i as int] == stmts@[i as int]);
                    }
                    let piece = stmts[i].to_verilog();
                    out.append(piece.as_str());
                    proof {
                        let pre = stmts@.subrange(0, (i + 1) as int);
                        assert(pre.subrange(0, pre.len() - 1) =~= stmts@.subrange(0, i as int));
                        assert(pre[pre.len() - 1] == stmts@[i as int]);
                    }
                    i = i + 1;
                }
                proof {
                    assert(stmts@.subrange(0, stmts@.len() as int) =~= stmts@);
                }
                out.append("\nend");
                out
            },
        }
    }
}

impl Decl {
    pub fn to_verilog(&self) -> (r: String)
        ensures
            r@ == spec_render_decl(*self),
    {
        match self {
            Decl::InnerArg(args) => {
                let mut out = "\n".to_owned();
                let mut i: usize = 0;
                while i < args.len()
                    invariant
                        i <= args.len(),
                        out@ == "\n"@ + spec_render_arg_names(args@.subrange(0, i as int)),
                    decreases args.len() - i,
                {
                    if i > 0 {
                        out.append(", ");
                    }
                    out.append(args[i].0.0.as_str());
                    proof {
                        let pre = args@.subrange(0, (i + 1) as int);
                        assert(pre.subrange(0, pre.len() - 1) =~= args@.subrange(0, i as int));
                        assert(pre[pre.len() - 1] == args@[i as int]);
                    }
                    i = i + 1;
                }
                proof {
                    assert(args@.subrange(0, args@.len() as int) =~= args@);
                }
                out.append(";");
                out
            },
            Decl::Reg(name, dims) => {
                let mut out = "\nreg [".to_owned();
                let mut i: usize = 0;
                while i < dims.len()
                    invariant
                        i <= dims.len(),
                        out@ == "\nreg ["@ + spec_render_dims(dims@.subrange(0, i as int)),
                    decreases dims.len() - i,
                {
                    if i > 0 {
                        out.append(":");
                    }
                    let piece = dims[i].to_verilog();
                    out.append(piece.as_str());
                    proof {
                        let pre = dims@.subrange(0, (i + 1) as int);
                        assert(pre.subrange(0, pre.len() - 1) =~= dims@.subrange(0, i as int));
                        assert(pre[pre.len() - 1] == dims@[i as int]);
                    }
                    i = i + 1;
                }
                proof {
                    assert(dims@.subrange(0, dims@.len() as int) =~= dims@);
                }
                out.append("] ");
                out.append(name.0.as_str());
                out.append(";");
                out
            },
            Decl::Always(er, body) => {
                let mut out = "\nalways @(".to_owned();
                out.append(er.to_verilog().as_str());
                out.append(") ");
                out.append(body.to_verilog().as_str());
                out
            },
            _ => "\nTODO;".to_owned(),
        }
    }
}

impl Toplevel {
    pub fn to_verilog(&self) -> (r: String)
        ensures
            r@ == spec_render_toplevel(*self),
    {
        match self {
            Toplevel::Module(name, args, decls) => {
                let mut out = "module ".to_owned();
                out.append(name.0.as_str());
                out.append(" (");
                let mut i: usize = 0;
                while i < args.len()
                    invariant
                        i <= args.len(),
                        out@ == "module "@ + name.0@ + " ("@ + spec_render_module_args(
                            args@.subrange(0, i as int),
                        ),
                    decreases args.len() - i,
                {
                    if i > 0 {
                        out.append(",");
                    }
                    out.append("\n");
                    out.append(args[i].0.0.as_str());
                    proof {
                        let pre = args@.subrange(0, (i + 1) as int);
                        assert(pre.subrange(0, pre.len() - 1) =~= args@.subrange(0, i as int));
                        assert(pre[pre.len() - 1] == args@[i as int]);
                    }
                    i = i + 1;
                }
                proof {
                    assert(args@.subrange(0, args@.len() as int) =~= args@);
                }
                out.append("\n);");
                let mut j: usize = 0;
                while j < decls.len()
                    invariant
                        j <= decls.len(),
                        out@ == "module "@ + name.0@ + " ("@ + spec_render_module_args(args@)
                            + "\n);"@ + spec_render_decls(decls@.subrange(0, j as int)),
                    decreases decls.len() - j,
                {
                    let piece = decls[j].to_verilog();
                    out.append(piece.as_str());
                    proof {
                        let pre = decls@.subrange(0, (j + 1) as int);
                        assert(pre.subrange(0, pre.len() - 1) =~= decls@.subrange(0, j as int));
                        assert(pre[pre.len() - 1] == decls@[j as int]);
                    }
                    j = j + 1;
                }
                proof {
                    assert(decls@.subrange(0, decls@.len() as int) =~= decls@);
                }
                out.append("\nendmodule\n");
                out
            },
        }
    }
}

impl Code {
    pub fn to_verilog(&self) -> (r: String)
        ensures
            r@ == spec_render_code(*self),
    {
        let items = &self.0;
        let mut out = "".to_owned();
        proof {
            reveal_strlit("");
            assert(out@ =~= spec_render_toplevels(self.0@.subrange(0, 0)));
        }
        let mut i: usize = 0;
        while i < items.len()
            invariant
                i <= items.len(),
                items == &self.0,
                out@ == spec_render_toplevels(self.0@.subrange(0, i as int)),
            decreases items.len() - i,
        {
            if i > 0 {
                out.append("\n");
            }
            let piece = items[i].to_verilog();
            out.append(piece.as_str());
            proof {
                let pre = self.0@.subrange(0, (i + 1) as int);
                assert(pre.subrange(0, pre.len() - 1) =~= self.0@.subrange(0, i as int));
                assert(pre[pre.len() - 1] == self.0@[i as int]);
            }
            i = i + 1;
        }
        proof {
            assert(self.0@.subrange(0, self.0@.len() as int) =~= self.0@);
        }
        out
    }
}

} // verus!
