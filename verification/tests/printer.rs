use verilog_front::ast::Decl;
use verilog_front::ast::Edge;
use verilog_front::ast::EdgeRef;
use verilog_front::ast::Expr;
use verilog_front::ast::Ident;
use verilog_front::ast::Op;
use verilog_front::ast::SeqBlock;
use verilog_front::ast::Stmt;
use verilog_front::ast::BlockType;

#[test]
fn edges_render() {
    assert_eq!(Edge::Pos.to_verilog().as_str(), "posedge");
    assert_eq!(Edge::Neg.to_verilog().as_str(), "negedge");
    assert_eq!(
        EdgeRef(Ident("clk".to_string()), Edge::Pos)
            .to_verilog()
            .as_str(),
        "posedge clk"
    );
}

#[test]
fn numbers_render_in_decimal() {
    assert_eq!(Expr::Num(0).to_verilog().as_str(), "0");
    assert_eq!(Expr::Num(907).to_verilog().as_str(), "907");
    assert_eq!(Expr::Num(-5).to_verilog().as_str(), "-5");
    assert_eq!(Expr::Num(i32::MAX).to_verilog().as_str(), "2147483647");
    assert_eq!(Expr::Num(i32::MIN).to_verilog().as_str(), "-2147483648");
}

#[test]
fn supported_expr_forms_render() {
    let sum = Expr::Arith(
        Op::Add,
        Box::new(Expr::Ref(Ident("a".to_string()))),
        Box::new(Expr::Num(1)),
    );
    assert_eq!(sum.to_verilog().as_str(), "a + 1");
}

#[test]
fn unsupported_forms_render_as_placeholders() {
    let diff = Expr::Arith(
        Op::Sub,
        Box::new(Expr::Ref(Ident("a".to_string()))),
        Box::new(Expr::Num(1)),
    );
    assert_eq!(diff.to_verilog().as_str(), "a ?? 1");
    assert_eq!(
        Expr::Concat(vec![Expr::Num(1)]).to_verilog().as_str(),
        "TODO EXPR"
    );
    let wire = Decl::Wire(Ident("w".to_string()), vec![], None);
    assert_eq!(wire.to_verilog().as_str(), "\nTODO;");
    let arm = (
        vec![Expr::Num(0)],
        SeqBlock::Single(Box::new(Stmt::Assign(
            BlockType::NonBlocking,
            Ident("x".to_string()),
            Expr::Num(1),
        ))),
    );
    let case_stmt = Stmt::Match(Expr::Ref(Ident("s".to_string())), vec![arm]);
    assert_eq!(case_stmt.to_verilog().as_str(), "\nTODO;");
}

#[test]
fn assignment_operator_follows_kind() {
    let scheduled = Stmt::Assign(
        BlockType::NonBlocking,
        Ident("x".to_string()),
        Expr::Num(1),
    );
    assert_eq!(scheduled.to_verilog().as_str(), "\nx <= 1;");
    let immediate = Stmt::Assign(
        BlockType::Blocking,
        Ident("x".to_string()),
        Expr::Num(1),
    );
    assert_eq!(immediate.to_verilog().as_str(), "\nx = 1;");
    let static_form = Stmt::Assign(
        BlockType::Static,
        Ident("x".to_string()),
        Expr::Num(1),
    );
    assert_eq!(static_form.to_verilog().as_str(), "\nTODO;");
}

#[test]
fn blocks_render_with_begin_end_only_when_plural() {
    let single = SeqBlock::Single(Box::new(Stmt::Assign(
        BlockType::NonBlocking,
        Ident("x".to_string()),
        Expr::Num(1),
    )));
    assert_eq!(single.to_verilog().as_str(), "\nx <= 1;");
    let block = SeqBlock::Block(vec![
        Stmt::Assign(
            BlockType::NonBlocking,
            Ident("x".to_string()),
            Expr::Num(1),
        ),
        Stmt::Assign(
            BlockType::NonBlocking,
            Ident("y".to_string()),
            Expr::Num(2),
        ),
    ]);
    assert_eq!(block.to_verilog().as_str(), "\nbegin\nx <= 1;\ny <= 2;\nend");
}
