use verilog_front::ast::BlockType;
use verilog_front::ast::Decl;
use verilog_front::ast::Edge;
use verilog_front::ast::EdgeRef;
use verilog_front::ast::Expr;
use verilog_front::ast::Ident;
use verilog_front::ast::Op;
use verilog_front::ast::SeqBlock;
use verilog_front::ast::Stmt;
use verilog_front::ast::Toplevel;
use verilog_front::lexer::lex;
use verilog_front::lexer::TokenKind;
use verilog_front::parse;
use verilog_front::ParseError;

#[test]
fn test_parser() {
    let input = r#"
//-----------------------------------------------------
// Design Name : up_counter
// File Name   : up_counter.v
// Function    : Up counter
// Coder       : Deepak
//-----------------------------------------------------
module up_counter    (
out     ,  // Output of the counter
enable  ,  // enable for counter
clk     ,  // clock Input
reset      // reset Input
);
//----------Output Ports--------------
     output [7:0] out;
//------------Input Ports--------------
  input enable, clk, reset;
//------------Internal Variables--------
 reg [7:0] out;
//-------------Code Starts Here-------
 always @(posedge clk)
 if (reset) begin
   out <= 8'b0 ;
 end else if (enable) begin
   out <= out + 1;
 end
endmodule
"#;

    let res = parse(input).unwrap();
    println!("Out: {:?}", res);
    println!("Out: \n{}\n", res.to_verilog());
}

#[test]
fn up_counter_structure() {
    let input = "module up_counter(out, enable, clk, reset);\n\
                 output [7:0] out;\n\
                 input enable, clk, reset;\n\
                 reg [7:0] out;\n\
                 always @(posedge clk)\n\
                 if (reset) begin out <= 8'b0; end\n\
                 else if (enable) begin out <= out + 1; end\n\
                 endmodule\n";
    let code = parse(input).unwrap();
    assert_eq!(code.0.len(), 1);
    let Toplevel::Module(name, ports, decls) = &code.0[0];
    assert_eq!(name.0, "up_counter");
    assert_eq!(ports.len(), 4);
    assert_eq!(ports[0].0 .0, "out");
    assert_eq!(ports[1].0 .0, "enable");
    assert_eq!(decls.len(), 4);
    // the [7:0] range spans 8 bits
    assert_eq!(
        decls[0],
        Decl::InnerArg(vec![(
            Ident("out".to_string()),
            Some(verilog_front::ast::Dir::Output),
            Some(8)
        )])
    );
    match &decls[3] {
        Decl::Always(edge, body) => {
            assert_eq!(edge, &EdgeRef(Ident("clk".to_string()), Edge::Pos));
            match body {
                SeqBlock::Single(s) => match s.as_ref() {
                    Stmt::If(cond, then, alt) => {
                        assert_eq!(cond, &Expr::Ref(Ident("reset".to_string())));
                        // a begin/end group with one statement is a Single
                        assert!(matches!(then, SeqBlock::Single(_)));
                        assert!(alt.is_some());
                    }
                    other => panic!("expected If, got {:?}", other),
                },
                other => panic!("expected Single, got {:?}", other),
            }
        }
        other => panic!("expected Always, got {:?}", other),
    }
}

#[test]
fn up_counter_renders_supported_constructs() {
    let input = "module up_counter(out, enable, clk, reset);\n\
                 output [7:0] out;\n\
                 input enable, clk, reset;\n\
                 reg [7:0] out;\n\
                 always @(posedge clk)\n\
                 if (reset) begin out <= 8'b0; end\n\
                 else if (enable) begin out <= out + 1; end\n\
                 endmodule\n";
    let code = parse(input).unwrap();
    let out = code.to_verilog();
    assert_eq!(
        out.as_str(),
        "module up_counter (\nout,\nenable,\nclk,\nreset\n);\
         \nout;\nenable, clk, reset;\nreg [7:0] out;\
         \nalways @(posedge clk) \nif (reset) \nout <= 0;\nelse \nif (enable) \nout <= out + 1;\
         \nendmodule\n"
    );
}

#[test]
fn round_trip_supported_subset() {
    let input = "module m (a, b);\n\
                 x, y;\n\
                 reg [7:0] x;\n\
                 always @(negedge k)\n\
                 begin\n\
                 x <= x + 1;\n\
                 y = 0;\n\
                 end\n\
                 endmodule\n";
    let code = parse(input).unwrap();
    let rendered = code.to_verilog();
    let reparsed = parse(&rendered).unwrap();
    assert_eq!(code, reparsed);
}

#[test]
fn literal_folding() {
    let toks = lex(b"8'b00000000 4'hF 'd10 42").unwrap();
    let kinds: Vec<&TokenKind> = toks.iter().map(|t| &t.kind).collect();
    assert_eq!(
        kinds,
        vec![
            &TokenKind::Num(0),
            &TokenKind::Num(15),
            &TokenKind::Num(10),
            &TokenKind::Num(42)
        ]
    );
}

#[test]
fn literal_folding_through_parse() {
    let input = "module m ();\n\
                 parameter a = 8'b00000000;\n\
                 parameter b = 4'hF;\n\
                 parameter c = 'd10;\n\
                 endmodule\n";
    let code = parse(input).unwrap();
    let Toplevel::Module(_, _, decls) = &code.0[0];
    assert_eq!(
        decls[0],
        Decl::Const(Ident("a".to_string()), Expr::Num(0))
    );
    assert_eq!(
        decls[1],
        Decl::Const(Ident("b".to_string()), Expr::Num(15))
    );
    assert_eq!(
        decls[2],
        Decl::Const(Ident("c".to_string()), Expr::Num(10))
    );
}

#[test]
fn dangling_else_binds_to_inner_if() {
    let input = "module m (a);\n\
                 always @(posedge c)\n\
                 if (a) if (b) x <= 1; else x <= 2;\n\
                 endmodule\n";
    let code = parse(input).unwrap();
    let Toplevel::Module(_, _, decls) = &code.0[0];
    match &decls[0] {
        Decl::Always(_, SeqBlock::Single(outer)) => match outer.as_ref() {
            Stmt::If(outer_cond, then, outer_alt) => {
                assert_eq!(outer_cond, &Expr::Ref(Ident("a".to_string())));
                assert!(outer_alt.is_none(), "else must not attach to the outer if");
                match then {
                    SeqBlock::Single(inner) => match inner.as_ref() {
                        Stmt::If(inner_cond, _, inner_alt) => {
                            assert_eq!(inner_cond, &Expr::Ref(Ident("b".to_string())));
                            assert!(inner_alt.is_some(), "else must attach to the inner if");
                        }
                        other => panic!("expected inner If, got {:?}", other),
                    },
                    other => panic!("expected Single, got {:?}", other),
                }
            }
            other => panic!("expected If, got {:?}", other),
        },
        other => panic!("expected Always, got {:?}", other),
    }
}

#[test]
fn malformed_input_unexpected_token() {
    let input = "module m( ; endmodule";
    let err = parse(input).unwrap_err();
    assert_eq!(err, ParseError::UnexpectedToken { offset: 10 });
}

#[test]
fn unexpected_end_of_input() {
    let err = parse("module m(").unwrap_err();
    assert_eq!(err, ParseError::UnexpectedEnd);
}

#[test]
fn invalid_token_offset() {
    let err = parse("module m$ ();endmodule").unwrap_err();
    assert_eq!(err, ParseError::InvalidToken { offset: 8 });
}

#[test]
fn oversized_literal_is_invalid() {
    let err = parse("module m ();\nparameter a = 99999999999;\nendmodule").unwrap_err();
    assert!(matches!(err, ParseError::InvalidToken { .. }));
}

#[test]
fn block_invariant_never_one_element() {
    // a delimited group with one statement parses to Single, two to Block
    let one = "module m (a);\nalways @(posedge c)\nbegin x <= 1; end\nendmodule\n";
    let code = parse(one).unwrap();
    let Toplevel::Module(_, _, decls) = &code.0[0];
    match &decls[0] {
        Decl::Always(_, body) => assert!(matches!(body, SeqBlock::Single(_))),
        other => panic!("expected Always, got {:?}", other),
    }

    let two = "module m (a);\nalways @(posedge c)\nbegin x <= 1; y <= 2; end\nendmodule\n";
    let code = parse(two).unwrap();
    let Toplevel::Module(_, _, decls) = &code.0[0];
    match &decls[0] {
        Decl::Always(_, SeqBlock::Block(v)) => assert_eq!(v.len(), 2),
        other => panic!("expected Always with Block, got {:?}", other),
    }

    // an empty begin/end group is rejected, never an empty Block
    let zero = "module m (a);\nalways @(posedge c)\nbegin end\nendmodule\n";
    assert!(parse(zero).is_err());
}

#[test]
fn expression_precedence_and_forms() {
    let input = "module m ();\n\
                 parameter p = 1 + 2 * 3;\n\
                 parameter q = {2{x}};\n\
                 wire w = a ? b[3] : {c, d[7:0]};\n\
                 endmodule\n";
    let code = parse(input).unwrap();
    let Toplevel::Module(_, _, decls) = &code.0[0];
    assert_eq!(
        decls[0],
        Decl::Const(
            Ident("p".to_string()),
            Expr::Arith(
                Op::Add,
                Box::new(Expr::Num(1)),
                Box::new(Expr::Arith(
                    Op::Mul,
                    Box::new(Expr::Num(2)),
                    Box::new(Expr::Num(3))
                ))
            )
        )
    );
    assert_eq!(
        decls[1],
        Decl::Const(
            Ident("q".to_string()),
            Expr::Repeat(
                Box::new(Expr::Num(2)),
                Box::new(Expr::Ref(Ident("x".to_string())))
            )
        )
    );
    assert_eq!(
        decls[2],
        Decl::Wire(
            Ident("w".to_string()),
            vec![],
            Some(Expr::Ternary(
                Box::new(Expr::Ref(Ident("a".to_string()))),
                Box::new(Expr::Slice(
                    Ident("b".to_string()),
                    Box::new(Expr::Num(3)),
                    None
                )),
                Box::new(Expr::Concat(vec![
                    Expr::Ref(Ident("c".to_string())),
                    Expr::Slice(
                        Ident("d".to_string()),
                        Box::new(Expr::Num(7)),
                        Some(Box::new(Expr::Num(0)))
                    ),
                ]))
            ))
        )
    );
}

#[test]
fn instantiation_and_case() {
    let input = "module m (s);\n\
                 adder a0 (.x(1), .y(z));\n\
                 always @(posedge c)\n\
                 case (s) 0, 1: x <= 1; 2: begin x <= 2; y <= 3; end endcase\n\
                 endmodule\n";
    let code = parse(input).unwrap();
    let Toplevel::Module(_, _, decls) = &code.0[0];
    assert_eq!(
        decls[0],
        Decl::Let(
            Ident("adder".to_string()),
            Ident("a0".to_string()),
            vec![
                (Ident("x".to_string()), Expr::Num(1)),
                (Ident("y".to_string()), Expr::Ref(Ident("z".to_string()))),
            ]
        )
    );
    match &decls[1] {
        Decl::Always(_, SeqBlock::Single(s)) => match s.as_ref() {
            Stmt::Match(sel, arms) => {
                assert_eq!(sel, &Expr::Ref(Ident("s".to_string())));
                assert_eq!(arms.len(), 2);
                assert_eq!(arms[0].0, vec![Expr::Num(0), Expr::Num(1)]);
                assert!(matches!(arms[0].1, SeqBlock::Single(_)));
                assert_eq!(arms[1].0, vec![Expr::Num(2)]);
                assert!(matches!(&arms[1].1, SeqBlock::Block(v) if v.len() == 2));
            }
            other => panic!("expected Match, got {:?}", other),
        },
        other => panic!("expected Always, got {:?}", other),
    }
}

#[test]
fn assignment_forms() {
    let input = "module m (a);\n\
                 always @(posedge c)\n\
                 begin\n\
                 x = 1;\n\
                 x[3] <= 2;\n\
                 x[7:4] <= 3;\n\
                 end\n\
                 endmodule\n";
    let code = parse(input).unwrap();
    let Toplevel::Module(_, _, decls) = &code.0[0];
    match &decls[0] {
        Decl::Always(_, SeqBlock::Block(v)) => {
            assert_eq!(
                v[0],
                Stmt::Assign(BlockType::Blocking, Ident("x".to_string()), Expr::Num(1))
            );
            assert_eq!(
                v[1],
                Stmt::SetIndex(
                    BlockType::NonBlocking,
                    Ident("x".to_string()),
                    Expr::Num(3),
                    Expr::Num(2)
                )
            );
            assert_eq!(
                v[2],
                Stmt::SetRange(
                    BlockType::NonBlocking,
                    Ident("x".to_string()),
                    Expr::Num(7),
                    Expr::Num(4),
                    Expr::Num(3)
                )
            );
        }
        other => panic!("expected Always with Block, got {:?}", other),
    }
}

#[test]
fn comments_are_stripped_before_lexing() {
    let input = "//header\nmodule m(); // ports\nendmodule";
    assert!(parse(input).is_ok());
    // a lone slash is not a comment and cannot start a token sequence here
    assert!(parse("module m(/);endmodule").is_err());
}

#[test]
fn to_i32_reads_a_num() {
    assert_eq!(Expr::Num(7).to_i32(), 7);
    assert_eq!(Expr::Num(-3).to_i32(), -3);
}

#[test]
fn empty_input_parses_to_empty_code() {
    let code = parse("").unwrap();
    assert_eq!(code.0.len(), 0);
    let blank = parse("   \n\t\r\n").unwrap();
    assert_eq!(blank.0.len(), 0);
}

#[test]
fn comment_with_carriage_return() {
    // the comment pattern consumes the carriage return before the newline
    assert!(parse("module m(); //c\r\nendmodule").is_ok());
}

#[test]
fn non_module_start_is_rejected() {
    assert!(parse("foo").is_err());
    assert!(parse("endmodule").is_err());
    assert!(parse("42").is_err());
}
