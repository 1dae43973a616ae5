//! A front end for a synchronous-logic subset of Verilog: a lexer and
//! recursive-descent parser producing a typed syntax tree, a printer
//! serializing supported constructs back to source text, and a diagnostic
//! reporter locating byte offsets in source lines.

pub mod ast;
pub mod diag;
pub mod lexer;
pub mod parser;
pub mod printer;
pub mod strip;

pub use diag::code_error;
pub use diag::codelist;
pub use diag::line_col;
pub use parser::parse;
pub use parser::ParseError;
pub use strip::strip_comments;
