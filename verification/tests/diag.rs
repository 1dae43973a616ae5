use verilog_front::code_error;
use verilog_front::codelist;
use verilog_front::line_col;
use verilog_front::parse;
use verilog_front::ParseError;

#[test]
fn line_col_maps_offsets() {
    assert_eq!(line_col("ab\ncd\nef", 0), (0, 0));
    assert_eq!(line_col("ab\ncd\nef", 1), (0, 1));
    assert_eq!(line_col("ab\ncd\nef", 3), (1, 0));
    assert_eq!(line_col("ab\ncd\nef", 4), (1, 1));
    assert_eq!(line_col("ab\ncd\nef", 6), (2, 0));
    assert_eq!(line_col("ab\ncd\nef", 8), (2, 2));
    assert_eq!(line_col("ab", 2), (0, 2));
    assert_eq!(line_col("", 0), (0, 0));
}

#[test]
fn codelist_numbers_every_line() {
    assert_eq!(codelist("a\nbb\n").as_str(), "  1 | a\n  2 | bb\n");
    assert_eq!(codelist("a\nbb").as_str(), "  1 | a\n  2 | bb\n");
    assert_eq!(codelist("").as_str(), "");
}

#[test]
fn code_error_places_caret_under_offset() {
    let input = "module m( ; endmodule";
    let err = parse(input).unwrap_err();
    let offset = match err {
        ParseError::UnexpectedToken { offset } => offset,
        other => panic!("expected UnexpectedToken, got {:?}", other),
    };
    assert_eq!(offset, 10);
    let excerpt = code_error(input, offset);
    assert_eq!(
        excerpt.as_str(),
        "  1 | module m( ; endmodule\n~~~~~~~~~~~~~~~~^\n"
    );
}

#[test]
fn code_error_shows_up_to_three_lines() {
    let input = "one\ntwo\nthree\nfour x";
    let excerpt = code_error(input, 19);
    assert_eq!(
        excerpt.as_str(),
        "  2 | two\n  3 | three\n  4 | four x\n~~~~~~~~~~~^\n"
    );
}

#[test]
fn code_error_on_first_line() {
    let excerpt = code_error("abc", 1);
    assert_eq!(excerpt.as_str(), "  1 | abc\n~~~~~~~^\n");
}
