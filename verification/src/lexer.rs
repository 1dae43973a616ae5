//! The lexer: raw source bytes (comments already removed) to a stream of
//! typed tokens, each carrying the byte offset where it starts. Whitespace
//! is skipped; an unrecognized byte is a lexical failure carrying its
//! offset. Sized and based numeric literals (`8'b0`, `4'hF`, `'d10`) are
//! folded to their integer value here; width and base are discarded.

use vstd::prelude::*;
use vstd::string::StringSliceAdditionalSpecFns;

verus! {

#[derive(Clone, Debug, Eq, PartialEq)]
pub enum TokenKind {
    Id(String),
    Num(i32),
    KwModule,
    KwEndmodule,
    KwInput,
    KwOutput,
    KwReg,
    KwWire,
    KwAlways,
    KwPosedge,
    KwNegedge,
    KwIf,
    KwElse,
    KwCase,
    KwEndcase,
    KwBegin,
    KwEnd,
    KwParameter,
    Plus,
    Minus,
    Star,
    Slash,
    EqEq,
    NotEq,
    Lte,
    Gte,
    AndAnd,
    OrOr,
    Lt,
    Gt,
    Pipe,
    Amp,
    Shl,
    Shr,
    Bang,
    Equal,
    Question,
    Colon,
    Dot,
    Comma,
    Semi,
    LParen,
    RParen,
    LBracket,
    RBracket,
    LBrace,
    RBrace,
    At,
    Hash,
}

#[derive(Clone, Debug, Eq, PartialEq)]
pub struct Token {
    pub kind: TokenKind,
    pub offset: usize,
}

/// An identifier token always carries a non-empty name, and a numeric
/// token a non-negative value.
pub open spec fn tok_id_wf(t: Token) -> bool {
    match t.kind {
        TokenKind::Id(s) => s@.len() > 0,
        TokenKind::Num(v) => v >= 0,
        _ => true,
    }
}

pub open spec fn token_wf(t: Token, n: int) -> bool {
    t.offset < n && tok_id_wf(t)
}

pub open spec fn tokens_wf(toks: Seq<Token>, n: int) -> bool {
    forall|k: int| 0 <= k < toks.len() ==> token_wf(#[trigger] toks[k], n)
}

/// Relies on String::from_utf8: a buffer of ASCII bytes decodes to the
/// string with exactly one char per byte, each the byte's code point.
#[verifier::external_body]
fn ascii_to_string(bytes: Vec<u8>) -> (r: String)
    requires
        forall|i: int| 0 <= i < bytes@.len() ==> bytes@[i] < 0x80,
    ensures
        r@.len() == bytes@.len(),
        forall|i: int| 0 <= i < bytes@.len() ==> r@[i] == bytes@[i] as char,
{
    String::from_utf8(bytes).unwrap_or_default()
}

/// The byte of `'`, which introduces a based numeric literal.
pub const QUOTE: u8 = 39;

/// Space, tab, carriage return or newline.
pub open spec fn is_space_byte(b: u8) -> bool {
    b == 32 || b == 9 || b == 13 || b == 10
}

/// An ASCII decimal digit.
pub open spec fn is_digit_byte(b: u8) -> bool {
    48 <= b <= 57
}

/// An ASCII letter or underscore.
pub open spec fn is_ident_start_byte(b: u8) -> bool {
    (65 <= b <= 90) || (97 <= b <= 122) || b == 95
}

pub open spec fn is_ident_byte(b: u8) -> bool {
    is_ident_start_byte(b) || is_digit_byte(b)
}

fn is_space(b: u8) -> (r: bool)
    ensures
        r == is_space_byte(b),
{
    b == 32 || b == 9 || b == 13 || b == 10
}

fn is_digit(b: u8) -> (r: bool)
    ensures
        r == is_digit_byte(b),
{
    48 <= b && b <= 57
}

fn is_ident_start(b: u8) -> (r: bool)
    ensures
        r == is_ident_start_byte(b),
{
    (65 <= b && b <= 90) || (97 <= b && b <= 122) || b == 95
}

fn is_ident_char(b: u8) -> (r: bool)
    ensures
        r == is_ident_byte(b),
{
    is_ident_start(b) || is_digit(b)
}

/// The value of `b` as a digit under `base`, if it is one: `0`-`9` and,
/// for bases above ten, `a`-`f` or `A`-`F`.
pub open spec fn spec_digit_value(b: u8, base: u8) -> Option<u8> {
    let v: int = if 48 <= b <= 57 {
        b - 48
    } else if 97 <= b <= 102 {
        b - 97 + 10
    } else if 65 <= b <= 70 {
        b - 65 + 10
    } else {
        255
    };
    if v < base {
        Some(v as u8)
    } else {
        None
    }
}

/// The numeric base selected by a base letter: `b`, `o`, `d` or `h`.
pub open spec fn spec_base_of(b: u8) -> Option<u8> {
    if b == 98 {
        Some(2u8)
    } else if b == 111 {
        Some(8u8)
    } else if b == 100 {
        Some(10u8)
    } else if b == 104 {
        Some(16u8)
    } else {
        None
    }
}

/// The end of the run of digits of `base` starting at `i`: the first
/// position at or after `i` holding no such digit.
pub open spec fn spec_run_end(s: Seq<u8>, i: int, base: u8) -> int
    decreases s.len() - i,
{
    if i < 0 || i >= s.len() || spec_digit_value(s[i], base) is None {
        i
    } else {
        spec_run_end(s, i + 1, base)
    }
}

/// The numeric value of the digit run `s[i..j)` under `base`, most
/// significant digit first.
pub open spec fn spec_fold_value(s: Seq<u8>, i: int, j: int, base: u8) -> int
    decreases j - i,
{
    if j <= i {
        0
    } else {
        spec_fold_value(s, i, j - 1, base) * base + spec_digit_value(s[j - 1], base)->0
    }
}

/// The end of the identifier run starting at `i`: the first position at
/// or after `i` holding no identifier byte.
pub open spec fn spec_ident_end(s: Seq<u8>, i: int) -> int
    decreases s.len() - i,
{
    if i < 0 || i >= s.len() || !is_ident_byte(s[i]) {
        i
    } else {
        spec_ident_end(s, i + 1)
    }
}

/// Where the numeric literal starting at `i` ends: after the decimal
/// digit run, or, when a `\'` follows it (or stands at `i`), after the
/// base letter\'s digit run.
pub open spec fn spec_number_end(s: Seq<u8>, i: int) -> int {
    let q = if 0 <= i < s.len() && is_digit_byte(s[i]) {
        spec_run_end(s, i, 10)
    } else {
        i
    };
    if q >= s.len() || s[q] != QUOTE {
        q
    } else if q + 1 < s.len() && spec_base_of(s[q + 1]) is Some {
        spec_run_end(s, q + 2, spec_base_of(s[q + 1])->0)
    } else {
        q
    }
}

/// The source holds a numeric literal at `i` of value `v`, ending at `j`:
/// a plain decimal run, or a width-and-quote (or bare quote), base letter
/// and digit run, whose folded value is `v`. The width and base are not
/// retained.
pub open spec fn spec_number_at(s: Seq<u8>, i: int, v: int, j: int) -> bool {
    &&& 0 <= i < s.len()
    &&& (is_digit_byte(s[i]) || s[i] == QUOTE)
    &&& j == spec_number_end(s, i)
    &&& ({
        let q = if is_digit_byte(s[i]) {
            spec_run_end(s, i, 10)
        } else {
            i
        };
        if q >= s.len() || s[q] != QUOTE {
            &&& is_digit_byte(s[i])
            &&& i < j
            &&& v == spec_fold_value(s, i, j, 10)
        } else {
            &&& q + 1 < s.len()
            &&& spec_base_of(s[q + 1]) is Some
            &&& q + 2 < j
            &&& v == spec_fold_value(s, q + 2, j, spec_base_of(s[q + 1])->0)
        }
    })
}

/// An identifier-shaped word starts at `i` and spans exactly to `j`.
pub open spec fn spec_word_at(s: Seq<u8>, i: int, j: int) -> bool {
    &&& 0 <= i < s.len()
    &&& is_ident_start_byte(s[i])
    &&& j == spec_ident_end(s, i)
}

pub open spec fn spec_one_byte_at(s: Seq<u8>, i: int, j: int, b: u8) -> bool {
    0 <= i < s.len() && s[i] == b && j == i + 1
}

pub open spec fn spec_two_bytes_at(s: Seq<u8>, i: int, j: int, b0: u8, b1: u8) -> bool {
    0 <= i && i + 1 < s.len() && s[i] == b0 && s[i + 1] == b1 && j == i + 2
}

/// Token `t` is exactly what the source denotes at `t.offset`, ending at
/// `j`: the keyword or identifier of the word run there, the folded
/// numeric literal there, or the operator or punctuation byte(s) there,
/// two-byte operators taking precedence over their one-byte prefixes.
pub open spec fn spec_token_at(s: Seq<u8>, t: Token, j: int) -> bool {
    let i = t.offset as int;
    match t.kind {
        TokenKind::Id(name) => {
            &&& spec_word_at(s, i, j)
            &&& spec_keyword_of(s.subrange(i, j)) is None
            &&& name@.len() == j - i
            &&& (forall|k: int| 0 <= k < j - i ==> name@[k] == s[i + k] as char)
        },
        TokenKind::Num(v) => spec_number_at(s, i, v as int, j),
        TokenKind::KwModule => spec_word_at(s, i, j) && s.subrange(i, j) == "module".spec_bytes(),
        TokenKind::KwEndmodule => spec_word_at(s, i, j) && s.subrange(i, j)
            == "endmodule".spec_bytes(),
        TokenKind::KwInput => spec_word_at(s, i, j) && s.subrange(i, j) == "input".spec_bytes(),
        TokenKind::KwOutput => spec_word_at(s, i, j) && s.subrange(i, j) == "output".spec_bytes(),
        TokenKind::KwReg => spec_word_at(s, i, j) && s.subrange(i, j) == "reg".spec_bytes(),
        TokenKind::KwWire => spec_word_at(s, i, j) && s.subrange(i, j) == "wire".spec_bytes(),
        TokenKind::KwAlways => spec_word_at(s, i, j) && s.subrange(i, j) == "always".spec_bytes(),
        TokenKind::KwPosedge => spec_word_at(s, i, j) && s.subrange(i, j)
            == "posedge".spec_bytes(),
        TokenKind::KwNegedge => spec_word_at(s, i, j) && s.subrange(i, j)
            == "negedge".spec_bytes(),
        TokenKind::KwIf => spec_word_at(s, i, j) && s.subrange(i, j) == "if".spec_bytes(),
        TokenKind::KwElse => spec_word_at(s, i, j) && s.subrange(i, j) == "else".spec_bytes(),
        TokenKind::KwCase => spec_word_at(s, i, j) && s.subrange(i, j) == "case".spec_bytes(),
        TokenKind::KwEndcase => spec_word_at(s, i, j) && s.subrange(i, j)
            == "endcase".spec_bytes(),
        TokenKind::KwBegin => spec_word_at(s, i, j) && s.subrange(i, j) == "begin".spec_bytes(),
        TokenKind::KwEnd => spec_word_at(s, i, j) && s.subrange(i, j) == "end".spec_bytes(),
        TokenKind::KwParameter => spec_word_at(s, i, j) && s.subrange(i, j)
            == "parameter".spec_bytes(),
        TokenKind::EqEq => spec_two_bytes_at(s, i, j, 61, 61),
        TokenKind::Equal => spec_one_byte_at(s, i, j, 61) && (i + 1 >= s.len() || s[i + 1] != 61),
        TokenKind::NotEq => spec_two_bytes_at(s, i, j, 33, 61),
        TokenKind::Bang => spec_one_byte_at(s, i, j, 33) && (i + 1 >= s.len() || s[i + 1] != 61),
        TokenKind::Lte => spec_two_bytes_at(s, i, j, 60, 61),
        TokenKind::Shl => spec_two_bytes_at(s, i, j, 60, 60),
        TokenKind::Lt => spec_one_byte_at(s, i, j, 60) && (i + 1 >= s.len() || (s[i + 1] != 61
            && s[i + 1] != 60)),
        TokenKind::Gte => spec_two_bytes_at(s, i, j, 62, 61),
        TokenKind::Shr => spec_two_bytes_at(s, i, j, 62, 62),
        TokenKind::Gt => spec_one_byte_at(s, i, j, 62) && (i + 1 >= s.len() || (s[i + 1] != 61
            && s[i + 1] != 62)),
        TokenKind::AndAnd => spec_two_bytes_at(s, i, j, 38, 38),
        TokenKind::Amp => spec_one_byte_at(s, i, j, 38) && (i + 1 >= s.len() || s[i + 1] != 38),
        TokenKind::OrOr => spec_two_bytes_at(s, i, j, 124, 124),
        TokenKind::Pipe => spec_one_byte_at(s, i, j, 124) && (i + 1 >= s.len() || s[i + 1]
            != 124),
        TokenKind::Plus => spec_one_byte_at(s, i, j, 43),
        TokenKind::Minus => spec_one_byte_at(s, i, j, 45),
        TokenKind::Star => spec_one_byte_at(s, i, j, 42),
        TokenKind::Slash => spec_one_byte_at(s, i, j, 47),
        TokenKind::Question => spec_one_byte_at(s, i, j, 63),
        TokenKind::Colon => spec_one_byte_at(s, i, j, 58),
        TokenKind::Dot => spec_one_byte_at(s, i, j, 46),
        TokenKind::Comma => spec_one_byte_at(s, i, j, 44),
        TokenKind::Semi => spec_one_byte_at(s, i, j, 59),
        TokenKind::LParen => spec_one_byte_at(s, i, j, 40),
        TokenKind::RParen => spec_one_byte_at(s, i, j, 41),
        TokenKind::LBracket => spec_one_byte_at(s, i, j, 91),
        TokenKind::RBracket => spec_one_byte_at(s, i, j, 93),
        TokenKind::LBrace => spec_one_byte_at(s, i, j, 123),
        TokenKind::RBrace => spec_one_byte_at(s, i, j, 125),
        TokenKind::At => spec_one_byte_at(s, i, j, 64),
        TokenKind::Hash => spec_one_byte_at(s, i, j, 35),
    }
}

/// Where the token `t` ends in the source, determined by its kind.
pub open spec fn spec_token_end(s: Seq<u8>, t: Token) -> int {
    let i = t.offset as int;
    match t.kind {
        TokenKind::Id(_) => spec_ident_end(s, i),
        TokenKind::Num(_) => spec_number_end(s, i),
        TokenKind::KwModule => spec_ident_end(s, i),
        TokenKind::KwEndmodule => spec_ident_end(s, i),
        TokenKind::KwInput => spec_ident_end(s, i),
        TokenKind::KwOutput => spec_ident_end(s, i),
        TokenKind::KwReg => spec_ident_end(s, i),
        TokenKind::KwWire => spec_ident_end(s, i),
        TokenKind::KwAlways => spec_ident_end(s, i),
        TokenKind::KwPosedge => spec_ident_end(s, i),
        TokenKind::KwNegedge => spec_ident_end(s, i),
        TokenKind::KwIf => spec_ident_end(s, i),
        TokenKind::KwElse => spec_ident_end(s, i),
        TokenKind::KwCase => spec_ident_end(s, i),
        TokenKind::KwEndcase => spec_ident_end(s, i),
        TokenKind::KwBegin => spec_ident_end(s, i),
        TokenKind::KwEnd => spec_ident_end(s, i),
        TokenKind::KwParameter => spec_ident_end(s, i),
        TokenKind::EqEq => i + 2,
        TokenKind::NotEq => i + 2,
        TokenKind::Lte => i + 2,
        TokenKind::Gte => i + 2,
        TokenKind::AndAnd => i + 2,
        TokenKind::OrOr => i + 2,
        TokenKind::Shl => i + 2,
        TokenKind::Shr => i + 2,
        _ => i + 1,
    }
}

/// The first position at or after `i` holding a non-space byte, or the
/// text's end.
pub open spec fn spec_skip_space(s: Seq<u8>, i: int) -> int
    decreases s.len() - i,
{
    if i < 0 || i >= s.len() || !is_space_byte(s[i]) {
        i
    } else {
        spec_skip_space(s, i + 1)
    }
}

/// Skipping spaces from `i` lands exactly at `b` when everything before
/// `b` is space and `b` is the end or holds a non-space byte.
pub proof fn lemma_skip_space_interval(s: Seq<u8>, i: int, b: int)
    requires
        0 <= i <= b <= s.len(),
        forall|k: int| i <= k < b ==> is_space_byte(#[trigger] s[k]),
        b == s.len() || !is_space_byte(s[b]),
    ensures
        spec_skip_space(s, i) == b,
    decreases b - i,
{
    if i < b {
        lemma_skip_space_interval(s, i + 1, b);
    }
}

/// Every byte in `[a, b)` is whitespace.
pub open spec fn spec_all_space(s: Seq<u8>, a: int, b: int) -> bool {
    &&& 0 <= a <= b <= s.len()
    &&& forall|k: int| a <= k < b ==> is_space_byte(#[trigger] s[k])
}

/// The tokens tile the source up to `upto`: each token is exactly what
/// the source denotes at its offset, and everything before the first
/// token, between consecutive tokens, and after the last token is
/// whitespace.
pub open spec fn spec_lex_upto(s: Seq<u8>, toks: Seq<Token>, upto: int) -> bool {
    &&& forall|k: int|
        0 <= k < toks.len() ==> spec_token_at(s, #[trigger] toks[k], spec_token_end(s, toks[k]))
    &&& forall|k: int|
        0 <= k < toks.len() - 1 ==> spec_all_space(
            s,
            spec_token_end(s, #[trigger] toks[k]),
            toks[k + 1].offset as int,
        )
    &&& (if toks.len() == 0 {
        spec_all_space(s, 0, upto)
    } else {
        spec_all_space(s, 0, toks[0].offset as int) && spec_all_space(
            s,
            spec_token_end(s, toks[toks.len() - 1]),
            upto,
        )
    })
}

/// Appending a token that starts right where the tiling so far ends (up
/// to whitespace) and spans to `j` extends the tiling to `j`.
proof fn lemma_lex_push(s: Seq<u8>, prev: Seq<Token>, t: Token, j: int)
    requires
        spec_lex_upto(s, prev, t.offset as int),
        spec_token_at(s, t, j),
        spec_token_end(s, t) == j,
        0 <= j <= s.len(),
    ensures
        spec_lex_upto(s, prev.push(t), j),
{
    let r = prev.push(t);
    assert forall|k: int| 0 <= k < r.len() implies spec_token_at(
        s,
        #[trigger] r[k],
        spec_token_end(s, r[k]),
    ) by {
        if k < prev.len() {
            assert(r[k] == prev[k]);
        } else {
            assert(r[k] == t);
        }
    }
    assert forall|k: int| 0 <= k < r.len() - 1 implies spec_all_space(
        s,
        spec_token_end(s, #[trigger] r[k]),
        r[k + 1].offset as int,
    ) by {
        if k < prev.len() - 1 {
            assert(r[k] == prev[k]);
            assert(r[k + 1] == prev[k + 1]);
        } else {
            assert(r[k] == prev[k]);
            assert(r[k + 1] == t);
        }
    }
    if prev.len() == 0 {
        assert(r[0] == t);
    } else {
        assert(r[0] == prev[0]);
        assert(r[r.len() - 1] == t);
    }
    assert(spec_all_space(s, j, j));
}

/// The value of `b` as a digit under `base` (2, 8, 10 or 16), if it is one.
fn digit_value(b: u8, base: u8) -> (r: Option<u8>)
    ensures
        r == spec_digit_value(b, base),
        r is Some ==> r->0 < base,
{
    let v: u8 = if 48 <= b && b <= 57 {
        b - 48  // 0-9
    } else if 97 <= b && b <= 102 {
        b - 97 + 10  // a-f
    } else if 65 <= b && b <= 70 {
        b - 65 + 10  // A-F
    } else {
        255
    };
    if v < base {
        Some(v)
    } else {
        None
    }
}

fn bytes_eq_str(bytes: &Vec<u8>, s: &str) -> (r: bool)
    ensures
        r == (bytes@ == s.spec_bytes()),
{
    let sb = s.as_bytes();
    if bytes.len() != sb.len() {
        proof {
            assert(bytes@.len() != s.spec_bytes().len());
        }
        return false;
    }
    let mut i: usize = 0;
    while i < bytes.len()
        invariant
            i <= bytes.len(),
            bytes@.len() == sb@.len(),
            sb@ == s.spec_bytes(),
            forall|k: int| 0 <= k < i ==> bytes@[k] == sb@[k],
        decreases bytes.len() - i,
    {
        if bytes[i] != sb[i] {
            proof {
                assert(bytes@[i as int] != s.spec_bytes()[i as int]);
            }
            return false;
        }
        i = i + 1;
    }
    proof {
        assert(bytes@ =~= s.spec_bytes());
    }
    true
}

/// The keyword token for a word, where the word is one.
pub open spec fn spec_keyword_of(w: Seq<u8>) -> Option<TokenKind> {
    if w == "module".spec_bytes() {
        Some(TokenKind::KwModule)
    } else if w == "endmodule".spec_bytes() {
        Some(TokenKind::KwEndmodule)
    } else if w == "input".spec_bytes() {
        Some(TokenKind::KwInput)
    } else if w == "output".spec_bytes() {
        Some(TokenKind::KwOutput)
    } else if w == "reg".spec_bytes() {
        Some(TokenKind::KwReg)
    } else if w == "wire".spec_bytes() {
        Some(TokenKind::KwWire)
    } else if w == "always".spec_bytes() {
        Some(TokenKind::KwAlways)
    } else if w == "posedge".spec_bytes() {
        Some(TokenKind::KwPosedge)
    } else if w == "negedge".spec_bytes() {
        Some(TokenKind::KwNegedge)
    } else if w == "if".spec_bytes() {
        Some(TokenKind::KwIf)
    } else if w == "else".spec_bytes() {
        Some(TokenKind::KwElse)
    } else if w == "case".spec_bytes() {
        Some(TokenKind::KwCase)
    } else if w == "endcase".spec_bytes() {
        Some(TokenKind::KwEndcase)
    } else if w == "begin".spec_bytes() {
        Some(TokenKind::KwBegin)
    } else if w == "end".spec_bytes() {
        Some(TokenKind::KwEnd)
    } else if w == "parameter".spec_bytes() {
        Some(TokenKind::KwParameter)
    } else {
        None
    }
}

/// The token for an identifier-shaped word: a keyword where it matches one,
/// otherwise an `Id` holding exactly the word's characters.
fn word_token(word: Vec<u8>) -> (r: TokenKind)
    requires
        word@.len() > 0,
        forall|i: int| 0 <= i < word@.len() ==> is_ident_byte(#[trigger] word@[i]),
    ensures
        tok_id_wf(Token { kind: r, offset: 0 }),
        spec_keyword_of(word@) is Some ==> r == spec_keyword_of(word@)->0,
        spec_keyword_of(word@) is None ==> r is Id && r->Id_0@.len() == word@.len() && (forall|
            i: int,
        |
            0 <= i < word@.len() ==> r->Id_0@[i] == word@[i] as char),
{
    if bytes_eq_str(&word, "module") {
        TokenKind::KwModule
    } else if bytes_eq_str(&word, "endmodule") {
        TokenKind::KwEndmodule
    } else if bytes_eq_str(&word, "input") {
        TokenKind::KwInput
    } else if bytes_eq_str(&word, "output") {
        TokenKind::KwOutput
    } else if bytes_eq_str(&word, "reg") {
        TokenKind::KwReg
    } else if bytes_eq_str(&word, "wire") {
        TokenKind::KwWire
    } else if bytes_eq_str(&word, "always") {
        TokenKind::KwAlways
    } else if bytes_eq_str(&word, "posedge") {
        TokenKind::KwPosedge
    } else if bytes_eq_str(&word, "negedge") {
        TokenKind::KwNegedge
    } else if bytes_eq_str(&word, "if") {
        TokenKind::KwIf
    } else if bytes_eq_str(&word, "else") {
        TokenKind::KwElse
    } else if bytes_eq_str(&word, "case") {
        TokenKind::KwCase
    } else if bytes_eq_str(&word, "endcase") {
        TokenKind::KwEndcase
    } else if bytes_eq_str(&word, "begin") {
        TokenKind::KwBegin
    } else if bytes_eq_str(&word, "end") {
        TokenKind::KwEnd
    } else if bytes_eq_str(&word, "parameter") {
        TokenKind::KwParameter
    } else {
        proof {
            assert(forall|i: int| 0 <= i < word@.len() ==> word@[i] < 0x80);
        }
        let name = ascii_to_string(word);
        TokenKind::Id(name)
    }
}

/// Folds a run of digits under `base` starting at `i`, stopping at the
/// first byte that is not a digit of the base. Fails (with the offset of
/// the offending position) if there is no digit at all, or if the value
/// exceeds `i32::MAX`.
fn fold_digits(src: &[u8], i: usize, base: u8) -> (r: Result<(i32, usize), usize>)
    requires
        2 <= base <= 16,
        i <= src@.len(),
    ensures
        r is Ok ==> i < r->Ok_0.1 <= src@.len() && r->Ok_0.0 >= 0,
        r is Ok ==> r->Ok_0.1 == spec_run_end(src@, i as int, base) && r->Ok_0.0
            == spec_fold_value(src@, i as int, r->Ok_0.1 as int, base),
        r is Err ==> r->Err_0 <= src@.len(),
{
    let mut j: usize = i;
    let mut val: i64 = 0;
    let mut seen: bool = false;
    loop
        invariant
            i <= j <= src@.len(),
            0 <= val <= 0x7fff_ffff,
            seen ==> j > i,
            !seen ==> j == i && val == 0,
            2 <= base <= 16,
            val == spec_fold_value(src@, i as int, j as int, base),
            spec_run_end(src@, i as int, base) == spec_run_end(src@, j as int, base),
        decreases src@.len() - j,
    {
        if j >= src.len() {
            if seen {
                return Ok((val as i32, j));
            } else {
                return Err(j);
            }
        }
        match digit_value(src[j], base) {
            Some(d) => {
                proof {
                    assert(0 <= val * (base as i64) <= 0x7fff_ffff * 16) by (nonlinear_arith)
                        requires
                            0 <= val <= 0x7fff_ffff,
                            2 <= base <= 16,
                    ;
                }
                let next: i64 = val * (base as i64) + (d as i64);
                if next > 0x7fff_ffff {
                    return Err(j);
                }
                val = next;
                seen = true;
                j = j + 1;
            },
            None => {
                if seen {
                    return Ok((val as i32, j));
                } else {
                    return Err(j);
                }
            },
        }
    }
}

/// Lexes a numeric literal at `i`: either a plain decimal run, optionally
/// followed by `'` base digits (the decimal run is then the discarded
/// width), or a bare `'` base digits form with no width.
fn lex_number(src: &[u8], i: usize) -> (r: Result<(i32, usize), usize>)
    requires
        i < src@.len(),
        is_digit_byte(src@[i as int]) || src@[i as int] == QUOTE,
    ensures
        r is Ok ==> i < r->Ok_0.1 <= src@.len() && r->Ok_0.0 >= 0,
        r is Err ==> r->Err_0 <= src@.len(),
        r is Ok ==> spec_number_at(src@, i as int, r->Ok_0.0 as int, r->Ok_0.1 as int),
{
    let mut j: usize = i;
    let mut val: i32 = 0;
    if is_digit(src[j]) {
        let (v, j2) = match fold_digits(src, j, 10) {
            Ok(p) => p,
            Err(off) => {
                return Err(off);
            },
        };
        val = v;
        j = j2;
        if j >= src.len() || src[j] != QUOTE {
            return Ok((val, j));
        }
    }
    // at a `'`: the value read so far (if any) was the width, now discarded
    j = j + 1;
    if j >= src.len() {
        return Err(j);
    }
    // the base letter: b, o, d or h
    let base: u8 = match src[j] {
        98 => 2,  // b
        111 => 8,  // o
        100 => 10,  // d
        104 => 16,  // h
        _ => {
            return Err(j);
        },
    };
    j = j + 1;
    match fold_digits(src, j, base) {
        Ok((v, j2)) => Ok((v, j2)),
        Err(off) => Err(off),
    }
}

/// Converts raw source bytes into tokens. On success the tokens, with
/// whitespace between them, tile the whole input (`spec_lex_upto`): each
/// token is exactly the keyword, identifier, folded numeric literal or
/// operator that the bytes at its offset denote, by longest match, at
/// strictly increasing offsets. On failure the returned offset is the
/// position of the byte no token can start or continue at.
pub fn lex(src: &[u8]) -> (r: Result<Vec<Token>, usize>)
    ensures
        r is Ok ==> tokens_wf(r->Ok_0@, src@.len() as int),
        r is Ok ==> spec_lex_upto(src@, r->Ok_0@, src@.len() as int),
        r is Ok ==> (forall|a: int, b: int|
            0 <= a < b < r->Ok_0@.len() ==> (#[trigger] r->Ok_0@[a]).offset < (
            #[trigger] r->Ok_0@[b]).offset),
        r is Err ==> r->Err_0 <= src@.len(),
        src@.len() == 0 ==> r is Ok && r->Ok_0@.len() == 0,
{
    let mut toks: Vec<Token> = Vec::new();
    let mut i: usize = 0;
    while i < src.len()
        invariant
            i <= src@.len(),
            tokens_wf(toks@, src@.len() as int),
            src@.len() == 0 ==> toks@.len() == 0,
            spec_lex_upto(src@, toks@, i as int),
            forall|k: int| 0 <= k < toks@.len() ==> (#[trigger] toks@[k]).offset < i,
            forall|a: int, b: int|
                0 <= a < b < toks@.len() ==> (#[trigger] toks@[a]).offset < (
                #[trigger] toks@[b]).offset,
        decreases src@.len() - i,
    {
        let b = src[i];
        if is_space(b) {
            proof {
                if toks@.len() == 0 {
                    assert(spec_all_space(src@, 0, i + 1));
                } else {
                    assert(spec_all_space(
                        src@,
                        spec_token_end(src@, toks@[toks@.len() - 1]),
                        i + 1,
                    ));
                }
            }
            i = i + 1;
        } else if is_ident_start(b) {
            let mut j: usize = i + 1;
            let mut word: Vec<u8> = Vec::new();
            word.push(b);
            proof {
                assert(word@ =~= src@.subrange(i as int, i + 1));
            }
            while j < src.len() && is_ident_char(src[j])
                invariant
                    i < j <= src@.len(),
                    word@.len() == j - i,
                    forall|k: int| 0 <= k < word@.len() ==> is_ident_byte(#[trigger] word@[k]),
                    word@ == src@.subrange(i as int, j as int),
                    spec_ident_end(src@, i as int) == spec_ident_end(src@, j as int),
                decreases src@.len() - j,
            {
                word.push(src[j]);
                proof {
                    assert(word@ =~= src@.subrange(i as int, j + 1));
                }
                j = j + 1;
            }
            let ghost w = word@;
            let kind = word_token(word);
            let t = Token { kind, offset: i };
            proof {
                assert(spec_ident_end(src@, j as int) == j);
                assert(spec_token_at(src@, t, j as int));
                assert(spec_token_end(src@, t) == j as int);
                lemma_lex_push(src@, toks@, t, j as int);
            }
            toks.push(t);
            i = j;
        } else if is_digit(b) || b == QUOTE {
            match lex_number(src, i) {
                Ok((v, j)) => {
                    let t = Token { kind: TokenKind::Num(v), offset: i };
                    proof {
                        assert(spec_token_at(src@, t, j as int));
                        assert(spec_token_end(src@, t) == j as int);
                        lemma_lex_push(src@, toks@, t, j as int);
                    }
                    toks.push(t);
                    i = j;
                },
                Err(off) => {
                    return Err(off);
                },
            }
        } else {
            // operators and punctuation, longest match first
            let two = if i + 1 < src.len() {
                Some(src[i + 1])
            } else {
                None
            };
            let (kind, width): (TokenKind, usize) = match b {
                61 => {
                    if two == Some(61) {
                        (TokenKind::EqEq, 2)
                    } else {
                        (TokenKind::Equal, 1)
                    }
                },
                33 => {
                    if two == Some(61) {
                        (TokenKind::NotEq, 2)
                    } else {
                        (TokenKind::Bang, 1)
                    }
                },
                60 => {
                    if two == Some(61) {
                        (TokenKind::Lte, 2)
                    } else if two == Some(60) {
                        (TokenKind::Shl, 2)
                    } else {
                        (TokenKind::Lt, 1)
                    }
                },
                62 => {
                    if two == Some(61) {
                        (TokenKind::Gte, 2)
                    } else if two == Some(62) {
                        (TokenKind::Shr, 2)
                    } else {
                        (TokenKind::Gt, 1)
                    }
                },
                38 => {
                    if two == Some(38) {
                        (TokenKind::AndAnd, 2)
                    } else {
                        (TokenKind::Amp, 1)
                    }
                },
                124 => {
                    if two == Some(124) {
                        (TokenKind::OrOr, 2)
                    } else {
                        (TokenKind::Pipe, 1)
                    }
                },
                43 => (TokenKind::Plus, 1),
                45 => (TokenKind::Minus, 1),
                42 => (TokenKind::Star, 1),
                47 => (TokenKind::Slash, 1),
                63 => (TokenKind::Question, 1),
                58 => (TokenKind::Colon, 1),
                46 => (TokenKind::Dot, 1),
                44 => (TokenKind::Comma, 1),
                59 => (TokenKind::Semi, 1),
                40 => (TokenKind::LParen, 1),
                41 => (TokenKind::RParen, 1),
                91 => (TokenKind::LBracket, 1),
                93 => (TokenKind::RBracket, 1),
                123 => (TokenKind::LBrace, 1),
                125 => (TokenKind::RBrace, 1),
                64 => (TokenKind::At, 1),
                35 => (TokenKind::Hash, 1),
                _ => {
                    return Err(i);
                },
            };
            let t = Token { kind, offset: i };
            proof {
                assert(spec_token_at(src@, t, (i + width) as int));
                assert(spec_token_end(src@, t) == (i + width) as int);
                lemma_lex_push(src@, toks@, t, (i + width) as int);
            }
            toks.push(t);
            i = i + width;
        }
    }
    Ok(toks)
}

} // verus!
