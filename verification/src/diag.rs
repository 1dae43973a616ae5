//! The diagnostic reporter: maps a flat byte offset into source text to a
//! (line, column) location, renders a numbered listing of the source, and
//! renders an excerpt of up to three lines ending at the offset's line
//! with a caret under the offending column.
//!
//! The location mapping is stated exactly: `count_newlines` is the 0-based
//! line index and `last_line_start` the byte offset where that line
//! begins, so `offset == line start + column` always holds
//! (`lemma_offset_location`).

use vstd::prelude::*;
use vstd::string::StringSliceAdditionalSpecFns;

verus! {

/// The number of newline bytes strictly before `end`: the 0-based line
/// index of the position `end`.
pub open spec fn count_newlines(s: Seq<u8>, end: int) -> int
    decreases end,
{
    if end <= 0 {
        0
    } else {
        count_newlines(s, end - 1) + if s[end - 1] == 10 {
            1int
        } else {
            0int
        }
    }
}

/// The byte offset at which the line containing position `off` begins:
/// the position right after the last newline before `off`, or 0.
pub open spec fn last_line_start(s: Seq<u8>, off: int) -> int
    decreases off,
{
    if off <= 0 {
        0
    } else if s[off - 1] == 10 {
        off
    } else {
        last_line_start(s, off - 1)
    }
}

/// The position of the first newline at or after `i`, or the text's end.
pub open spec fn next_newline(s: Seq<u8>, i: int) -> int
    decreases s.len() - i,
{
    if i < 0 || i >= s.len() {
        s.len() as int
    } else if s[i] == 10 {
        i
    } else {
        next_newline(s, i + 1)
    }
}

pub proof fn lemma_next_newline_bounds(s: Seq<u8>, i: int)
    requires
        0 <= i <= s.len(),
    ensures
        i <= next_newline(s, i) <= s.len(),
        forall|j: int| i <= j < next_newline(s, i) ==> s[j] != 10,
        next_newline(s, i) < s.len() ==> s[next_newline(s, i)] == 10,
    decreases s.len() - i,
{
    if i < s.len() && s[i] != 10 {
        lemma_next_newline_bounds(s, i + 1);
    }
}

/// The computed location points at the character genuinely at the given
/// byte offset: the line starts at `start` (position 0 or right after a
/// newline), no newline lies between `start` and `off` (so `off` is at
/// column `off - start` of that line), and the line's 0-based index is
/// the count of newlines before its start.
pub proof fn lemma_offset_location(s: Seq<u8>, off: int)
    requires
        0 <= off <= s.len(),
    ensures
        ({
            let start = last_line_start(s, off);
            let line = count_newlines(s, off);
            &&& 0 <= start <= off
            &&& (start == 0 || s[start - 1] == 10)
            &&& forall|j: int| start <= j < off ==> s[j] != 10
            &&& count_newlines(s, start) == line
        }),
    decreases off,
{
    if off > 0 && s[off - 1] != 10 {
        lemma_offset_location(s, off - 1);
    }
}

/// Decimal digits of a non-negative integer, most significant first, as
/// ASCII bytes.
pub open spec fn spec_dec_bytes(n: int) -> Seq<u8>
    decreases n,
{
    if n < 10 {
        seq![(48 + if 0 <= n { n } else { 0 }) as u8]
    } else {
        spec_dec_bytes(n / 10) + seq![(48 + n % 10) as u8]
    }
}

/// A line number right-aligned to width 3, as the listing prints it.
pub open spec fn spec_pad3(n: int) -> Seq<u8> {
    if n < 10 {
        seq![32u8, 32u8] + spec_dec_bytes(n)
    } else if n < 100 {
        seq![32u8] + spec_dec_bytes(n)
    } else {
        spec_dec_bytes(n)
    }
}

/// One printed listing line: the right-aligned number, ` | `, the line's
/// text, and a newline.
pub open spec fn spec_line_entry(s: Seq<u8>, num: int, start: int) -> Seq<u8> {
    spec_pad3(num) + seq![32u8, 124u8, 32u8] + s.subrange(
        if 0 <= start <= s.len() {
            start
        } else {
            0
        },
        next_newline(s, start),
    ) + seq![10u8]
}

/// The numbered listing of all lines from `start` on, the first line
/// displayed as number `num`.
pub open spec fn spec_codelist_from(s: Seq<u8>, start: int, num: int) -> Seq<u8>
    decreases s.len() - start + 1,
    when 0 <= start
    via spec_codelist_from_dec
{
    if start >= s.len() {
        Seq::<u8>::empty()
    } else {
        spec_line_entry(s, num, start) + spec_codelist_from(s, next_newline(s, start) + 1, num + 1)
    }
}

#[via_fn]
proof fn spec_codelist_from_dec(s: Seq<u8>, start: int, num: int) {
    if 0 <= start < s.len() {
        lemma_next_newline_bounds(s, start);
    }
}

/// The whole source as a numbered listing, lines numbered from 1.
pub open spec fn spec_codelist(s: Seq<u8>) -> Seq<u8> {
    spec_codelist_from(s, 0, 1)
}

/// The excerpt for a diagnostic at `pos`: up to three numbered lines
/// ending at the line containing `pos`, then a caret line of `~` padding
/// and a `^` under the offending column (6 columns of listing prefix
/// included).
pub open spec fn spec_code_error(s: Seq<u8>, pos: int) -> Seq<u8> {
    let line = count_newlines(s, pos);
    let start = last_line_start(s, pos);
    let col = pos - start;
    let s1 = last_line_start(s, start - 1);
    let s2 = last_line_start(s, s1 - 1);
    (if line >= 2 {
        spec_line_entry(s, line - 1, s2)
    } else {
        Seq::<u8>::empty()
    }) + (if line >= 1 {
        spec_line_entry(s, line, s1)
    } else {
        Seq::<u8>::empty()
    }) + spec_line_entry(s, line + 1, start) + Seq::new((col + 6) as nat, |i: int| 126u8) + seq![
        94u8,
        10u8,
    ]
}

fn dec_bytes(n: usize) -> (r: Vec<u8>)
    ensures
        r@ == spec_dec_bytes(n as int),
    decreases n,
{
    if n < 10 {
        let mut v: Vec<u8> = Vec::new();
        v.push(48 + (n as u8));
        proof {
            assert(v@ =~= spec_dec_bytes(n as int));
        }
        v
    } else {
        let mut v = dec_bytes(n / 10);
        v.push(48 + ((n % 10) as u8));
        proof {
            assert(v@ =~= spec_dec_bytes((n / 10) as int) + seq![(48 + (n as int) % 10) as u8]);
        }
        v
    }
}

fn pad3(n: usize) -> (r: Vec<u8>)
    ensures
        r@ == spec_pad3(n as int),
{
    let mut v: Vec<u8> = Vec::new();
    if n < 10 {
        v.push(32);
        v.push(32);
    } else if n < 100 {
        v.push(32);
    }
    let mut d = dec_bytes(n);
    v.append(&mut d);
    proof {
        assert(v@ =~= spec_pad3(n as int));
    }
    v
}

fn find_newline(src: &[u8], start: usize) -> (r: usize)
    requires
        start <= src@.len(),
    ensures
        r == next_newline(src@, start as int),
        start <= r <= src@.len(),
{
    let mut j = start;
    while j < src.len() && src[j] != 10
        invariant
            start <= j <= src@.len(),
            next_newline(src@, start as int) == next_newline(src@, j as int),
        decreases src@.len() - j,
    {
        j = j + 1;
    }
    j
}

/// One listing line for the line starting at `start`, displayed as `num`.
fn line_entry(src: &[u8], num: usize, start: usize) -> (r: Vec<u8>)
    requires
        start <= src@.len(),
    ensures
        r@ == spec_line_entry(src@, num as int, start as int),
{
    let mut v = pad3(num);
    v.push(32);
    v.push(124);
    v.push(32);
    let end = find_newline(src, start);
    let ghost mid = v@;
    let mut j = start;
    while j < end
        invariant
            start <= j <= end <= src@.len(),
            v@ == mid + src@.subrange(start as int, j as int),
        decreases end - j,
    {
        v.push(src[j]);
        proof {
            assert(mid + src@.subrange(start as int, (j + 1) as int) =~= (mid + src@.subrange(
                start as int,
                j as int,
            )).push(src@[j as int]));
        }
        j = j + 1;
    }
    v.push(10);
    proof {
        assert(v@ =~= spec_line_entry(src@, num as int, start as int));
    }
    v
}

/// The 0-based line index, the line's start, and the starts of the one or
/// two preceding lines (meaningful when they exist).
fn scan_location(src: &[u8], pos: usize) -> (r: (usize, usize, usize, usize))
    requires
        pos <= src@.len(),
    ensures
        r.0 == count_newlines(src@, pos as int),
        r.1 == last_line_start(src@, pos as int),
        r.0 <= pos && r.3 <= r.2 <= r.1 <= pos,
        r.0 >= 1 ==> r.1 >= 1 && r.2 == last_line_start(src@, r.1 - 1),
        r.0 >= 2 ==> r.2 >= 1 && r.3 == last_line_start(src@, r.2 - 1),
{
    let mut line: usize = 0;
    let mut start: usize = 0;
    let mut prev: usize = 0;
    let mut prev2: usize = 0;
    let mut i: usize = 0;
    while i < pos
        invariant
            0 <= i <= pos <= src@.len(),
            line <= i && prev2 <= prev <= start <= i,
            line == count_newlines(src@, i as int),
            start == last_line_start(src@, i as int),
            line >= 1 ==> start >= 1 && prev == last_line_start(src@, start - 1),
            line >= 2 ==> prev >= 1 && prev2 == last_line_start(src@, prev - 1),
        decreases pos - i,
    {
        if src[i] == 10 {
            prev2 = prev;
            prev = start;
            start = i + 1;
            line = line + 1;
        }
        i = i + 1;
    }
    (line, start, prev, prev2)
}

/// The (0-based line, column) location of a byte offset, counting lines
/// by newline boundaries: the offset lies at exactly `column` bytes after
/// the start of line `line`.
pub fn line_col(code: &str, offset: usize) -> (r: (usize, usize))
    requires
        offset <= code.spec_bytes().len(),
    ensures
        r.0 == count_newlines(code.spec_bytes(), offset as int),
        r.1 == offset - last_line_start(code.spec_bytes(), offset as int),
{
    let bytes: &[u8] = code.as_bytes();
    let (line, start, _, _) = scan_location(bytes, offset);
    (line, offset - start)
}

/// The numbered listing of the source, as bytes.
pub fn codelist_bytes(src: &[u8]) -> (r: Vec<u8>)
    requires
        src@.len() + 8 <= usize::MAX,
    ensures
        r@ == spec_codelist(src@),
{
    let mut out: Vec<u8> = Vec::new();
    let mut start: usize = 0;
    let mut num: usize = 1;
    while start < src.len()
        invariant
            0 <= start,
            src@.len() + 8 <= usize::MAX,
            num <= start + 1,
            spec_codelist(src@) == out@ + spec_codelist_from(src@, start as int, num as int),
        decreases src@.len() + 1 - start,
    {
        proof {
            lemma_next_newline_bounds(src@, start as int);
        }
        let mut entry = line_entry(src, num, start);
        out.append(&mut entry);
        let nl = find_newline(src, start);
        start = nl + 1;
        num = num + 1;
        proof {
            assert(spec_codelist(src@) == out@ + spec_codelist_from(
                src@,
                start as int,
                num as int,
            ));
        }
    }
    proof {
        assert(out@ + spec_codelist_from(src@, start as int, num as int) =~= out@);
    }
    out
}

/// The diagnostic excerpt for a byte offset, as bytes: up to three
/// numbered context lines ending at the offset's line, and a caret line.
pub fn code_error_bytes(src: &[u8], tok_pos: usize) -> (r: Vec<u8>)
    requires
        tok_pos <= src@.len(),
        src@.len() + 8 <= usize::MAX,
    ensures
        r@ == spec_code_error(src@, tok_pos as int),
{
    let (line, start, prev, prev2) = scan_location(src, tok_pos);
    let col = tok_pos - start;
    let mut out: Vec<u8> = Vec::new();
    if line >= 2 {
        let mut e = line_entry(src, line - 1, prev2);
        out.append(&mut e);
    }
    if line >= 1 {
        let mut e = line_entry(src, line, prev);
        out.append(&mut e);
    }
    let mut e = line_entry(src, line + 1, start);
    out.append(&mut e);
    let mut k: usize = 0;
    let ghost head = out@;
    while k < col + 6
        invariant
            0 <= k <= col + 6,
            col + 8 <= usize::MAX,
            out@ == head + Seq::new(k as nat, |i: int| 126u8),
        decreases col + 6 - k,
    {
        out.push(126);
        proof {
            assert(head + Seq::new((k + 1) as nat, |i: int| 126u8) =~= (head + Seq::new(
                k as nat,
                |i: int| 126u8,
            )).push(126u8));
        }
        k = k + 1;
    }
    out.push(94);
    out.push(10);
    proof {
        assert(out@ =~= spec_code_error(src@, tok_pos as int));
    }
    out
}

/// A position whose count of preceding newlines is positive lies on a
/// line that begins after a newline, not at the text\'s start.
proof fn lemma_count_start(s: Seq<u8>, off: int)
    requires
        0 <= off <= s.len(),
        count_newlines(s, off) > 0,
    ensures
        last_line_start(s, off) > 0,
    decreases off,
{
    if off > 0 && s[off - 1] != 10 {
        lemma_count_start(s, off - 1);
    }
}

/// A sequence of bytes below 0x80 is valid UTF-8.
proof fn lemma_ascii_valid_utf8(b: Seq<u8>)
    requires
        forall|k: int| 0 <= k < b.len() ==> b[k] < 0x80,
    ensures
        vstd::utf8::valid_utf8(b),
{
    assert(b.subrange(0, 0) =~= Seq::<u8>::empty());
    assert(vstd::utf8::valid_utf8(b.subrange(0, 0)));
    vstd::utf8::partial_valid_utf8_extend_ascii_block(b, 0, b.len() as int);
    assert(b.subrange(0, b.len() as int) =~= b);
}

/// The position right after a newline byte is a character boundary.
proof fn lemma_boundary_after_newline(s: Seq<u8>, a: int)
    requires
        vstd::utf8::valid_utf8(s),
        1 <= a <= s.len(),
        s[a - 1] == 10,
    ensures
        vstd::utf8::is_char_boundary(s, a),
{
    vstd::utf8::is_char_boundary_iff_not_is_continuation_byte(s, a - 1);
    if a == s.len() {
        vstd::utf8::is_char_boundary_start_end_of_seq(s);
    } else {
        vstd::utf8::valid_utf8_split(s, a - 1);
        let t = s.subrange(a - 1, s.len() as int);
        assert(t[0] == 10);
        vstd::utf8::is_char_boundary_iff_is_leading_byte(t, 0);
        assert(vstd::utf8::length_of_first_scalar(t) == 1) by {
            reveal_with_fuel(vstd::utf8::valid_utf8, 2);
        }
        assert(vstd::utf8::is_char_boundary(t, 1)) by {
            reveal_with_fuel(vstd::utf8::is_char_boundary, 2);
        }
        vstd::utf8::is_char_boundary_iff_not_is_continuation_byte(t, 1);
        assert(t[1] == s[a]);
        vstd::utf8::is_char_boundary_iff_not_is_continuation_byte(s, a);
    }
}

/// A slice of valid UTF-8 text whose bounds are the text\'s ends or
/// positions adjacent to newline bytes is itself valid UTF-8.
proof fn lemma_line_slice_valid(s: Seq<u8>, a: int, b: int)
    requires
        vstd::utf8::valid_utf8(s),
        0 <= a <= b <= s.len(),
        a == 0 || s[a - 1] == 10,
        b == s.len() || s[b] == 10,
    ensures
        vstd::utf8::valid_utf8(s.subrange(a, b)),
{
    if a == 0 {
        vstd::utf8::is_char_boundary_start_end_of_seq(s);
    } else {
        lemma_boundary_after_newline(s, a);
    }
    vstd::utf8::valid_utf8_split(s, a);
    let t = s.subrange(a, s.len() as int);
    if b == s.len() {
        assert(s.subrange(a, b) =~= t);
    } else {
        assert(t[b - a] == s[b]);
        vstd::utf8::is_char_boundary_iff_not_is_continuation_byte(t, b - a);
        vstd::utf8::valid_utf8_split(t, b - a);
        assert(s.subrange(a, b) =~= t.subrange(0, b - a));
    }
}

/// The decimal digits of a number are ASCII digit bytes.
proof fn lemma_dec_bytes_ascii(n: int)
    ensures
        forall|k: int|
            0 <= k < spec_dec_bytes(n).len() ==> 48 <= #[trigger] spec_dec_bytes(n)[k] <= 57,
    decreases n,
{
    if n >= 10 {
        lemma_dec_bytes_ascii(n / 10);
        let l = spec_dec_bytes(n / 10);
        assert forall|k: int| 0 <= k < spec_dec_bytes(n).len() implies 48 <= #[trigger] spec_dec_bytes(
            n,
        )[k] <= 57 by {
            if k < l.len() {
                assert(spec_dec_bytes(n)[k] == l[k]);
            } else {
                assert(spec_dec_bytes(n)[k] == (48 + n % 10) as u8);
            }
        }
    }
}

/// One listing line of valid UTF-8 text is valid UTF-8: the number and
/// frame are ASCII, and the line\'s text is a newline-bounded slice.
proof fn lemma_line_entry_valid(s: Seq<u8>, num: int, start: int)
    requires
        vstd::utf8::valid_utf8(s),
        0 <= start <= s.len(),
        start == 0 || s[start - 1] == 10,
    ensures
        vstd::utf8::valid_utf8(spec_line_entry(s, num, start)),
{
    lemma_dec_bytes_ascii(num);
    lemma_ascii_valid_utf8(spec_pad3(num));
    lemma_ascii_valid_utf8(seq![32u8, 124u8, 32u8]);
    lemma_ascii_valid_utf8(seq![10u8]);
    lemma_next_newline_bounds(s, start);
    let b = next_newline(s, start);
    lemma_line_slice_valid(s, start, b);
    vstd::utf8::valid_utf8_concat(spec_pad3(num), seq![32u8, 124u8, 32u8]);
    vstd::utf8::valid_utf8_concat(spec_pad3(num) + seq![32u8, 124u8, 32u8], s.subrange(start, b));
    vstd::utf8::valid_utf8_concat(
        spec_pad3(num) + seq![32u8, 124u8, 32u8] + s.subrange(start, b),
        seq![10u8],
    );
}

/// For any source text that is valid UTF-8 (the bytes of every `&str`
/// are), the diagnostic excerpt is valid UTF-8, so `code_error` returns
/// exactly it.
pub proof fn lemma_code_error_valid_utf8(s: Seq<u8>, pos: int)
    requires
        vstd::utf8::valid_utf8(s),
        0 <= pos <= s.len(),
    ensures
        vstd::utf8::valid_utf8(spec_code_error(s, pos)),
{
    let line = count_newlines(s, pos);
    let start = last_line_start(s, pos);
    let col = pos - start;
    let s1 = last_line_start(s, start - 1);
    let s2 = last_line_start(s, s1 - 1);
    lemma_offset_location(s, pos);
    let part1 = if line >= 2 {
        spec_line_entry(s, line - 1, s2)
    } else {
        Seq::<u8>::empty()
    };
    let part2 = if line >= 1 {
        spec_line_entry(s, line, s1)
    } else {
        Seq::<u8>::empty()
    };
    if line >= 1 {
        lemma_count_start(s, pos);
        lemma_offset_location(s, start - 1);
        lemma_line_entry_valid(s, line, s1);
        if line >= 2 {
            assert(count_newlines(s, start - 1) >= 1);
            lemma_count_start(s, start - 1);
            lemma_offset_location(s, s1 - 1);
            lemma_line_entry_valid(s, line - 1, s2);
        } else {
            lemma_ascii_valid_utf8(part1);
        }
    } else {
        lemma_ascii_valid_utf8(part1);
        lemma_ascii_valid_utf8(part2);
    }
    lemma_line_entry_valid(s, line + 1, start);
    lemma_ascii_valid_utf8(Seq::new((col + 6) as nat, |i: int| 126u8));
    lemma_ascii_valid_utf8(seq![94u8, 10u8]);
    vstd::utf8::valid_utf8_concat(part1, part2);
    vstd::utf8::valid_utf8_concat(part1 + part2, spec_line_entry(s, line + 1, start));
    vstd::utf8::valid_utf8_concat(
        part1 + part2 + spec_line_entry(s, line + 1, start),
        Seq::new((col + 6) as nat, |i: int| 126u8),
    );
    vstd::utf8::valid_utf8_concat(
        part1 + part2 + spec_line_entry(s, line + 1, start) + Seq::new(
            (col + 6) as nat,
            |i: int| 126u8,
        ),
        seq![94u8, 10u8],
    );
}

proof fn lemma_codelist_from_valid_utf8(s: Seq<u8>, start: int, num: int)
    requires
        vstd::utf8::valid_utf8(s),
        0 <= start,
        start == 0 || start >= s.len() || (start - 1 < s.len() && s[start - 1] == 10),
    ensures
        vstd::utf8::valid_utf8(spec_codelist_from(s, start, num)),
    decreases s.len() - start + 1,
{
    if start >= s.len() {
        lemma_ascii_valid_utf8(Seq::<u8>::empty());
    } else {
        lemma_line_entry_valid(s, num, start);
        lemma_next_newline_bounds(s, start);
        lemma_codelist_from_valid_utf8(s, next_newline(s, start) + 1, num + 1);
        vstd::utf8::valid_utf8_concat(
            spec_line_entry(s, num, start),
            spec_codelist_from(s, next_newline(s, start) + 1, num + 1),
        );
    }
}

/// For any source text that is valid UTF-8 (the bytes of every `&str`
/// are), the numbered listing is valid UTF-8, so `codelist` returns
/// exactly it.
pub proof fn lemma_codelist_valid_utf8(s: Seq<u8>)
    requires
        vstd::utf8::valid_utf8(s),
    ensures
        vstd::utf8::valid_utf8(spec_codelist(s)),
{
    lemma_codelist_from_valid_utf8(s, 0, 1);
}

/// Relies on String::from_utf8_lossy: bytes that are valid UTF-8 decode to
/// the string holding exactly those bytes.
#[verifier::external_body]
fn bytes_to_string_lossy(bytes: Vec<u8>) -> (r: String)
    ensures
        vstd::utf8::valid_utf8(bytes@) ==> vstd::utf8::encode_utf8(r@) == bytes@,
{
    String::from_utf8_lossy(&bytes).into_owned()
}

/// The source rendered as a numbered listing, one line per source line:
/// the returned string holds exactly the listing's bytes.
pub fn codelist(code: &str) -> (r: String)
    requires
        code.spec_bytes().len() + 8 <= usize::MAX,
    ensures
        vstd::utf8::encode_utf8(r@) == spec_codelist(code.spec_bytes()),
{
    proof {
        vstd::utf8::encode_utf8_valid_utf8(code@);
        lemma_codelist_valid_utf8(code.spec_bytes());
    }
    bytes_to_string_lossy(codelist_bytes(code.as_bytes()))
}

/// The diagnostic excerpt for a byte offset into the source: up to three
/// numbered lines of context ending at the offset's line, then a caret
/// under the offending column. The returned string holds exactly the
/// excerpt's bytes.
pub fn code_error(code: &str, tok_pos: usize) -> (r: String)
    requires
        tok_pos <= code.spec_bytes().len(),
        code.spec_bytes().len() + 8 <= usize::MAX,
    ensures
        vstd::utf8::encode_utf8(r@) == spec_code_error(code.spec_bytes(), tok_pos as int),
{
    proof {
        vstd::utf8::encode_utf8_valid_utf8(code@);
        lemma_code_error_valid_utf8(code.spec_bytes(), tok_pos as int);
    }
    bytes_to_string_lossy(code_error_bytes(code.as_bytes(), tok_pos))
}

} // verus!
