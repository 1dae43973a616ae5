//! Comment stripping: a pure text-to-text pre-pass deleting, on every
//! line, everything from the first `//` to the end of that line. The
//! newline itself is kept, so byte offsets of all following lines shift
//! only by the deleted comment text, exactly as the spec functions state.

use vstd::prelude::*;

verus! {

/// Text outside a comment from position `i` on: each char is kept until a
/// `//` opens a comment.
pub open spec fn strip_code_from(s: Seq<char>, i: int) -> Seq<char>
    decreases s.len() - i, 0int,
{
    if i < 0 || i >= s.len() {
        Seq::<char>::empty()
    } else if s[i] == '/' && i + 1 < s.len() && s[i + 1] == '/' {
        strip_comment_from(s, i + 2)
    } else {
        seq![s[i]] + strip_code_from(s, i + 1)
    }
}

/// Text inside a comment from position `i` on: dropped until the line's
/// newline, which is kept.
pub open spec fn strip_comment_from(s: Seq<char>, i: int) -> Seq<char>
    decreases s.len() - i, 1int,
{
    if i < 0 || i >= s.len() {
        Seq::<char>::empty()
    } else if s[i] == '\n' {
        strip_code_from(s, i)
    } else {
        strip_comment_from(s, i + 1)
    }
}

/// The whole input with every line truncated at its first `//`.
pub open spec fn spec_strip_comments(s: Seq<char>) -> Seq<char> {
    strip_code_from(s, 0)
}

/// Relies on regex: `Regex::new(r"(?m)//.*")` with `replace_all` against
/// the empty string deletes, per line, the first `//` and everything after
/// it up to (not including) the newline, scanning matches left to right;
/// all other text is returned unchanged.
#[verifier::external_body]
fn replace_line_comments(code: &str) -> (r: String)
    ensures
        r@ == spec_strip_comments(code@),
{
    let re = regex::Regex::new(r"(?m)//.*").unwrap();
    re.replace_all(code, "").into_owned()
}

/// The source with every line truncated at its first `//`: the text the
/// lexer runs on, and the text parse-error byte offsets refer to.
pub fn strip_comments(code: &str) -> (r: String)
    ensures
        r@ == spec_strip_comments(code@),
{
    replace_line_comments(code)
}

} // verus!
