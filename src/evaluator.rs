//! Deciding whether a typed response matches the canonical answer.
use vstd::prelude::*;

verus! {

/// The characters of Unicode's White_Space property.
pub open spec fn is_white_space(c: char) -> bool {
    let u = c as u32;
    (0x9 <= u && u <= 0xd) || u == 0x20 || u == 0x85 || u == 0xa0 || u == 0x1680 || (0x2000 <= u
        && u <= 0x200a) || u == 0x2028 || u == 0x2029 || u == 0x202f || u == 0x205f || u == 0x3000
}

/// `s` without its leading white space.
pub open spec fn trim_start(s: Seq<char>) -> Seq<char>
    decreases s.len(),
{
    if s.len() > 0 && is_white_space(s[0]) {
        trim_start(s.drop_first())
    } else {
        s
    }
}

/// `s` without its trailing white space.
pub open spec fn trim_end(s: Seq<char>) -> Seq<char>
    decreases s.len(),
{
    if s.len() > 0 && is_white_space(s.last()) {
        trim_end(s.drop_last())
    } else {
        s
    }
}

/// `s` without white space at either end.
pub open spec fn trimmed(s: Seq<char>) -> Seq<char> {
    trim_end(trim_start(s))
}

/// A response matches an answer when, trimmed, it is that answer exactly.
pub open spec fn is_match(expected: Seq<char>, raw: Seq<char>) -> bool {
    trimmed(raw) == expected
}

/// Relies on `str::trim`: it removes the leading and trailing characters that
/// have Unicode's White_Space property, and nothing else.
#[verifier::external_body]
fn trim_text<'a>(s: &'a str) -> (r: &'a str)
    ensures
        r@ == trimmed(s@),
{
    s.trim()
}

/// The response with surrounding white space (line terminators included) removed.
pub fn trim_response(raw: &str) -> (r: String)
    ensures
        r@ == trimmed(raw@),
{
    trim_text(raw).to_owned()
}

/// Whether `raw`, trimmed, equals `expected` byte for byte.
pub fn answer_matches(expected: &str, raw: &str) -> (r: bool)
    ensures
        r == is_match(expected@, raw@),
{
    let got = trim_response(raw);
    let want = expected.to_owned();
    got == want
}

} // verus!
