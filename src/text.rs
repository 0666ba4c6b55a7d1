use vstd::prelude::*;

verus! {

/// The characters of Unicode's White_Space property.
pub open spec fn is_white_space(c: char) -> bool {
    ('\u{9}' <= c && c <= '\u{d}') || c == ' ' || c == '\u{85}' || c == '\u{a0}' || c
        == '\u{1680}' || ('\u{2000}' <= c && c <= '\u{200a}') || c == '\u{2028}' || c
        == '\u{2029}' || c == '\u{202f}' || c == '\u{205f}' || c == '\u{3000}'
}

/// The text without the white space at its end.
pub open spec fn without_trailing_space(s: Seq<char>) -> Seq<char>
    decreases s.len(),
{
    if s.len() > 0 && is_white_space(s.last()) {
        without_trailing_space(s.drop_last())
    } else {
        s
    }
}

/// Relies on str::trim_end, which removes the trailing characters that have
/// Unicode's White_Space property.
#[verifier::external_body]
fn trim_end_of(s: &str) -> (r: &str)
    ensures
        r@ == without_trailing_space(s@),
{
    s.trim_end()
}

/// A copy of the line without its trailing white space and line break.
pub fn trim_trailing(line: &str) -> (r: String)
    ensures
        r@ == without_trailing_space(line@),
{
    String::from_str(trim_end_of(line))
}

} // verus!
