//! Text views, and the character and string operations of std that the
//! library rests on.
use vstd::prelude::*;

verus! {

/// The text of each string.
pub open spec fn texts(v: Seq<String>) -> Seq<Seq<char>> {
    v.map_values(|s: String| s@)
}

/// The text of an optional string.
pub open spec fn opt_text(o: Option<String>) -> Option<Seq<char>> {
    match o {
        Some(s) => Some(s@),
        None => None,
    }
}

/// Whether a char has Unicode's `Uppercase` property.
pub uninterp spec fn upper_of(c: char) -> bool;

/// Whether a char has Unicode's `Lowercase` property.
pub uninterp spec fn lower_of(c: char) -> bool;

/// Relies on `char::is_uppercase`: its answer depends on the char alone.
#[verifier::external_body]
pub(crate) fn is_upper(c: char) -> (r: bool)
    ensures
        r == upper_of(c),
{
    c.is_uppercase()
}

/// Relies on `char::is_lowercase`: its answer depends on the char alone.
#[verifier::external_body]
pub(crate) fn is_lower(c: char) -> (r: bool)
    ensures
        r == lower_of(c),
{
    c.is_lowercase()
}

/// Relies on `str::chars` collected into a `Vec`: the chars of `s`, in order.
#[verifier::external_body]
pub(crate) fn chars_of(s: &str) -> (r: Vec<char>)
    ensures
        r@ == s@,
{
    s.chars().collect()
}

/// Relies on `String::push`: appends one char at the end.
#[verifier::external_body]
pub(crate) fn push_char(s: &mut String, c: char)
    ensures
        final(s)@ == old(s)@.push(c),
{
    s.push(c)
}

/// The upper-case mapping of a text.
pub uninterp spec fn upper_text(s: Seq<char>) -> Seq<char>;

/// The whitespace-separated tokens of a text.
pub uninterp spec fn tokens_of(s: Seq<char>) -> Seq<Seq<char>>;

/// Relies on `str::to_uppercase`: the result depends on the text alone.
#[verifier::external_body]
pub(crate) fn to_upper(s: &str) -> (r: String)
    ensures
        r@ == upper_text(s@),
{
    s.to_uppercase()
}

/// Relies on `str::split_whitespace`: the non-whitespace substrings of `s`,
/// in order, each no longer than `s`.
#[verifier::external_body]
pub(crate) fn split_tokens(s: &str) -> (r: Vec<String>)
    ensures
        texts(r@) == tokens_of(s@),
        forall|k: int| 0 <= k < r.len() ==> #[trigger] r@[k]@.len() <= s@.len(),
{
    s.split_whitespace().map(|t| t.to_string()).collect()
}

/// Whether two texts are equal.
pub fn same_text(a: &str, b: &str) -> (r: bool)
    ensures
        r == (a@ == b@),
{
    a.to_string() == b.to_string()
}

} // verus!
