//! Small operations on text, stated over sequences of characters.

use vstd::prelude::*;
use vstd::string::*;

verus! {

/// Whether `char::is_whitespace` holds of a character.
pub uninterp spec fn is_whitespace(c: char) -> bool;

/// A text without the characters at its start that `cut` holds of.
pub open spec fn trim_start_matches(s: Seq<char>, cut: spec_fn(char) -> bool) -> Seq<char>
    decreases s.len(),
{
    if s.len() > 0 && cut(s[0]) {
        trim_start_matches(s.drop_first(), cut)
    } else {
        s
    }
}

/// A text without the characters at its end that `cut` holds of.
pub open spec fn trim_end_matches(s: Seq<char>, cut: spec_fn(char) -> bool) -> Seq<char>
    decreases s.len(),
{
    if s.len() > 0 && cut(s.last()) {
        trim_end_matches(s.drop_last(), cut)
    } else {
        s
    }
}

/// A text without the characters at its two ends that `cut` holds of.
pub open spec fn trim_matches(s: Seq<char>, cut: spec_fn(char) -> bool) -> Seq<char> {
    trim_end_matches(trim_start_matches(s, cut), cut)
}

/// A text without its leading and trailing whitespace.
pub open spec fn trimmed(s: Seq<char>) -> Seq<char> {
    trim_matches(s, |c: char| is_whitespace(c))
}

/// The text of an optional string.
pub open spec fn optional_text(text: Option<&str>) -> Option<Seq<char>> {
    match text {
        Some(t) => Some(t@),
        None => None,
    }
}

/// A text without its final colon, if it ends in one.
pub open spec fn without_colon(s: Seq<char>) -> Option<Seq<char>> {
    if s.len() > 0 && s.last() == ':' {
        Some(s.drop_last())
    } else {
        None
    }
}

/// Calls `str::trim`. Believed, not proved: the slice returned is the text
/// without the characters at its two ends of which `char::is_whitespace`
/// holds.
#[verifier::external_body]
fn trim_slice<'a>(s: &'a str) -> (r: &'a str)
    ensures
        r@ == trim_matches(s@, |c: char| is_whitespace(c)),
{
    s.trim()
}

/// The text without the whitespace at its two ends.
pub fn trim<'a>(s: &'a str) -> (r: &'a str)
    ensures
        r@ == trimmed(s@),
{
    trim_slice(s)
}

/// Whether two texts hold the same characters.
pub fn same_text(a: &str, b: &str) -> (r: bool)
    ensures
        r == (a@ == b@),
{
    let left = a.to_owned();
    let right = b.to_owned();
    left == right
}

/// Whether `s` begins with `prefix`.
pub fn starts_with(s: &str, prefix: &str) -> (r: bool)
    ensures
        r == prefix@.is_prefix_of(s@),
{
    let n: usize = prefix.unicode_len();
    if s.unicode_len() < n {
        false
    } else {
        let head = s.substring_char(0, n);
        assert(prefix@.is_prefix_of(s@) <==> head@ =~= prefix@);
        same_text(head, prefix)
    }
}

/// The text before the final colon of `s`, if `s` ends in a colon.
pub fn strip_colon(s: &str) -> (r: Option<String>)
    ensures
        r.is_some() == without_colon(s@).is_some(),
        r matches Some(t) ==> without_colon(s@) == Some(t@),
{
    let n: usize = s.unicode_len();
    if n > 0 && s.get_char(n - 1) == ':' {
        let head = s.substring_char(0, n - 1);
        assert(head@ =~= s@.drop_last());
        Some(head.to_owned())
    } else {
        None
    }
}

/// The two texts, one after the other.
pub fn join(a: &str, b: &str) -> (r: String)
    ensures
        r@ == a@ + b@,
{
    a.to_owned().concat(b)
}

} // verus!
