//! Station names: the naming pattern and the lower case that a name is
//! sent in. The pattern is matched by the `regex` crate.

use vstd::prelude::*;
use regex::Regex;

verus! {

/// The pattern that a station name has to follow: a lower-case letter,
/// then letters, digits, hyphens and dots.
pub const NAME_PATTERN: &'static str = r"^[a-z][a-zA-Z0-9\-.]*$";

/// What `regex` says of a pattern and a text: nothing where the pattern
/// does not compile, else whether the pattern matches somewhere in the text.
pub uninterp spec fn pattern_match(pattern: Seq<char>, text: Seq<char>) -> Option<bool>;

/// Compiles `pattern` by `Regex::new` and matches it by `Regex::is_match`,
/// both of `regex`. Trusted: the outcome depends on pattern and text alone.
/// Nothing is said of which texts a pattern matches.
#[verifier::external_body]
fn regex_is_match(pattern: &str, text: &str) -> (matched: Option<bool>)
    ensures
        matched == pattern_match(pattern@, text@),
{
    match Regex::new(pattern) {
        Ok(compiled) => Some(compiled.is_match(text)),
        Err(_) => None,
    }
}

/// Whether `name` follows the naming pattern.
pub open spec fn name_matches(name: Seq<char>) -> bool {
    pattern_match(NAME_PATTERN@, name) == Some(true)
}

/// Whether `name` follows the naming pattern.
pub fn is_valid_station_name(name: &str) -> (valid: bool)
    ensures
        valid == name_matches(name@),
{
    match regex_is_match(NAME_PATTERN, name) {
        Some(matched) => matched,
        None => false,
    }
}

/// A capital letter of ASCII as its small letter, any other byte as it is.
pub open spec fn lower_byte(b: u8) -> u8 {
    if 0x41 <= b && b <= 0x5a {
        (b + 0x20) as u8
    } else {
        b
    }
}

/// `bytes` with each byte in lower case.
pub open spec fn lower_bytes(bytes: Seq<u8>) -> Seq<u8> {
    Seq::new(bytes.len(), |i: int| lower_byte(bytes[i]))
}

/// Appends `bytes` in lower case to `out`. A name that follows the naming
/// pattern holds ASCII alone, so this is its lower case.
pub fn push_lower(out: &mut Vec<u8>, bytes: &[u8])
    ensures
        final(out)@ == old(out)@ + lower_bytes(bytes@),
{
    let mut i: usize = 0;
    while i < bytes.len()
        invariant
            i <= bytes@.len(),
            out@ == old(out)@ + lower_bytes(bytes@.take(i as int)),
        decreases bytes@.len() - i,
    {
        let b: u8 = bytes[i];
        let lowered: u8 = if 0x41 <= b && b <= 0x5a {
            b + 0x20
        } else {
            b
        };
        out.push(lowered);
        i += 1;
        assert(out@ =~= old(out)@ + lower_bytes(bytes@.take(i as int)));
    }
    assert(bytes@.take(i as int) =~= bytes@);
}

} // verus!
