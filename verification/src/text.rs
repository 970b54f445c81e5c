//! Character classes and small string helpers that the tokenizer and the
//! parser share.
//!
//! The Unicode character classes and case folding come from `std`. Their
//! tables are far too large to restate, so each gets an uninterpreted name and
//! the library's contracts speak of those names. What this file says of
//! `std` is believed, not proved: the three names below and the four
//! `assume_specification` items.

use vstd::prelude::*;

verus! {

/// A token as the contracts see it: the characters of its text.
pub type Token = Seq<char>;

/// A token sequence as the contracts see it.
pub type Tokens = Seq<Seq<char>>;

/// Whether `c` has the Unicode `Alphabetic` property, as `char::is_alphabetic`
/// reports it.
pub uninterp spec fn alphabetic(c: char) -> bool;

/// Whether `c` is alphabetic or numeric in the Unicode sense, as
/// `char::is_alphanumeric` reports it.
pub uninterp spec fn alphanumeric(c: char) -> bool;

/// The Unicode lowercase form of a text, as `str::to_lowercase` computes it.
pub uninterp spec fn lowercase(s: Seq<char>) -> Seq<char>;

/// Assumed of `char::is_alphabetic`: it always returns, and its result
/// depends on the character alone. That result is what the contracts call
/// `alphabetic`; nothing is claimed about which characters have it.
pub assume_specification[ char::is_alphabetic ](c: char) -> (r: bool)
    ensures
        r == alphabetic(c),
;

/// Assumed of `char::is_alphanumeric`: it always returns, and its result
/// depends on the character alone. That result is what the contracts call
/// `alphanumeric`; nothing is claimed about which characters have it.
pub assume_specification[ char::is_alphanumeric ](c: char) -> (r: bool)
    ensures
        r == alphanumeric(c),
;

/// Assumed of `str::to_lowercase`: it always returns a new string, and the
/// characters of that string depend on the characters of the argument alone.
/// They are what the contracts call `lowercase`; nothing is claimed about
/// what the lowercase form of a given text is.
pub assume_specification[ str::to_lowercase ](s: &str) -> (r: String)
    ensures
        r@ == lowercase(s@),
;

/// Assumed of `String::push`: afterwards the string holds the characters it
/// held before, in the same order, followed by `c`.
pub assume_specification[ String::push ](s: &mut String, c: char)
    ensures
        final(s)@ == old(s)@.push(c),
;

/// Whether a token's text is exactly `literal`.
pub fn token_is(token: &String, literal: &str) -> (same: bool)
    ensures
        same == (token@ == literal@),
{
    let wanted = String::from_str(literal);
    *token == wanted
}

/// A fresh copy of the tokens from position `from` on.
pub(crate) fn suffix(tokens: &Vec<String>, from: usize) -> (rest: Vec<String>)
    requires
        from <= tokens.len(),
    ensures
        rest@ == tokens@.skip(from as int),
        rest.deep_view() == tokens.deep_view().skip(from as int),
{
    let mut rest: Vec<String> = Vec::new();
    let mut i: usize = from;
    while i < tokens.len()
        invariant
            from <= i <= tokens.len(),
            rest@ == tokens@.subrange(from as int, i as int),
        decreases tokens.len() - i,
    {
        rest.push(tokens[i].clone());
        i += 1;
    }
    rest
}

} // verus!
