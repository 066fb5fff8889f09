//! The few operations on text that come from std's `str`.

use vstd::prelude::*;
use crate::session::strings_view;

verus! {

/// `s` with every `from` replaced by `to`.
pub open spec fn replaced(s: Seq<char>, from: char, to: char) -> Seq<char> {
    s.map_values(|c: char| if c == from { to } else { c })
}

/// Relies on str::replace with a `char` pattern: every occurrence of `from`
/// is replaced by `to`, and nothing else changes.
#[verifier::external_body]
pub(crate) fn replace_char(s: &str, from: char, to: char) -> (r: String)
    ensures
        r@ == replaced(s@, from, to),
{
    s.replace(from, to.encode_utf8(&mut [0u8; 4]))
}

/// What `str::trim` leaves of a text.
pub uninterp spec fn trim_of(s: Seq<char>) -> Seq<char>;

/// Relies on str::trim: the text without leading and trailing whitespace.
#[verifier::external_body]
pub(crate) fn trim_text(s: &str) -> (r: String)
    ensures
        r@ == trim_of(s@),
{
    s.trim().to_string()
}

/// What `str::to_lowercase` makes of a text.
pub uninterp spec fn lower_of(s: Seq<char>) -> Seq<char>;

/// Relies on str::to_lowercase: the lowercase form of the text.
#[verifier::external_body]
pub(crate) fn lowercase(s: &str) -> (r: String)
    ensures
        r@ == lower_of(s@),
{
    s.to_lowercase()
}

/// The lines that `str::lines` finds in a text.
pub uninterp spec fn lines_of(s: Seq<char>) -> Seq<Seq<char>>;

/// Relies on str::lines: the lines of the text, in order, without their
/// line terminators.
#[verifier::external_body]
pub(crate) fn text_lines(s: &str) -> (r: Vec<String>)
    ensures
        strings_view(r@) == lines_of(s@),
{
    s.lines().map(|l| l.to_string()).collect()
}

} // verus!
