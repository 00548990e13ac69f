//! Grapheme segmentation, taken from the `unicode-segmentation` crate, and
//! the one std string operation that vstd does not specify.

use unicode_segmentation::UnicodeSegmentation;
use crate::clusters::{joined, texts};
use vstd::prelude::*;

verus! {

/// The extended grapheme clusters of `s`, in order, as Unicode's text
/// segmentation rules divide it.
pub uninterp spec fn graphemes_of(s: Seq<char>) -> Seq<Seq<char>>;

/// Relies on `UnicodeSegmentation::graphemes(s, true)`: it yields the extended
/// grapheme clusters of `s` in order, each a non-empty slice of `s` that starts
/// where the one before it ended, until all of `s` is used.
#[verifier::external_body]
pub(crate) fn graphemes(s: &str) -> (r: Vec<String>)
    ensures
        texts(r@) == graphemes_of(s@),
        joined(texts(r@)) == s@,
        forall|i: int| 0 <= i < r@.len() ==> #[trigger] r@[i]@.len() > 0,
{
    s.graphemes(true).map(|g| g.to_string()).collect()
}

/// Relies on `String::push`: `c` is added at the end of `s`.
#[verifier::external_body]
pub(crate) fn push_char(s: &mut String, c: char)
    ensures
        final(s)@ == old(s)@.push(c),
{
    s.push(c);
}

} // verus!
