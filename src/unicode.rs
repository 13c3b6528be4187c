//! Display width and grapheme segmentation, from the unicode crates.

use vstd::prelude::*;
use unicode_segmentation::UnicodeSegmentation;
use unicode_width::UnicodeWidthStr;

verus! {

/// The number of terminal columns a string occupies.
pub uninterp spec fn display_width_of(s: Seq<char>) -> nat;

/// The extended grapheme clusters of a string, in order.
pub uninterp spec fn graphemes_of(s: Seq<char>) -> Seq<Seq<char>>;

/// Relies on `unicode_width::UnicodeWidthStr::width`: the display width of
/// the string, a function of its characters alone.
#[verifier::external_body]
pub(crate) fn str_width(s: &str) -> (r: usize)
    ensures
        r == display_width_of(s@),
{
    UnicodeWidthStr::width(s)
}

/// Relies on `unicode_segmentation::UnicodeSegmentation::graphemes` with
/// extended clusters: the clusters of the string, a function of its
/// characters alone.
#[verifier::external_body]
pub(crate) fn graphemes(s: &str) -> (r: Vec<String>)
    ensures
        r@.map_values(|g: String| g@) == graphemes_of(s@),
{
    s.graphemes(true).map(|g| g.to_string()).collect()
}

} // verus!
