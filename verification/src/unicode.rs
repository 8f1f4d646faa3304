//! Grapheme segmentation and display width, as computed by the
//! `unicode-segmentation` and `unicode-width` crates.
use unicode_segmentation::UnicodeSegmentation;
use unicode_width::UnicodeWidthStr;
use vstd::prelude::*;
use vstd::utf8::*;

verus! {

/// The extended grapheme clusters of a string, each as its byte offset and byte length.
pub uninterp spec fn grapheme_spans_of(text: Seq<char>) -> Seq<(usize, usize)>;

/// The displayed width in columns of a string.
pub uninterp spec fn display_width_of(text: Seq<char>) -> usize;

/// `text` ends in a printable ASCII char (U+0020 to U+007E) that is its only
/// char or follows an ASCII char.
pub open spec fn ends_in_ascii_pair(text: Seq<char>) -> bool {
    &&& text.len() > 0
    &&& 0x20 <= (text.last() as u32) <= 0x7e
    &&& (text.len() == 1 || (text[text.len() - 2] as u32) < 0x80)
}

/// Calls `UnicodeSegmentation::grapheme_indices(text, true)` and records each
/// cluster's offset and byte length. The spans are the named result; beside the
/// name the contract states that the clusters tile the string: they are
/// non-empty, contiguous, start at byte 0 and end at the string's byte length,
/// and every offset lies on a char boundary (each cluster is a slice of the string).
/// It also states one boundary of the crate's: it gives each printable ASCII
/// char the category `GC_Any` and each other ASCII char `GC_Control`, `GC_CR`
/// or `GC_LF`, and its pair table breaks between any of these and a following
/// `GC_Any` (rules GB4 and GB999), so where the text ends in a printable ASCII
/// char that is alone or follows an ASCII char, the last cluster is that char.
#[verifier::external_body]
pub(crate) fn grapheme_spans(text: &str) -> (spans: Vec<(usize, usize)>)
    ensures
        spans@ == grapheme_spans_of(text@),
        spans_tile(spans@, encode_utf8(text@)),
        ends_in_ascii_pair(text@) ==> spans@.len() > 0 && spans@.last().0 == encode_utf8(text@).len()
            - 1 && spans@.last().1 == 1,
{
    text.grapheme_indices(true).map(|(idx, g)| (idx, g.len())).collect()
}

/// Calls `UnicodeWidthStr::width`. Its result is only named.
#[verifier::external_body]
pub(crate) fn display_width(text: &str) -> (w: usize)
    ensures
        w == display_width_of(text@),
{
    text.width()
}

/// The spans cover `bytes` from start to end, in order, without gaps, each
/// non-empty and starting on a char boundary.
pub open spec fn spans_tile(spans: Seq<(usize, usize)>, bytes: Seq<u8>) -> bool {
    &&& (bytes.len() == 0 <==> spans.len() == 0)
    &&& spans.len() > 0 ==> spans[0].0 == 0
    &&& spans.len() > 0 ==> spans.last().0 + spans.last().1 == bytes.len()
    &&& forall|k: int| 0 <= k < spans.len() ==> #[trigger] spans[k].1 > 0
    &&& forall|k: int| 0 <= k < spans.len() - 1 ==> #[trigger] spans[k + 1].0 == spans[k].0 + spans[k].1
    &&& forall|k: int| 0 <= k < spans.len() ==> is_char_boundary(bytes, #[trigger] spans[k].0 as int)
}

} // verus!
