//! The mathematics of a sequence of segments: byte lengths, contiguity, the
//! whole text, and which segment a byte range lies in.

use crate::split_text::SplitTextView;
use rusttype::Font;
use vstd::prelude::*;
use vstd::utf8::encode_utf8;

verus! {

/// The number of bytes that `text` takes in UTF-8.
pub open spec fn byte_len(text: Seq<char>) -> nat {
    encode_utf8(text).len()
}

/// The offset at which the next segment starts: where the last one ends, or 0.
pub open spec fn end_offset<S>(segs: Seq<SplitTextView<S>>) -> nat {
    if segs.len() == 0 {
        0
    } else {
        segs.last().end
    }
}

/// The ranges tile the whole text: each is as long as its text in bytes, the
/// first starts at 0, and each of the others starts where the one before ends.
pub open spec fn contiguous<S>(segs: Seq<SplitTextView<S>>) -> bool {
    &&& forall|i: int|
        0 <= i < segs.len() ==> (#[trigger] segs[i]).end == segs[i].start + byte_len(segs[i].text)
    &&& segs.len() > 0 ==> segs[0].start == 0
    &&& forall|i: int, j: int|
        0 <= i && i + 1 == j && j < segs.len() ==> (#[trigger] segs[i]).end == (
        #[trigger] segs[j]).start
}

/// The texts of all segments, one after the other.
pub open spec fn full_text<S>(segs: Seq<SplitTextView<S>>) -> Seq<char>
    decreases segs.len(),
{
    if segs.len() == 0 {
        Seq::empty()
    } else {
        full_text(segs.drop_last()) + segs.last().text
    }
}

/// `segs` with one more segment at its end, placed right after the last one.
pub open spec fn appended<S>(
    segs: Seq<SplitTextView<S>>,
    text: Seq<char>,
    style: Option<S>,
    font: Option<Font<'static>>,
) -> Seq<SplitTextView<S>> {
    segs.push(
        SplitTextView {
            text,
            style,
            font,
            start: end_offset(segs),
            end: end_offset(segs) + byte_len(text),
        },
    )
}

/// The byte range `[lo, hi)` lies within the segment's range.
pub open spec fn covers<S>(seg: SplitTextView<S>, lo: int, hi: int) -> bool {
    seg.start <= lo && hi <= seg.end
}

/// Segment `i` covers `[lo, hi)` and no segment before it does.
pub open spec fn is_first_covering<S>(
    segs: Seq<SplitTextView<S>>,
    lo: int,
    hi: int,
    i: int,
) -> bool {
    &&& 0 <= i < segs.len()
    &&& covers(segs[i], lo, hi)
    &&& forall|j: int| 0 <= j < i ==> !covers(#[trigger] segs[j], lo, hi)
}

/// No segment covers `[lo, hi)`.
pub open spec fn none_covering<S>(segs: Seq<SplitTextView<S>>, lo: int, hi: int) -> bool {
    forall|j: int| 0 <= j < segs.len() ==> !covers(#[trigger] segs[j], lo, hi)
}

} // verus!
