//! What holds of every well-formed sequence of segments.
//!
//! The operations of [`TextArea`](crate::TextArea) are stated over the functions
//! of [`model`](crate::model); the lemmas here say what follows for ranges,
//! for the whole text and for lookups.

use crate::model::{
    appended, byte_len, contiguous, covers, end_offset, full_text, is_first_covering,
    none_covering,
};
use crate::split_text::SplitTextView;
use rusttype::Font;
use vstd::prelude::*;
use vstd::utf8::{
    encode_utf8, encode_utf8_valid_utf8, is_ascii_chars, is_ascii_chars_encode_utf8,
    is_char_boundary, pop_first_scalar, valid_utf8, valid_utf8_concat,
};

verus! {

/// The UTF-8 encoding of two texts in a row is the two encodings in a row.
pub proof fn lemma_encode_concat(a: Seq<char>, b: Seq<char>)
    ensures
        encode_utf8(a + b) == encode_utf8(a) + encode_utf8(b),
        byte_len(a + b) == byte_len(a) + byte_len(b),
    decreases a.len(),
{
    if a.len() == 0 {
        assert(a + b == b);
    } else {
        lemma_encode_concat(a.drop_first(), b);
        assert((a + b).drop_first() == a.drop_first() + b);
    }
}

/// A text of ASCII characters takes one byte for each character.
pub proof fn lemma_ascii_byte_len(text: Seq<char>)
    requires
        is_ascii_chars(text),
    ensures
        byte_len(text) == text.len(),
{
    is_ascii_chars_encode_utf8(text);
}

/// An empty sequence is well formed, and its whole text is empty.
pub proof fn lemma_empty_contiguous<S>()
    ensures
        contiguous(Seq::<SplitTextView<S>>::empty()),
        end_offset(Seq::<SplitTextView<S>>::empty()) == 0,
        full_text(Seq::<SplitTextView<S>>::empty()) == Seq::<char>::empty(),
{
}

/// Appending keeps a sequence well formed, whatever the text, the style and the
/// font are: the new range starts where the text ended and is as long as the
/// new text, also where that is empty.
pub proof fn lemma_appended_contiguous<S>(
    segs: Seq<SplitTextView<S>>,
    text: Seq<char>,
    style: Option<S>,
    font: Option<Font<'static>>,
)
    requires
        contiguous(segs),
    ensures
        contiguous(appended(segs, text, style, font)),
        end_offset(appended(segs, text, style, font)) == end_offset(segs) + byte_len(text),
        full_text(appended(segs, text, style, font)) == full_text(segs) + text,
{
    let more = appended(segs, text, style, font);
    assert(more.drop_last() == segs);
    assert forall|i: int| 0 <= i < more.len() implies (#[trigger] more[i]).end == more[i].start
        + byte_len(more[i].text) by {
        if i < segs.len() {
            assert(more[i] == segs[i]);
        }
    }
    assert forall|i: int, j: int| 0 <= i && i + 1 == j && j < more.len() implies (
    #[trigger] more[i]).end == (#[trigger] more[j]).start by {
        assert(more[i] == segs[i]);
        if j < segs.len() {
            assert(more[j] == segs[j]);
        }
    }
}

/// Appending changes no segment that is already there, and adds exactly one,
/// which holds what was appended.
pub proof fn lemma_appended_keeps_segments<S>(
    segs: Seq<SplitTextView<S>>,
    text: Seq<char>,
    style: Option<S>,
    font: Option<Font<'static>>,
)
    ensures
        segs.is_prefix_of(appended(segs, text, style, font)),
        appended(segs, text, style, font).len() == segs.len() + 1,
        appended(segs, text, style, font).last().text == text,
        appended(segs, text, style, font).last().style == style,
        appended(segs, text, style, font).last().font == font,
{
}

/// A segment appended without a style has neither style nor font, and stays so
/// whatever is appended after it: in every sequence `later` that the sequence
/// has grown into, it stands in its place unchanged.
pub proof fn lemma_plain_segment_stays_plain<S>(
    segs: Seq<SplitTextView<S>>,
    text: Seq<char>,
    later: Seq<SplitTextView<S>>,
)
    requires
        appended(segs, text, None, None).is_prefix_of(later),
    ensures
        later[segs.len() as int].text == text,
        later[segs.len() as int].style is None,
        later[segs.len() as int].font is None,
        later[segs.len() as int].start == end_offset(segs),
{
    let grown = appended::<S>(segs, text, None, None);
    assert(later[segs.len() as int] == grown[segs.len() as int]);
}

/// The first `n` segments of a well-formed sequence are a well-formed sequence.
pub proof fn lemma_prefix_contiguous<S>(segs: Seq<SplitTextView<S>>, n: int)
    requires
        contiguous(segs),
        0 <= n <= segs.len(),
    ensures
        contiguous(segs.take(n)),
{
    let head = segs.take(n);
    assert forall|i: int| 0 <= i < head.len() implies (#[trigger] head[i]).end == head[i].start
        + byte_len(head[i].text) by {
        assert(head[i] == segs[i]);
    }
    assert forall|i: int, j: int| 0 <= i && i + 1 == j && j < head.len() implies (
    #[trigger] head[i]).end == (#[trigger] head[j]).start by {
        assert(head[i] == segs[i]);
        assert(head[j] == segs[j]);
    }
}

/// Of two segments, the earlier one ends at or before the offset at which the
/// later one starts, so their ranges do not overlap; where the earlier one is
/// not empty, the later one starts strictly after it does.
pub proof fn lemma_ranges_ordered<S>(segs: Seq<SplitTextView<S>>, i: int, j: int)
    requires
        contiguous(segs),
        0 <= i < j < segs.len(),
    ensures
        segs[i].start <= segs[i].end <= segs[j].start <= segs[j].end,
        byte_len(segs[i].text) > 0 ==> segs[i].start < segs[j].start,
    decreases j - i,
{
    if i + 1 < j {
        lemma_ranges_ordered(segs, i, j - 1);
    }
    assert(segs[j - 1].end == segs[j].start);
}

/// Every range lies within the whole text: it ends at or before the offset at
/// which the last one ends.
pub proof fn lemma_range_within_text<S>(segs: Seq<SplitTextView<S>>, i: int)
    requires
        contiguous(segs),
        0 <= i < segs.len(),
    ensures
        segs[i].start <= segs[i].end <= end_offset(segs),
{
    if i < segs.len() - 1 {
        lemma_ranges_ordered(segs, i, segs.len() - 1);
    }
}

/// The whole text is as long, in bytes, as the offset at which the last segment
/// ends; it is empty where there is no segment.
pub proof fn lemma_full_text_byte_len<S>(segs: Seq<SplitTextView<S>>)
    requires
        contiguous(segs),
    ensures
        byte_len(full_text(segs)) == end_offset(segs),
    decreases segs.len(),
{
    if segs.len() > 0 {
        let head = segs.drop_last();
        assert(head == segs.take(segs.len() - 1));
        lemma_prefix_contiguous(segs, segs.len() - 1);
        lemma_full_text_byte_len(head);
        lemma_encode_concat(full_text(head), segs.last().text);
        if head.len() > 0 {
            assert(head.last() == segs[segs.len() - 2]);
        }
    }
}

/// The whole text is the text of the first `n` segments followed by the text
/// of the others.
pub proof fn lemma_full_text_split<S>(segs: Seq<SplitTextView<S>>, n: int)
    requires
        0 <= n <= segs.len(),
    ensures
        full_text(segs) == full_text(segs.take(n)) + full_text(segs.skip(n)),
    decreases segs.len(),
{
    if n == segs.len() {
        assert(segs.take(n) == segs);
        assert(full_text(segs.skip(n)) == Seq::<char>::empty());
    } else {
        let head = segs.drop_last();
        lemma_full_text_split(head, n);
        assert(head.take(n) == segs.take(n));
        assert(head.skip(n) == segs.skip(n).drop_last());
        assert(segs.skip(n).last() == segs.last());
    }
}

/// A segment's range is the place of its text in the whole text: it starts
/// after the bytes of all the texts before it, and the bytes of the whole text
/// within the range are the bytes of the segment's text.
pub proof fn lemma_range_is_place_of_text<S>(segs: Seq<SplitTextView<S>>, i: int)
    requires
        contiguous(segs),
        0 <= i < segs.len(),
    ensures
        segs[i].start == byte_len(full_text(segs.take(i))),
        segs[i].end <= byte_len(full_text(segs)),
        encode_utf8(full_text(segs)).subrange(segs[i].start as int, segs[i].end as int)
            == encode_utf8(segs[i].text),
    decreases segs.len(),
{
    let head = segs.drop_last();
    assert(head == segs.take(segs.len() - 1));
    lemma_prefix_contiguous(segs, segs.len() - 1);
    lemma_full_text_byte_len(head);
    lemma_full_text_byte_len(segs);
    lemma_encode_concat(full_text(head), segs.last().text);
    let whole = encode_utf8(full_text(segs));
    if i == segs.len() - 1 {
        assert(segs.take(i) == head);
        if head.len() > 0 {
            assert(head.last().end == segs[i].start);
        }
        assert(whole.subrange(segs[i].start as int, segs[i].end as int) == encode_utf8(
            segs[i].text,
        ));
    } else {
        lemma_range_is_place_of_text(head, i);
        lemma_range_within_text(head, i);
        assert(head[i] == segs[i]);
        assert(head.take(i) == segs.take(i));
        assert(whole.subrange(segs[i].start as int, segs[i].end as int) == encode_utf8(
            full_text(head),
        ).subrange(segs[i].start as int, segs[i].end as int));
    }
}

/// Where one valid UTF-8 encoding follows another, the place where they meet
/// is a character boundary of the two in a row.
pub proof fn lemma_seam_is_char_boundary(first: Seq<u8>, second: Seq<u8>)
    requires
        valid_utf8(first),
        valid_utf8(second),
    ensures
        valid_utf8(first + second),
        is_char_boundary(first + second, first.len() as int),
    decreases first.len(),
{
    valid_utf8_concat(first, second);
    if first.len() > 0 {
        let rest = pop_first_scalar(first);
        lemma_seam_is_char_boundary(rest, second);
        assert(pop_first_scalar(first + second) == rest + second);
    }
}

/// The bytes of the first `n` segments end on a character boundary of the whole
/// text.
pub proof fn lemma_text_splits_on_char_boundary<S>(segs: Seq<SplitTextView<S>>, n: int)
    requires
        0 <= n <= segs.len(),
    ensures
        is_char_boundary(
            encode_utf8(full_text(segs)),
            byte_len(full_text(segs.take(n))) as int,
        ),
{
    let before = full_text(segs.take(n));
    let after = full_text(segs.skip(n));
    lemma_full_text_split(segs, n);
    lemma_encode_concat(before, after);
    encode_utf8_valid_utf8(before);
    encode_utf8_valid_utf8(after);
    lemma_seam_is_char_boundary(encode_utf8(before), encode_utf8(after));
}

/// A range starts and ends on character boundaries of the whole text: no
/// segment begins or ends inside the encoding of a character.
pub proof fn lemma_range_on_char_boundaries<S>(segs: Seq<SplitTextView<S>>, i: int)
    requires
        contiguous(segs),
        0 <= i < segs.len(),
    ensures
        is_char_boundary(encode_utf8(full_text(segs)), segs[i].start as int),
        is_char_boundary(encode_utf8(full_text(segs)), segs[i].end as int),
{
    lemma_text_splits_on_char_boundary(segs, i);
    lemma_text_splits_on_char_boundary(segs, i + 1);
    lemma_range_is_place_of_text(segs, i);
    lemma_prefix_contiguous(segs, i + 1);
    lemma_full_text_byte_len(segs.take(i + 1));
    assert(segs.take(i + 1).last() == segs[i]);
}

/// At most one index is the first to cover a byte range: a lookup has one
/// answer.
pub proof fn lemma_first_covering_unique<S>(
    segs: Seq<SplitTextView<S>>,
    lo: int,
    hi: int,
    i: int,
    j: int,
)
    requires
        is_first_covering(segs, lo, hi, i),
        is_first_covering(segs, lo, hi, j),
    ensures
        i == j,
{
}

/// A byte range that is not empty and lies within the range of segment `i` is
/// looked up as segment `i`, and no other segment covers it.
pub proof fn lemma_lookup_within_segment<S>(
    segs: Seq<SplitTextView<S>>,
    i: int,
    lo: int,
    hi: int,
)
    requires
        contiguous(segs),
        0 <= i < segs.len(),
        lo < hi,
        covers(segs[i], lo, hi),
    ensures
        is_first_covering(segs, lo, hi, i),
        forall|j: int| 0 <= j < segs.len() && j != i ==> !covers(#[trigger] segs[j], lo, hi),
{
    assert forall|j: int| 0 <= j < segs.len() && j != i implies !covers(
        #[trigger] segs[j],
        lo,
        hi,
    ) by {
        if j < i {
            lemma_ranges_ordered(segs, j, i);
        } else {
            lemma_ranges_ordered(segs, i, j);
        }
    }
}

/// A byte range that crosses the boundary between segment `i` and the next one,
/// starting before it and ending after it, is looked up as no segment.
pub proof fn lemma_lookup_across_boundary<S>(
    segs: Seq<SplitTextView<S>>,
    i: int,
    lo: int,
    hi: int,
)
    requires
        contiguous(segs),
        0 <= i < segs.len() - 1,
        lo < segs[i].end < hi,
    ensures
        none_covering(segs, lo, hi),
{
    assert(segs[i].end == segs[i + 1].start);
    assert forall|j: int| 0 <= j < segs.len() implies !covers(#[trigger] segs[j], lo, hi) by {
        if j < i {
            lemma_ranges_ordered(segs, j, i);
        } else if j > i + 1 {
            lemma_ranges_ordered(segs, i + 1, j);
        }
    }
}

/// A byte range that reaches beyond the end of the text is looked up as no
/// segment; so is every byte range where there is no segment.
pub proof fn lemma_lookup_beyond_text<S>(segs: Seq<SplitTextView<S>>, lo: int, hi: int)
    requires
        contiguous(segs),
        hi > end_offset(segs) || segs.len() == 0,
    ensures
        none_covering(segs, lo, hi),
{
    assert forall|j: int| 0 <= j < segs.len() implies !covers(#[trigger] segs[j], lo, hi) by {
        lemma_range_within_text(segs, j);
    }
}

} // verus!
