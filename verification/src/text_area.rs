//! The container of segments.

use crate::error::Error;
use crate::font::{checked_font, decode_checked, has_font_magic};
use crate::laws::{lemma_appended_contiguous, lemma_encode_concat, lemma_full_text_byte_len};
use crate::model::{
    appended, byte_len, contiguous, covers, end_offset, full_text, is_first_covering,
    none_covering,
};
use crate::split_text::{SplitText, SplitTextView};
use rusttype::Font;
use std::ops::Range;
use vstd::prelude::*;
use vstd::string::StringExecFns;

verus! {

/// A box of text fragments, each with a style of its own or none.
///
/// The fragments are kept in the order in which they were appended and are
/// never changed, moved or removed afterwards. `S` is the type of a style; the
/// container stores styles and hands them back, and never looks into one.
///
/// The whole text is kept beside the fragments. Its length is the offset at
/// which the next fragment starts, so no offset is ever computed by adding
/// lengths, and none can overflow.
#[derive(Debug)]
pub struct TextArea<S> {
    segments: Vec<SplitText<S>>,
    whole: String,
}

impl<S> View for TextArea<S> {
    type V = Seq<SplitTextView<S>>;

    closed spec fn view(&self) -> Seq<SplitTextView<S>> {
        Seq::new(self.segments@.len(), |i: int| self.segments@[i]@)
    }
}

impl<S> Default for TextArea<S> {
    /// An empty container.
    fn default() -> (area: TextArea<S>)
        ensures
            area@ == Seq::<SplitTextView<S>>::empty(),
            area.wf(),
    {
        TextArea { segments: Vec::new(), whole: String::new() }
    }
}

impl<S> TextArea<S> {
    /// The text that the container keeps beside its segments.
    pub closed spec fn kept_text(&self) -> Seq<char> {
        self.whole@
    }

    /// The ranges of the segments tile the whole text, and the text that is kept
    /// beside them is their texts in a row. This holds of every container at all
    /// times.
    #[verifier::type_invariant]
    pub open spec fn wf(&self) -> bool {
        &&& contiguous(self@)
        &&& self.kept_text() == full_text(self@)
    }

    /// An empty container.
    pub fn new() -> (area: TextArea<S>)
        ensures
            area@ == Seq::<SplitTextView<S>>::empty(),
            area.wf(),
    {
        TextArea { segments: Vec::new(), whole: String::new() }
    }

    /// Appends `text` with a style of its own and, where `font` holds bytes, with
    /// the font that they decode to.
    ///
    /// Where the bytes are not a font, nothing is appended and the error is
    /// `InvalidFontBytes`. Bytes that do not start as a font file does are never
    /// a font, and neither is a buffer that cannot be handed to the decoder (see
    /// [`fits_decoder`](crate::font::fits_decoder)); a caller that holds a decoded
    /// font appends it with [`push_decoded`](TextArea::push_decoded).
    pub fn push(&mut self, text: &str, style: S, font: Option<Vec<u8>>) -> (res: Result<(), Error>)
        ensures
            match font {
                Some(bytes) => match checked_font(bytes@) {
                    Some(decoded) => res == Ok::<(), Error>(()) && final(self)@ == appended(
                        old(self)@,
                        text@,
                        Some(style),
                        Some(decoded),
                    ),
                    None => res == Err::<(), Error>(Error::InvalidFontBytes) && *final(self)
                        == *old(self),
                },
                None => res == Ok::<(), Error>(()) && final(self)@ == appended(
                    old(self)@,
                    text@,
                    Some(style),
                    None,
                ),
            },
            match font {
                Some(bytes) => !has_font_magic(bytes@) ==> res == Err::<(), Error>(
                    Error::InvalidFontBytes,
                ),
                None => true,
            },
            old(self)@.is_prefix_of(final(self)@),
            final(self).wf(),
    {
        let decoded = match font {
            Some(bytes) => Some(decode_checked(bytes)),
            None => None,
        };
        self.push_decoded(text, style, decoded)
    }

    /// Appends `text` with a style of its own, given what the font decoder made of
    /// the caller's font bytes: `None` where the caller supplied no font,
    /// `Some(None)` where the decoder rejected the bytes, `Some(Some(font))` where
    /// it returned `font`.
    ///
    /// A rejected font appends nothing and gives `InvalidFontBytes`.
    pub fn push_decoded(
        &mut self,
        text: &str,
        style: S,
        font: Option<Option<Font<'static>>>,
    ) -> (res: Result<(), Error>)
        ensures
            match font {
                Some(Some(decoded)) => res == Ok::<(), Error>(()) && final(self)@ == appended(
                    old(self)@,
                    text@,
                    Some(style),
                    Some(decoded),
                ),
                Some(None) => res == Err::<(), Error>(Error::InvalidFontBytes) && *final(self)
                    == *old(self),
                None => res == Ok::<(), Error>(()) && final(self)@ == appended(
                    old(self)@,
                    text@,
                    Some(style),
                    None,
                ),
            },
            old(self)@.is_prefix_of(final(self)@),
            final(self).wf(),
    {
        let font = match font {
            Some(decoded) => Some(
                match decoded {
                    Some(font) => font,
                    None => {
                        proof {
                            use_type_invariant(&*self);
                        }
                        return Err(Error::InvalidFontBytes);
                    },
                },
            ),
            None => None,
        };
        self.append(text, Some(style), font);
        Ok(())
    }

    /// Appends `text` without a style or a font of its own: it takes those of the
    /// container when it is drawn.
    pub fn push_text(&mut self, text: &str)
        ensures
            final(self)@ == appended(old(self)@, text@, None, None),
            old(self)@.is_prefix_of(final(self)@),
            final(self).wf(),
    {
        self.append(text, None, None);
    }

    /// The whole text: the fragments' texts, one after the other.
    ///
    /// The byte offsets of the result are those of the segments' ranges: it is
    /// as long, in bytes, as the offset where the last segment ends.
    pub fn as_string(&self) -> (text: String)
        ensures
            text@ == full_text(self@),
            byte_len(text@) == end_offset(self@),
    {
        proof {
            use_type_invariant(self);
            lemma_full_text_byte_len(self@);
        }
        self.whole.clone()
    }

    /// The first segment whose range contains the byte range `range`, that is,
    /// which starts at or before `range.start` and ends at or after `range.end`.
    ///
    /// There is none where the range crosses from one segment into the next,
    /// reaches beyond the text, or the container is empty.
    pub fn get_split_text_from_char_range(&self, range: Range<usize>) -> (found: Option<
        &SplitText<S>,
    >)
        ensures
            match found {
                Some(split) => exists|i: int|
                    is_first_covering(self@, range.start as int, range.end as int, i) && split@
                        == self@[i],
                None => none_covering(self@, range.start as int, range.end as int),
            },
    {
        let count = self.segments.len();
        let mut i: usize = 0;
        while i < count
            invariant
                count == self.segments@.len(),
                i <= count,
                forall|j: int|
                    0 <= j < i ==> !covers(#[trigger] self@[j], range.start as int, range.end as int),
            decreases count - i,
        {
            let split = &self.segments[i];
            let own = split.range();
            if own.start <= range.start && range.end <= own.end {
                assert(is_first_covering(self@, range.start as int, range.end as int, i as int));
                return Some(split);
            }
            i += 1;
        }
        None
    }

    /// The number of segments.
    pub fn len(&self) -> (count: usize)
        ensures
            count == self@.len(),
    {
        self.segments.len()
    }

    /// The length of the whole text in bytes: the offset at which the next
    /// segment will start.
    pub fn byte_len(&self) -> (bytes: usize)
        ensures
            bytes == end_offset(self@),
    {
        let count = self.segments.len();
        if count > 0 {
            self.segments[count - 1].range().end
        } else {
            0
        }
    }

    /// The segment at position `index` in the order of appending, if there are
    /// that many.
    pub fn get(&self, index: usize) -> (found: Option<&SplitText<S>>)
        ensures
            match found {
                Some(split) => index < self@.len() && split@ == self@[index as int],
                None => index >= self@.len(),
            },
    {
        if index < self.segments.len() {
            Some(&self.segments[index])
        } else {
            None
        }
    }

    /// Appends a fragment right after the last one.
    fn append(&mut self, text: &str, style: Option<S>, font: Option<Font<'static>>)
        ensures
            final(self)@ == appended(old(self)@, text@, style, font),
            old(self)@.is_prefix_of(final(self)@),
            final(self).wf(),
    {
        proof {
            use_type_invariant(&*self);
            lemma_appended_contiguous(self@, text@, style, font);
            lemma_full_text_byte_len(self@);
            lemma_encode_concat(full_text(self@), text@);
        }
        // The container is emptied while it grows: it is well formed whenever it
        // can be observed.
        let mut taken = TextArea { segments: Vec::new(), whole: String::new() };
        std::mem::swap(self, &mut taken);
        let TextArea { mut segments, mut whole } = taken;
        // The bytes of a text are a slice, whose length is their number exactly.
        let start = whole.as_str().as_bytes().len();
        whole.append(text);
        let end = whole.as_str().as_bytes().len();
        segments.push(SplitText::new(text, style, font, start, end));
        assert(Seq::new(segments@.len(), |i: int| segments@[i]@) == appended(
            old(self)@,
            text@,
            style,
            font,
        ));
        *self = TextArea { segments, whole };
    }
}

} // verus!
