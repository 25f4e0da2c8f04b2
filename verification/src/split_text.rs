//! One appended fragment, and the mathematical value it stands for.

use rusttype::Font;
use std::ops::Range;
use vstd::prelude::*;

verus! {

/// What a segment is: its text, what it carries, and the half-open byte range
/// `[start, end)` that the text occupies in the container's whole text.
pub struct SplitTextView<S> {
    pub text: Seq<char>,
    pub style: Option<S>,
    pub font: Option<Font<'static>>,
    pub start: nat,
    pub end: nat,
}

/// A text fragment of a [`TextArea`](crate::TextArea). It never changes once it
/// has been appended.
#[derive(Debug)]
pub struct SplitText<S> {
    text: String,
    style: Option<S>,
    font: Option<Font<'static>>,
    range: Range<usize>,
}

impl<S> View for SplitText<S> {
    type V = SplitTextView<S>;

    closed spec fn view(&self) -> SplitTextView<S> {
        SplitTextView {
            text: self.text@,
            style: self.style,
            font: self.font,
            start: self.range.start as nat,
            end: self.range.end as nat,
        }
    }
}

impl<S> SplitText<S> {
    /// A fragment that owns a copy of `text` and occupies the bytes from `start`
    /// up to `end`.
    pub(crate) fn new(
        text: &str,
        style: Option<S>,
        font: Option<Font<'static>>,
        start: usize,
        end: usize,
    ) -> (split: SplitText<S>)
        ensures
            split@ == (SplitTextView { text: text@, style, font, start: start as nat, end: end as nat }),
    {
        SplitText { text: text.to_owned(), style, font, range: start..end }
    }

    /// The fragment's text.
    pub fn text(&self) -> (text: &str)
        ensures
            text@ == self@.text,
    {
        self.text.as_str()
    }

    /// The fragment's own style; `None` where it inherits the container's.
    pub fn style(&self) -> (style: &Option<S>)
        ensures
            *style == self@.style,
    {
        &self.style
    }

    /// The fragment's embedded font; `None` where it inherits the container's.
    pub fn font(&self) -> (font: &Option<Font<'static>>)
        ensures
            *font == self@.font,
    {
        &self.font
    }

    /// The byte range of the fragment in the container's whole text.
    pub fn range(&self) -> (range: Range<usize>)
        ensures
            range.start == self@.start,
            range.end == self@.end,
    {
        self.range.start..self.range.end
    }
}

} // verus!
