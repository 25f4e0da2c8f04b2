//! A container of styled text segments addressed by byte offsets.
//!
//! A [`TextArea`] is built by appending text fragments, each with an optional
//! style and an optional embedded font. The fragments form one logical string;
//! every fragment records the half-open byte range it occupies in it, so that a
//! byte range of the whole string can be traced back to the fragment it lies in.

pub mod error;
pub mod font;
pub mod laws;
pub mod model;
pub mod split_text;
pub mod text_area;

pub use error::Error;
pub use split_text::{SplitText, SplitTextView};
pub use text_area::TextArea;
