//! The error of a styled append.

use vstd::prelude::*;

verus! {

/// Why an append was refused.
#[derive(Debug, Clone, Copy, PartialEq, Eq, Structural)]
pub enum Error {
    /// The bytes supplied as an embedded font are not a font.
    InvalidFontBytes,
}

} // verus!
