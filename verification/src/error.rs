//! Failure kinds surfaced by construction-time validation.

use vstd::prelude::*;

verus! {

/// Every failure the renderer can report. All checks are local and happen at
/// construction time (or at the top of a frame); a failing frame leaves the
/// previous output untouched.
#[derive(Clone, Copy, Debug, PartialEq, Eq, Structural)]
pub enum RenderError {
    /// A zero, negative or out-of-range width, height or downsample factor,
    /// including a light-grid axis shorter than two cells.
    InvalidDimensions,
    /// An image byte buffer whose length is not `width * height * 4`.
    ImageDecodeMismatch,
    /// An object or light list access beyond the end of the list.
    IndexOutOfRange,
}

} // verus!
