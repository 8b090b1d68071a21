//! The error taxonomy of the library: a transport failure wrapped as text, and
//! one distinct variant per way the remote page can stop matching the fixed
//! shape this parser expects.

use vstd::prelude::*;

verus! {

/// Everything a timetable query can fail with.
///
/// The parse variants each stand for one way the page format can drift:
/// a connection block without a hyperlink, a hyperlink without a target
/// attribute, block text that no longer matches the fixed pattern, and a
/// time token outside the valid `HH:MM` ranges.
#[derive(Clone, Debug, PartialEq, Eq)]
pub enum BahnError {
    /// The HTTP call failed; carries the transport layer's message.
    Http(String),
    /// A connection block holds no hyperlink element at all.
    MissingLink,
    /// The block's hyperlink has no link-target attribute.
    MissingLinkTarget,
    /// The block's concatenated text does not match the fixed text pattern.
    PatternMismatch,
    /// A matched time token is outside the valid hour or minute range.
    InvalidTime,
}

pub type BahnResult<T> = Result<T, BahnError>;

} // verus!
