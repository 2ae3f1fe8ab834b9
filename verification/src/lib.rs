//! Verified core of a minimal polygonal-mesh viewer.
//!
//! The crate parses a line-oriented geometry text format (positions,
//! texture coordinates, normals and triangle/quad faces), resolves the
//! faces into flat vertex and index arrays ready for GPU upload, and keeps
//! the per-mesh model transform that user input rotates.  Numeric fields
//! are carried as validated numeral tokens, so that the whole pipeline from
//! text to mesh data is stated and proved exactly; converting a numeral to
//! a machine float, talking to the GPU and polling the window system are
//! left to the unverified shell around the library.

use vstd::prelude::*;

pub mod geometry;
pub mod mesh;
pub mod numeral;
pub mod parse;
pub mod render;
pub mod text;
pub mod transform;

verus! {

/// Why loading a geometry text failed.  Any such error aborts the whole
/// load: no partially built mesh is ever handed out.
#[derive(Clone, Copy, Debug, PartialEq, Eq, Structural)]
pub enum GeometryError {
    /// A field that had to be a numeral (a coordinate or a face index)
    /// was missing or not a well-formed numeral.
    MalformedNumber,
    /// A face line had a corner count other than three or four.
    MalformedFace,
    /// A face referenced a position outside the declared position pool
    /// (the source format counts from one, so an index of zero is already
    /// out of range).
    IndexOutOfRange,
}

} // verus!
