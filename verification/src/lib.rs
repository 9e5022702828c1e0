//! Conversion between three textual representations of one 3D rotation:
//! unit quaternion, angle-axis and 3×3 rotation matrix.
//!
//! The library owns everything about a conversion that can be decided on
//! text: which fields are read, when an input is rejected, what replaces a
//! degenerate input, and how the result is written back.  The numeric work
//! itself is done by the caller between the steps.

pub mod convert;
pub mod laws;
pub mod number_text;
pub mod state;

pub use convert::{ConversionError, Derived, RotationRepr, Source};
pub use state::TemplateApp;
