//! A loader for a subset of the Wavefront OBJ text format.
//!
//! [`Object::load`] reads the text of a model line by line into an indexed
//! mesh, and [`Object::vertices`] and [`Object::normals`] flatten that mesh
//! into one position and one normal per triangle corner.
//!
//! A coordinate is kept as the text that the file gave for it, which is
//! always a decimal floating-point literal: the library itself does no
//! floating-point arithmetic.
pub mod flatten;
pub mod laws;
pub mod loader;
pub mod model;
pub mod number;
pub mod text;

pub use model::{Coords, Corner, FormatError, FormatReason, Notice, Object};
pub use number::parse_indices;
