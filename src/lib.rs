//! Dense two-dimensional matrices stored in column-major order, with
//! zero-copy strided views for slicing, transposition and reversal.

pub mod scalar;
pub mod mat;
pub mod mat_ref;
pub mod mat_mut;
pub mod laws;
pub mod complex;
pub mod ops;
pub mod matrix;

pub use scalar::Scalar;
pub use mat::{Grid, Mat};
pub use mat_ref::MatRef;
pub use mat_mut::MatMut;
pub use matrix::{Matrix, RowGrid};
