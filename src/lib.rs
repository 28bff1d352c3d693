//! Vectors and matrices over a scalar type, with element-wise arithmetic,
//! scaling, dot products and linear combinations.
//!
//! Every operation that needs operands of one size or shape checks them
//! first and returns `DimensionMismatch` without changing anything where
//! they differ. Scalar arithmetic wraps around on overflow.
pub mod combination;
pub mod error;
pub mod matrix;
pub mod modular;
pub mod scalar;
pub mod vector;

pub use combination::linear_combination;
pub use error::DimensionMismatch;
pub use matrix::Matrix;
pub use scalar::Scalar;
pub use vector::Vector;
