//! Symbolic polynomials over a caller-supplied algebra.
//!
//! An expression is a sum of terms; a term is a coefficient times an ordered
//! product of factors raised to powers; a factor is a concrete value, a
//! symbol, or a nested sum. Symbols are replaced by substitution, and a tree
//! is reduced to its type or to its value by finalization.

pub mod error;
pub mod factor;
pub mod laws;
pub mod model;
pub mod polynomial;
pub mod symbol;
pub mod term;
pub mod traits;
