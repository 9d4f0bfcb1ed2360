//! Levenshtein edit distance between two strings, computed two ways — a
//! naive recursion and a dynamic-programming table — both proved to return
//! the same spec-level distance, about which the usual metric laws
//! (identity, symmetry, triangle inequality, single-edit cost) are proved.

pub mod distance;
pub mod edit;
pub mod laws;

pub use distance::matrix;
pub use distance::recursive;

