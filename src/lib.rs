//! Folds a person's repositories and their language breakdowns into a
//! deduplicated, ranked list of skills with byte counts and display colors.
pub mod model;
pub mod extract;
pub mod aggregate;
pub mod graph;
pub mod order;
pub mod handler;
pub mod laws;
