//! Report records and text forms built from scan results.

pub mod pretty;
pub mod sarif;
pub mod text;
