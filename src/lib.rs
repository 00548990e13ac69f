//! A single editable line of text whose positions and length count
//! user-perceived characters (extended grapheme clusters).

pub mod clusters;
pub mod segment;
pub mod row;
pub mod laws;

pub use row::Row;
