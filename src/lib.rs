//! Per-node oracle for a CSS selector matcher over an HTML document tree.
//!
//! `tree` holds the document as an arena of nodes, `sensitivity` the two
//! comparison policies for ids, classes and attribute values, and `element`
//! the element adapter with its boolean-sensitivity facade.

pub mod sensitivity;
pub mod tree;
pub mod element;

pub use sensitivity::{map_b_to_cs, CaseSensitivity};
