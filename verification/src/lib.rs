//! HTML parser plugin for structural diffs.
//!
//! Handles `.html`, `.htm` and `.xhtml` files. Source is parsed with tree-sitter, brought to a
//! normal form in which equivalent spellings of HTML are equal, and labelled for the semantic
//! tree.
pub mod cst;
pub mod label;
pub mod label_laws;
pub mod normal_form;
pub mod normalize;
pub mod parse;
pub mod plugin;
pub mod process;
pub mod tables;
pub mod text;
