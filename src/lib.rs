//! Pretty printing of the terms and types of a small functional
//! configuration language: each tree is translated to a layout document,
//! which is then laid out at a target width.
pub mod ast;
pub mod number;
pub mod doc;
pub mod quoting;
pub mod order;
pub mod depth;
pub mod printer;
pub mod laws;
