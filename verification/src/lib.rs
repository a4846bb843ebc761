//! A compiler for a small language that is written as a tree of tags.
//!
//! A source text goes through the passes in this order:
//!
//! - [`parser`] reads the text into a generic tree of tags;
//! - [`code_tree`] lowers that tree to the typed program tree, reading the
//!   expressions in it with [`math`];
//! - [`definitions`] resolves the names of the program tree;
//! - [`types`] checks its types and folds its constant expressions;
//! - [`compiler`] writes the checked tree as a C program.
//!
//! Every pass returns its first error as a value. What a pass computes is
//! stated by a specification function over the mathematical values of the
//! trees, and the pass is proved to compute exactly that.
pub mod code_tree;
pub mod compiler;
pub mod definitions;
pub mod errors;
pub mod iter;
pub mod libs;
pub mod math;
pub mod parser;
pub mod text;
pub mod types;
