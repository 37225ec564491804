//! A small HTML-like markup language: a recursive-descent parser that
//! produces a concrete parse tree, and a builder that turns that tree
//! into a typed abstract syntax tree of `Node` values.

pub mod parser;
