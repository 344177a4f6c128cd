//! Markdown documents as typed blocks, and blocks as notebook cells.
//!
//! A tokenizer turns Markdown text into a flat stream of open, close and
//! atomic [`token::Token`]s. This crate rebuilds the tree that the stream
//! implies ([`ast::unflatten`]) and walks it into a sequence of
//! [`ast::Block`]s holding styled [`ast::TextSpan`]s. It then turns each
//! block into the cells of a Wolfram notebook ([`nb`]). Every function
//! states its result over mathematical views of these types.
pub mod ast;
pub mod failure;
pub mod nb;
pub mod token;
pub mod tokenizer;
pub mod view;
pub mod warning;
