//! Boolean keyword search over extracted document text.
//!
//! The query language (terms, quoted phrases, `AND`, `OR` and parentheses) is
//! compiled once into an expression tree ([`query`]) and evaluated against
//! the case-folded text of each document. The per-document bookkeeping of a
//! search run (report rows, extraction failures, snippets and the copy/move
//! decision) lives in [`pipeline`]; the command line is read by [`cli`].
pub mod text;
pub mod query;
pub mod pipeline;
pub mod cli;
