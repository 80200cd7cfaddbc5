//! Compile-time code generation over a position-tagged syntax tree: a
//! builder generator for structure definitions, a range expander that
//! repeats a token fragment with an index substituted and pasted into
//! identifiers, and order checkers for enum variants and match arms. Each
//! facility is a pure function from a tree to a tree or a diagnostic; the
//! host toolchain parses source text into the model and re-serializes the
//! output.

pub mod builder;
pub mod builder_state;
pub mod diag;
pub mod name;
pub mod seq_expand;
pub mod sorted;
pub mod sorted_match;
pub mod token;
