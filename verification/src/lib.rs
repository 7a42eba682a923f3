//! Code-generation backend for a small fixed instruction set: an AST of
//! structured statements is lowered to a flat sequence of labels and
//! branches, and each leaf instruction is encoded into its bit-exact
//! textual numeric form.

pub mod ast;
pub mod encode;
pub mod lower;
pub mod laws;
pub mod render;
