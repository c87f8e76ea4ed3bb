//! Lowering of a host compiler's typed program representation into a
//! portable, stable syntax tree.
pub mod ids;
pub mod namespace;
pub mod span;
pub mod ast;
pub mod adt;
pub mod host;
pub mod scope;
pub mod macros;
pub mod constant;
pub mod lower;
pub mod item;
pub mod laws;
pub mod options;
pub mod outcome;
