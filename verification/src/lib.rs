//! An interpreter for a small stack language.
//!
//! A program is a sequence of instructions. The machine takes them one by one from the front
//! of the instructions that are pending and runs them against a stack of values. Conditionals,
//! loops and words have no jump targets: they work by reshaping what is pending.
//!
//! The machine does no input or output. A step that has something to emit or a file to load
//! says so in its result, and the host does it.

pub mod compile;
pub mod control;
pub mod diagnostics;
pub mod error;
pub mod forest_runtime;
pub mod instruction;
pub mod laws;
pub mod machine;
pub mod render;
pub mod stack_ops;
pub mod table;
pub mod text;
pub mod value;
