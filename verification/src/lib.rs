//! Code generation for a small expression language.
//!
//! A parsed program is a list of [`ast::AstNode`] trees. The emitter walks
//! each tree and decides which operations of the intermediate representation
//! stand in the entry function, in which order, and which earlier result each
//! operand refers to. The outcome is a [`ir::Module`]: plain data that a host
//! hands to an IR builder, a lowering pipeline and a just-in-time engine,
//! following the steps that [`driver::Jit`] prescribes.
//!
//! - [`ast`]: the syntax tree, and which trees have a translation.
//! - [`ir`]: modules, blocks and operations as plain data.
//! - [`text`]: decimal notation.
//! - [`constants`]: the table of anonymous constants and its names.
//! - [`lowering`]: the code of a tree and of a program, as mathematics.
//! - [`emitter`]: the functions that write that code.
//! - [`driver`]: the steps from an emitted module to a running program.
//! - [`validity`]: emitted modules are structurally valid.
//! - [`semantics`]: emitted code writes what the program writes.

pub mod ast;
pub mod constants;
pub mod driver;
pub mod emitter;
pub mod ir;
pub mod lowering;
pub mod semantics;
pub mod text;
pub mod validity;
