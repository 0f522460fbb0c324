//! Cem: a compiler for a small concatenative language whose words carry
//! statically checked stack effects.
//!
//! A program is a list of type definitions and a list of words. Every word
//! declares its effect: the stack it takes and the stack it leaves.
//!
//! - [`ast`] holds the data model of programs.
//! - [`parser`] reads programs from source text.
//! - [`typechecker`] infers the stack that the body of each word leaves and
//!   holds it against the effect that the word declares.
//! - [`codegen`] writes a program as LLVM IR text, one function for each
//!   word, for a native backend to compile and link with the runtime.
//! - [`driver`] runs the three one after the other.
//! - [`laws`] states what ties the effect checker and the generator together.
//!
//! Every function is stated over a mathematical model of its data, and
//! proved against that statement.

pub mod ast;
pub mod codegen;
pub mod driver;
pub mod laws;
pub mod parser;
pub mod text;
pub mod typechecker;

pub use ast::types::{Effect, StackType, Type};
pub use ast::{Expr, Program, TypeDef, WordDef};
