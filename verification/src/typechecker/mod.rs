//! The effect checker: stack effects are inferred for the body of each word
//! and held against the effect that the word declares.

pub mod checker;
pub mod environment;
pub mod errors;
pub mod laws;
pub mod rules;
pub mod unification;

pub use checker::TypeChecker;
pub use errors::{TypeError, TypeResult};
