//! The contract model and the steps that build it.
pub mod ast;
pub mod patterns;
pub mod visitors;

pub use visitors::ContractParser;
