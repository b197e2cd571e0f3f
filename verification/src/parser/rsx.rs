//! The RSX grammar with code names and components.

pub mod ast;
pub mod error;
pub mod grammar;
