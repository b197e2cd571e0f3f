//! The basic markup grammar, with a single root tag, its code generator and its renderer.

pub mod ast;
pub mod ast_error;
pub mod dom;
pub mod error;
pub mod grammar;
pub mod output;
pub mod render;
