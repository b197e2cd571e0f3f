//! The errors of the basic grammar's library entry: the same as the markup
//! grammar's.

pub use crate::parser::error::{Error, Result};
