//! The dependencies of the dependencies.

pub mod parser;
pub mod structs;
