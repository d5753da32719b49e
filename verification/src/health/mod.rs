//! How involved the functions of a Python file are.

pub mod mccabe;
pub mod parser;
