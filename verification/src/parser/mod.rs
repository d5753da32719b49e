//! Finding the dependencies that a project declares.

pub mod extractor;
pub mod pyproject;
pub mod structs;
