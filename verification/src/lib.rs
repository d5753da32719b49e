//! Dependency scanning for Python projects.
//!
//! The heart of the library is [`pep_508`], a parser for dependency
//! specifiers (`name[extras] (version-spec | @ url) ; marker`). Every rule
//! of its grammar is a spec function, the parser is proved to compute what
//! the rules say, and the canonical text of a dependency is proved to parse
//! to that dependency again.
//!
//! Around it stand the rules of the scanner:
//!
//! - [`parser`] finds the declarations in requirements files, `setup.py`,
//!   `pyproject.toml` and Python sources, and hands on what they declare;
//! - [`scanner`] holds the records of the vulnerability database and builds
//!   the queries;
//! - [`display`], [`utils`], [`docker`] and [`store`] hold what is shown
//!   and kept;
//! - [`health`] and [`map`] look at the code of a project and at what its
//!   dependencies depend on;
//! - [`text`] cuts texts apart, and [`pattern`] is where regular
//!   expressions are matched.
//!
//! The library reads no file and talks to no server: it is handed texts and
//! hands back values.

pub mod display;
pub mod docker;
pub mod health;
pub mod map;
pub mod parser;
pub mod pattern;
pub mod pep_508;
pub mod scanner;
pub mod store;
pub mod text;
pub mod utils;
