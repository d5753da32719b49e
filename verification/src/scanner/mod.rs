//! What is sent to the vulnerability database and what comes back.

pub mod models;
