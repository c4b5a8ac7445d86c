//! Finding dependency references in CI/CD workflow files.
pub mod parser;
pub mod syntax;
pub mod tasks;
pub mod walker;
