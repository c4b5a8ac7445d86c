//! Pinner secures CI/CD workflows by pinning mutable tags (like `@v1`) to
//! immutable commit SHAs and container digests.
pub mod cli;
pub mod config;
pub mod domain;
pub mod error;
pub mod github;
pub mod patcher;
pub mod pipeline;
pub mod pattern;
pub mod resolver;
pub mod scanner;
pub mod session;
pub mod style;
pub mod text;
pub mod yaml;
