//! Resolution of symbolic tags to immutable references.
pub mod forges;
pub mod json;
pub mod osv;
pub mod plan;
pub mod registry;
pub mod routing;
pub mod version;
