//! The central domain models, free of side effects.
pub mod dependency;
pub mod update;

pub use dependency::{BranchName, CiProvider, DependencyName, DependencyRef};
pub use update::{
    CompromisedDependency, JsonOutput, NonVettedDependency, UnpinnedDependency, UpdateResult,
    UpdateTask, VerificationResult,
};
