//! Computing and applying changes to workflow files.
pub mod diff;
pub mod disk;
pub mod formatter;
pub mod mutator;
pub mod ui;

pub use disk::{FilePatch, PatchMode, Patcher};
pub use formatter::{Formatter, HashSecurityStatus};
