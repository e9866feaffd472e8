//! A project-pinned Terraform toolchain: resolves the version a project's
//! configuration requires, keeps a matching binary cached locally, and runs
//! it while merging its two output streams into one ordered record.

pub mod cache;
pub mod errors;
pub mod install;
pub mod run;
pub mod version;
