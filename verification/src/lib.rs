//! Core of a Hackage (cabal) backend for a multi-language toolchain version
//! manager: version ordering, remote version listing, dependency declaration,
//! and installer-command orchestration.

pub mod backend;
pub mod install;
pub mod remote;
pub mod tool;
pub mod version_order;
