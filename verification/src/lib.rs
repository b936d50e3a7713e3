//! Run loose Rust source files as a throwaway Cargo project.
//!
//! The library holds the decisions of that workflow: which header lines of a
//! source file are directives, what the scratch project is called, where each
//! source file lands inside it, what the generated manifest says and how the
//! build tool is invoked. Reading files, touching the file system and
//! spawning processes are left to the caller.

pub mod cargo;
pub mod errors;
pub mod laws;
pub mod opt;
pub mod paths;
pub mod pipeline;
pub mod steps;
pub mod text;
