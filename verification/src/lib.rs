//! The verified core of a NodeCG installation manager: normalizing bundle
//! locators, cataloguing and ordering a repository's version tags, driving a
//! bundle install or version change step by step, resolving which release of
//! the runtime to install, and supervising the single running instance.
//!
//! All I/O stays with the caller: git transport, the process table, the
//! filesystem and the registry are consulted outside the library, and each
//! outcome is handed back as a plain value for the verified decision
//! functions and state machines here to act on.

pub mod bundles;
pub mod config;
pub mod dependencies;
pub mod error;
pub mod git;
pub mod log;
pub mod nodecg;
pub mod npm;
pub mod semver;
pub mod shell;
