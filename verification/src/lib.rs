//! A terminal-multiplexer session manager: resolves a user-supplied target
//! (session name, directory path, or frecency query) into one attach-or-create
//! action, names sessions in a repository-aware way, and can clone a remote
//! repository and enter it as a session.
//!
//! The collaborator interfaces (multiplexer, frecency store, version control,
//! filesystem) are traits with contracts; in-memory implementations live here,
//! while process-backed ones belong to the embedding binary.

pub mod clone;
pub mod connection;
pub mod fs;
pub mod git;
pub mod naming;
pub mod options;
pub mod paths;
pub mod zellij;
pub mod zoxide;
