//! Managed worktrees of one repository, and the files that they share.
//!
//! A repository keeps its worktrees in one directory below its root, and a
//! configured set of files (secrets, local settings, generated artifacts) is
//! linked or copied into each of them.
//!
//! Everything here computes on plain values. Commands of the
//! version-control system and steps on the file system are carried out by
//! the caller: the gateway in [`vcs`] gives the arguments of a command and
//! reads its captured output, and every operation that takes several steps
//! ([`link`], [`fanout`], [`import`], [`add`], [`root`]) names the next step
//! and is told what came of it.

pub mod add;
pub mod config;
pub mod error;
pub mod fanout;
pub mod import;
pub mod link;
pub mod path;
pub mod root;
pub mod text;
pub mod vcs;
pub mod worktree;
