//! Core of a project-scaffolding tool: the template-instantiation pipeline.
//!
//! A starter template is fetched into a destination directory, identifying
//! tokens inside the cloned tree are rewritten (module name, project name),
//! known database-wiring code fragments are swapped for the chosen variant,
//! and a post-setup build command is run.
//!
//! This library holds the pipeline's logic on plain values: byte-level
//! literal replacement, the manifest name edit, fragment span patching, and
//! the orchestrating state machine. Network transfer, the file system walk,
//! terminal rendering and child processes live outside the library; they hand
//! bytes and events in and take bytes and actions out.

pub mod bytes;
pub mod config;
pub mod fragment;
pub mod manifest;
pub mod pipeline;
pub mod rewrite;
