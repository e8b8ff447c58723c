//! A schema-aware, format-preserving editor for TOML configuration files.
//!
//! Edits are dotted-path assignments applied to a document while everything
//! that is not assigned keeps its formatting; a static schema describes the
//! recognised paths for introspection and for the tabular view.

pub mod args;
pub mod capability;
pub mod command;
pub mod diff;
pub mod document;
pub mod editor;
pub mod laws;
pub mod present;
pub mod scalar;
pub mod schema;
pub mod text;
