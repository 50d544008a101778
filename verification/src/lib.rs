//! Removal of Git worktrees and of the Cargo target directories kept outside them.
//!
//! The library decides what may be removed and in which order; it never touches the disk itself.

pub mod args;
pub mod bytes;
pub mod command;
pub mod config;
pub mod disk;
pub mod entry;
pub mod execute;
pub mod execute_laws;
pub mod execute_rules;
pub mod inventory;
pub mod inventory_laws;
pub mod listing_laws;
pub mod path;
pub mod picker;
pub mod picker_laws;
pub mod picker_rules;
pub mod plan;
pub mod plan_laws;
pub mod plan_rules;
pub mod repo;
pub mod repo_laws;
pub mod resolve;
pub mod safety;
pub mod screen;
pub mod screen_laws;
pub mod session;
pub mod size;
pub mod status;
pub mod text;
pub mod view_laws;
