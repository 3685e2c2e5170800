//! The verified core of Restic Viewer: a read-only browser and restore tool for
//! existing restic Repositories.
//!
//! This crate holds everything the app decides on its own — which arguments and
//! environment a restic call gets, how restic's output turns into Entries and Restore
//! outcomes, how the list of known Repositories changes, and the text shown for them —
//! as plain functions with contracts. Spawning restic, the keyring, the config file
//! and the GTK user interface live in the application around it.

pub mod client;
pub mod config;
pub mod detail;
pub mod entry_tree;
pub mod fake;
pub mod forms;
pub mod keyring;
pub mod paths;
pub mod restore;
pub mod text;
pub mod types;
