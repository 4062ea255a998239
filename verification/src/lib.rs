//! Keeps a project's task manifest (`Razdfile.yml`) and its tool-version
//! manifest (`mise.toml`) consistent.
//!
//! The crate holds the synchronization engine and what the commands around
//! it compute. Reading and writing files, asking the user and running tools
//! are left to the caller, which hands over plain values and carries out
//! what comes back.
//!
//! - [`razdfile`] holds the manifest in memory, [`ordered_map`] the maps that
//!   it is made of.
//! - [`canonical`] gives each manifest a canonical text and a digest of it;
//!   [`text_order`] is the order in which names are written.
//! - [`mise_parser`] and [`mise_generator`] read and write tool manifests,
//!   by way of the TOML trees of [`toml_tree`]; [`mise_validator`] checks the
//!   names of tools and plugins.
//! - [`file_tracker`] holds the record of the last synchronization and sees
//!   what has changed since; [`mise_sync`] decides what is then done.
//! - [`laws`] states what holds of these together.
//! - [`trust`], [`detection`], [`defaults`], [`git`] and [`commands`] hold
//!   what the commands of the program decide and compute.

pub mod canonical;
pub mod commands;
pub mod defaults;
pub mod detection;
pub mod error;
pub mod file_tracker;
pub mod git;
pub mod laws;
pub mod mise_generator;
pub mod mise_parser;
pub mod mise_sync;
pub mod mise_validator;
pub mod ordered_map;
pub mod razdfile;
pub mod text;
pub mod text_order;
pub mod toml_tree;
pub mod trust;

pub use error::RazdError;
pub use razdfile::{MiseConfig, RazdfileConfig, ToolConfig};
