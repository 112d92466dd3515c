//! A manifest store for tracked dotfiles.
//!
//! The manifest maps logical names to tracked entries. Every operation is a
//! function from values to values: the caller reads and writes the files,
//! the library decides what the manifest holds and which copy has to be made.

pub mod paths;
pub mod text;
pub mod toml_tree;
pub mod entry;
pub mod entries;
pub mod codec;
pub mod transfer;
pub mod manifest;
pub mod commands;
pub mod laws;
