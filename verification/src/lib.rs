//! Discovery of installed titles in a game library, a versioned cache of
//! unlocker bundles, the install and uninstall rules for the two unlocker kinds,
//! and format-preserving edits of the add-on configuration.
//!
//! Nothing in this crate touches the disk or the network. What is found there
//! comes in as plain values, and what is to be done there goes out as plans of
//! file operations, which `plan` defines and gives a meaning on a model of the
//! disk. The modules under `proofs` state what the plans achieve.

pub mod cache;
pub mod classify;
pub mod config;
pub mod dlc;
pub mod download;
pub mod fetch;
pub mod file_ops;
pub mod games;
pub mod installer;
pub mod json;
pub mod library;
pub mod manifest;
pub mod outside;
pub mod paths;
pub mod plan;
pub mod progress;
pub mod proofs;
pub mod scanner;
pub mod shim;
pub mod shimconfig;
pub mod stored;
pub mod text;
pub mod unlockers;
pub mod updates;
