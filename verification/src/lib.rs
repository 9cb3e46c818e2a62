//! Persistence and validation core for a desktop status-bar customization app.
//!
//! The crate manages a single global settings document and a repository of
//! named status-bar profiles. Each profile bundles a layout, module
//! definitions, bar-wide options, opaque passthrough fragments and CSS
//! styling. The repository keeps exactly one profile active at a time and
//! mirrors the active profile's rendered artifacts into the fixed location a
//! rendering process reads.
//!
//! On-disk state is modeled explicitly: the settings store holds the text of
//! the settings file, and the live mirror holds the texts of the two live
//! files. The thin I/O shim that moves these texts to and from real files
//! lives outside this crate.

pub mod codec;
pub mod errors;
pub mod live;
pub mod profile;
pub mod service;
pub mod settings;
pub mod text;
