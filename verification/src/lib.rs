//! A verified core for a Node.js runtime version manager: release
//! resolution against the published index, cache naming and reuse,
//! and the decisions behind install, uninstall and clean.
//!
//! The library is pure logic: reading the index over the network,
//! unpacking archives and touching the filesystem are left to the
//! surrounding application, which feeds plain values in and carries
//! the decided actions out.

pub mod cache;
pub mod engine;
pub mod index;
pub mod lts;
pub mod pathcheck;
pub mod platform;
pub mod release;
pub mod select;
pub mod strutil;
pub mod urls;
pub mod version;
