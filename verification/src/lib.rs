//! Reading and rewriting Minecraft mod archives for translation.
//!
//! The library takes the bytes of a mod archive and tells who the mod is,
//! which language files and guidebooks it holds, and what they say; and it
//! builds the archive anew with one entry added or replaced.  The archives
//! come from many hands, so the parsers are lenient: text is sanitized,
//! JSON is recovered where it can be, and a file that is beyond recovery is
//! left out, not fatal.
//!
//! Whatever is read from a file, the file system or the clock is handed in
//! by the caller as plain values.

pub mod archive;
pub mod backup;
pub mod config;
pub mod error;
pub mod filesystem;
pub mod guidebook;
pub mod identity;
pub mod json;
pub mod json_tree;
pub mod lang;
pub mod laws;
pub mod logging;
pub mod minecraft;
pub mod numbers;
pub mod rewrite;
pub mod sanitize;
pub mod sorting;
pub mod text;
pub mod text_map;
