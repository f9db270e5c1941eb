//! Core logic for locating per-game save data inside Windows-compatibility
//! prefixes: enumerating prefixes, discovering candidate save folders,
//! resolving manifest path templates, and matching folders to game entries.

use vstd::prelude::*;

pub mod collect;
pub mod compatdata;
pub mod config;
pub mod fstree;
pub mod manifest;
pub mod matcher;
pub mod resolve;
pub mod strutil;

verus! {

/// Failure kinds surfaced by the library and by the surrounding I/O layer.
#[derive(Debug, Clone, Copy, PartialEq, Eq, Structural)]
pub enum SaveError {
    /// A required root directory or path is missing.
    NotFound,
    /// The manifest document is malformed. The locator is 1-based; zero
    /// means the decoder reported none.
    ParseError { line: usize, column: usize },
    /// Transport failure while fetching the manifest.
    NetworkError,
    /// Non-success response while fetching the manifest.
    HttpError { status: u16 },
    /// A generic filesystem failure.
    IoError,
    /// A manifest URL that is not an http or https URL.
    InvalidUrl,
}

} // verus!
