//! Core logic of a file-drop service: safe resolution of client-supplied
//! destination paths against a fixed upload root, per-field processing of
//! (possibly nested) multipart uploads, and rendering of directory listings
//! as JSON.
//!
//! All filesystem, network and formatting side effects live outside this
//! crate; the functions here work on plain values and carry contracts.

pub mod json;
pub mod listing;
pub mod paths;
pub mod text;
pub mod upload;
