//! Playlist acquisition and cross-platform track resolution.
//!
//! The browser itself is driven by the caller; this library holds the
//! decisions: which platform a URL belongs to, how rendered rows become
//! tracks, when the incremental scroll collection has converged, and which
//! search result a track resolves to.
pub mod track;
pub mod text;
pub mod platform;
pub mod spotify;
pub mod error;
pub mod youtube;
pub mod resolver;
