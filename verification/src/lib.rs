//! Storage-and-analytics engine for a URL shortening service.
//!
//! The engine maps destination URIs to compact numeric identifiers and
//! records how often each identifier is accessed over a rolling time
//! window. The in-memory backend is fully verified; the networked
//! backend's decision logic (command building and reply interpretation)
//! is verified, while the transport itself lives outside the library.

pub mod backend;
pub mod calendar;
pub mod digits;
pub mod errors;
pub mod service;
pub mod settings;
pub mod shortener;
