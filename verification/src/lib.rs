//! Verified core of an archive-and-compress pipeline.
//!
//! The library turns an ordered list of named byte entries into a single
//! tar container, streams it through one of two compression backends
//! (an xz-based high-ratio codec and a zstd-based fast codec), and reports
//! two-tier progress to an owner while supporting cooperative cancellation.
//! Filesystem traversal, configuration persistence and the user interface
//! live outside the library and talk to it in plain values.

pub mod archive;
pub mod codec;
pub mod config;
pub mod pipeline;
pub mod progress;
