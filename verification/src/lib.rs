//! Resolution-and-streaming pipeline for a streaming-music platform.
//!
//! The library holds the verified core: credential scraping heuristics,
//! catalog projection and filtering, the track-resolution state machine,
//! and the decode-loop state machine with its sample-layout routines.
//! Network transport, JSON decoding and the audio codec are collaborators
//! driven by a thin host layer around this crate.

pub mod boundary;
pub mod catalog;
pub mod pipeline;
pub mod resolver;
pub mod scrape;
pub mod text;
