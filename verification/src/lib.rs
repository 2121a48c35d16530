//! Conversion of Presentation Graphics Stream (PGS) subtitle bitstreams so
//! that subtitle geometry matches a re-cropped video stream.
//!
//! The crate is organised leaf-to-root: `seg` holds the binary segment codec,
//! `displayset` assembles segments into self-contained display sets, and
//! `remap` recomputes positions for the new crop and validates that no two
//! windows overlap afterwards.

pub mod seg;
pub mod displayset;
pub mod remap;
pub mod color;
