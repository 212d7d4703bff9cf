//! Extraction of raw correlator visibility samples into ordered,
//! comma-separated text records.
//!
//! The library covers the computational core of a visibility dump: the
//! triangular decoding of linear baseline indices into antenna pairs, the
//! strided partition of a flat per-slice sample buffer into records, the
//! rendering of sample values as decimal or arbitrary-radix text, and the
//! per-slice driver that turns one sample buffer into finished output lines
//! while accumulating running statistics.  Reading metadata and sample
//! buffers from disk, and writing the produced lines to a destination, are
//! left to the surrounding program.

pub mod baseline;
pub mod chunk;
pub mod config;
pub mod dump;
pub mod encode;
pub mod model;
