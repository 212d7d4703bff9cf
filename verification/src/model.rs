//! Plain-value models of the observation metadata that the dump reads.
//!
//! The metadata itself is parsed from disk by an external collaborator;
//! the dump driver only reads a handful of plain values of it, gathered
//! here.  The surrounding program fills these types in from the parsed
//! metadata before a dump begins.

use vstd::prelude::*;

verus! {

/// One coarse channel of the observation: its channel numbers and its
/// frequency extent in hertz.
#[derive(Debug, Clone, Copy, PartialEq, Eq)]
pub struct MWALibCoarseChannelDef {
    pub correlator_channel_number: usize,
    pub receiver_channel_number: usize,
    pub gpubox_number: usize,
    pub channel_width_hz: u32,
    pub channel_start_hz: u32,
    pub channel_centre_hz: u32,
    pub channel_end_hz: u32,
}

/// One sample data file of the observation.
#[derive(Debug, Clone)]
pub struct GPUBoxFileDef {
    pub filename: String,
    pub channel_identifier: usize,
}

/// The observation context as the dump driver sees it: the fixed counts
/// of the observation's axes, the antenna name catalogue, the ordered
/// coarse channels, and the ordered timesteps (as Unix milliseconds).
/// Immutable for the lifetime of one dump.
#[derive(Debug, Clone)]
pub struct ObsContext {
    /// Number of antennas; `num_baselines` pairs of them are correlated.
    pub num_antennas: usize,
    /// Number of polarisation products per fine channel (each a complex
    /// value of two components).
    pub num_visibility_pols: usize,
    /// Number of fine channels inside each coarse channel.
    pub num_fine_channels_per_coarse: usize,
    /// Display name of each antenna, indexed by antenna number.
    pub antenna_names: Vec<String>,
    /// The observation's coarse channels, in their natural order.
    pub coarse_channels: Vec<MWALibCoarseChannelDef>,
    /// The observation's timesteps, in their natural order.
    pub timesteps: Vec<u64>,
}

impl ObsContext {
    /// A context is well formed when the axis counts are positive, every
    /// antenna has a name, and one baseline's span of samples fits in a
    /// machine-sized length.
    pub open spec fn wf(self) -> bool {
        &&& 1 <= self.num_antennas
        &&& 1 <= self.num_visibility_pols
        &&& 1 <= self.num_fine_channels_per_coarse
        &&& self.antenna_names@.len() == self.num_antennas
        &&& self.num_fine_channels_per_coarse * self.num_visibility_pols * 2 <= usize::MAX
    }
}

} // verus!
