//! Configuration surface of a dump run, and its validation.
//!
//! A run is configured from outside the library (for example from a
//! command line): the metadata file locator, the sample file locators, the
//! destination path, the radix of the value columns (0 disables radix
//! rendering) and the absolute-value flag.  Validation happens before any
//! I/O is attempted.

use vstd::prelude::*;

verus! {

/// Options of a full data dump: where the observation lives, where the
/// output goes, and how values are rendered.
#[derive(Debug, Clone)]
pub struct DumpAllDataOpt {
    /// Locator of the observation's metadata file.
    pub metafits: String,
    /// Locators of the observation's sample data files.
    pub files: Vec<String>,
    /// Destination path of the dump.
    pub dump_filename: String,
    /// Radix of the value columns: 0 disables radix rendering, 2 to 36
    /// select base-N rendering of the truncated values.
    pub vis_radix: u8,
    /// Render the magnitude of each value instead of the value itself.
    pub absolute: bool,
}

/// Options of a context print: where the observation lives.
#[derive(Debug, Clone)]
pub struct DumpContextOpt {
    /// Locator of the observation's metadata file.
    pub metafits: String,
    /// Locators of the observation's sample data files.
    pub files: Vec<String>,
}

/// A configuration fault, detected before any I/O.
#[derive(Debug, Clone, Copy, PartialEq, Eq)]
pub enum ConfigError {
    /// The radix is neither 0 nor in `[2, 36]`.
    InvalidRadix,
    /// The metadata file locator is empty.
    MissingMetafits,
    /// The destination path is empty.
    MissingDestination,
}

/// A radix is valid when it is the disabling sentinel 0 or a base in
/// `[2, 36]`.
pub open spec fn radix_valid(radix: u8) -> bool {
    radix == 0 || 2 <= radix <= 36
}

/// Check the radix alone: 0 or a base in `[2, 36]`.
pub fn validate_radix(radix: u8) -> (r: Result<(), ConfigError>)
    ensures
        r == if radix_valid(radix) {
            Ok::<(), ConfigError>(())
        } else {
            Err::<(), ConfigError>(ConfigError::InvalidRadix)
        },
{
    if radix == 0 || (2 <= radix && radix <= 36) {
        Ok(())
    } else {
        Err(ConfigError::InvalidRadix)
    }
}

/// Validate a dump configuration: the radix must be valid and the two
/// required locators present.  Returns the first fault found, checking
/// the radix, then the metadata locator, then the destination.
pub fn validate_dump_opts(opt: &DumpAllDataOpt) -> (r: Result<(), ConfigError>)
    ensures
        r == if !radix_valid(opt.vis_radix) {
            Err::<(), ConfigError>(ConfigError::InvalidRadix)
        } else if opt.metafits@.len() == 0 {
            Err::<(), ConfigError>(ConfigError::MissingMetafits)
        } else if opt.dump_filename@.len() == 0 {
            Err::<(), ConfigError>(ConfigError::MissingDestination)
        } else {
            Ok::<(), ConfigError>(())
        },
{
    match validate_radix(opt.vis_radix) {
        Ok(_) => (),
        Err(e) => {
            return Err(e);
        },
    }
    if opt.metafits.as_str().is_empty() {
        return Err(ConfigError::MissingMetafits);
    }
    if opt.dump_filename.as_str().is_empty() {
        return Err(ConfigError::MissingDestination);
    }
    Ok(())
}

} // verus!
