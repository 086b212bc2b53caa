//! Photo ingestion: file classification, RAW tone matching, orientation,
//! derived-artifact planning, per-item records and bounded batch scheduling.
use vstd::prelude::*;

pub mod format;
pub mod raster;
pub mod tone;
pub mod orientation;
pub mod artifacts;
pub mod record;
pub mod pipeline;
pub mod batch;
pub mod develop;

verus! {

/// Largest number of heavy items processed at the same time.
pub const MAX_CONCURRENT: usize = 4;

} // verus!
