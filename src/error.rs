use vstd::prelude::*;

verus! {

/// Every way a conversion can fail.
#[derive(Debug, Clone, PartialEq, Eq)]
pub enum ConvertError {
    /// The requested resolution is not 1 or 3 arc-seconds per sample.
    InvalidResolution { raw: u16 },
    /// The file name carries no extension that names a known source format.
    UnsupportedFormat { name: String },
    /// A data line of an ASCII grid is not a signed 16-bit decimal integer
    /// (`line` is 1-based and counts the header lines).
    MalformedSample { line: usize },
    /// An ASCII grid does not hold exactly `expected` data lines.
    SampleCountMismatch { expected: usize, actual: usize },
    /// A binary raster does not hold exactly `expected` bytes.
    RasterSizeMismatch { expected: usize, actual: usize },
    /// A sample block does not hold exactly `expected` bytes.
    ByteCountMismatch { expected: u64, actual: u64 },
    /// A binary tile is too short to hold its trailer.
    TruncatedTile { len: usize },
    /// A binary tile carries a format version that this library does not read.
    UnsupportedVersion { version: u16 },
}

} // verus!
