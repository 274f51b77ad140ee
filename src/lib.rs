//! Conversion of elevation tiles from the ASCII grid (SDF) and binary raster
//! (HGT) source formats into the compact binary tile format (BSDF).

pub mod error;
pub mod batch;
pub mod bsdf;
pub mod endian;
pub mod engine;
pub mod hgt;
pub mod resolution;
pub mod sdf;
pub mod stats;
pub mod zorder;

pub use batch::{classify, convert, first_failure, Source, SourceFormat};
pub use bsdf::{decode_bsdf, encode_bsdf, Tile, BSDF_EXTENSION, BSDF_VERSION};
pub use engine::{check_retcode, engine_args, tile_dir_arg, Error, SigserveError};
pub use error::ConvertError;
pub use hgt::{decode_hgt, hgt_to_bsdf};
pub use resolution::Resolution;
pub use sdf::{decode_sdf, sdf_to_bsdf};
pub use stats::{elevation_range, VOID};
pub use zorder::z_order_index;
