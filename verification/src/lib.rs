//! Verified core of a geospatial conversion and raster quality-control tool.
//!
//! Raster samples are handled as IEEE-754 binary64 bit patterns: the library
//! classifies them, decides the nodata tolerance exactly, cuts a band into
//! windows under each read strategy, tallies every sample once, and picks
//! extremes and quartiles. Beside that it plans which files are sampled,
//! keeps the books of a batch, and describes datasets and table rows.

pub mod accumulate;
pub mod band;
pub mod batch;
pub mod convert;
pub mod datainfo;
pub mod error;
pub mod files;
pub mod output;
pub mod quantiles;
pub mod sample;
pub mod sampling;
pub mod scan;
pub mod table;
pub mod tolerance;
