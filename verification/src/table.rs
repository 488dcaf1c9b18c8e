//! Per-band statistics records and the rows of the output table.
//!
//! Real-valued fields are held as IEEE-754 binary64 bit patterns.

use vstd::prelude::*;
use crate::accumulate::BandSummary;
use crate::band::{precision_of, read_precision, Precision};

verus! {

/// The pattern written where a quartile is absent: a quiet not-a-number.
pub const ABSENT_QUARTILE: u64 = 0x7ff8_0000_0000_0000;

/// The largest finite number of 64-bit floating point, as a pattern.
pub const LARGEST_DOUBLE: u64 = 0x7fef_ffff_ffff_ffff;

/// The smallest finite number of 64-bit floating point, as a pattern.
pub const SMALLEST_DOUBLE: u64 = 0xffef_ffff_ffff_ffff;

/// The largest finite number of 32-bit floating point, as a binary64
/// pattern.
pub const LARGEST_SINGLE: u64 = 0x47ef_ffff_e000_0000;

/// The smallest finite number of 32-bit floating point, as a binary64
/// pattern.
pub const SMALLEST_SINGLE: u64 = 0xc7ef_ffff_e000_0000;

/// The figures derived from a band's running sums, as patterns.
#[derive(Clone, Copy, Debug, PartialEq, Eq, Structural)]
pub struct Moments {
    pub mean: u64,
    pub variance: u64,
    pub stdev: u64,
    pub cv: u64,
    pub percent_valid: u64,
}

/// The statistics of one band.
#[derive(Debug)]
pub struct RasterStats {
    pub name: String,
    pub dtype: String,
    pub mean: u64,
    pub min: u64,
    pub max: u64,
    pub variance: u64,
    pub stdev: u64,
    pub cv: u64,
    pub valid_count: u64,
    pub nodata_count: u64,
    pub nan_count: u64,
    pub percent_valid: u64,
    pub q1: Option<u64>,
    pub median: Option<u64>,
    pub q3: Option<u64>,
}

/// One row of the output table: one band of one file.
#[derive(Debug)]
pub struct FileStatRow {
    pub file: String,
    pub name: String,
    pub dtype: String,
    pub mean: u64,
    pub min: u64,
    pub max: u64,
    pub variance: u64,
    pub stdev: u64,
    pub cv: u64,
    pub valid_count: u64,
    pub nodata_count: u64,
    pub nan_count: u64,
    pub percent_valid: u64,
    pub q1: u64,
    pub median: u64,
    pub q3: u64,
}

/// The minimum reported for a band without valid samples: the largest
/// finite number of the precision it is read in.
pub open spec fn empty_min(p: Precision) -> u64 {
    match p {
        Precision::Single => LARGEST_SINGLE,
        Precision::Double => LARGEST_DOUBLE,
    }
}

/// The maximum reported for a band without valid samples: the smallest
/// finite number of the precision it is read in.
pub open spec fn empty_max(p: Precision) -> u64 {
    match p {
        Precision::Single => SMALLEST_SINGLE,
        Precision::Double => SMALLEST_DOUBLE,
    }
}

/// The pattern in a quartile's cell: its own, or not-a-number when absent.
pub open spec fn quartile_cell(q: Option<u64>) -> u64 {
    match q {
        Some(bits) => bits,
        None => ABSENT_QUARTILE,
    }
}

/// Whether a row is the band's record under the file's name.
pub open spec fn row_matches(row: FileStatRow, file: Seq<char>, s: RasterStats) -> bool {
    &&& row.file@ == file
    &&& row.name == s.name
    &&& row.dtype == s.dtype
    &&& row.mean == s.mean
    &&& row.min == s.min
    &&& row.max == s.max
    &&& row.variance == s.variance
    &&& row.stdev == s.stdev
    &&& row.cv == s.cv
    &&& row.valid_count == s.valid_count
    &&& row.nodata_count == s.nodata_count
    &&& row.nan_count == s.nan_count
    &&& row.percent_valid == s.percent_valid
    &&& row.q1 == quartile_cell(s.q1)
    &&& row.median == quartile_cell(s.median)
    &&& row.q3 == quartile_cell(s.q3)
}

/// The names of the table's columns, in order.
pub open spec fn column_names_spec() -> Seq<Seq<char>> {
    seq![
        "file"@,
        "name"@,
        "dtype"@,
        "mean"@,
        "min"@,
        "max"@,
        "variance"@,
        "stdev"@,
        "cv"@,
        "valid_count"@,
        "nodata_count"@,
        "nan_count"@,
        "percent_valid"@,
        "q1"@,
        "median"@,
        "q3"@,
    ]
}

pub fn column_names() -> (names: Vec<&'static str>)
    ensures
        names@.len() == 16,
        forall|i: int| 0 <= i < 16 ==> (#[trigger] names@[i])@ == column_names_spec()[i],
{
    let mut names: Vec<&'static str> = Vec::new();
    names.push("file");
    names.push("name");
    names.push("dtype");
    names.push("mean");
    names.push("min");
    names.push("max");
    names.push("variance");
    names.push("stdev");
    names.push("cv");
    names.push("valid_count");
    names.push("nodata_count");
    names.push("nan_count");
    names.push("percent_valid");
    names.push("q1");
    names.push("median");
    names.push("q3");
    names
}

pub fn cell_of(q: Option<u64>) -> (bits: u64)
    ensures
        bits == quartile_cell(q),
{
    match q {
        Some(bits) => bits,
        None => ABSENT_QUARTILE,
    }
}

impl RasterStats {
    /// Puts a band's record together from its tallies and derived figures.
    pub fn assemble(name: String, dtype: String, summary: BandSummary, moments: Moments) -> (s:
        RasterStats)
        ensures
            s.name == name,
            s.dtype == dtype,
            s.mean == moments.mean,
            s.variance == moments.variance,
            s.stdev == moments.stdev,
            s.cv == moments.cv,
            s.percent_valid == moments.percent_valid,
            s.valid_count == summary.valid_count,
            s.nodata_count == summary.nodata_count,
            s.nan_count == summary.nan_count,
            s.min == (match summary.min_bits {
                Some(b) => b,
                None => empty_min(precision_of(dtype@)),
            }),
            s.max == (match summary.max_bits {
                Some(b) => b,
                None => empty_max(precision_of(dtype@)),
            }),
            s.q1 == (match summary.quartiles {
                Some(q) => Some(q.q1),
                None => None,
            }),
            s.median == (match summary.quartiles {
                Some(q) => Some(q.median),
                None => None,
            }),
            s.q3 == (match summary.quartiles {
                Some(q) => Some(q.q3),
                None => None,
            }),
    {
        let (q1, median, q3) = match summary.quartiles {
            Some(q) => (Some(q.q1), Some(q.median), Some(q.q3)),
            None => (None, None, None),
        };
        let (fallback_min, fallback_max): (u64, u64) = match read_precision(dtype.as_str()) {
            Precision::Single => (LARGEST_SINGLE, SMALLEST_SINGLE),
            Precision::Double => (LARGEST_DOUBLE, SMALLEST_DOUBLE),
        };
        RasterStats {
            name,
            dtype,
            mean: moments.mean,
            min: match summary.min_bits {
                Some(b) => b,
                None => fallback_min,
            },
            max: match summary.max_bits {
                Some(b) => b,
                None => fallback_max,
            },
            variance: moments.variance,
            stdev: moments.stdev,
            cv: moments.cv,
            valid_count: summary.valid_count,
            nodata_count: summary.nodata_count,
            nan_count: summary.nan_count,
            percent_valid: moments.percent_valid,
            q1,
            median,
            q3,
        }
    }
}

/// The rows of one file: one per band, in band order, each under the
/// file's name, with absent quartiles written as not-a-number.
pub fn flatten(file: &str, stats: &Vec<RasterStats>) -> (rows: Vec<FileStatRow>)
    ensures
        rows@.len() == stats@.len(),
        forall|i: int| 0 <= i < stats@.len() ==> row_matches(#[trigger] rows@[i], file@, stats@[i]),
{
    let mut rows: Vec<FileStatRow> = Vec::new();
    let mut i: usize = 0;
    while i < stats.len()
        invariant
            i <= stats@.len(),
            rows@.len() == i,
            forall|k: int| 0 <= k < i ==> row_matches(#[trigger] rows@[k], file@, stats@[k]),
        decreases stats@.len() - i,
    {
        let s = &stats[i];
        let row = FileStatRow {
            file: file.to_owned(),
            name: s.name.clone(),
            dtype: s.dtype.clone(),
            mean: s.mean,
            min: s.min,
            max: s.max,
            variance: s.variance,
            stdev: s.stdev,
            cv: s.cv,
            valid_count: s.valid_count,
            nodata_count: s.nodata_count,
            nan_count: s.nan_count,
            percent_valid: s.percent_valid,
            q1: cell_of(s.q1),
            median: cell_of(s.median),
            q3: cell_of(s.q3),
        };
        rows.push(row);
        i = i + 1;
    }
    rows
}

/// Appends one file's rows to the table. The table grows by exactly that
/// file's number of bands, and what it held stays in place.
pub fn append_rows(table: &mut Vec<FileStatRow>, rows: Vec<FileStatRow>)
    ensures
        final(table)@ == old(table)@ + rows@,
        final(table)@.len() == old(table)@.len() + rows@.len(),
{
    let mut rows = rows;
    table.append(&mut rows);
}

} // verus!
