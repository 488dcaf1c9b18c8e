//! What is known of a band before it is read.

use vstd::prelude::*;
use crate::files::same_text;
use crate::scan::BandShape;

verus! {

/// The width of the numbers that a band's samples are read as.
#[derive(Clone, Copy, Debug, PartialEq, Eq, Structural)]
pub enum Precision {
    /// 32-bit floating point.
    Single,
    /// 64-bit floating point.
    Double,
}

/// A band's description, taken once before its statistics are computed.
#[derive(Debug)]
pub struct BandDescriptor {
    pub name: String,
    /// The label of the element type, such as `Byte` or `Float64`.
    pub dtype: String,
    pub shape: BandShape,
    /// The nodata value as a binary64 pattern, if the band declares one.
    pub nodata: Option<u64>,
}

/// Bands of 64-bit floating point are read as such; every other band is
/// read as 32-bit floating point.
pub open spec fn precision_of(dtype: Seq<char>) -> Precision {
    if dtype == "Float64"@ {
        Precision::Double
    } else {
        Precision::Single
    }
}

pub fn read_precision(dtype: &str) -> (p: Precision)
    ensures
        p == precision_of(dtype@),
{
    if same_text(dtype, "Float64") {
        Precision::Double
    } else {
        Precision::Single
    }
}

impl BandDescriptor {
    pub fn precision(&self) -> (p: Precision)
        ensures
            p == precision_of(self.dtype@),
    {
        read_precision(self.dtype.as_str())
    }
}

} // verus!
