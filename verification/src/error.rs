//! The ways in which an operation of the tool can fail.

use vstd::prelude::*;

verus! {

/// Kinds of failure.
#[derive(Clone, Copy, Debug, PartialEq, Eq, Structural)]
pub enum ToolError {
    /// A batch was asked for on a path that is no directory.
    NotADirectory,
    /// A file or directory could not be read, created or written.
    IoError,
    /// A directory holds no file with an extension of the wanted kind.
    NoMatchingFiles,
    /// A directory tree holds no raster file to sample from.
    NoFilesFound,
    /// The name of an output format is not one the tool writes.
    UnsupportedFormat,
    /// A dataset could not be opened.
    DatasetOpenError,
    /// A window of a band could not be read.
    BandReadError,
    /// The target of a conversion exists and may not be overwritten.
    OutputExists,
    /// A vector dataset has no layer.
    NoLayers,
}

} // verus!
