//! Where a conversion writes its result, and when it refuses to start.

use vstd::prelude::*;
use vstd::string::StringExecFns;
use crate::error::ToolError;

verus! {

/// The path that a raster conversion writes to.
#[derive(Clone, Copy, Debug, PartialEq, Eq, Structural)]
pub enum CogTarget {
    /// The path the caller gave, with the extension `tif`.
    Given,
    /// The input itself, replaced in place.
    Input,
    /// A sibling of the input named with the suffix `_cog`, with the
    /// extension `tif`.
    Sibling,
}

/// The path that a vector conversion writes to.
#[derive(Clone, Copy, Debug, PartialEq, Eq, Structural)]
pub enum ParquetTarget {
    /// The path the caller gave, with the extension `parquet`.
    Given,
    /// The input's path with the extension `parquet`.
    BesideInput,
    /// `output.parquet`, for an input path without a file name.
    Fallback,
}

/// The target of a raster conversion, or why it does not start.
pub open spec fn cog_target(
    input_exists: bool,
    output_given: bool,
    output_exists: bool,
    overwrite: bool,
) -> Result<CogTarget, ToolError> {
    if !input_exists {
        Err(ToolError::IoError)
    } else if output_given {
        if output_exists && !overwrite {
            Err(ToolError::OutputExists)
        } else {
            Ok(CogTarget::Given)
        }
    } else if overwrite {
        Ok(CogTarget::Input)
    } else {
        Ok(CogTarget::Sibling)
    }
}

/// The target of a vector conversion, or why it does not start.
pub open spec fn parquet_target(
    input_exists: bool,
    output_given: bool,
    input_has_file_name: bool,
) -> Result<ParquetTarget, ToolError> {
    if !input_exists {
        Err(ToolError::IoError)
    } else if output_given {
        Ok(ParquetTarget::Given)
    } else if input_has_file_name {
        Ok(ParquetTarget::BesideInput)
    } else {
        Ok(ParquetTarget::Fallback)
    }
}

pub fn plan_cog_target(
    input_exists: bool,
    output_given: bool,
    output_exists: bool,
    overwrite: bool,
) -> (target: Result<CogTarget, ToolError>)
    ensures
        target == cog_target(input_exists, output_given, output_exists, overwrite),
{
    if !input_exists {
        Err(ToolError::IoError)
    } else if output_given {
        if output_exists && !overwrite {
            Err(ToolError::OutputExists)
        } else {
            Ok(CogTarget::Given)
        }
    } else if overwrite {
        Ok(CogTarget::Input)
    } else {
        Ok(CogTarget::Sibling)
    }
}

/// A sibling target must not exist yet.
pub fn check_sibling(sibling_exists: bool) -> (r: Result<(), ToolError>)
    ensures
        r == (if sibling_exists {
            Err::<(), ToolError>(ToolError::OutputExists)
        } else {
            Ok::<(), ToolError>(())
        }),
{
    if sibling_exists {
        Err(ToolError::OutputExists)
    } else {
        Ok(())
    }
}

/// The file name of the sibling target: stem, `_cog.`, extension.
pub fn sibling_name(stem: &str, extension: &str) -> (name: String)
    ensures
        name@ == stem@ + "_cog."@ + extension@,
{
    let name: String = String::from_str(stem);
    let name: String = name.concat("_cog.");
    name.concat(extension)
}

pub fn plan_parquet_target(input_exists: bool, output_given: bool, input_has_file_name: bool) -> (target:
    Result<ParquetTarget, ToolError>)
    ensures
        target == parquet_target(input_exists, output_given, input_has_file_name),
{
    if !input_exists {
        Err(ToolError::IoError)
    } else if output_given {
        Ok(ParquetTarget::Given)
    } else if input_has_file_name {
        Ok(ParquetTarget::BesideInput)
    } else {
        Ok(ParquetTarget::Fallback)
    }
}

/// A vector source must have a layer to convert.
pub fn check_layers(layer_count: usize) -> (r: Result<(), ToolError>)
    ensures
        r == (if layer_count == 0 {
            Err::<(), ToolError>(ToolError::NoLayers)
        } else {
            Ok::<(), ToolError>(())
        }),
{
    if layer_count == 0 {
        Err(ToolError::NoLayers)
    } else {
        Ok(())
    }
}

} // verus!
