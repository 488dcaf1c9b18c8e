use cloud_convert::batch::{check_batch, partition_outcomes, reversed, summarize, FileOutcome};
use cloud_convert::error::ToolError;
use cloud_convert::band::{read_precision, BandDescriptor, Precision};
use cloud_convert::convert::{
    check_layers, check_sibling, plan_cog_target, plan_parquet_target, sibling_name, CogTarget,
    ParquetTarget,
};
use cloud_convert::files::{
    extension_allowed, matches_ignoring_case, matching_entries, same_text, FileKind,
};
use cloud_convert::scan::BandShape;
use cloud_convert::output::{trim_bounds, OutputFormat};
use std::path::PathBuf;

#[test]
fn raster_extensions() {
    for ext in ["tif", "tiff", "tff", "asc", "img", "TIF", "Tiff", "IMG"] {
        assert!(extension_allowed(FileKind::RasterSource, ext));
    }
    for ext in ["vrt", "gpkg", "", "tif ", "ti", "tifff", "png"] {
        assert!(!extension_allowed(FileKind::RasterSource, ext));
    }
}

#[test]
fn vector_extensions() {
    for ext in ["gpkg", "json", "geojson", "fgb", "kml", "gpx", "shp", "GeoJSON", "SHP"] {
        assert!(extension_allowed(FileKind::VectorSource, ext));
    }
    for ext in ["tif", "parquet", "jso", "shpx"] {
        assert!(!extension_allowed(FileKind::VectorSource, ext));
    }
}

#[test]
fn qaqc_extensions() {
    for ext in ["tif", "tiff", "asc", "img", "vrt", "VRT", "Asc"] {
        assert!(extension_allowed(FileKind::QaqcRaster, ext));
    }
    for ext in ["tff", "shp", "jpg"] {
        assert!(!extension_allowed(FileKind::QaqcRaster, ext));
    }
}

#[test]
fn case_is_ignored_in_the_text_only() {
    assert!(matches_ignoring_case("CsV", "csv"));
    assert!(!matches_ignoring_case("csv", "CSV"));
    assert!(!matches_ignoring_case("cs", "csv"));
    assert!(!matches_ignoring_case("\u{212a}ml", "kml"));
    assert!(matches_ignoring_case("", ""));
}

#[test]
fn entries_are_filtered_in_order() {
    let entries = vec![
        Some("tif".to_string()),
        None,
        Some("txt".to_string()),
        Some("IMG".to_string()),
        Some("shp".to_string()),
        Some("asc".to_string()),
    ];
    assert_eq!(matching_entries(FileKind::RasterSource, &entries), vec![0, 3, 5]);
    assert_eq!(matching_entries(FileKind::VectorSource, &entries), vec![4]);
    assert_eq!(matching_entries(FileKind::QaqcRaster, &Vec::new()), Vec::<usize>::new());
}

fn ok(path: &str) -> FileOutcome {
    Ok((PathBuf::from(path), String::from("done")))
}

fn failed(path: &str, why: &str) -> FileOutcome {
    Err((PathBuf::from(path), why.to_string()))
}

#[test]
fn three_good_files_and_a_corrupt_one() {
    let summary = summarize(vec![
        ok("a.tif"),
        ok("b.tif"),
        failed("corrupt.tif", "not recognized as a supported file format"),
        ok("c.tif"),
    ]);
    assert_eq!(summary.successful.len(), 3);
    assert_eq!(summary.failed.len(), 1);
    assert_eq!(summary.failed[0].0, PathBuf::from("corrupt.tif"));
    assert_eq!(summary.failed[0].1, "not recognized as a supported file format");
    let paths: Vec<PathBuf> = summary.successful.iter().map(|s| s.0.clone()).collect();
    assert_eq!(paths, vec![PathBuf::from("a.tif"), PathBuf::from("b.tif"), PathBuf::from("c.tif")]);
}

#[test]
fn summary_of_nothing_and_of_failures_only() {
    let summary = summarize(Vec::new());
    assert!(summary.successful.is_empty() && summary.failed.is_empty());
    let summary = summarize(vec![failed("x", "1"), failed("y", "2")]);
    assert!(summary.successful.is_empty());
    assert_eq!(summary.failed.len(), 2);
    assert_eq!(summary.failed[1].1, "2");
}

#[test]
fn partition_keeps_order() {
    let outcomes: Vec<Result<u8, char>> = vec![Ok(1), Err('a'), Err('b'), Ok(2), Ok(3), Err('c')];
    assert_eq!(partition_outcomes(outcomes), (vec![1, 2, 3], vec!['a', 'b', 'c']));
    assert_eq!(reversed(vec![1, 2, 3]), vec![3, 2, 1]);
    assert_eq!(reversed(Vec::<u8>::new()), Vec::<u8>::new());
}

#[test]
fn batch_checks_fail_in_order() {
    assert_eq!(check_batch(false, false, false, 0), Err(ToolError::NotADirectory));
    assert_eq!(check_batch(false, true, true, 3), Err(ToolError::NotADirectory));
    assert_eq!(check_batch(true, false, true, 3), Err(ToolError::IoError));
    assert_eq!(check_batch(true, true, false, 3), Err(ToolError::IoError));
    assert_eq!(check_batch(true, true, true, 0), Err(ToolError::NoMatchingFiles));
    assert_eq!(check_batch(true, true, true, 1), Ok(()));
}

#[test]
fn output_format_names() {
    assert_eq!(OutputFormat::from_str("csv"), Ok(OutputFormat::Csv));
    assert_eq!(OutputFormat::from_str("parquet"), Ok(OutputFormat::Parquet));
    assert_eq!(OutputFormat::from_str("  Parquet\n"), Ok(OutputFormat::Parquet));
    assert_eq!(OutputFormat::from_str("\tCSV "), Ok(OutputFormat::Csv));
    assert_eq!(OutputFormat::from_str("\u{a0}csv\u{3000}"), Ok(OutputFormat::Csv));
    assert_eq!(OutputFormat::from_str(""), Err(ToolError::UnsupportedFormat));
    assert_eq!(OutputFormat::from_str("   "), Err(ToolError::UnsupportedFormat));
    assert_eq!(OutputFormat::from_str("c sv"), Err(ToolError::UnsupportedFormat));
    assert_eq!(OutputFormat::from_str("json"), Err(ToolError::UnsupportedFormat));
    assert_eq!(OutputFormat::Csv.to_string(), "csv");
    assert_eq!(OutputFormat::Parquet.to_string(), "parquet");
    assert_eq!(OutputFormat::Parquet.name(), "parquet");
    for f in [OutputFormat::Csv, OutputFormat::Parquet] {
        assert_eq!(OutputFormat::from_str(&f.to_string()), Ok(f));
    }
}

#[test]
fn trimming_bounds() {
    assert_eq!(trim_bounds("  ab c \n"), (2, 6));
    assert_eq!(trim_bounds("abc"), (0, 3));
    assert_eq!(trim_bounds(" \t "), (3, 3));
    assert_eq!(trim_bounds(""), (0, 0));
    assert_eq!(trim_bounds("x"), (0, 1));
    assert_eq!(trim_bounds("\u{2003}é\u{2003}"), (1, 2));
}

#[test]
fn only_float64_bands_are_read_in_double_precision() {
    assert_eq!(read_precision("Float64"), Precision::Double);
    for label in ["Float32", "Byte", "Int16", "UInt16", "Int32", "UInt32", "Int64", "float64", ""] {
        assert_eq!(read_precision(label), Precision::Single);
    }
    let band = BandDescriptor {
        name: "elevation".to_string(),
        dtype: "Float64".to_string(),
        shape: BandShape { cols: 828, rows: 746, block_x: 828, block_y: 1 },
        nodata: Some((-9999.0f64).to_bits()),
    };
    assert_eq!(band.precision(), Precision::Double);
}

#[test]
fn texts_compare_exactly() {
    assert!(same_text("", ""));
    assert!(same_text("Float64", "Float64"));
    assert!(!same_text("Float64", "Float6"));
    assert!(!same_text("Float64", "float64"));
    assert!(same_text("é", "é"));
}

#[test]
fn cog_targets() {
    assert_eq!(plan_cog_target(false, true, false, true), Err(ToolError::IoError));
    assert_eq!(plan_cog_target(false, false, false, false), Err(ToolError::IoError));
    assert_eq!(plan_cog_target(true, true, true, false), Err(ToolError::OutputExists));
    assert_eq!(plan_cog_target(true, true, true, true), Ok(CogTarget::Given));
    assert_eq!(plan_cog_target(true, true, false, false), Ok(CogTarget::Given));
    assert_eq!(plan_cog_target(true, false, false, true), Ok(CogTarget::Input));
    assert_eq!(plan_cog_target(true, false, false, false), Ok(CogTarget::Sibling));
    assert_eq!(check_sibling(true), Err(ToolError::OutputExists));
    assert_eq!(check_sibling(false), Ok(()));
    assert_eq!(sibling_name("test_input", "tif"), "test_input_cog.tif");
    assert_eq!(sibling_name("", ""), "_cog.");
}

#[test]
fn parquet_targets() {
    assert_eq!(plan_parquet_target(false, true, true), Err(ToolError::IoError));
    assert_eq!(plan_parquet_target(true, true, false), Ok(ParquetTarget::Given));
    assert_eq!(plan_parquet_target(true, false, true), Ok(ParquetTarget::BesideInput));
    assert_eq!(plan_parquet_target(true, false, false), Ok(ParquetTarget::Fallback));
    assert_eq!(check_layers(0), Err(ToolError::NoLayers));
    assert_eq!(check_layers(2), Ok(()));
}
