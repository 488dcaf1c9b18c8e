use cloud_convert::accumulate::BandSummary;
use cloud_convert::datainfo::{dataset_kind, field_type_to_str, DatasetInfo, DatasetType, LayerInfo};
use cloud_convert::quantiles::Quartiles;
use cloud_convert::table::{append_rows, cell_of, column_names, flatten, Moments, RasterStats};

#[test]
fn field_type_names() {
    let expected = [
        (0, "Integer"),
        (1, "IntegerList"),
        (2, "Real"),
        (3, "RealList"),
        (4, "String"),
        (5, "StringList"),
        (6, "Unknown"),
        (7, "Unknown"),
        (8, "Binary"),
        (9, "Date"),
        (10, "Time"),
        (11, "DateTime"),
        (12, "Unknown"),
        (13, "Unknown"),
        (u32::MAX, "Unknown"),
    ];
    for (code, name) in expected {
        assert_eq!(field_type_to_str(code), name);
    }
}

#[test]
fn dataset_kind_by_band_count() {
    assert_eq!(dataset_kind(0), DatasetType::Vector);
    assert_eq!(dataset_kind(1), DatasetType::Raster);
    assert_eq!(dataset_kind(12), DatasetType::Raster);
}

#[test]
fn raster_description() {
    let info = DatasetInfo::raster("GTiff".to_string(), Some("WGS 84".to_string()), (828, 746), 1);
    assert_eq!(info.dataset_type, DatasetType::Raster);
    assert_eq!(info.driver, "GTiff");
    assert_eq!(info.crs.as_deref(), Some("WGS 84"));
    assert_eq!(info.size.unwrap(), (828, 746));
    assert_eq!(info.band_count, Some(1));
    assert!(info.layers.is_none());
    assert!(info.layer_count.is_none());
}

#[test]
fn vector_description() {
    let raw = vec![("name".to_string(), 4u32), ("pop".to_string(), 12), ("area".to_string(), 2)];
    let layer = LayerInfo::describe(
        "atlas_gaul_a0_africa_verysimple".to_string(),
        Some("WGS 84".to_string()),
        &raw,
        54,
    );
    assert_eq!(layer.name, "atlas_gaul_a0_africa_verysimple");
    assert_eq!(layer.feature_count, 54);
    assert_eq!(
        layer.fields,
        vec![
            ("name".to_string(), "String".to_string()),
            ("pop".to_string(), "Unknown".to_string()),
            ("area".to_string(), "Real".to_string()),
        ]
    );
    let info = DatasetInfo::vector("GPKG".to_string(), vec![layer]);
    assert_eq!(info.dataset_type, DatasetType::Vector);
    assert_eq!(info.layer_count, Some(1));
    assert!(info.crs.is_none() && info.size.is_none() && info.band_count.is_none());
    let lyrs = info.layers.unwrap();
    let lyr1 = lyrs.get(0).unwrap();
    assert_eq!(lyr1.crs.clone().unwrap(), "WGS 84");
}

fn moments(mean: f64, variance: f64, percent_valid: f64) -> Moments {
    let stdev = variance.sqrt();
    Moments {
        mean: mean.to_bits(),
        variance: variance.to_bits(),
        stdev: stdev.to_bits(),
        cv: (if mean != 0.0 { stdev / mean } else { 0.0 }).to_bits(),
        percent_valid: percent_valid.to_bits(),
    }
}

fn summary(quartiles: Option<Quartiles>) -> BandSummary {
    BandSummary {
        valid_count: 2,
        nodata_count: 1,
        nan_count: 1,
        min_bits: Some(1.0f64.to_bits()),
        max_bits: Some(2.0f64.to_bits()),
        quartiles,
    }
}

#[test]
fn record_from_summary() {
    let q = Quartiles { q1: 1.0f64.to_bits(), median: 2.0f64.to_bits(), q3: 2.0f64.to_bits() };
    let s = RasterStats::assemble(
        "Band 1".to_string(),
        "Float32".to_string(),
        summary(Some(q)),
        moments(1.5, 0.25, 50.0),
    );
    assert_eq!(s.name, "Band 1");
    assert_eq!(s.dtype, "Float32");
    assert_eq!(f64::from_bits(s.mean), 1.5);
    assert_eq!(f64::from_bits(s.variance), 0.25);
    assert_eq!(f64::from_bits(s.stdev), 0.5);
    assert_eq!(f64::from_bits(s.min), 1.0);
    assert_eq!(f64::from_bits(s.max), 2.0);
    assert_eq!(f64::from_bits(s.percent_valid), 50.0);
    assert_eq!((s.valid_count, s.nodata_count, s.nan_count), (2, 1, 1));
    assert_eq!(s.q1.map(f64::from_bits), Some(1.0));
    assert_eq!(s.median.map(f64::from_bits), Some(2.0));
    assert_eq!(s.q3.map(f64::from_bits), Some(2.0));
}

#[test]
fn record_of_a_band_without_valid_samples() {
    let empty = BandSummary {
        valid_count: 0,
        nodata_count: 4,
        nan_count: 0,
        min_bits: None,
        max_bits: None,
        quartiles: None,
    };
    let s = RasterStats::assemble("b".to_string(), "Byte".to_string(), empty, moments(f64::NAN, f64::NAN, 0.0));
    assert_eq!(f64::from_bits(s.min), f64::from(f32::MAX));
    assert_eq!(f64::from_bits(s.max), f64::from(f32::MIN));
    let d = RasterStats::assemble("b".to_string(), "Float64".to_string(), empty, moments(f64::NAN, f64::NAN, 0.0));
    assert_eq!(f64::from_bits(d.min), f64::MAX);
    assert_eq!(f64::from_bits(d.max), f64::MIN);
    assert!(f64::from_bits(s.mean).is_nan());
    assert_eq!((s.q1, s.median, s.q3), (None, None, None));
}

#[test]
fn rows_of_a_file() {
    let q = Quartiles { q1: 1.0f64.to_bits(), median: 2.0f64.to_bits(), q3: 3.0f64.to_bits() };
    let stats = vec![
        RasterStats::assemble("one".to_string(), "Float64".to_string(), summary(Some(q)), moments(1.5, 0.25, 50.0)),
        RasterStats::assemble("two".to_string(), "Int16".to_string(), summary(None), moments(1.5, 0.25, 50.0)),
    ];
    let rows = flatten("scene.tif", &stats);
    assert_eq!(rows.len(), 2);
    assert_eq!(rows[0].file, "scene.tif");
    assert_eq!(rows[1].file, "scene.tif");
    assert_eq!(rows[0].name, "one");
    assert_eq!(rows[1].name, "two");
    assert_eq!(rows[1].dtype, "Int16");
    assert_eq!(f64::from_bits(rows[0].q1), 1.0);
    assert_eq!(f64::from_bits(rows[0].q3), 3.0);
    assert!(f64::from_bits(rows[1].q1).is_nan());
    assert!(f64::from_bits(rows[1].median).is_nan());
    assert!(f64::from_bits(rows[1].q3).is_nan());
    assert_eq!(rows[1].valid_count, 2);
    assert_eq!(f64::from_bits(rows[1].mean), 1.5);
}

#[test]
fn table_grows_by_bands_per_file() {
    let mut table = Vec::new();
    for (file, bands) in [("a.tif", 3usize), ("b.tif", 3), ("c.tif", 3)] {
        let stats: Vec<RasterStats> = (0..bands)
            .map(|b| RasterStats::assemble(format!("band {}", b), "Byte".to_string(), summary(None), moments(1.0, 0.0, 100.0)))
            .collect();
        append_rows(&mut table, flatten(file, &stats));
    }
    assert_eq!(table.len(), 9);
    assert_eq!(table[0].file, "a.tif");
    assert_eq!(table[5].file, "b.tif");
    assert_eq!(table[8].name, "band 2");
}

#[test]
fn table_columns() {
    assert_eq!(
        column_names(),
        vec![
            "file", "name", "dtype", "mean", "min", "max", "variance", "stdev", "cv", "valid_count",
            "nodata_count", "nan_count", "percent_valid", "q1", "median", "q3",
        ]
    );
    assert!(f64::from_bits(cell_of(None)).is_nan());
    assert_eq!(cell_of(Some(7)), 7);
}
