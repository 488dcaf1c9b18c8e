use cloud_convert::accumulate::{collect_bands, BandScan, BandSummary};
use cloud_convert::error::ToolError;
use cloud_convert::quantiles::Quartiles;
use cloud_convert::scan::{select_strategy, BandShape, ReadStrategy, ScanCursor, Window};

/// What a pass over a band gives: the windows read, the summary, and the sums over the valid
/// samples that the scan handed back.
struct Pass {
    windows: Vec<Window>,
    summary: BandSummary,
    sum: f64,
    sum_sq: f64,
}

/// Reads a row-major band window by window.
fn pass(shape: BandShape, quantiles: bool, data: &[f64], nodata: Option<f64>) -> Pass {
    assert!(BandScan::can_scan(shape, quantiles));
    let mut scan = BandScan::begin(shape, quantiles, nodata.map(f64::to_bits));
    let mut windows = Vec::new();
    let (mut sum, mut sum_sq) = (0.0, 0.0);
    while let Some(w) = scan.next_window() {
        let mut buf = Vec::new();
        for y in w.y..w.y + w.height {
            for x in w.x..w.x + w.width {
                buf.push(data[y * shape.cols + x].to_bits());
            }
        }
        windows.push(w);
        let (next, valid) = scan.feed_patterns(&buf);
        for v in valid.into_iter().map(f64::from_bits) {
            sum += v;
            sum_sq += v * v;
        }
        scan = next;
    }
    Pass { windows, summary: scan.finish(), sum, sum_sq }
}

fn run(
    shape: BandShape,
    quantiles: bool,
    data: &[f64],
    nodata: Option<f64>,
) -> (Vec<Window>, BandSummary) {
    let p = pass(shape, quantiles, data, nodata);
    (p.windows, p.summary)
}

fn shape(cols: usize, rows: usize, block_x: usize, block_y: usize) -> BandShape {
    BandShape { cols, rows, block_x, block_y }
}

#[test]
fn two_by_two_band_with_nan_and_nodata() {
    let data = [1.0, 2.0, f64::NAN, 9.0];
    for (sh, quantiles) in [
        (shape(2, 2, 2, 1), false),
        (shape(2, 2, 1, 2), false),
        (shape(2, 2, 2, 2), false),
        (shape(2, 2, 2, 1), true),
    ] {
        let p = pass(sh, quantiles, &data, Some(9.0));
        let s = p.summary;
        assert_eq!(s.valid_count, 2);
        assert_eq!(s.nan_count, 1);
        assert_eq!(s.nodata_count, 1);
        assert_eq!(s.min_bits.map(f64::from_bits), Some(1.0));
        assert_eq!(s.max_bits.map(f64::from_bits), Some(2.0));
        assert_eq!(s.valid_count + s.nodata_count + s.nan_count, 4);

        let n = s.valid_count as f64;
        let mean = p.sum / n;
        let variance = (p.sum_sq / n - mean * mean).max(0.0);
        assert_eq!(mean, 1.5);
        assert_eq!(variance, 0.25);
        assert_eq!(variance.sqrt(), 0.5);
    }
}

#[test]
fn band_without_nodata_is_valid_throughout() {
    let data: Vec<f64> = (0..15).map(|i| i as f64 - 7.0).collect();
    let (_, s) = run(shape(5, 3, 2, 2), false, &data, None);
    assert_eq!(s.valid_count, 15);
    assert_eq!(s.nodata_count, 0);
    assert_eq!(s.nan_count, 0);
    assert_eq!(s.min_bits.map(f64::from_bits), Some(-7.0));
    assert_eq!(s.max_bits.map(f64::from_bits), Some(7.0));
    assert_eq!(s.quartiles, None);
}

#[test]
fn constant_band_has_equal_extremes() {
    let data = [3.5; 12];
    let (_, s) = run(shape(4, 3, 4, 1), false, &data, None);
    assert_eq!(s.valid_count, 12);
    assert_eq!(s.min_bits, Some(3.5f64.to_bits()));
    assert_eq!(s.max_bits, Some(3.5f64.to_bits()));
}

#[test]
fn strategies_agree_on_the_tallies() {
    let mut data: Vec<f64> = (0..35).map(|i| (i * 37 % 11) as f64 - 3.0).collect();
    data[4] = f64::INFINITY;
    data[17] = f64::NEG_INFINITY;
    data[30] = f64::NAN;
    let by_rows = run(shape(7, 5, 7, 1), false, &data, Some(0.0)).1;
    let by_blocks = run(shape(7, 5, 3, 2), false, &data, Some(0.0)).1;
    let in_full = run(shape(7, 5, 3, 2), true, &data, Some(0.0)).1;
    assert_eq!(by_rows, by_blocks);
    assert_eq!(by_rows.valid_count, in_full.valid_count);
    assert_eq!(by_rows.nodata_count, in_full.nodata_count);
    assert_eq!(by_rows.nan_count, in_full.nan_count);
    assert_eq!(by_rows.min_bits, in_full.min_bits);
    assert_eq!(by_rows.max_bits, in_full.max_bits);
    assert_eq!(by_rows.nan_count, 3);
    assert_eq!(by_rows.valid_count + by_rows.nodata_count + by_rows.nan_count, 35);
    assert!(in_full.quartiles.is_some());
}

#[test]
fn block_windows_are_clipped_at_the_edges() {
    let data = [0.0; 15];
    let (windows, _) = run(shape(5, 3, 2, 2), false, &data, None);
    let expected = vec![
        Window { x: 0, y: 0, width: 2, height: 2 },
        Window { x: 2, y: 0, width: 2, height: 2 },
        Window { x: 4, y: 0, width: 1, height: 2 },
        Window { x: 0, y: 2, width: 2, height: 1 },
        Window { x: 2, y: 2, width: 2, height: 1 },
        Window { x: 4, y: 2, width: 1, height: 1 },
    ];
    assert_eq!(windows, expected);
}

#[test]
fn row_windows_are_scanlines() {
    let data = [0.0; 12];
    let (windows, _) = run(shape(4, 3, 4, 1), false, &data, None);
    let expected = vec![
        Window { x: 0, y: 0, width: 4, height: 1 },
        Window { x: 0, y: 1, width: 4, height: 1 },
        Window { x: 0, y: 2, width: 4, height: 1 },
    ];
    assert_eq!(windows, expected);
}

#[test]
fn quantiles_read_the_band_in_one_window() {
    let data = [5.0, 1.0, 4.0, 2.0, 3.0, f64::NAN];
    let (windows, s) = run(shape(3, 2, 1, 1), true, &data, None);
    assert_eq!(windows, vec![Window { x: 0, y: 0, width: 3, height: 2 }]);
    assert_eq!(
        s.quartiles,
        Some(Quartiles { q1: 2.0f64.to_bits(), median: 3.0f64.to_bits(), q3: 4.0f64.to_bits() })
    );
    assert_eq!(s.valid_count, 5);
    assert_eq!(s.nan_count, 1);
}

#[test]
fn band_without_valid_samples() {
    let data = [f64::NAN, 9.0, 9.0, f64::INFINITY];
    let (_, s) = run(shape(2, 2, 2, 1), true, &data, Some(9.0));
    assert_eq!(s.valid_count, 0);
    assert_eq!(s.nodata_count, 2);
    assert_eq!(s.nan_count, 2);
    assert_eq!(s.min_bits, None);
    assert_eq!(s.max_bits, None);
    assert_eq!(s.quartiles, None);
}

#[test]
fn empty_band_has_no_windows() {
    let (windows, s) = run(shape(0, 4, 2, 2), false, &[], None);
    assert!(windows.is_empty());
    assert_eq!(s.valid_count + s.nodata_count + s.nan_count, 0);
    let (windows, _) = run(shape(4, 0, 4, 1), false, &[], None);
    assert!(windows.is_empty());
}

#[test]
fn strategy_selection() {
    assert_eq!(select_strategy(true, 1), ReadStrategy::Full);
    assert_eq!(select_strategy(true, 256), ReadStrategy::Full);
    assert_eq!(select_strategy(false, 1), ReadStrategy::Rows);
    assert_eq!(select_strategy(false, 256), ReadStrategy::Blocks);
    assert_eq!(select_strategy(false, 0), ReadStrategy::Blocks);
}

#[test]
fn shapes_that_cannot_be_scanned() {
    assert!(!BandScan::can_scan(shape(4, 4, 0, 2), false));
    assert!(!BandScan::can_scan(shape(4, 4, 2, 0), false));
    assert!(BandScan::can_scan(shape(4, 4, 0, 0), true));
    assert!(BandScan::can_scan(shape(4, 4, 0, 1), false));
    assert!(!BandScan::can_scan(shape(usize::MAX, 2, 1, 1), false));
}

#[test]
fn cursor_steps_through_the_grid() {
    let sh = shape(5, 3, 2, 2);
    let mut cur = sh.start();
    assert_eq!(cur, ScanCursor { x: 0, y: 0 });
    let mut seen = Vec::new();
    while sh.next_window(ReadStrategy::Blocks, cur).is_some() {
        seen.push(cur);
        cur = sh.advance(ReadStrategy::Blocks, cur);
    }
    assert_eq!(seen.len(), 6);
    assert_eq!(seen[3], ScanCursor { x: 0, y: 2 });
    assert_eq!(cur, ScanCursor { x: 0, y: 3 });
}

#[test]
fn scan_refuses_what_it_cannot_take() {
    assert_eq!(
        BandScan::try_begin(shape(4, 4, 0, 2), false, None).err(),
        Some(ToolError::BandReadError)
    );
    let nodata = Some(2.0f64.to_bits());
    let row = vec![1.0f64.to_bits(), 2.0f64.to_bits()];
    let short = vec![1.0f64.to_bits()];
    let scan = BandScan::try_begin(shape(2, 2, 2, 1), false, nodata).unwrap();
    assert_eq!(scan.try_feed_patterns(&short).err(), Some(ToolError::BandReadError));
    let scan = BandScan::try_begin(shape(2, 2, 2, 1), false, nodata).unwrap();
    let (scan, valid) = scan.try_feed_patterns(&row).unwrap();
    assert_eq!(valid, vec![1.0f64.to_bits()]);
    let (scan, valid) = scan.try_feed_patterns(&row).unwrap();
    assert_eq!(valid, vec![1.0f64.to_bits()]);
    assert!(scan.next_window().is_none());
    assert_eq!(scan.try_feed_patterns(&row).err(), Some(ToolError::BandReadError));
    let scan = BandScan::try_begin(shape(2, 2, 2, 1), false, None).unwrap();
    let (scan, valid) = scan.try_feed_patterns(&row).unwrap();
    assert_eq!(valid, row);
    let s = scan.try_feed_patterns(&row).unwrap().0.finish();
    assert_eq!((s.valid_count, s.nodata_count), (4, 0));
}

#[test]
fn one_failed_band_fails_the_file() {
    let all: Vec<Result<u8, ToolError>> = vec![Ok(1), Ok(2), Ok(3)];
    assert_eq!(collect_bands(true, all), Ok(vec![1, 2, 3]));
    let broken: Vec<Result<u8, ToolError>> =
        vec![Ok(1), Err(ToolError::BandReadError), Ok(3), Err(ToolError::IoError)];
    assert_eq!(collect_bands(true, broken), Err(ToolError::BandReadError));
    let unopened: Vec<Result<u8, ToolError>> = Vec::new();
    assert_eq!(collect_bands(false, unopened), Err(ToolError::DatasetOpenError));
    let none: Vec<Result<u8, ToolError>> = Vec::new();
    assert_eq!(collect_bands(true, none), Ok(Vec::new()));
}
