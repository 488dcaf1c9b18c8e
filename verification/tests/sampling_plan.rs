use cloud_convert::error::ToolError;
use cloud_convert::sampling::{clamp_percent, plan_sample, positions, sample_size, take_sample};

#[test]
fn percent_is_clamped() {
    assert_eq!(clamp_percent(-5), 0);
    assert_eq!(clamp_percent(0), 0);
    assert_eq!(clamp_percent(37), 37);
    assert_eq!(clamp_percent(100), 100);
    assert_eq!(clamp_percent(255), 100);
}

#[test]
fn sample_size_rounds_up() {
    assert_eq!(sample_size(50, 3), 2);
    assert_eq!(sample_size(7, 100), 7);
    assert_eq!(sample_size(1, 1000), 10);
    assert_eq!(sample_size(1, 5), 1);
    assert_eq!(sample_size(33, 10), 4);
    assert_eq!(sample_size(100, 17), 17);
    assert_eq!(sample_size(250, 17), 17);
    assert_eq!(sample_size(0, 17), 0);
    assert_eq!(sample_size(-1, 17), 0);
    assert_eq!(sample_size(100, usize::MAX), usize::MAX);
    assert_eq!(sample_size(10, 0), 0);
}

#[test]
fn no_files_is_an_error() {
    assert_eq!(plan_sample(0, 100), Err(ToolError::NoFilesFound));
    assert_eq!(plan_sample(0, 0), Err(ToolError::NoFilesFound));
}

#[test]
fn full_percentage_samples_every_file() {
    for n in [1usize, 2, 9, 64] {
        let mut chosen = plan_sample(n, 100).unwrap();
        assert_eq!(chosen.len(), n);
        chosen.sort();
        assert_eq!(chosen, (0..n).collect::<Vec<usize>>());
    }
}

#[test]
fn zero_percentage_samples_nothing() {
    assert_eq!(plan_sample(12, 0), Ok(Vec::new()));
    assert_eq!(plan_sample(12, -40), Ok(Vec::new()));
}

#[test]
fn partial_sample_is_distinct_and_in_range() {
    let mut chosen = plan_sample(10, 45).unwrap();
    assert_eq!(chosen.len(), 5);
    assert!(chosen.iter().all(|&p| p < 10));
    chosen.sort();
    chosen.dedup();
    assert_eq!(chosen.len(), 5);
}

#[test]
fn sample_order_is_shuffled() {
    let chosen = plan_sample(200, 100).unwrap();
    assert_ne!(chosen, positions(200));
}

#[test]
fn take_sample_keeps_the_front() {
    assert_eq!(take_sample(vec![4, 2, 7, 1], 2), vec![4, 2]);
    assert_eq!(take_sample(vec![4, 2, 7, 1], 0), Vec::<usize>::new());
    assert_eq!(take_sample(vec![4, 2, 7, 1], 9), vec![4, 2, 7, 1]);
    assert_eq!(positions(4), vec![0, 1, 2, 3]);
}
