use netflex::range::Range;
use netflex::stream;

const DEFAULT_RANGE: u64 = 1048576;

#[test]
fn new_keeps_start_and_offset() {
    let r = Range::new(7, 21);
    assert_eq!(r.start(), 7);
    assert_eq!(r.offset(), 21);
}

#[test]
fn apply_filesize_inside_the_file() {
    let r = Range::new(100, 50).apply_filesize(1000);
    assert_eq!(r.start(), 100);
    assert_eq!(r.offset(), 50);
}

#[test]
fn apply_filesize_start_past_the_end() {
    let r = Range::new(5000, 50).apply_filesize(1000);
    assert_eq!(r.start(), 999);
    assert_eq!(r.offset(), 1);
}

#[test]
fn apply_filesize_cuts_the_tail() {
    let r = Range::new(990, 50).apply_filesize(1000);
    assert_eq!(r.start(), 990);
    assert_eq!(r.offset(), 10);
}

#[test]
fn apply_filesize_empty_file() {
    let r = Range::new(100, 50).apply_filesize(0);
    assert_eq!(r.start(), 0);
    assert_eq!(r.offset(), 0);
}

#[test]
fn apply_filesize_stays_inside() {
    // For every file_size > 0: start' <= file_size - 1 and
    // start' + offset' <= file_size.
    let sizes: [u64; 4] = [1, 2, 1000, u64::MAX];
    let windows: [(u64, u64); 5] = [(0, 0), (0, u64::MAX), (u64::MAX, 7), (999, 1), (1000, 1000)];
    for &file_size in sizes.iter() {
        for &(start, offset) in windows.iter() {
            let r = Range::new(start, offset).apply_filesize(file_size);
            assert!(r.start() <= file_size - 1);
            assert!(r.start() + r.offset() <= file_size);
        }
    }
}

#[test]
fn parse_two_numbers() {
    let r = stream::parse_range_with_defaults("bytes=100-199");
    assert_eq!(r.start(), 100);
    assert_eq!(r.offset(), 99);
}

#[test]
fn parse_start_only() {
    let r = stream::parse_range_with_defaults("bytes=100-");
    assert_eq!(r.start(), 100);
    assert_eq!(r.offset(), DEFAULT_RANGE);
}

#[test]
fn parse_no_numbers() {
    let r = stream::parse_range_with_defaults("bytes=");
    assert_eq!(r.start(), 0);
    assert_eq!(r.offset(), DEFAULT_RANGE);
}

#[test]
fn parse_empty_header() {
    let r = stream::parse_range_with_defaults("");
    assert_eq!(r.start(), 0);
    assert_eq!(r.offset(), DEFAULT_RANGE);
}

#[test]
fn parse_end_before_start_falls_back() {
    // A second number below the start is ignored, as if absent.
    let r = stream::parse_range_with_defaults("bytes=100-50");
    assert_eq!(r.start(), 100);
    assert_eq!(r.offset(), DEFAULT_RANGE);
}

#[test]
fn parse_takes_the_first_two_runs() {
    let r = stream::parse_range_with_defaults("x12y345z999");
    assert_eq!(r.start(), 12);
    assert_eq!(r.offset(), 345 - 12);
}

#[test]
fn parse_huge_number_saturates() {
    let r = stream::parse_range_with_defaults("bytes=99999999999999999999999-");
    assert_eq!(r.start(), u64::MAX);
    assert_eq!(r.offset(), 0);
}

#[test]
fn stream_range_end_is_inclusive() {
    let r = stream::Range::from_header("bytes=100-199");
    assert_eq!(r.start(), 100);
    assert_eq!(r.end(), Some(198));
    assert_eq!(r.range().offset(), 99);
}

#[test]
fn stream_range_default_window() {
    let r = stream::Range::default();
    assert_eq!(r.start(), 0);
    assert_eq!(r.range().offset(), DEFAULT_RANGE);
}

#[test]
fn stream_range_apply_file_size() {
    let r = stream::Range::default().apply_file_size(500);
    assert_eq!(r.start(), 0);
    assert_eq!(r.range().offset(), 500);
}
