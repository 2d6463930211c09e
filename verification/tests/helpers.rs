use netflex::error::{invalid_input, other};
use netflex::path::Path;
use netflex::testing::assert_vec_equal;
use netflex::text;

#[test]
fn assert_vec_equal_accepts_permutations() {
    let a: Vec<u64> = vec![1, 2, 3];
    let b: Vec<u64> = vec![3, 1, 2];
    assert!(assert_vec_equal(&a, &b, "vecs are not equal").is_ok());
}

#[test]
fn assert_vec_equal_rejects_different_lengths() {
    let a: Vec<u64> = vec![1, 2, 3];
    let b: Vec<u64> = vec![1, 2];
    let e = assert_vec_equal(&a, &b, "vecs are not equal").unwrap_err();
    assert_eq!(e.message(), "vecs are not equal");
}

#[test]
fn assert_vec_equal_rejects_missing_elements() {
    let a: Vec<u64> = vec![1, 2, 3];
    let b: Vec<u64> = vec![1, 2, 4];
    assert!(assert_vec_equal(&a, &b, "vecs are not equal").is_err());
}

#[test]
fn errors_carry_their_message() {
    let r: Result<(), _> = invalid_input("path is neither file nor dir: 'x'".to_owned());
    assert_eq!(r.unwrap_err().message(), "path is neither file nor dir: 'x'");
    let r: Result<(), _> = other("boom".to_owned());
    assert_eq!(r.unwrap_err().message(), "boom");
}

#[test]
fn path_converts_both_ways() {
    let p = Path::from("/media/a.mp4".to_owned());
    let s = String::from(p);
    assert_eq!(s, "/media/a.mp4");
}

#[test]
fn decimal_rendering() {
    assert_eq!(text::u64_to_decimal(0), "0");
    assert_eq!(text::u64_to_decimal(7), "7");
    assert_eq!(text::u64_to_decimal(1048576), "1048576");
    assert_eq!(text::u64_to_decimal(u64::MAX), "18446744073709551615");
}

#[test]
fn lexicographic_comparison() {
    assert!(text::str_le("clip", "movie"));
    assert!(!text::str_le("movie", "clip"));
    assert!(text::str_le("abc", "abc"));
    assert!(text::str_le("ab", "abc"));
}

#[test]
fn prefix_and_suffix() {
    assert!(text::str_starts_with("/media/a.mp4", "/media"));
    assert!(!text::str_starts_with("/other/a.mp4", "/media"));
    assert!(text::str_ends_with("show.m3u8", ".m3u8"));
    assert!(!text::str_ends_with("show.mp4", ".m3u8"));
}
