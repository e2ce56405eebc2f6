use workhelper::version::is_newer_version;

#[test]
fn newer_minor_version_wins() {
    assert!(is_newer_version("1.2.0", "1.3.0"));
}

#[test]
fn numeric_segments_compare_as_numbers() {
    assert!(!is_newer_version("1.10.0", "1.9.0"));
    assert!(is_newer_version("1.9.0", "1.10.0"));
}

#[test]
fn shorter_version_pads_with_zeros() {
    assert!(!is_newer_version("1.2", "1.2.0"));
    assert!(!is_newer_version("1.2.0", "1.2"));
}

#[test]
fn equal_versions_are_not_newer() {
    assert!(!is_newer_version("1.9.5", "1.9.5"));
    assert!(!is_newer_version("0.0.0", "0.0.0"));
    assert!(!is_newer_version("2", "2"));
}

#[test]
fn end_to_end_versions_from_manifest() {
    assert!(is_newer_version("1.9.5", "2.0.0"));
}

#[test]
fn non_numeric_segment_counts_as_zero() {
    assert!(is_newer_version("1.a.0", "1.0.1"));
    assert!(!is_newer_version("1.0.1", "1.a.0"));
    assert!(!is_newer_version("1.a", "1.0"));
}

#[test]
fn leading_zeros_do_not_matter() {
    assert!(!is_newer_version("1.02", "1.2"));
    assert!(!is_newer_version("1.2", "1.02"));
    assert!(is_newer_version("1.09", "1.10"));
}

#[test]
fn long_numeric_segments_compare_by_value() {
    assert!(is_newer_version("1.99999999999999999999998", "1.99999999999999999999999"));
    assert!(!is_newer_version("1.100000000000000000000", "1.99"));
}

#[test]
fn empty_segments_count_as_zero() {
    assert!(is_newer_version("1..0", "1.1.0"));
    assert!(!is_newer_version("", "0.0"));
    assert!(is_newer_version("", "0.1"));
}
