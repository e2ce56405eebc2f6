use workhelper::digits::parse_u64;
use workhelper::sizeprobe::parse_content_range_total;
use workhelper::sizeprobe::parse_propfind_content_length;
use workhelper::sizeprobe::probe_advance;
use workhelper::sizeprobe::ProbeOutcome;
use workhelper::sizeprobe::ProbeState;
use workhelper::sizeprobe::PLACEHOLDER_SIZE;

#[test]
fn propfind_value_beats_the_placeholder() {
    // HEAD and the range request fail; PROPFIND answers with a size.
    let s = probe_advance(ProbeState::Head, ProbeOutcome::Failed);
    assert!(matches!(s, ProbeState::RangeQuery));
    let s = probe_advance(s, ProbeOutcome::Failed);
    assert!(matches!(s, ProbeState::Propfind));
    let s = probe_advance(s, ProbeOutcome::Measured(12345));
    match s {
        ProbeState::Done(size, label) => {
            assert_eq!(size, 12345);
            assert_eq!(label, "12.1 KB");
        },
        _ => panic!("probe should be done after a measured size"),
    }
}

#[test]
fn head_success_ends_the_chain_at_once() {
    let s = probe_advance(ProbeState::Head, ProbeOutcome::Measured(2048));
    match s {
        ProbeState::Done(size, label) => {
            assert_eq!(size, 2048);
            assert_eq!(label, "2.0 KB");
        },
        _ => panic!("probe should be done after a measured size"),
    }
}

#[test]
fn existence_only_yields_the_placeholder() {
    let s = probe_advance(ProbeState::Existence, ProbeOutcome::Confirmed);
    match s {
        ProbeState::Done(size, label) => {
            assert_eq!(size, PLACEHOLDER_SIZE);
            assert_eq!(label, "约 10 MB");
        },
        _ => panic!("probe should be done after the last strategy"),
    }
}

#[test]
fn total_failure_yields_size_zero_and_unknown() {
    let mut s = ProbeState::Head;
    for _ in 0..4 {
        s = probe_advance(s, ProbeOutcome::Failed);
    }
    match s {
        ProbeState::Done(size, label) => {
            assert_eq!(size, 0);
            assert_eq!(label, "未知");
        },
        _ => panic!("probe should be done after every strategy failed"),
    }
}

#[test]
fn content_range_header_yields_the_total() {
    assert_eq!(parse_content_range_total("bytes 0-0/12345"), Some(12345));
    assert_eq!(parse_content_range_total("bytes 0-1023/10485760"), Some(10485760));
}

#[test]
fn malformed_content_range_yields_nothing() {
    assert_eq!(parse_content_range_total("bytes 0-0/*"), None);
    assert_eq!(parse_content_range_total("12345"), None);
    assert_eq!(parse_content_range_total(""), None);
}

#[test]
fn content_range_reads_the_piece_between_the_first_two_slashes() {
    assert_eq!(parse_content_range_total("bytes 0-0/12345/6"), Some(12345));
}

#[test]
fn propfind_namespaced_tag_parses() {
    let body = "<?xml version=\"1.0\"?><D:multistatus xmlns:D=\"DAV:\"><D:getcontentlength>54321</D:getcontentlength></D:multistatus>";
    assert_eq!(parse_propfind_content_length(body), Some(54321));
}

#[test]
fn propfind_plain_tag_parses() {
    let body = "<multistatus><getcontentlength>777</getcontentlength></multistatus>";
    assert_eq!(parse_propfind_content_length(body), Some(777));
}

#[test]
fn propfind_falls_through_to_the_plain_tag() {
    let body = "<D:getcontentlength>abc</D:getcontentlength><getcontentlength>777</getcontentlength>";
    assert_eq!(parse_propfind_content_length(body), Some(777));
}

#[test]
fn propfind_without_a_length_yields_nothing() {
    assert_eq!(parse_propfind_content_length("<D:status>HTTP/1.1 404</D:status>"), None);
    assert_eq!(parse_propfind_content_length(""), None);
}

#[test]
fn parsing_numbers_rejects_junk_and_overflow() {
    assert_eq!(parse_u64("123"), Some(123));
    assert_eq!(parse_u64("000123"), Some(123));
    assert_eq!(parse_u64("18446744073709551615"), Some(u64::MAX));
    assert_eq!(parse_u64("18446744073709551616"), None);
    assert_eq!(parse_u64(""), None);
    assert_eq!(parse_u64("12a"), None);
    assert_eq!(parse_u64("-5"), None);
    assert_eq!(parse_u64("+5"), None);
}
