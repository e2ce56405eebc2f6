use workhelper::manifest::build_version_info;
use workhelper::manifest::check_for_updates;
use workhelper::manifest::download_url_for;
use workhelper::manifest::manifest_needs_probe;
use workhelper::manifest::manifest_url;
use workhelper::manifest::parse_manifest;
use workhelper::manifest::ManifestFields;
use workhelper::manifest::VersionInfo;

fn sample_info(version: &str) -> VersionInfo {
    VersionInfo {
        version: version.to_string(),
        release_date: "2024-01-01".to_string(),
        changelog: "fixes".to_string(),
        download_url: "https://server/releases/v2.0.0/windows/WorkHelper_2.0.0_x64-setup.exe"
            .to_string(),
        file_size: 1048576,
        file_size_formatted: "1.0 MB".to_string(),
        platform: "windows".to_string(),
        file_type: "exe".to_string(),
    }
}

#[test]
fn newer_manifest_yields_an_update() {
    let r = check_for_updates("1.9.5".to_string(), Ok(sample_info("2.0.0")));
    assert!(r.has_update);
    assert_eq!(r.current_version, "1.9.5");
    assert_eq!(r.latest_version.as_deref(), Some("2.0.0"));
    assert!(r.version_info.is_some());
    assert_eq!(r.version_info.unwrap().version, "2.0.0");
    assert!(r.error.is_none());
}

#[test]
fn same_version_yields_no_update_and_no_error() {
    let r = check_for_updates("1.9.5".to_string(), Ok(sample_info("1.9.5")));
    assert!(!r.has_update);
    assert_eq!(r.current_version, "1.9.5");
    assert_eq!(r.latest_version.as_deref(), Some("1.9.5"));
    assert!(r.version_info.is_none());
    assert!(r.error.is_none());
}

#[test]
fn fetch_failure_is_captured_in_the_result() {
    let r = check_for_updates("1.9.5".to_string(), Err("请求版本信息失败: timeout".to_string()));
    assert!(!r.has_update);
    assert_eq!(r.current_version, "1.9.5");
    assert!(r.latest_version.is_none());
    assert!(r.version_info.is_none());
    assert_eq!(r.error.as_deref(), Some("请求版本信息失败: timeout"));
}

#[test]
fn urls_follow_the_templates() {
    assert_eq!(
        manifest_url("https://server/webdav", "/releases"),
        "https://server/webdav/releases/latest.json"
    );
    assert_eq!(
        download_url_for("https://server/releases", "2.0.0"),
        "https://server/releases/v2.0.0/windows/WorkHelper_2.0.0_x64-setup.exe"
    );
}

#[test]
fn missing_version_fails_the_manifest() {
    let fields = ManifestFields {
        version: None,
        release_date: Some("2024-01-01".to_string()),
        changelog: None,
        file_size: None,
        file_size_formatted: None,
    };
    let r = build_version_info(fields, "https://server/releases", 0, "未知".to_string());
    assert_eq!(r.err().as_deref(), Some("版本号字段缺失"));
}

#[test]
fn optional_fields_default_rather_than_fail() {
    let fields = ManifestFields {
        version: Some("2.0.0".to_string()),
        release_date: None,
        changelog: None,
        file_size: Some(2048),
        file_size_formatted: Some("2.0 KB".to_string()),
    };
    let info = build_version_info(fields, "https://server/releases", 0, "未知".to_string())
        .expect("a manifest with a version must resolve");
    assert_eq!(info.version, "2.0.0");
    assert_eq!(info.release_date, "");
    assert_eq!(info.changelog, "本次更新无代码变更");
    assert_eq!(
        info.download_url,
        "https://server/releases/v2.0.0/windows/WorkHelper_2.0.0_x64-setup.exe"
    );
    assert_eq!(info.file_size, 2048);
    assert_eq!(info.file_size_formatted, "2.0 KB");
    assert_eq!(info.platform, "windows");
    assert_eq!(info.file_type, "exe");
}

#[test]
fn missing_size_takes_the_probed_value() {
    let fields = ManifestFields {
        version: Some("2.0.0".to_string()),
        release_date: None,
        changelog: None,
        file_size: Some(2048),
        file_size_formatted: None,
    };
    assert!(manifest_needs_probe(&fields));
    let info = build_version_info(fields, "https://server/releases", 12345, "12.1 KB".to_string())
        .expect("a manifest with a version must resolve");
    assert_eq!(info.file_size, 12345);
    assert_eq!(info.file_size_formatted, "12.1 KB");
}

#[test]
fn complete_size_information_needs_no_probe() {
    let fields = ManifestFields {
        version: Some("2.0.0".to_string()),
        release_date: None,
        changelog: None,
        file_size: Some(2048),
        file_size_formatted: Some("2.0 KB".to_string()),
    };
    assert!(!manifest_needs_probe(&fields));
}

#[test]
fn manifest_json_parses_into_fields() {
    let body = "{\"version\":\"2.0.0\",\"releaseDate\":\"2024-01-01\",\"changelog\":\"fixes\",\"fileSize\":1048576,\"fileSizeFormatted\":\"1.0 MB\"}";
    let fields = parse_manifest(body).expect("well-formed JSON must parse");
    assert_eq!(fields.version.as_deref(), Some("2.0.0"));
    assert_eq!(fields.release_date.as_deref(), Some("2024-01-01"));
    assert_eq!(fields.changelog.as_deref(), Some("fixes"));
    assert_eq!(fields.file_size, Some(1048576));
    assert_eq!(fields.file_size_formatted.as_deref(), Some("1.0 MB"));
}

#[test]
fn manifest_json_with_missing_fields_parses_to_none() {
    let body = "{\"changelog\":17}";
    let fields = parse_manifest(body).expect("well-formed JSON must parse");
    assert!(fields.version.is_none());
    assert!(fields.release_date.is_none());
    // A field of the wrong type reads as absent.
    assert!(fields.changelog.is_none());
    assert!(fields.file_size.is_none());
}

#[test]
fn malformed_manifest_json_is_an_error() {
    assert!(parse_manifest("not json").is_err());
    assert!(parse_manifest("{\"version\":").is_err());
}

#[test]
fn non_string_version_reads_as_absent_and_fails_resolution() {
    let fields = parse_manifest("{\"version\":123}").expect("well-formed JSON must parse");
    assert!(fields.version.is_none());
    let r = build_version_info(fields, "https://server/releases", 0, "未知".to_string());
    assert_eq!(r.err().as_deref(), Some("版本号字段缺失"));
}

#[test]
fn manifest_and_probe_resolve_end_to_end() {
    let body = "{\"version\":\"2.0.0\"}";
    let fields = parse_manifest(body).expect("well-formed JSON must parse");
    assert!(manifest_needs_probe(&fields));
    let info = build_version_info(fields, "https://server/releases", 10000000, "约 10 MB".to_string())
        .expect("a manifest with a version must resolve");
    assert_eq!(info.version, "2.0.0");
    assert_eq!(info.file_size, 10000000);
    assert_eq!(info.file_size_formatted, "约 10 MB");
}
