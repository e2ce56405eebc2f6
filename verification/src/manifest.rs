//! Remote version discovery: the manifest's fields, the URLs the updater
//! talks to, and the decision a version check yields.
//!
//! The caller fetches `latest.json` over the network; parsing the body and
//! every decision after it lives here.

use vstd::prelude::*;
use vstd::string::StringExecFns;

use crate::json::json_doc_error;
use crate::json::json_doc_ok;
use crate::json::json_str_field;
use crate::json::json_str_field_of;
use crate::json::json_u64_field;
use crate::json::json_u64_field_of;
use crate::version::is_newer;
use crate::version::is_newer_version;

verus! {

/// What the manifest document carried, before any defaulting: only the
/// version is required.
pub struct ManifestFields {
    pub version: Option<String>,
    pub release_date: Option<String>,
    pub changelog: Option<String>,
    pub file_size: Option<u64>,
    pub file_size_formatted: Option<String>,
}

/// The fully resolved description of the latest available version.
pub struct VersionInfo {
    pub version: String,
    pub release_date: String,
    pub changelog: String,
    pub download_url: String,
    pub file_size: u64,
    pub file_size_formatted: String,
    pub platform: String,
    pub file_type: String,
}

/// What one update check concluded.
pub struct UpdateCheckResult {
    pub has_update: bool,
    pub current_version: String,
    pub latest_version: Option<String>,
    pub version_info: Option<VersionInfo>,
    pub error: Option<String>,
}

/// The URL of the manifest document on the distribution channel.
pub open spec fn spec_manifest_url(url: Seq<char>, remote_path: Seq<char>) -> Seq<char> {
    url + remote_path + "/latest.json"@
}

/// Build the manifest URL for a channel.
pub fn manifest_url(url: &str, remote_path: &str) -> (r: String)
    ensures
        r@ == spec_manifest_url(url@, remote_path@),
{
    let mut s = String::from_str(url);
    s.append(remote_path);
    s.append("/latest.json");
    proof {
        assert(s@ =~= spec_manifest_url(url@, remote_path@));
    }
    s
}

/// The download URL of the installer for a version, from the fixed
/// template for the one supported platform and architecture.
pub open spec fn spec_download_url(base_url: Seq<char>, version: Seq<char>) -> Seq<char> {
    base_url + "/v"@ + version + "/windows/WorkHelper_"@ + version + "_x64-setup.exe"@
}

/// Build the installer download URL for a version.
pub fn download_url_for(base_url: &str, version: &str) -> (r: String)
    ensures
        r@ == spec_download_url(base_url@, version@),
{
    let mut s = String::from_str(base_url);
    s.append("/v");
    s.append(version);
    s.append("/windows/WorkHelper_");
    s.append(version);
    s.append("_x64-setup.exe");
    proof {
        assert(s@ =~= spec_download_url(base_url@, version@));
    }
    s
}

/// An optional string field carries exactly the named lookup result.
pub open spec fn str_field_matches(field: Option<String>, named: Option<Seq<char>>) -> bool {
    match field {
        Some(s) => named == Some(s@),
        None => named is None,
    }
}

/// Parse a manifest document's text into its fields, defensively: it
/// fails exactly on a body that is not well-formed JSON, reported with
/// the parser's message, and a field that is absent or of the wrong type
/// reads as absent.
pub fn parse_manifest(body: &str) -> (r: Result<ManifestFields, String>)
    ensures
        r is Err <==> !json_doc_ok(body@),
        r matches Ok(f) ==> str_field_matches(f.version, json_str_field_of(body@, "version"@))
            && str_field_matches(f.release_date, json_str_field_of(body@, "releaseDate"@))
            && str_field_matches(f.changelog, json_str_field_of(body@, "changelog"@))
            && f.file_size == json_u64_field_of(body@, "fileSize"@) && str_field_matches(
            f.file_size_formatted,
            json_str_field_of(body@, "fileSizeFormatted"@),
        ),
{
    match json_doc_error(body) {
        Some(e) => Err(e),
        None => Ok(
            ManifestFields {
                version: json_str_field(body, "version"),
                release_date: json_str_field(body, "releaseDate"),
                changelog: json_str_field(body, "changelog"),
                file_size: json_u64_field(body, "fileSize"),
                file_size_formatted: json_str_field(body, "fileSizeFormatted"),
            },
        ),
    }
}

/// Whether the manifest left the artifact's size to be probed: it did
/// unless it carried both the size and its formatted rendering.
pub fn manifest_needs_probe(fields: &ManifestFields) -> (b: bool)
    ensures
        b == !(fields.file_size is Some && fields.file_size_formatted is Some),
{
    !(fields.file_size.is_some() && fields.file_size_formatted.is_some())
}

/// Resolve the manifest's fields into the full version description: a
/// missing version fails, missing optional fields default, and the size
/// falls back to what the probe reported.
pub fn build_version_info(
    fields: ManifestFields,
    base_url: &str,
    probed_size: u64,
    probed_label: String,
) -> (r: Result<VersionInfo, String>)
    ensures
        fields.version is None ==> (r matches Err(e) && e@ == "版本号字段缺失"@),
        fields.version matches Some(v) ==> (r matches Ok(info) && info.version == v
            && info.release_date@ == (match fields.release_date {
            Some(d) => d@,
            None => Seq::<char>::empty(),
        }) && info.changelog@ == (match fields.changelog {
            Some(c) => c@,
            None => "本次更新无代码变更"@,
        }) && info.download_url@ == spec_download_url(base_url@, v@) && (match (
            fields.file_size,
            fields.file_size_formatted,
        ) {
            (Some(n), Some(f)) => info.file_size == n && info.file_size_formatted == f,
            _ => info.file_size == probed_size && info.file_size_formatted == probed_label,
        }) && info.platform@ == "windows"@ && info.file_type@ == "exe"@),
{
    let version = match fields.version {
        Some(v) => v,
        None => {
            return Err(String::from_str("版本号字段缺失"));
        },
    };
    let release_date = match fields.release_date {
        Some(d) => d,
        None => String::new(),
    };
    let changelog = match fields.changelog {
        Some(c) => c,
        None => String::from_str("本次更新无代码变更"),
    };
    let download_url = download_url_for(base_url, version.as_str());
    let (file_size, file_size_formatted): (u64, String) = match (
        fields.file_size,
        fields.file_size_formatted,
    ) {
        (Some(n), Some(f)) => (n, f),
        _ => (probed_size, probed_label),
    };
    Ok(
        VersionInfo {
            version,
            release_date,
            changelog,
            download_url,
            file_size,
            file_size_formatted,
            platform: String::from_str("windows"),
            file_type: String::from_str("exe"),
        },
    )
}

/// Decide one update check: a fetched manifest yields an update exactly
/// when its version is newer than the running one, and a fetch failure is
/// captured in the result rather than propagated.
pub fn check_for_updates(current_version: String, fetch: Result<VersionInfo, String>) -> (r:
    UpdateCheckResult)
    ensures
        r.current_version == current_version,
        fetch matches Ok(info) ==> r.has_update == is_newer(current_version@, info.version@) && (
        r.latest_version matches Some(lv) && lv@ == info.version@) && r.version_info == (if is_newer(
            current_version@,
            info.version@,
        ) {
            Some(info)
        } else {
            None
        }) && r.error is None,
        fetch matches Err(e) ==> r.has_update == false && r.latest_version is None
            && r.version_info is None && r.error == Some(e),
{
    match fetch {
        Ok(info) => {
            let has_update = is_newer_version(current_version.as_str(), info.version.as_str());
            let latest = info.version.clone();
            if has_update {
                UpdateCheckResult {
                    has_update: true,
                    current_version,
                    latest_version: Some(latest),
                    version_info: Some(info),
                    error: None,
                }
            } else {
                UpdateCheckResult {
                    has_update: false,
                    current_version,
                    latest_version: Some(latest),
                    version_info: None,
                    error: None,
                }
            }
        },
        Err(e) => UpdateCheckResult {
            has_update: false,
            current_version,
            latest_version: None,
            version_info: None,
            error: Some(e),
        },
    }
}

} // verus!
