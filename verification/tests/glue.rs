use workhelper::auth::basic_auth_header;
use workhelper::config::get_webdav_config;
use workhelper::config::AppConfig;
use workhelper::config::WebDAVConfig;
use workhelper::gitlog::decode_console_bytes;
use workhelper::gitlog::git_output_to_result;
use workhelper::gitlog::strip_unc_prefix;
use workhelper::gitlog::trim_ascii;
use workhelper::lifecycle::lifecycle_step;
use workhelper::lifecycle::UpdateEvent;
use workhelper::lifecycle::UpdatePhase;
use workhelper::request::parse_http_method;
use workhelper::request::HttpMethod;

#[test]
fn basic_auth_encodes_the_credential_pair() {
    assert_eq!(basic_auth_header("user", "pass"), "Basic dXNlcjpwYXNz");
    assert_eq!(basic_auth_header("", ""), "Basic Og==");
}

#[test]
fn environment_config_wins_over_the_file() {
    let env = WebDAVConfig {
        url: "https://env/webdav".to_string(),
        username: "env-user".to_string(),
        password: "env-pass".to_string(),
        remote_path: "/env".to_string(),
        base_url: "https://env/releases".to_string(),
    };
    let chosen = get_webdav_config(Some(env), AppConfig::default());
    assert_eq!(chosen.url, "https://env/webdav");
    assert_eq!(chosen.username, "env-user");
}

#[test]
fn file_config_is_used_without_an_environment_one() {
    let file = AppConfig::default();
    let chosen = get_webdav_config(None, file);
    assert_eq!(chosen.url, "https://your-server.com/webdav");
    assert_eq!(chosen.remote_path, "/releases");
    assert_eq!(chosen.base_url, "https://your-server.com/releases");
}

#[test]
fn utf8_console_output_decodes_as_utf8() {
    assert_eq!(decode_console_bytes(b"hello world"), "hello world");
    assert_eq!(decode_console_bytes("中文".as_bytes()), "中文");
}

#[test]
fn invalid_utf8_console_output_falls_back_to_gbk() {
    // "中文" in the GBK encoding; not valid UTF-8.
    let gbk_bytes: [u8; 4] = [0xD6, 0xD0, 0xCE, 0xC4];
    assert_eq!(decode_console_bytes(&gbk_bytes), "中文");
}

#[test]
fn git_success_returns_decoded_stdout() {
    let r = git_output_to_result(true, b"commit abc\n", b"");
    assert_eq!(r.ok().as_deref(), Some("commit abc\n"));
}

#[test]
fn git_failure_wraps_trimmed_stderr() {
    let r = git_output_to_result(false, b"", b"  fatal: not a git repository \n");
    assert_eq!(r.err().as_deref(), Some("Git命令执行失败: fatal: not a git repository"));
}

#[test]
fn git_failure_without_stderr_uses_the_fixed_message() {
    let r = git_output_to_result(false, b"", b"");
    assert_eq!(r.err().as_deref(), Some("Git命令执行失败: 命令执行失败，但没有错误信息"));
}

#[test]
fn trimming_removes_ascii_whitespace_at_both_ends() {
    assert_eq!(trim_ascii("  spaced out \t\r\n"), "spaced out");
    assert_eq!(trim_ascii("untouched"), "untouched");
    assert_eq!(trim_ascii(" \n\t "), "");
    assert_eq!(trim_ascii(""), "");
}

#[test]
fn extended_length_prefix_is_stripped() {
    assert_eq!(strip_unc_prefix("\\\\?\\C:\\work\\repo"), "C:\\work\\repo");
    assert_eq!(strip_unc_prefix("C:\\work\\repo"), "C:\\work\\repo");
    assert_eq!(strip_unc_prefix("\\\\?"), "\\\\?");
}

#[test]
fn lifecycle_walks_the_happy_path_to_exit() {
    let mut phase = UpdatePhase::Idle;
    phase = lifecycle_step(phase, UpdateEvent::StartCheck);
    assert_eq!(phase, UpdatePhase::Checking);
    phase = lifecycle_step(phase, UpdateEvent::UpdateFound);
    assert_eq!(phase, UpdatePhase::Downloading);
    phase = lifecycle_step(phase, UpdateEvent::DownloadSucceeded);
    assert_eq!(phase, UpdatePhase::ReadyToInstall);
    phase = lifecycle_step(phase, UpdateEvent::StartInstall);
    assert_eq!(phase, UpdatePhase::Installing);
    phase = lifecycle_step(phase, UpdateEvent::SpawnSucceeded);
    assert_eq!(phase, UpdatePhase::Exited);
}

#[test]
fn exited_is_terminal() {
    for event in [
        UpdateEvent::StartCheck,
        UpdateEvent::UpdateFound,
        UpdateEvent::DownloadFailed,
        UpdateEvent::StartInstall,
        UpdateEvent::SpawnFailed,
    ] {
        assert_eq!(lifecycle_step(UpdatePhase::Exited, event), UpdatePhase::Exited);
    }
}

#[test]
fn failures_return_to_a_recoverable_phase() {
    assert_eq!(lifecycle_step(UpdatePhase::Checking, UpdateEvent::CheckFailed), UpdatePhase::Idle);
    assert_eq!(
        lifecycle_step(UpdatePhase::Downloading, UpdateEvent::DownloadFailed),
        UpdatePhase::Idle
    );
    assert_eq!(
        lifecycle_step(UpdatePhase::Installing, UpdateEvent::SpawnFailed),
        UpdatePhase::ReadyToInstall
    );
}

#[test]
fn unrelated_events_change_nothing() {
    assert_eq!(lifecycle_step(UpdatePhase::Idle, UpdateEvent::SpawnSucceeded), UpdatePhase::Idle);
    assert_eq!(
        lifecycle_step(UpdatePhase::Downloading, UpdateEvent::StartCheck),
        UpdatePhase::Downloading
    );
}

#[test]
fn http_methods_parse_case_insensitively() {
    assert_eq!(parse_http_method("GET"), Some(HttpMethod::Get));
    assert_eq!(parse_http_method("get"), Some(HttpMethod::Get));
    assert_eq!(parse_http_method("Post"), Some(HttpMethod::Post));
    assert_eq!(parse_http_method("put"), Some(HttpMethod::Put));
    assert_eq!(parse_http_method("DeLeTe"), Some(HttpMethod::Delete));
}

#[test]
fn unsupported_http_methods_are_rejected() {
    assert_eq!(parse_http_method("PATCH"), None);
    assert_eq!(parse_http_method("HEAD"), None);
    assert_eq!(parse_http_method(""), None);
    assert_eq!(parse_http_method("GETT"), None);
}
