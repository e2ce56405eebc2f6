use workhelper::download::cancelled_result;
use workhelper::download::completed_result;
use workhelper::download::failed_result;
use workhelper::download::DownloadSession;
use workhelper::download::DownloadStatus;

#[test]
fn chunk_increments_sum_to_the_total() {
    let mut session = DownloadSession::start(Some(100), 0);
    assert_eq!(session.total, 100);
    assert_eq!(session.downloaded, 0);
    let mut emitted_increments: u64 = 0;
    let mut last_downloaded: u64 = 0;
    for (chunk, elapsed) in [(30u64, 100u64), (30, 200), (40, 300)] {
        let progress = session.on_chunk(chunk, elapsed);
        emitted_increments += progress.downloaded - last_downloaded;
        last_downloaded = progress.downloaded;
    }
    assert_eq!(emitted_increments, 100);
    assert_eq!(session.downloaded, 100);
}

#[test]
fn percentage_reaches_one_hundred_exactly_at_the_total() {
    let mut session = DownloadSession::start(Some(100), 0);
    let p1 = session.on_chunk(30, 100);
    assert_eq!(p1.percent, 30);
    let p2 = session.on_chunk(30, 200);
    assert_eq!(p2.percent, 60);
    assert!(p2.percent < 100);
    let p3 = session.on_chunk(40, 300);
    assert_eq!(p3.percent, 100);
    assert_eq!(p3.downloaded, p3.total);
}

#[test]
fn missing_content_length_falls_back_to_the_expected_size() {
    let session = DownloadSession::start(None, 5555);
    assert_eq!(session.total, 5555);
}

#[test]
fn content_length_wins_over_the_expected_size() {
    let session = DownloadSession::start(Some(777), 5555);
    assert_eq!(session.total, 777);
}

#[test]
fn unknown_total_reports_zero_percent() {
    let mut session = DownloadSession::start(None, 0);
    let p = session.on_chunk(4096, 50);
    assert_eq!(p.percent, 0);
    assert_eq!(p.total, 0);
}

#[test]
fn progress_snapshot_formats_speed_and_remaining_time() {
    let mut session = DownloadSession::start(Some(100), 0);
    // 30 bytes over one second: 30 B/s, 70 bytes left, 2 whole seconds.
    let p = session.on_chunk(30, 1000);
    assert_eq!(p.speed, "30.0 B/s");
    assert_eq!(p.remaining_time, "2s");
}

#[test]
fn zero_elapsed_time_reports_zero_speed() {
    let mut session = DownloadSession::start(Some(100), 0);
    let p = session.on_chunk(10, 0);
    assert_eq!(p.speed, "0.0 B/s");
    assert_eq!(p.remaining_time, "0s");
}

#[test]
fn completed_result_carries_the_path_only() {
    let r = completed_result("C:\\updates\\setup.exe".to_string());
    assert!(matches!(r.status, DownloadStatus::Completed));
    assert_eq!(r.file_path.as_deref(), Some("C:\\updates\\setup.exe"));
    assert!(r.error.is_none());
}

#[test]
fn failed_result_carries_the_error_only() {
    let r = failed_result("下载失败，状态码: 404".to_string());
    assert!(matches!(r.status, DownloadStatus::Failed));
    assert!(r.file_path.is_none());
    assert_eq!(r.error.as_deref(), Some("下载失败，状态码: 404"));
}

#[test]
fn cancelled_result_carries_nothing() {
    let r = cancelled_result();
    assert!(matches!(r.status, DownloadStatus::Cancelled));
    assert!(r.file_path.is_none());
    assert!(r.error.is_none());
}
