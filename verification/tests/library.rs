use offline_video::download::{
    delete_download, encrypted_file_name, lists, load_index, validate_request,
    validate_with_scheme, with_record, without_record, DownloadError, DownloadRecord,
    DownloadRequest,
};
use offline_video::downloader::{
    milestone, percentage, total_bytes, Download, DownloadEvent, Input, Stage,
};
use offline_video::greeting::greet;
use offline_video::logging::{configured_level, init, new_max_level, LogLevel, TerminalLogger};
use offline_video::watch_progress::{
    apply_remote_watch_progress, apply_remote_watch_progress_at, delete_progress,
    load_index as load_progress, mark_watch_progress_synced, mark_watch_progress_synced_at,
    save_watch_progress, save_watch_progress_at, validate_video_id, ApplyRemoteProgressRequest,
    SaveWatchProgressRequest, Seconds, SyncState, WatchProgressError, WatchProgressRecord,
    WatchProgressSyncToken,
};
use offline_video::writer::EncryptedFileWriter;

fn download_request(video_id: &str, source_url: &str) -> DownloadRequest {
    DownloadRequest {
        video_id: video_id.to_string(),
        title: "Title".to_string(),
        description: "Description".to_string(),
        source_url: source_url.to_string(),
        size_bytes: 1000,
    }
}

fn download_record(video_id: &str, title: &str) -> DownloadRecord {
    DownloadRecord {
        video_id: video_id.to_string(),
        title: title.to_string(),
        description: String::new(),
        source_url: String::new(),
        size_bytes: 0,
        file_name: String::new(),
        downloaded_at: String::new(),
    }
}

fn titles(downloads: &[DownloadRecord]) -> Vec<&str> {
    downloads.iter().map(|record| record.title.as_str()).collect()
}

fn codes(outcome: Result<(), DownloadError>) -> (String, String) {
    match outcome {
        Ok(()) => ("OK".to_string(), String::new()),
        Err(error) => (error.code, error.message),
    }
}

#[test]
fn requests_with_a_web_address_are_accepted() {
    for url in ["http://example.com/a.mp4", "https://example.com/", "HTTPS://EXAMPLE.COM/x"] {
        assert!(validate_request(&download_request("video_1-A", url)).is_ok(), "{}", url);
    }
}

#[test]
fn requests_without_a_web_address_are_refused() {
    let invalid = "INVALID_URL".to_string();
    assert_eq!(
        codes(validate_request(&download_request("v", "not an address"))),
        (invalid.clone(), "影片網址格式不正確".to_string())
    );
    assert_eq!(
        codes(validate_request(&download_request("v", "ftp://example.com/a"))),
        (invalid.clone(), "只允許 HTTP 或 HTTPS 影片網址".to_string())
    );
    assert_eq!(
        codes(validate_with_scheme(&download_request("v", ""), Some("file"))),
        (invalid.clone(), "只允許 HTTP 或 HTTPS 影片網址".to_string())
    );
    assert_eq!(
        codes(validate_with_scheme(&download_request("v", ""), None)),
        (invalid, "影片網址格式不正確".to_string())
    );
    assert!(validate_with_scheme(&download_request("v", ""), Some("https")).is_ok());
}

#[test]
fn requests_without_a_name_are_refused() {
    for id in ["", "a b", "a/b", "影片", "a.b", "a:b"] {
        assert_eq!(
            codes(validate_request(&download_request(id, "not an address"))),
            ("INVALID_VIDEO_ID".to_string(), "影片 ID 格式不正確".to_string())
        );
    }
}

#[test]
fn the_index_lists_what_is_there() {
    let all = vec![download_record("a", "1"), download_record("b", "2"), download_record("c", "3")];
    assert_eq!(titles(&load_index(all.clone(), &vec![true, false, true])), vec!["1", "3"]);
    assert!(load_index(Vec::new(), &Vec::new()).is_empty());
    assert!(lists(&all, "b"));
    assert!(!lists(&all, "d"));
    let replaced = with_record(all.clone(), download_record("b", "4"));
    assert_eq!(titles(&replaced), vec!["1", "3", "4"]);
    assert_eq!(titles(&without_record(all, "c")), vec!["1", "2"]);
    assert_eq!(encrypted_file_name("video-1"), "offline-video-video-1.enc");
    assert_ne!(encrypted_file_name("video-1"), encrypted_file_name("video-2"));
}

#[test]
fn a_download_can_be_deleted_once() {
    let all = vec![download_record("a", "1"), download_record("b", "2"), download_record("a", "3")];
    let left = delete_download(all, "a").unwrap();
    assert_eq!(titles(&left), vec!["2"]);
    let error = delete_download(left, "a").err().unwrap();
    assert_eq!(error.code, "NOT_FOUND");
    assert_eq!(error.message, "找不到這支離線影片");
}

#[test]
fn progress_is_counted_in_percent() {
    assert_eq!(percentage(0, 1000), 0);
    assert_eq!(percentage(999, 1000), 99);
    assert_eq!(percentage(1000, 1000), 100);
    assert_eq!(percentage(5000, 1000), 100);
    assert_eq!(percentage(10, 0), 0);
    assert_eq!(percentage(u64::MAX, u64::MAX), 1);
    assert_eq!(total_bytes(Some(5), 7), Some(5));
    assert_eq!(total_bytes(Some(0), 7), Some(0));
    assert_eq!(total_bytes(None, 7), Some(7));
    assert_eq!(total_bytes(None, 0), None);
    assert!(milestone(0, None));
    assert!(!milestone(9, Some(0)));
    assert!(milestone(10, Some(9)));
    assert!(milestone(100, Some(100)));
}

fn tell(download: &mut Download, input: Input) {
    assert!(download.accepts(&input));
    download.step(input);
}

#[test]
fn a_download_goes_through_its_stages() {
    let mut download = Download::start(download_request("v", "https://example.com/v.mp4"));
    assert_eq!(download.stage(), Stage::Prepare);
    tell(&mut download, Input::Succeeded);
    assert_eq!(download.stage(), Stage::Connect);
    tell(&mut download, Input::Succeeded);
    assert_eq!(download.stage(), Stage::Request);
    tell(&mut download, Input::Responded { status: 200, content_length: Some(40) });
    assert_eq!(download.stage(), Stage::Announce);
    match download.event() {
        Some(DownloadEvent::Started { video_id, total_bytes }) => {
            assert_eq!(video_id, "v");
            assert_eq!(total_bytes, Some(40));
        }
        _ => panic!("the start is announced"),
    }
    tell(&mut download, Input::Succeeded);
    assert_eq!(download.stage(), Stage::CreateFile);
    tell(&mut download, Input::Succeeded);
    for (part, sum, percent, logged) in [(1, 1, 2, true), (2, 3, 7, false), (37, 40, 100, true)] {
        assert_eq!(download.stage(), Stage::Receive);
        tell(&mut download, Input::Received(part));
        assert_eq!(download.stage(), Stage::Store(part));
        tell(&mut download, Input::Succeeded);
        assert_eq!(download.stage(), Stage::Report);
        assert_eq!(download.progress(), Some(percent));
        assert_eq!(download.is_at_milestone(), logged);
        match download.event() {
            Some(DownloadEvent::Progress {
                video_id,
                downloaded_bytes,
                total_bytes,
                percentage,
            }) => {
                assert_eq!(video_id, "v");
                assert_eq!(downloaded_bytes, sum);
                assert_eq!(total_bytes, Some(40));
                assert_eq!(percentage, Some(percent));
            }
            _ => panic!("the progress is announced"),
        }
        tell(&mut download, Input::Succeeded);
    }
    tell(&mut download, Input::Ended);
    assert_eq!(download.stage(), Stage::Finish);
    tell(&mut download, Input::Finished(40));
    assert_eq!(download.stage(), Stage::Replace);
    tell(&mut download, Input::Succeeded);
    assert_eq!(download.stage(), Stage::Rename);
    tell(&mut download, Input::Renamed(1_700_000_000));
    assert_eq!(download.stage(), Stage::Record);
    assert_eq!(download.record().file_name, "offline-video-v.enc");
    tell(&mut download, Input::Succeeded);
    assert_eq!(download.stage(), Stage::Complete);
    assert!(matches!(download.event(), Some(DownloadEvent::Completed { .. })));
    tell(&mut download, Input::Succeeded);
    assert_eq!(download.stage(), Stage::Done);
    assert!(download.event().is_none());
    let record = download.outcome().unwrap();
    assert_eq!(record.video_id, "v");
    assert_eq!(record.title, "Title");
    assert_eq!(record.description, "Description");
    assert_eq!(record.source_url, "https://example.com/v.mp4");
    assert_eq!(record.size_bytes, 40);
    assert_eq!(record.downloaded_at, "1700000000");
}

fn download_at(stage: Stage) -> Download {
    let mut download = Download::begin(download_request("v", ""), Ok(()));
    while download.stage() != stage {
        let input = match download.stage() {
            Stage::Request => Input::Responded { status: 299, content_length: None },
            Stage::Receive => {
                if matches!(stage, Stage::Store(_) | Stage::Report) {
                    Input::Received(5)
                } else {
                    Input::Ended
                }
            }
            Stage::Finish => Input::Finished(0),
            Stage::Rename => Input::Renamed(1),
            _ => Input::Succeeded,
        };
        tell(&mut download, input);
    }
    download
}

#[test]
fn each_failure_has_its_code() {
    for (stage, code) in [
        (Stage::Prepare, "APP_DATA_ERROR"),
        (Stage::Connect, "HTTP_CLIENT_ERROR"),
        (Stage::Request, "NETWORK_ERROR"),
        (Stage::Announce, "CHANNEL_ERROR"),
        (Stage::CreateFile, "ENCRYPTION_ERROR"),
        (Stage::Receive, "NETWORK_ERROR"),
        (Stage::Store(5), "ENCRYPTION_ERROR"),
        (Stage::Report, "CHANNEL_ERROR"),
        (Stage::Finish, "ENCRYPTION_ERROR"),
        (Stage::Replace, "FILE_REPLACE_ERROR"),
        (Stage::Rename, "FILE_RENAME_ERROR"),
    ] {
        let mut download = download_at(stage);
        tell(&mut download, Input::Failed("report".to_string()));
        assert_eq!(download.stage(), Stage::Discard);
        match download.event() {
            Some(DownloadEvent::Failed { video_id, error }) => {
                assert_eq!(video_id, "v");
                assert_eq!(error.code, code);
                assert_eq!(error.message, "report");
            }
            _ => panic!("the failure is announced"),
        }
        tell(&mut download, Input::Failed("nobody listens".to_string()));
        assert_eq!(download.outcome().err().unwrap().code, code);
    }
}

#[test]
fn failures_at_the_end_are_returned() {
    let mut download = download_at(Stage::Complete);
    tell(&mut download, Input::Failed("closed".to_string()));
    assert_eq!(download.stage(), Stage::Done);
    assert_eq!(download.outcome().err().unwrap().code, "CHANNEL_ERROR");
    let mut download = download_at(Stage::Record);
    tell(&mut download, Input::Refused(DownloadError::new("INDEX_WRITE_ERROR", "full")));
    assert_eq!(download.stage(), Stage::Discard);
    tell(&mut download, Input::Succeeded);
    assert_eq!(download.outcome().err().unwrap().message, "full");
}

#[test]
fn a_server_can_refuse() {
    for status in [199, 300, 404, 500] {
        let mut download = download_at(Stage::Request);
        tell(&mut download, Input::Responded { status, content_length: Some(1) });
        tell(&mut download, Input::Succeeded);
        let error = download.outcome().err().unwrap();
        assert_eq!(error.code, "HTTP_ERROR");
        assert_eq!(error.message, format!("影片伺服器回應 HTTP {status}"));
    }
}

#[test]
fn a_refused_request_is_discarded_at_once() {
    let mut download = Download::start(download_request("v", "ftp://example.com/v.mp4"));
    assert_eq!(download.stage(), Stage::Discard);
    assert_eq!(download.request().video_id, "v");
    assert!(matches!(download.event(), Some(DownloadEvent::Failed { .. })));
    tell(&mut download, Input::Succeeded);
    assert_eq!(download.outcome().err().unwrap().code, "INVALID_URL");
}

#[test]
fn a_download_takes_only_what_fits() {
    let mut download = download_at(Stage::Receive);
    assert!(!download.accepts(&Input::Succeeded));
    assert!(!download.accepts(&Input::Finished(1)));
    tell(&mut download, Input::Received(u64::MAX));
    tell(&mut download, Input::Succeeded);
    assert_eq!(download.progress(), Some(100));
    tell(&mut download, Input::Succeeded);
    tell(&mut download, Input::Received(1));
    assert!(!download.accepts(&Input::Succeeded));
    assert!(download.accepts(&Input::Failed(String::new())));
}

fn seconds(value: f64) -> Seconds {
    Seconds { bits: value.to_bits() }
}

fn save_request(position: f64, duration: f64, completed: bool) -> SaveWatchProgressRequest {
    SaveWatchProgressRequest {
        video_id: "v".to_string(),
        position_seconds: seconds(position),
        duration_seconds: seconds(duration),
        completed,
    }
}

fn progress_record(video_id: &str, position: f64, updated_at: &str) -> WatchProgressRecord {
    WatchProgressRecord {
        video_id: video_id.to_string(),
        position_seconds: seconds(position),
        duration_seconds: seconds(100.0),
        completed: false,
        updated_at: updated_at.to_string(),
        sync_state: SyncState::Pending,
        last_synced_at: None,
    }
}

fn token(video_id: &str, updated_at: &str) -> WatchProgressSyncToken {
    WatchProgressSyncToken {
        video_id: video_id.to_string(),
        updated_at: updated_at.to_string(),
    }
}

fn position(record: &WatchProgressRecord) -> f64 {
    f64::from_bits(record.position_seconds.bits)
}

fn saved_at(request: SaveWatchProgressRequest) -> Result<WatchProgressRecord, WatchProgressError> {
    save_watch_progress_at(request, "T".to_string(), Ok(Vec::new())).map(|(record, _)| record)
}

#[test]
fn positions_are_kept_inside_the_video() {
    let values = [
        0.0, -0.0, 1.0e-320, 0.5, 1.0, 99.999, 100.0, 100.001, 5.0e300, f64::MAX, f64::MIN_POSITIVE,
    ];
    for position_value in values {
        for duration in [1.0e-320, 0.25, 100.0, f64::MAX] {
            let record = saved_at(save_request(position_value, duration, false)).unwrap();
            assert_eq!(position(&record), position_value.min(duration).max(0.0));
            assert!(position(&record) >= 0.0 && position(&record) <= duration);
            let record = saved_at(save_request(position_value, duration, true)).unwrap();
            assert_eq!(position(&record), duration);
            assert_eq!(record.duration_seconds, seconds(duration));
            assert!(record.completed);
        }
    }
}

#[test]
fn impossible_progress_is_refused() {
    for (position_value, duration) in [
        (f64::NAN, 1.0),
        (1.0, f64::NAN),
        (f64::INFINITY, 1.0),
        (f64::NEG_INFINITY, 1.0),
        (1.0, f64::INFINITY),
        (-1.0, 1.0),
        (-1.0e-320, 1.0),
        (1.0, 0.0),
        (1.0, -0.0),
        (1.0, -1.0),
    ] {
        let error = saved_at(save_request(position_value, duration, false)).err().unwrap();
        assert_eq!(error.code, "INVALID_PROGRESS");
        assert_eq!(error.message, "影片播放進度格式不正確");
    }
    let mut request = save_request(f64::NAN, 1.0, false);
    request.video_id = "a b".to_string();
    let error = saved_at(request).err().unwrap();
    assert_eq!(error.code, "INVALID_VIDEO_ID");
    assert_eq!(error.message, "影片 ID 格式不正確");
    assert!(validate_video_id("a-b_C9").is_ok());
    assert!(validate_video_id("").is_err());
}

#[test]
fn saved_progress_replaces_the_old() {
    let known = vec![progress_record("v", 1.0, "1"), progress_record("w", 2.0, "2")];
    let (record, all) =
        save_watch_progress_at(save_request(7.0, 100.0, false), "T".to_string(), Ok(known)).unwrap();
    assert_eq!(record.updated_at, "T");
    assert_eq!(record.sync_state, SyncState::Pending);
    assert!(record.last_synced_at.is_none());
    assert_eq!(all.len(), 2);
    assert_eq!(all[0].video_id, "w");
    assert_eq!(all[1].video_id, "v");
    assert_eq!(position(&all[1]), 7.0);
    let broken = Err(WatchProgressError::new("INDEX_READ_ERROR", "denied"));
    let error = save_watch_progress_at(save_request(7.0, 100.0, false), "T".to_string(), broken)
        .err()
        .unwrap();
    assert_eq!(error.code, "INDEX_READ_ERROR");
}

#[test]
fn saving_notes_the_time() {
    let (record, all) = save_watch_progress(save_request(7.0, 100.0, false), Ok(Vec::new())).unwrap();
    assert_eq!(all.len(), 1);
    assert!(record.updated_at.starts_with("20"));
    assert!(record.updated_at.ends_with("+00:00"));
}

#[test]
fn what_was_sent_is_marked() {
    let known = vec![
        progress_record("a", 1.0, "1"),
        progress_record("b", 2.0, "2"),
        progress_record("c", 3.0, "3"),
    ];
    let items = vec![token("a", "0"), token("b", "other"), token("a", "1"), token("b", "old")];
    let all = mark_watch_progress_synced_at(items, "T".to_string(), Ok(known)).unwrap();
    assert_eq!(all.len(), 3);
    assert_eq!(all[0].sync_state, SyncState::Synced);
    assert_eq!(all[0].last_synced_at.as_deref(), Some("T"));
    assert_eq!(all[0].updated_at, "1");
    assert_eq!(all[1].sync_state, SyncState::Pending);
    assert_eq!(all[2].sync_state, SyncState::Pending);
    let known = vec![progress_record("a", 1.0, "1")];
    let all = mark_watch_progress_synced(vec![token("a", "1")], Ok(known)).unwrap();
    assert!(all[0].last_synced_at.as_deref().unwrap().ends_with("+00:00"));
    let broken = Err(WatchProgressError::new("INDEX_READ_ERROR", "denied"));
    assert!(mark_watch_progress_synced(Vec::new(), broken).is_err());
}

#[test]
fn remote_records_do_not_undo_local_changes() {
    let known = vec![progress_record("a", 1.0, "1"), progress_record("b", 2.0, "2")];
    let request = ApplyRemoteProgressRequest {
        records: vec![
            progress_record("a", 50.0, "5"),
            progress_record("b", 60.0, "6"),
            progress_record("c", 70.0, "7"),
        ],
        sent: vec![token("a", "1"), token("b", "1")],
    };
    let all = apply_remote_watch_progress_at(request, "T".to_string(), Ok(known)).unwrap();
    assert_eq!(all.len(), 3);
    assert_eq!(all[0].video_id, "b");
    assert_eq!(position(&all[0]), 2.0);
    assert_eq!(all[0].sync_state, SyncState::Pending);
    assert_eq!(all[1].video_id, "a");
    assert_eq!(position(&all[1]), 50.0);
    assert_eq!(all[1].updated_at, "5");
    assert_eq!(all[1].sync_state, SyncState::Synced);
    assert_eq!(all[1].last_synced_at.as_deref(), Some("T"));
    assert_eq!(all[2].video_id, "c");
    assert_eq!(all[2].sync_state, SyncState::Synced);
}

#[test]
fn remote_records_need_a_name() {
    let request = ApplyRemoteProgressRequest {
        records: vec![progress_record("a", 1.0, "1"), progress_record("", 1.0, "1")],
        sent: Vec::new(),
    };
    let error = apply_remote_watch_progress(request, Ok(Vec::new())).err().unwrap();
    assert_eq!(error.code, "INVALID_VIDEO_ID");
}

#[test]
fn deleted_progress_is_forgotten() {
    let known = vec![progress_record("a", 1.0, "1"), progress_record("b", 2.0, "2")];
    let left = delete_progress("a", Ok(known.clone())).unwrap().unwrap();
    assert_eq!(left.len(), 1);
    assert_eq!(left[0].video_id, "b");
    assert!(delete_progress("c", Ok(known.clone())).unwrap().is_none());
    assert_eq!(delete_progress("c d", Ok(known)).err().unwrap().code, "INVALID_VIDEO_ID");
    let broken = Err(WatchProgressError::new("INDEX_READ_ERROR", "denied"));
    assert_eq!(delete_progress("a", broken).err().unwrap().code, "INDEX_READ_ERROR");
}

#[test]
fn files_of_another_version_are_refused() {
    assert_eq!(load_progress(1, vec![progress_record("a", 1.0, "1")]).unwrap().len(), 1);
    let error = load_progress(2, Vec::new()).err().unwrap();
    assert_eq!(error.code, "INDEX_VERSION_ERROR");
    assert_eq!(error.message, "觀看進度檔案版本不支援");
}

#[test]
fn the_level_of_the_log_is_configured() {
    for (setting, level) in [
        ("trace", LogLevel::Trace),
        ("debug", LogLevel::Debug),
        ("warn", LogLevel::Warn),
        ("error", LogLevel::Error),
        ("off", LogLevel::Off),
        ("info", LogLevel::Info),
        ("Trace", LogLevel::Info),
        ("", LogLevel::Info),
        ("  debug\n", LogLevel::Debug),
        ("\u{3000}warn\u{a0}", LogLevel::Warn),
        (" \t ", LogLevel::Info),
        ("de bug", LogLevel::Info),
    ] {
        assert_eq!(configured_level(Some(setting)), level, "{}", setting);
    }
    assert_eq!(configured_level(None), LogLevel::Info);
}

#[test]
fn the_logger_is_set_up_once() {
    let mut logger = None;
    assert_eq!(init(&mut logger, Some("warn")), LogLevel::Warn);
    assert_eq!(logger, Some(TerminalLogger { level: LogLevel::Warn }));
    assert_eq!(init(&mut logger, Some("trace")), LogLevel::Trace);
    assert_eq!(logger, Some(TerminalLogger { level: LogLevel::Warn }));
    assert_eq!(new_max_level(LogLevel::Warn, true), Some(LogLevel::Warn));
    assert_eq!(new_max_level(LogLevel::Trace, false), None);
}

#[test]
fn lines_of_the_log_have_one_form() {
    let logger = TerminalLogger { level: LogLevel::Info };
    assert!(logger.enabled(LogLevel::Error));
    assert!(!logger.enabled(LogLevel::Debug));
    assert_eq!(
        logger.log(12345678901234567890123, LogLevel::Warn, "app", "hello").unwrap(),
        "ts_ms=12345678901234567890123 level=WARN module=app message=hello"
    );
    assert!(logger.log(1, LogLevel::Trace, "app", "hello").is_none());
    let silent = TerminalLogger { level: LogLevel::Off };
    assert!(!silent.enabled(LogLevel::Error));
}

#[test]
fn everybody_is_greeted() {
    assert_eq!(greet("世界"), "Hello, 世界! You've been greeted from Rust!");
}

#[test]
fn the_recorded_size_is_what_came() {
    let (mut writer, mut file) = EncryptedFileWriter::create_with_key("v", &[3_u8; 32]).unwrap();
    let mut download = download_at(Stage::Receive);
    let parts: [&[u8]; 3] = [b"abc", b"", b"defgh"];
    for part in parts {
        tell(&mut download, Input::Received(part.len() as u64));
        writer.write_chunk(part, &mut file).unwrap();
        tell(&mut download, Input::Succeeded);
        tell(&mut download, Input::Succeeded);
    }
    tell(&mut download, Input::Ended);
    tell(&mut download, Input::Finished(writer.finish().unwrap().written));
    tell(&mut download, Input::Succeeded);
    tell(&mut download, Input::Renamed(1));
    assert_eq!(download.record().size_bytes, 8);
}
