use std::sync::atomic::{AtomicUsize, Ordering};
use std::sync::Arc;

use offline_video::cache::{CacheState, ChunkCache, Lookup, CACHE_CAPACITY_BYTES};
use offline_video::download::{DownloadError, DownloadRecord};
use offline_video::error::{CryptoError, CryptoErrorKind};
use offline_video::header::CHUNK_SIZE;
use offline_video::playback::{
    close_playback, find_download, handle_request, handle_without_state, key_error, open_playback,
    open_session, response_for_range, session_id, session_state_error, stream_failure, OpenedVideo,
    PlaybackRequest, Reply, RequestMethod,
};
use offline_video::ranges::{parse_range, ByteRange};
use offline_video::reader::EncryptedFileReader;
use offline_video::response::{error_response, range_head, HttpResponse, ResponseHead};
use offline_video::routes::{parse_path, path_shape, session_id_from_bytes, PlaybackServer};
use offline_video::secret::SecretBytes;
use offline_video::sessions::{PlaybackSession, PlaybackState, SESSION_IDLE_TTL};
use offline_video::streaming::RangeStream;
use offline_video::writer::EncryptedFileWriter;

fn fields(head: &ResponseHead) -> Vec<(&str, &str)> {
    head.fields.iter().map(|field| (field.name.as_str(), field.value.as_str())).collect()
}

fn body(response: &HttpResponse) -> String {
    String::from_utf8(response.body.clone()).unwrap()
}

fn request(method: RequestMethod, path: &str, range: Option<&str>) -> PlaybackRequest {
    PlaybackRequest { method, path: path.to_string(), range: range.map(|text| text.to_string()) }
}

fn responded<H>(reply: Reply<H>) -> HttpResponse {
    match reply {
        Reply::Respond(response) => response,
        Reply::Stream { .. } => panic!("a response was expected"),
    }
}

fn record(video_id: &str) -> DownloadRecord {
    DownloadRecord {
        video_id: video_id.to_string(),
        title: String::new(),
        description: String::new(),
        source_url: String::new(),
        size_bytes: 0,
        file_name: String::new(),
        downloaded_at: String::new(),
    }
}

#[test]
fn ranges_support_full_and_partial_requests() {
    assert_eq!(
        parse_range(None, 10 * 1024 * 1024),
        Ok(ByteRange {
            start: 0,
            end: 10 * 1024 * 1024,
            partial: false,
        })
    );
    assert_eq!(
        parse_range(Some("bytes=2-7"), 100),
        Ok(ByteRange {
            start: 2,
            end: 8,
            partial: true,
        })
    );
}

#[test]
fn invalid_multi_ranges_are_rejected() {
    assert!(parse_range(Some("bytes=0-1,2-3"), 100).is_err());
    assert!(parse_range(Some("bytes=10-9"), 100).is_err());
}

#[test]
fn open_and_suffix_ranges_are_resolved() {
    let partial = |start: u64, end: u64| Ok(ByteRange { start, end, partial: true });
    assert_eq!(parse_range(Some("bytes=10-"), 100), partial(10, 100));
    assert_eq!(parse_range(Some("bytes=-10"), 100), partial(90, 100));
    assert_eq!(parse_range(Some("bytes=-1000"), 100), partial(0, 100));
    assert_eq!(parse_range(Some("bytes=99-99"), 100), partial(99, 100));
    assert_eq!(parse_range(Some("bytes=0-18446744073709551615"), 100), partial(0, 100));
    assert_eq!(parse_range(Some("bytes=+2-+7"), 100), partial(2, 8));
    assert_eq!(parse_range(Some("bytes=00-007"), 100), partial(0, 8));
}

#[test]
fn malformed_ranges_are_rejected() {
    for value in [
        "", "bytes", "bytes=", "bytes=-", "bytes=-0", "bytes=100-", "bytes=a-b", "bytes=1-2-3",
        "bytes=1", "items=0-1", "bytes= 0-1", "bytes=0-18446744073709551616", "Bytes=0-1",
        "bytes=--1", "bytes=+-1",
    ] {
        assert_eq!(parse_range(Some(value), 100), Err(()), "{}", value);
    }
    assert_eq!(parse_range(None, 0), Err(()));
    assert_eq!(parse_range(Some("bytes=0-0"), 0), Err(()));
}

#[test]
fn playback_path_accepts_prefixed_session_route() {
    let session_id = "a".repeat(64);
    let path = format!("/playback/{session_id}/video.mp4");

    assert_eq!(parse_path(&path), Some(session_id));
}

#[test]
fn other_paths_are_rejected() {
    let id = "0123456789abcdefABCDEF0123456789abcdefABCDEF0123456789abcdefABCD";
    assert_eq!(id.len(), 64);
    assert_eq!(parse_path(&format!("playback/{id}/video.mp4")), Some(id.to_string()));
    assert_eq!(parse_path(&format!("///playback/{id}/video.mp4")), Some(id.to_string()));
    for path in [
        String::new(),
        "/".to_string(),
        format!("/playback/{id}"),
        format!("/playback/{id}/video.mp4/"),
        format!("/playback/{id}/video.mp3"),
        format!("/other/{id}/video.mp4"),
        format!("/playback//{id}/video.mp4"),
        format!("/playback/{}/video.mp4", &id[1..]),
        format!("/playback/g{}/video.mp4", &id[1..]),
        format!("/playback/é{}/video.mp4", &id[2..]),
    ] {
        assert_eq!(parse_path(&path), None, "{}", path);
    }
}

#[test]
fn the_shape_of_a_path_is_described() {
    assert_eq!(
        path_shape("/playback/abé/video.mp4/x"),
        "segment_count=4 prefix_ok=true token_length=4 token_hex=false filename_ok=true \
         exact_shape=false"
    );
    assert_eq!(
        path_shape("/playback/0aF/video.mp4"),
        "segment_count=3 prefix_ok=true token_length=3 token_hex=true filename_ok=true \
         exact_shape=true"
    );
    assert_eq!(
        path_shape("/"),
        "segment_count=1 prefix_ok=false token_length=0 token_hex=false filename_ok=false \
         exact_shape=false"
    );
}

#[test]
fn session_names_are_hexadecimal() {
    let mut bytes = [0_u8; 32];
    bytes[0] = 0xa5;
    bytes[31] = 0x0f;
    let name = session_id_from_bytes(&bytes);
    assert_eq!(name, format!("a5{}0f", "00".repeat(30)));
    let name = session_id().unwrap();
    assert_eq!(name.len(), 64);
    assert!(name.chars().all(|c| c.is_ascii_digit() || ('a'..='f').contains(&c)));
    assert_ne!(name, session_id().unwrap());
    let server = PlaybackServer { port: 4321 };
    let url = server.url_for(&name);
    assert_eq!(url, format!("http://127.0.0.1:4321/playback/{name}/video.mp4"));
    assert_eq!(parse_path(&url["http://127.0.0.1:4321".len()..]), Some(name));
}

#[test]
fn cache_reuses_a_verified_chunk() {
    let mut cache = ChunkCache::default();
    let calls = AtomicUsize::new(0);
    let first = cache
        .get_or_load(0, || {
            calls.fetch_add(1, Ordering::SeqCst);
            Ok(SecretBytes::new(vec![1_u8, 2_u8, 3_u8]))
        })
        .unwrap();
    let second = cache
        .get_or_load(0, || {
            calls.fetch_add(1, Ordering::SeqCst);
            Ok(SecretBytes::new(vec![9_u8]))
        })
        .unwrap();
    assert!(!first.1);
    assert!(second.1);
    assert_eq!(calls.load(Ordering::SeqCst), 1);
    assert_eq!(second.0.as_slice(), &[1_u8, 2_u8, 3_u8]);
}

#[test]
fn a_cached_chunk_is_not_loaded_again() {
    let mut cache = ChunkCache::default();
    cache.get_or_load(3, || Ok(SecretBytes::new(vec![1_u8]))).unwrap();
    for _ in 0..3 {
        let (chunk, hit) = cache.get_or_load(3, || panic!("the chunk is cached")).unwrap();
        assert!(hit);
        assert_eq!(chunk.as_slice(), &[1_u8]);
    }
}

#[test]
fn a_chunk_that_could_not_be_loaded_is_tried_again() {
    let mut cache = ChunkCache::default();
    let failed = cache.get_or_load(4, || Err(CryptoError::new("broken")));
    assert_eq!(failed.err().unwrap().message, "broken");
    let loaded = cache.get_or_load(4, || Ok(SecretBytes::new(vec![7_u8]))).unwrap();
    assert!(!loaded.1);
    assert_eq!(loaded.0.as_slice(), &[7_u8]);
}

#[test]
fn the_least_recently_used_chunk_leaves_the_cache() {
    let mut cache = ChunkCache::default();
    let full = CHUNK_SIZE as usize;
    assert_eq!(CACHE_CAPACITY_BYTES, full * 8);
    let load = |cache: &mut ChunkCache, index: u64| -> bool {
        cache.get_or_load(index, || Ok(SecretBytes::new(vec![index as u8; full]))).unwrap().1
    };
    for index in 0..8 {
        assert!(!load(&mut cache, index));
    }
    assert!(load(&mut cache, 0));
    assert!(!load(&mut cache, 8));
    assert!(load(&mut cache, 0));
    assert!(!load(&mut cache, 1));
    assert!(load(&mut cache, 3));
}

#[test]
fn a_chunk_that_does_not_fit_is_not_kept() {
    let mut cache = ChunkCache::default();
    let small = cache.get_or_load(0, || Ok(SecretBytes::new(vec![1_u8]))).unwrap();
    assert_eq!(small.0.len(), 1);
    let huge = vec![2_u8; CACHE_CAPACITY_BYTES + 1];
    let loaded = cache.get_or_load(1, || Ok(SecretBytes::new(huge))).unwrap();
    assert_eq!(loaded.0.len(), CACHE_CAPACITY_BYTES + 1);
    assert!(!cache.get_or_load(1, || Ok(SecretBytes::new(vec![3_u8]))).unwrap().1);
    assert!(!cache.get_or_load(0, || Ok(SecretBytes::new(vec![1_u8]))).unwrap().1);
}

#[test]
fn a_chunk_is_loaded_by_one_caller_at_a_time() {
    let mut state = CacheState::default();
    assert!(matches!(state.lookup(5), Lookup::Load));
    assert!(matches!(state.lookup(5), Lookup::Wait));
    assert!(matches!(state.lookup(6), Lookup::Load));
    let shared = state.complete(5, Ok(SecretBytes::new(vec![1_u8, 2_u8]))).unwrap();
    assert_eq!(shared.as_slice(), &[1_u8, 2_u8]);
    match state.lookup(5) {
        Lookup::Hit(chunk) => assert!(Arc::ptr_eq(&chunk, &shared)),
        _ => panic!("the chunk is cached"),
    }
    assert!(state.complete(6, Err(CryptoError::new("broken"))).is_err());
    assert!(matches!(state.lookup(6), Lookup::Load));
}

#[test]
fn a_chunk_that_is_loaded_again_replaces_the_old_one() {
    let mut state = CacheState::default();
    state.complete(1, Ok(SecretBytes::new(vec![1_u8; 10]))).unwrap();
    state.complete(1, Ok(SecretBytes::new(vec![2_u8; 4]))).unwrap();
    match state.lookup(1) {
        Lookup::Hit(chunk) => assert_eq!(chunk.as_slice(), &[2_u8; 4]),
        _ => panic!("the chunk is cached"),
    }
}

#[test]
fn sessions_are_opened_used_and_closed() {
    let mut state: PlaybackState<u32> = PlaybackState::default();
    let server = PlaybackServer { port: 80 };
    let name = "b".repeat(64);
    let video = OpenedVideo { original_size: 10, handle: 7 };
    let info = open_session(&mut state, &server, name.clone(), "video-1", video, 100);
    assert_eq!(info.session_id, name);
    assert_eq!(info.url, format!("http://127.0.0.1:80/playback/{name}/video.mp4"));
    let session = state.session(&name, 200).unwrap();
    assert_eq!(session.video_id, "video-1");
    assert_eq!(session.original_size, 10);
    assert_eq!(session.last_access, 200);
    assert_eq!(session.handle, 7);
    assert!(state.session("other", 300).is_none());
    assert!(close_playback(&mut state, &name));
    assert!(!close_playback(&mut state, &name));
    assert!(state.session(&name, 300).is_none());
}

#[test]
fn a_session_of_the_same_name_is_replaced() {
    let mut state: PlaybackState<u32> = PlaybackState::default();
    for handle in [1, 2] {
        let session = PlaybackSession {
            video_id: "v".to_string(),
            original_size: 1,
            last_access: 0,
            handle,
        };
        state.insert("s".to_string(), session);
    }
    assert_eq!(state.session("s", 0).unwrap().handle, 2);
    assert!(state.remove("s"));
    assert!(state.session("s", 0).is_none());
}

#[test]
fn idle_sessions_are_cleaned_up() {
    let mut state: PlaybackState<u32> = PlaybackState::default();
    for (name, last_access) in [("old", 0), ("young", 1), ("later", SESSION_IDLE_TTL + 50)] {
        let session = PlaybackSession {
            video_id: "v".to_string(),
            original_size: 1,
            last_access,
            handle: 0,
        };
        state.insert(name.to_string(), session);
    }
    assert_eq!(SESSION_IDLE_TTL, 300_000_000_000);
    state.cleanup_idle_sessions(SESSION_IDLE_TTL);
    assert!(!state.remove("old"));
    assert!(state.remove("young"));
    assert!(state.remove("later"));
}

#[test]
fn opening_reports_why_it_failed() {
    let mut state: PlaybackState<u32> = PlaybackState::default();
    let server = PlaybackServer { port: 80 };
    let video = OpenedVideo { original_size: 10, handle: 7 };
    let info = open_playback(&mut state, &server, "video-1", Ok(video), 5).unwrap();
    assert_eq!(state.session(&info.session_id, 6).unwrap().handle, 7);
    let failure: Result<OpenedVideo<u32>, CryptoError> = Err(CryptoError::new("no key"));
    let error = open_playback(&mut state, &server, "video-1", failure, 5).err().unwrap();
    assert_eq!(error.code, "PLAYBACK_KEY_ERROR");
    assert_eq!(error.message, "no key");
    assert_eq!(key_error(&CryptoError::new("x")).code, "PLAYBACK_KEY_ERROR");
    let error = session_state_error();
    assert_eq!(error.code, "SESSION_ERROR");
    assert_eq!(error.message, "播放工作階段狀態無法使用");
}

#[test]
fn only_downloaded_videos_are_played() {
    assert!(find_download(Ok(vec![record("a"), record("b")]), "b").is_ok());
    let error = find_download(Ok(vec![record("a")]), "b").err().unwrap();
    assert_eq!(error.code, "NOT_FOUND");
    assert_eq!(error.message, "找不到這支已加密的離線影片");
    let reason = DownloadError::new("INDEX_READ_ERROR", "denied");
    let error = find_download(Err(reason), "b").err().unwrap();
    assert_eq!(error.code, "INDEX_READ_ERROR");
    assert_eq!(error.message, "denied");
}

#[test]
fn requests_are_answered() {
    let mut state: PlaybackState<u32> = PlaybackState::default();
    let name = "c".repeat(64);
    let path = format!("/playback/{name}/video.mp4");
    let session = PlaybackSession {
        video_id: "v".to_string(),
        original_size: 100,
        last_access: 0,
        handle: 9,
    };
    state.insert(name.clone(), session);

    let response =
        responded(handle_request(&mut state, &request(RequestMethod::Other, &path, None), 1));
    assert_eq!(response.head.status, 405);
    assert_eq!(body(&response), "只支援 GET 或 HEAD");
    let response =
        responded(handle_request(&mut state, &request(RequestMethod::Get, "/x", None), 1));
    assert_eq!(response.head.status, 404);
    assert_eq!(body(&response), "播放工作階段不存在");
    let missing = format!("/playback/{}/video.mp4", "d".repeat(64));
    let response =
        responded(handle_request(&mut state, &request(RequestMethod::Get, &missing, None), 1));
    assert_eq!(response.head.status, 404);
    let response = responded(handle_request(
        &mut state,
        &request(RequestMethod::Get, &path, Some("bytes=100-")),
        1,
    ));
    assert_eq!(response.head.status, 416);
    assert_eq!(
        fields(&response.head),
        vec![("content-range", "bytes */100"), ("cache-control", "no-store")]
    );
    assert!(response.body.is_empty());

    let response =
        responded(handle_request(&mut state, &request(RequestMethod::Head, &path, None), 1));
    assert_eq!(response.head.status, 200);
    assert_eq!(
        fields(&response.head),
        vec![
            ("content-type", "video/mp4"),
            ("content-length", "100"),
            ("accept-ranges", "bytes"),
            ("cache-control", "no-store, no-cache, must-revalidate"),
        ]
    );
    assert!(response.body.is_empty());

    match handle_request(&mut state, &request(RequestMethod::Get, &path, Some("bytes=2-7")), 42) {
        Reply::Stream { handle, range, head } => {
            assert_eq!(handle, 9);
            assert_eq!(range, ByteRange { start: 2, end: 8, partial: true });
            assert_eq!(head.status, 206);
            assert_eq!(fields(&head)[1], ("content-length", "6"));
            assert_eq!(fields(&head)[4], ("content-range", "bytes 2-7/100"));
        }
        Reply::Respond(_) => panic!("a stream was expected"),
    }
    state.cleanup_idle_sessions(SESSION_IDLE_TTL + 41);
    assert!(state.remove(&name));
}

#[test]
fn requests_are_answered_without_sessions() {
    let path = format!("/playback/{}/video.mp4", "c".repeat(64));
    let response = handle_without_state(&request(RequestMethod::Get, &path, None));
    assert_eq!(response.head.status, 500);
    assert_eq!(body(&response), "播放工作階段狀態無法使用");
    let response = handle_without_state(&request(RequestMethod::Other, &path, None));
    assert_eq!(response.head.status, 405);
    let response = handle_without_state(&request(RequestMethod::Get, "/", None));
    assert_eq!(response.head.status, 404);
}

#[test]
fn errors_of_the_file_become_responses() {
    let range = ByteRange { start: 0, end: 1, partial: false };
    let expected = [
        (CryptoErrorKind::NotFound, 404, "影片檔案不存在"),
        (CryptoErrorKind::KeyUnavailable, 403, "無法取得影片解密金鑰"),
        (CryptoErrorKind::InvalidFormat, 422, "影片加密檔案驗證失敗"),
        (CryptoErrorKind::Corrupt, 422, "影片加密檔案驗證失敗"),
        (CryptoErrorKind::Internal, 500, "影片無法讀取"),
    ];
    for (kind, status, message) in expected {
        let failure = CryptoError::with_kind(kind, "secret detail");
        let response = response_for_range(range_head(range, 1), Some(failure)).err().unwrap();
        assert_eq!(response.head.status, status);
        assert_eq!(body(&response), message);
        assert_eq!(
            fields(&response.head),
            vec![("content-type", "text/plain; charset=utf-8"), ("cache-control", "no-store")]
        );
    }
    assert_eq!(response_for_range(range_head(range, 1), None).unwrap().status, 200);
    assert_eq!(stream_failure().head.status, 500);
    assert_eq!(body(&stream_failure()), "stream thread failed");
    assert_eq!(error_response(404, "").body.len(), 0);
}

#[test]
fn a_range_is_sent_chunk_by_chunk() {
    let size = CHUNK_SIZE as usize * 2 + 100;
    let video: Vec<u8> = (0..size).map(|index| (index % 253) as u8).collect();
    let chunks: Vec<&[u8]> = video.chunks(CHUNK_SIZE as usize).collect();
    for (start, end) in [
        (0, size as u64),
        (5, 6),
        (CHUNK_SIZE - 1, CHUNK_SIZE + 1),
        (CHUNK_SIZE, CHUNK_SIZE * 2),
        (CHUNK_SIZE * 2, size as u64),
    ] {
        let mut stream = RangeStream::new(ByteRange { start, end, partial: true });
        let mut sent = Vec::new();
        while let Some(index) = stream.next_chunk() {
            let chunk = chunks[index as usize];
            assert!(stream.accepts(chunk));
            sent.extend_from_slice(&stream.send(chunk));
        }
        assert!(!stream.accepts(&[]));
        assert_eq!(sent, &video[start as usize..end as usize]);
    }
}

#[test]
fn a_chunk_that_is_too_short_is_not_sent() {
    let stream = RangeStream::new(ByteRange { start: 10, end: 20, partial: true });
    assert!(!stream.accepts(&[0_u8; 9]));
    assert!(stream.accepts(&[0_u8; 10]));
}

#[test]
fn a_player_gets_what_was_written() {
    let size = CHUNK_SIZE as usize + 500;
    let video: Vec<u8> = (0..size).map(|index| (index % 241) as u8).collect();
    let kek = [1_u8; 32];
    let (mut writer, mut file) = EncryptedFileWriter::create_with_key("v", &kek).unwrap();
    writer.write_chunk(&video, &mut file).unwrap();
    let finished = writer.finish().unwrap();
    file.extend_from_slice(&finished.tail);
    file[13..21].copy_from_slice(&finished.size_field);

    let reader = EncryptedFileReader::open_with_key(&file, "", "v", &kek).unwrap();
    let mut state: PlaybackState<u32> = PlaybackState::default();
    let server = PlaybackServer { port: 8080 };
    let opened = OpenedVideo { original_size: reader.original_size(), handle: 0 };
    let info = open_playback(&mut state, &server, "v", Ok(opened), 0).unwrap();
    let path = info.url.replace("http://127.0.0.1:8080", "");
    let wanted = format!("bytes={}-{}", CHUNK_SIZE - 3, CHUNK_SIZE + 2);
    let asked = request(RequestMethod::Get, &path, Some(&wanted));
    let (range, head) = match handle_request(&mut state, &asked, 1) {
        Reply::Stream { range, head, .. } => (range, head),
        Reply::Respond(_) => panic!("a stream was expected"),
    };
    assert_eq!(fields(&head)[1], ("content-length", "6"));
    let mut cache = ChunkCache::default();
    let mut stream = RangeStream::new(range);
    let mut sent = Vec::new();
    while let Some(index) = stream.next_chunk() {
        let (chunk, _) =
            cache.get_or_load(index, || reader.read_chunk(&file, "", index)).unwrap();
        sent.extend_from_slice(&stream.send(chunk.as_slice()));
    }
    let start = CHUNK_SIZE as usize - 3;
    assert_eq!(sent, &video[start..start + 6]);
}

#[test]
fn different_bytes_make_different_names() {
    let mut bytes = [0_u8; 32];
    let first = session_id_from_bytes(&bytes);
    bytes[7] = 0x10;
    let second = session_id_from_bytes(&bytes);
    bytes[7] = 0x01;
    assert_ne!(first, second);
    assert_ne!(second, session_id_from_bytes(&bytes));
}
