use fileslink::file_storage::{FileMetadata, FileStore};
use fileslink::retrieval::{
    after_direct_failure, auto_download_page, files_list_page, is_too_big_error, proxied_headers,
    resolve_metadata, serve_direct, Body, RetrievalError,
};

fn meta(id: &str, message_id: Option<i32>) -> FileMetadata {
    FileMetadata {
        unique_id: id.to_string(),
        telegram_file_id: "TG".to_string(),
        file_name: "big video.mp4".to_string(),
        mime_type: None,
        file_size: 4000,
        uploaded_at: 1,
        message_id,
    }
}

#[test]
fn unknown_id_is_not_found() {
    let store = FileStore::new();
    let r = resolve_metadata(&store, "abcdefgh_x.txt");
    assert!(matches!(r, Err(RetrievalError::NotFound)));
    assert_eq!(RetrievalError::NotFound.status(), 404);
}

#[test]
fn too_big_signal_detection() {
    assert!(is_too_big_error("RequestError: Bad Request: file is too big"));
    assert!(is_too_big_error("file is too big"));
    assert!(!is_too_big_error("Network error: timed out"));
    assert!(!is_too_big_error(""));
    assert!(!is_too_big_error("Bad Request: invalid file_id"));
}

#[test]
fn legacy_record_is_not_available() {
    let m = meta("abcdefgh", None);
    let r = after_direct_failure(&m, "Bad Request: file is too big", "http://proxy:8000", Some(-1001234567890));
    assert!(matches!(r, Err(RetrievalError::NotAvailable)));
    assert_eq!(RetrievalError::NotAvailable.status(), 404);
}

#[test]
fn proxy_url_for_large_file() {
    let m = meta("abcdefgh", Some(42));
    let r = after_direct_failure(&m, "Bad Request: file is too big", "http://proxy:8000", Some(-1001234567890));
    assert_eq!(r.ok().unwrap(), "http://proxy:8000/download/-1001234567890/42");
}

#[test]
fn other_failures_and_missing_channel() {
    let m = meta("abcdefgh", Some(42));
    let r = after_direct_failure(&m, "timeout", "http://proxy:8000", Some(-100));
    assert!(matches!(r, Err(RetrievalError::StorageFailure)));
    assert_eq!(RetrievalError::StorageFailure.status(), 500);
    let r = after_direct_failure(&m, "Bad Request: invalid file_id", "http://proxy:8000", Some(-100));
    assert!(matches!(r, Err(RetrievalError::StorageFailure)));
    let r = after_direct_failure(&m, "file is too big", "http://proxy:8000", None);
    assert!(matches!(r, Err(RetrievalError::ProxyNotConfigured)));
    assert_eq!(RetrievalError::ProxyNotConfigured.status(), 503);
    assert_eq!(RetrievalError::ProxyUnavailable.status(), 503);
}

#[test]
fn proxied_header_defaults() {
    let m = meta("abcdefgh", Some(1));
    let (t, d) = proxied_headers(&m, None, None);
    assert_eq!(t, "application/octet-stream");
    assert_eq!(d, "attachment; filename=\"big video.mp4\"");
    let (t, d) = proxied_headers(&m, Some("video/mp4"), Some("inline"));
    assert_eq!(t, "video/mp4");
    assert_eq!(d, "inline");
}

#[test]
fn download_page_carries_base64() {
    let page = auto_download_page("hello.txt", b"hello", "text/plain");
    assert!(page.contains("const base64Data = \"aGVsbG8=\";"));
    let one = auto_download_page("a", b"M", "t");
    assert!(one.contains("\"TQ==\""));
    let two = auto_download_page("a", b"Ma", "t");
    assert!(two.contains("\"TWE=\""));
    let three = auto_download_page("a", b"Man", "t");
    assert!(three.contains("\"TWFu\""));
    assert!(page.contains("<title>Downloading hello.txt</title>"));
    assert!(page.contains("{ type: 'text/plain' }"));
    assert!(page.contains("a.download = \"hello.txt\";"));
}

#[test]
fn listing_page() {
    assert_eq!(files_list_page(&vec![]), "<h1>Files in storage</h1><p>No files uploaded yet.</p>");
    let page = files_list_page(&vec![meta("abcdefgh", None)]);
    assert_eq!(
        page,
        "<h1>Files in storage</h1><ul><li><a href=\"/files/abcdefgh\">big video.mp4</a> (4000 bytes)</li></ul>"
    );
}

#[test]
fn served_page_for_auto_close() {
    let m = meta("abcdefgh", Some(1));
    let served = serve_direct(&m, b"hello".to_vec(), true, true);
    assert_eq!(served.content_type, "text/html; charset=utf-8");
    assert!(served.content_disposition.is_none());
    match served.body {
        Body::Page(p) => {
            assert!(p.contains("\"aGVsbG8=\""));
            assert!(p.contains("{ type: 'application/octet-stream' }"));
        }
        Body::Bytes(_) => panic!("expected the page"),
    }
}
