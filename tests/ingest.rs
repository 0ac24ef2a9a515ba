use fileslink::file_storage::FileStore;
use fileslink::ingest::{
    commit_artifact, fresh_unique_id, human_size, media_metadata, new_unique_id, resolve_url_source, url_file_name,
    prepare_commit, url_metadata, CommitError, SourceError,
};
use fileslink::link_utils::extract_id_from_path;
use fileslink::queue::{FileQueue, FileQueueItem, FileSource, MediaKind, MediaRef};
use fileslink::retrieval::{content_disposition, content_type_for, resolve_metadata, serve_direct, Body};

fn media(kind: MediaKind, mime: Option<&str>, name: Option<&str>) -> MediaRef {
    MediaRef {
        kind,
        file_id: "FILE".to_string(),
        file_size: 2048,
        mime_type: mime.map(|m| m.to_string()),
        file_name: name.map(|n| n.to_string()),
    }
}

#[test]
fn name_from_url_last_segment() {
    assert_eq!(url_file_name(None, "https://example.com/dir/report.pdf"), Some("report.pdf".to_string()));
}

#[test]
fn name_from_content_disposition() {
    let cd = "attachment; filename=\"data set.zip\"";
    assert_eq!(url_file_name(Some(cd), "https://example.com/get?id=1"), Some("data set.zip".to_string()));
    assert_eq!(url_file_name(Some("inline"), "https://example.com/a/b.txt"), Some("b.txt".to_string()));
}

#[test]
fn no_usable_name() {
    assert_eq!(url_file_name(None, "https://example.com/dir/"), None);
    assert_eq!(url_file_name(Some("attachment; filename=\"\""), "https://example.com/x.bin"), None);
}

#[test]
fn fresh_ids_are_url_safe_and_fixed_length() {
    let a = new_unique_id();
    let b = new_unique_id();
    assert_eq!(a.chars().count(), 8);
    assert!(a.chars().all(|c| c.is_ascii_alphanumeric() || c == '_' || c == '-'));
    assert_ne!(a, b);
}

#[test]
fn human_sizes() {
    assert_eq!(human_size(0), "0 bytes");
    assert_eq!(human_size(1023), "1023 bytes");
    assert_eq!(human_size(1024), "1.00 KB");
    assert_eq!(human_size(1536), "1.50 KB");
    assert_eq!(human_size(2048), "2.00 KB");
    assert_eq!(human_size(1152), "1.12 KB");
    assert_eq!(human_size(5 * 1024 * 1024), "5.00 MB");
    assert_eq!(human_size(1024 * 1024 * 1024), "1.00 GB");
    assert_eq!(human_size(1024 * 1024 - 1), "1024.00 KB");
}

#[test]
fn media_names_by_kind() {
    let m = media_metadata(&None, &media(MediaKind::Photo, None, None), "ID000001", "S".to_string(), 5, 9);
    assert_eq!(m.file_name, "photo_ID000001.jpg");
    assert_eq!(m.mime_type, Some("image/jpeg".to_string()));
    assert_eq!(m.message_id, Some(5));
    let v = media_metadata(&None, &media(MediaKind::Video, None, None), "ID000001", "S".to_string(), 5, 9);
    assert_eq!(v.file_name, "video_ID000001.mp4");
    assert_eq!(v.mime_type, Some("video/mp4".to_string()));
    let g = media_metadata(&None, &media(MediaKind::Animation, Some("image/gif"), None), "ID000001", "S".to_string(), 5, 9);
    assert_eq!(g.file_name, "animation_ID000001.gif");
    let a = media_metadata(&None, &media(MediaKind::Animation, None, None), "ID000001", "S".to_string(), 5, 9);
    assert_eq!(a.file_name, "animation_ID000001.mp4");
    let d = media_metadata(&None, &media(MediaKind::Document, None, None), "ID000001", "S".to_string(), 5, 9);
    assert_eq!(d.file_name, "file_ID000001");
    assert_eq!(d.mime_type, None);
    let n = media_metadata(&None, &media(MediaKind::Document, None, Some("orig.txt")), "ID000001", "S".to_string(), 5, 9);
    assert_eq!(n.file_name, "orig.txt");
}

#[test]
fn mime_guessed_from_name() {
    let d = media_metadata(&Some("paper.pdf".to_string()), &media(MediaKind::Document, None, None), "ID000001", "S".to_string(), 5, 9);
    assert_eq!(d.mime_type, Some("application/pdf".to_string()));
    let u = url_metadata("report.pdf".to_string(), 300, "ID000002", "S2".to_string(), 6, 10);
    assert_eq!(u.mime_type, Some("application/pdf".to_string()));
    assert_eq!(u.file_size, 300);
    let x = url_metadata("noext".to_string(), 3, "ID000003", "S3".to_string(), 6, 10);
    assert_eq!(x.mime_type, None);
}

#[test]
fn end_to_end_named_document() {
    let mut queue = FileQueue::new();
    let item = FileQueueItem::new(
        10,
        20,
        Some(media(MediaKind::Document, None, None)),
        Some("My File Name.pdf".to_string()),
        None,
    )
    .unwrap();
    queue.enqueue(item);
    assert!(queue.begin_attempt());
    let job = queue.head().unwrap();
    let m = match &job.source {
        FileSource::Media(m) => m,
        FileSource::Url(_) => panic!("expected an attachment"),
    };
    let id = new_unique_id();
    let meta = media_metadata(&job.file_name, m, &id, "STORED".to_string(), 99, 1700000000);
    let mut store = FileStore::new();
    let link = commit_artifact(&mut store, meta, "https://files.example/").ok().unwrap();
    assert_eq!(queue.finish_attempt(true), Some(0));
    assert_eq!(link.path, format!("{}_My_File_Name.pdf", id));
    assert_eq!(extract_id_from_path(&link.path), id);
    assert!(link.message.contains("2.00 KB"));
    assert!(link.message.contains(&format!("https://files.example/{}_My_File_Name.pdf", id)));
    let found = resolve_metadata(&store, &link.path).ok().unwrap();
    assert_eq!(found.file_size, 2048);
    assert_eq!(content_disposition(&found.file_name), "attachment; filename=\"My File Name.pdf\"");
    assert_eq!(content_type_for(&found, false), "application/pdf");
    assert_eq!(content_type_for(&found, true), "application/octet-stream");
    let served = serve_direct(&found, vec![7u8; 2048], false, false);
    assert_eq!(served.content_disposition, Some("attachment; filename=\"My File Name.pdf\"".to_string()));
    assert_eq!(served.content_type, "application/pdf");
    match served.body {
        Body::Bytes(b) => assert_eq!(b, vec![7u8; 2048]),
        Body::Page(_) => panic!("expected the bytes"),
    }
}

#[test]
fn success_message_text() {
    let mut store = FileStore::new();
    let meta = url_metadata("a b.txt".to_string(), 5, "ABCDEFGH", "S".to_string(), 1, 2);
    let link = commit_artifact(&mut store, meta, "https://d/").ok().unwrap();
    assert_eq!(
        link.message,
        "\u{2705} <b>File uploaded successfully!</b>\n\n\u{1F4C1} <b>File:</b> a b.txt\n\u{1F4CA} <b>Size:</b> 5 bytes\n\n\u{1F517} <b>Download Link:</b>\n<a href=\"https://d/ABCDEFGH_a_b.txt\">https://d/ABCDEFGH_a_b.txt</a>"
    );
}

#[test]
fn url_source_errors() {
    assert!(matches!(resolve_url_source(None, "https://e.com/dir/", 10), Err(SourceError::NoFileName)));
    assert!(matches!(resolve_url_source(None, "https://e.com/a.txt", 0), Err(SourceError::EmptyBody)));
    assert_eq!(resolve_url_source(None, "https://e.com/a.txt", 3).ok(), Some("a.txt".to_string()));
}

#[test]
fn taken_identifier_is_refused() {
    let mut store = FileStore::new();
    let first = url_metadata("a.txt".to_string(), 5, "ABCDEFGH", "S".to_string(), 1, 2);
    assert!(commit_artifact(&mut store, first, "d/").is_ok());
    let second = url_metadata("b.txt".to_string(), 7, "ABCDEFGH", "S2".to_string(), 3, 4);
    assert!(matches!(commit_artifact(&mut store, second, "d/"), Err(CommitError::IdTaken)));
    assert_eq!(store.get("ABCDEFGH").unwrap().file_name, "a.txt");
}

#[test]
fn fresh_identifier_not_in_store() {
    let mut store = FileStore::new();
    for _ in 0..20 {
        let id = fresh_unique_id(&store).unwrap();
        assert_eq!(id.chars().count(), 8);
        assert!(store.get(&id).is_none());
        let m = url_metadata("x.bin".to_string(), 1, &id, "S".to_string(), 1, 1);
        assert!(commit_artifact(&mut store, m, "d/").is_ok());
    }
    assert_eq!(store.len(), 20);
}

#[test]
fn animation_gif_by_mime_essence() {
    let g = media_metadata(&None, &media(MediaKind::Animation, Some("image/gif; x=y"), None), "ID000001", "S".to_string(), 5, 9);
    assert_eq!(g.file_name, "animation_ID000001.gif");
    let h = media_metadata(&None, &media(MediaKind::Animation, Some("image/gifx"), None), "ID000001", "S".to_string(), 5, 9);
    assert_eq!(h.file_name, "animation_ID000001.mp4");
}

#[test]
fn oversized_body_is_refused() {
    assert!(matches!(resolve_url_source(None, "https://e.com/a.txt", 0x1_0000_0000), Err(SourceError::TooLarge)));
    assert_eq!(resolve_url_source(None, "https://e.com/a.txt", 0xffff_ffff).ok(), Some("a.txt".to_string()));
}

#[test]
fn prepared_commit_leaves_store_alone() {
    let store = FileStore::new();
    let m = url_metadata("a b.txt".to_string(), 5, "ABCDEFGH", "S".to_string(), 1, 2);
    let (next, link) = prepare_commit(&store, m, "d/").ok().unwrap();
    assert_eq!(link.path, "ABCDEFGH_a_b.txt");
    assert!(store.get("ABCDEFGH").is_none());
    assert_eq!(next.get("ABCDEFGH").unwrap().file_size, 5);
    let again = url_metadata("c.txt".to_string(), 1, "ABCDEFGH", "S".to_string(), 1, 2);
    assert!(matches!(prepare_commit(&next, again, "d/"), Err(CommitError::IdTaken)));
}

#[test]
fn fresh_identifier_on_empty_store() {
    assert!(fresh_unique_id(&FileStore::new()).is_some());
}
