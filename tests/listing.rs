use fileslink::file_storage::FileMetadata;
use fileslink::listing::{find_page, list_page};

fn rec(n: u64) -> FileMetadata {
    FileMetadata {
        unique_id: format!("id{:06}", n),
        telegram_file_id: "T".to_string(),
        file_name: format!("file {}.txt", n),
        mime_type: None,
        file_size: n as u32,
        uploaded_at: n,
        message_id: None,
    }
}

fn shuffled(n: u64) -> Vec<FileMetadata> {
    let mut v: Vec<FileMetadata> = (1..=n).map(rec).collect();
    v.reverse();
    v.swap(0, 3);
    v
}

#[test]
fn empty_listing() {
    assert_eq!(list_page(vec![], None, "https://d/"), "No files found");
}

#[test]
fn single_page_listing() {
    let page = list_page(vec![rec(2), rec(1)], None, "https://d/");
    assert_eq!(
        page,
        "Page 1/1 (2 total)\n- file 2.txt (2 bytes)\nhttps://d/id000002_file_2.txt\n- file 1.txt (1 bytes)\nhttps://d/id000001_file_1.txt"
    );
}

#[test]
fn paged_listing_newest_first() {
    let first = list_page(shuffled(12), None, "d/");
    assert!(first.starts_with("Page 1/2 (12 total)\n- file 12.txt (12 bytes)\nd/id000012_file_12.txt\n- file 11.txt"));
    assert!(first.contains("- file 3.txt"));
    assert!(!first.contains("- file 2.txt"));
    assert!(first.ends_with("\n\nTip: use /list <page>"));
    let second = list_page(shuffled(12), Some(2), "d/");
    assert_eq!(
        second,
        "Page 2/2 (12 total)\n- file 2.txt (2 bytes)\nd/id000002_file_2.txt\n- file 1.txt (1 bytes)\nd/id000001_file_1.txt\n\nTip: use /list <page>"
    );
    assert_eq!(list_page(shuffled(12), Some(99), "d/"), second);
    assert_eq!(list_page(shuffled(12), Some(0), "d/"), first);
}

fn named(n: u64, name: &str) -> FileMetadata {
    FileMetadata { file_name: name.to_string(), ..rec(n) }
}

#[test]
fn find_ignores_case_newest_first() {
    let files = vec![named(1, "Annual Report.PDF"), named(3, "notes.txt"), named(2, "report-2.pdf")];
    assert_eq!(
        find_page(files, "REPORT", "d/"),
        "- report-2.pdf (2 bytes)\nd/id000002_report-2.pdf\n- Annual Report.PDF (1 bytes)\nd/id000001_Annual_Report.PDF"
    );
}

#[test]
fn find_usage_and_no_match() {
    assert_eq!(find_page(vec![rec(1)], "", "d/"), "Usage: /find <query>");
    assert_eq!(find_page(vec![rec(1)], "zzz", "d/"), "No matches found");
    assert_eq!(find_page(vec![], "a", "d/"), "No matches found");
}

#[test]
fn find_caps_at_ten() {
    let page = find_page(shuffled(12), "FILE", "d/");
    assert!(page.starts_with("- file 12.txt (12 bytes)"));
    assert!(page.contains("- file 3.txt"));
    assert!(!page.contains("- file 2.txt"));
    assert!(page.ends_with("\n(showing first 10 results)"));
}
