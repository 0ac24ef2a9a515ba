use fileslink::link_utils::{build_url_path, extract_id_from_path};

#[test]
fn test_build_url_path_spaces_replaced() {
    let p = build_url_path("abc123", "My File Name.pdf");
    assert_eq!(p, "abc123_My_File_Name.pdf");
}

#[test]
fn test_build_url_path_underscores_kept() {
    let p = build_url_path("id8", "hello_world.txt");
    assert_eq!(p, "id8_hello_world.txt");
}

#[test]
fn test_extract_id_from_path_with_filename() {
    let id = extract_id_from_path("ZvOWMhv1_report.pdf");
    assert_eq!(id, "ZvOWMhv1");
}

#[test]
fn test_extract_id_with_underscores_in_filename() {
    let id = extract_id_from_path("K_zO5rG8_270507.mp4");
    assert_eq!(id, "K_zO5rG8");
}

#[test]
fn test_extract_id_from_path_with_multiple_underscores() {
    let id = extract_id_from_path("rFgFEY12_file_name_with_many_underscores.txt");
    assert_eq!(id, "rFgFEY12");
}

#[test]
fn test_extract_id_from_path_no_underscore() {
    let id = extract_id_from_path("legacyid");
    assert_eq!(id, "legacyid");
}

#[test]
fn round_trip_with_separator_in_id_and_name() {
    let p = build_url_path("K_zO5rG8", "a_b c_d.txt");
    assert_eq!(p, "K_zO5rG8_a_b_c_d.txt");
    assert_eq!(extract_id_from_path(&p), "K_zO5rG8");
}

#[test]
fn legacy_short_id_splits_at_first_separator() {
    assert_eq!(extract_id_from_path("abc123_My_File.pdf"), "abc123");
}

#[test]
fn empty_path_is_empty_id() {
    assert_eq!(extract_id_from_path(""), "");
}
