use bambang::pager::{extract_page, page_offset, PageError};
use bambang::paths::{path_has_db_token, validate_path, PathError};

#[test]
fn first_page_offset_is_zero() {
    assert_eq!(page_offset(4096, 1), 0);
}

#[test]
fn third_page_offset() {
    assert_eq!(page_offset(4096, 3), 8192);
}

#[test]
fn small_page_size_offsets() {
    assert_eq!(page_offset(512, 2), 512);
    assert_eq!(page_offset(512, 5), 2048);
}

#[test]
fn extract_page_returns_the_right_bytes() {
    let mut data = vec![1u8; 8];
    data.extend_from_slice(&[2u8; 8]);
    data.extend_from_slice(&[3u8; 8]);
    let page = extract_page(&data, 8, 2).expect("page 2 exists");
    assert_eq!(page, vec![2u8; 8]);
}

#[test]
fn extract_page_past_the_end_is_a_short_read() {
    let data = vec![0u8; 16];
    assert_eq!(extract_page(&data, 8, 3), Err(PageError::ShortRead));
}

#[test]
fn extract_partial_last_page_is_a_short_read() {
    let data = vec![0u8; 12];
    assert_eq!(extract_page(&data, 8, 2), Err(PageError::ShortRead));
}

#[test]
fn db_paths_are_accepted() {
    assert!(validate_path("main.db").is_ok());
    assert!(validate_path("dir/file.db").is_ok());
    assert!(validate_path("backup.db.old").is_ok());
}

#[test]
fn other_paths_are_invalid() {
    assert_eq!(validate_path("notes.txt"), Err(PathError::InvalidPath));
    assert_eq!(validate_path(""), Err(PathError::InvalidPath));
    assert_eq!(validate_path("db"), Err(PathError::InvalidPath));
    assert_eq!(validate_path("my.database.txt"), Err(PathError::InvalidPath));
}

#[test]
fn token_detection_matches_substring_search() {
    assert!(path_has_db_token("a.db"));
    assert!(!path_has_db_token(".d"));
    assert!(!path_has_db_token("adb"));
    assert!(path_has_db_token("x.dby"));
}
