use bambang::header::{
    build_database_image, decode_header, encode_header, minimal_header, FileHeader, HeaderError,
};

fn sample_header() -> FileHeader {
    FileHeader {
        page_size: 512,
        write_version: 2,
        read_version: 2,
        reserved_space_per_page: 7,
        max_payload_fraction: 64,
        min_payload_fraction: 32,
        leaf_payload_fraction: 32,
        change_counter: 41,
        page_count: 9,
        freelist_trunk_page: 3,
        freelist_page_count: 2,
        schema_cookie: 5,
        schema_format: 4,
        default_cache_size: 2000,
        vacuum_root_page: 0,
        text_encoding: 2,
        user_version: 77,
        incremental_vacuum_mode: 1,
        application_id: 0xDEADBEEF,
        version_valid_for: 41,
        engine_version_number: 3037000,
    }
}

#[test]
fn minimal_header_fixed_values() {
    let h = minimal_header();
    assert_eq!(h.page_size, 4096);
    assert_eq!(h.write_version, 1);
    assert_eq!(h.read_version, 1);
    assert_eq!(h.reserved_space_per_page, 0);
    assert_eq!(h.max_payload_fraction, 64);
    assert_eq!(h.min_payload_fraction, 32);
    assert_eq!(h.leaf_payload_fraction, 32);
    assert_eq!(h.change_counter, 0);
    assert_eq!(h.page_count, 1);
    assert_eq!(h.freelist_trunk_page, 0);
    assert_eq!(h.freelist_page_count, 0);
    assert_eq!(h.schema_cookie, 1);
    assert_eq!(h.schema_format, 1);
    assert_eq!(h.default_cache_size, 0);
    assert_eq!(h.vacuum_root_page, 0);
    assert_eq!(h.text_encoding, 1);
    assert_eq!(h.user_version, 0);
    assert_eq!(h.incremental_vacuum_mode, 0);
    assert_eq!(h.application_id, 0);
    assert_eq!(h.version_valid_for, 0);
    assert_eq!(h.engine_version_number, 3037000);
}

#[test]
fn encode_layout_is_bit_exact() {
    let h = minimal_header();
    let bytes = encode_header(&h);
    assert_eq!(bytes.len(), 104);
    assert_eq!(&bytes[0..16], b"SQLite format 3\0");
    // page_size 4096, big-endian
    assert_eq!(bytes[16], 0x10);
    assert_eq!(bytes[17], 0x00);
    assert_eq!(bytes[18], 1); // write version
    assert_eq!(bytes[19], 1); // read version
    assert_eq!(bytes[20], 0); // reserved space
    assert_eq!(bytes[21], 64);
    assert_eq!(bytes[22], 32);
    assert_eq!(bytes[23], 32);
    // change counter 0, then four reserved zero bytes
    assert_eq!(&bytes[24..32], &[0; 8]);
    // page count 1
    assert_eq!(&bytes[32..36], &[0, 0, 0, 1]);
    // schema cookie 1 at 44, schema format 1 at 48
    assert_eq!(&bytes[44..48], &[0, 0, 0, 1]);
    assert_eq!(&bytes[48..52], &[0, 0, 0, 1]);
    // text encoding 1 (utf-8) at 60
    assert_eq!(&bytes[60..64], &[0, 0, 0, 1]);
    // the 20-byte reserved-for-expansion region is all zero
    assert_eq!(&bytes[76..96], &[0; 20]);
    // engine version 3037000 = 0x002E5748 at 100
    assert_eq!(&bytes[100..104], &[0x00, 0x2E, 0x57, 0x48]);
}

#[test]
fn image_is_exactly_one_page() {
    let h = minimal_header();
    let image = build_database_image(&h);
    assert_eq!(image.len(), 4096);
    // everything after the 104 header bytes is zero
    assert!(image[104..].iter().all(|&b| b == 0));
}

#[test]
fn write_then_read_round_trips() {
    let h = minimal_header();
    let image = build_database_image(&h);
    let decoded = decode_header(&image).expect("fresh image must decode");
    assert_eq!(decoded.page_size, 4096);
    assert_eq!(decoded.page_count, 1);
    assert_eq!(decoded.schema_cookie, 1);
    assert_eq!(decoded.schema_format, 1);
    assert_eq!(decoded.text_encoding, 1);
    assert_eq!(decoded, h);
}

#[test]
fn arbitrary_header_round_trips() {
    let h = sample_header();
    let bytes = encode_header(&h);
    let decoded = decode_header(&bytes).expect("encoded header must decode");
    assert_eq!(decoded, h);
}

#[test]
fn bad_magic_is_invalid_header() {
    let mut bytes = encode_header(&minimal_header());
    bytes[0] = b'X';
    assert_eq!(decode_header(&bytes), Err(HeaderError::InvalidHeader));
}

#[test]
fn all_wrong_bytes_is_invalid_header() {
    let bytes = vec![0xAAu8; 100];
    assert_eq!(decode_header(&bytes), Err(HeaderError::InvalidHeader));
}

#[test]
fn empty_buffer_is_invalid_header() {
    let bytes: Vec<u8> = Vec::new();
    assert_eq!(decode_header(&bytes), Err(HeaderError::InvalidHeader));
}

#[test]
fn valid_magic_but_truncated_is_too_short() {
    let mut bytes = encode_header(&minimal_header());
    bytes.truncate(50);
    assert_eq!(decode_header(&bytes), Err(HeaderError::TooShort));
}

#[test]
fn trailing_content_is_ignored() {
    let h = sample_header();
    let mut bytes = encode_header(&h);
    bytes.extend_from_slice(&[0xFF; 300]);
    let decoded = decode_header(&bytes).expect("long buffer must decode");
    assert_eq!(decoded, h);
}

#[test]
fn exactly_100_bytes_reads_zero_engine_version() {
    let h = sample_header();
    let mut bytes = encode_header(&h);
    bytes.truncate(100);
    let decoded = decode_header(&bytes).expect("100-byte prefix must decode");
    assert_eq!(decoded.engine_version_number, 0);
    assert_eq!(decoded.page_size, h.page_size);
}
