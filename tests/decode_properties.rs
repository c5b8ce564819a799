use macos_bookmarks::bookmark::{decode, BookmarkData};
use macos_bookmarks::error::BookmarkError;
use macos_bookmarks::format::TableOfContentsDataRecord;

/// The data region of a login-item bookmark for an application bundle.
const LOGIN_ITEM_DATA: [u8; 708] = [
    8, 2, 0, 0, 12, 0, 0, 0, 1, 1, 0, 0, 65, 112, 112, 108, 105, 99, 97, 116, 105, 111, 110,
    115, 13, 0, 0, 0, 1, 1, 0, 0, 83, 121, 110, 99, 116, 104, 105, 110, 103, 46, 97, 112, 112,
    0, 0, 0, 8, 0, 0, 0, 1, 6, 0, 0, 4, 0, 0, 0, 24, 0, 0, 0, 8, 0, 0, 0, 4, 3, 0, 0, 103, 0,
    0, 0, 0, 0, 0, 0, 8, 0, 0, 0, 4, 3, 0, 0, 42, 198, 10, 0, 0, 0, 0, 0, 8, 0, 0, 0, 1, 6, 0,
    0, 64, 0, 0, 0, 80, 0, 0, 0, 8, 0, 0, 0, 0, 4, 0, 0, 65, 195, 213, 41, 226, 128, 0, 0, 24,
    0, 0, 0, 1, 2, 0, 0, 2, 0, 0, 0, 0, 0, 0, 0, 15, 0, 0, 0, 0, 0, 0, 0, 0, 0, 0, 0, 0, 0, 0,
    0, 8, 0, 0, 0, 1, 9, 0, 0, 102, 105, 108, 101, 58, 47, 47, 47, 12, 0, 0, 0, 1, 1, 0, 0, 77,
    97, 99, 105, 110, 116, 111, 115, 104, 32, 72, 68, 8, 0, 0, 0, 4, 3, 0, 0, 0, 96, 127, 115,
    37, 0, 0, 0, 8, 0, 0, 0, 0, 4, 0, 0, 65, 172, 190, 215, 104, 0, 0, 0, 36, 0, 0, 0, 1, 1, 0,
    0, 48, 65, 56, 49, 70, 51, 66, 49, 45, 53, 49, 68, 57, 45, 51, 51, 51, 53, 45, 66, 51, 69,
    51, 45, 49, 54, 57, 67, 51, 54, 52, 48, 51, 54, 48, 68, 24, 0, 0, 0, 1, 2, 0, 0, 129, 0, 0,
    0, 1, 0, 0, 0, 239, 19, 0, 0, 1, 0, 0, 0, 0, 0, 0, 0, 0, 0, 0, 0, 1, 0, 0, 0, 1, 1, 0, 0,
    47, 0, 0, 0, 0, 0, 0, 0, 1, 5, 0, 0, 9, 0, 0, 0, 1, 1, 0, 0, 83, 121, 110, 99, 116, 104,
    105, 110, 103, 0, 0, 0, 166, 0, 0, 0, 1, 2, 0, 0, 54, 52, 99, 98, 55, 101, 97, 97, 57, 97,
    49, 98, 98, 99, 99, 99, 52, 101, 49, 51, 57, 55, 99, 57, 102, 50, 97, 52, 49, 49, 101, 98,
    101, 53, 51, 57, 99, 100, 50, 57, 59, 48, 48, 48, 48, 48, 48, 48, 48, 59, 48, 48, 48, 48,
    48, 48, 48, 48, 59, 48, 48, 48, 48, 48, 48, 48, 48, 48, 48, 48, 48, 48, 48, 50, 48, 59, 99,
    111, 109, 46, 97, 112, 112, 108, 101, 46, 97, 112, 112, 45, 115, 97, 110, 100, 98, 111,
    120, 46, 114, 101, 97, 100, 45, 119, 114, 105, 116, 101, 59, 48, 49, 59, 48, 49, 48, 48,
    48, 48, 48, 52, 59, 48, 48, 48, 48, 48, 48, 48, 48, 48, 48, 48, 97, 99, 54, 50, 97, 59, 47,
    97, 112, 112, 108, 105, 99, 97, 116, 105, 111, 110, 115, 47, 115, 121, 110, 99, 116, 104,
    105, 110, 103, 46, 97, 112, 112, 0, 0, 0, 180, 0, 0, 0, 254, 255, 255, 255, 1, 0, 0, 0, 0,
    0, 0, 0, 14, 0, 0, 0, 4, 16, 0, 0, 48, 0, 0, 0, 0, 0, 0, 0, 5, 16, 0, 0, 96, 0, 0, 0, 0, 0,
    0, 0, 16, 16, 0, 0, 128, 0, 0, 0, 0, 0, 0, 0, 64, 16, 0, 0, 112, 0, 0, 0, 0, 0, 0, 0, 2,
    32, 0, 0, 48, 1, 0, 0, 0, 0, 0, 0, 5, 32, 0, 0, 160, 0, 0, 0, 0, 0, 0, 0, 16, 32, 0, 0,
    176, 0, 0, 0, 0, 0, 0, 0, 17, 32, 0, 0, 228, 0, 0, 0, 0, 0, 0, 0, 18, 32, 0, 0, 196, 0, 0,
    0, 0, 0, 0, 0, 19, 32, 0, 0, 212, 0, 0, 0, 0, 0, 0, 0, 32, 32, 0, 0, 16, 1, 0, 0, 0, 0, 0,
    0, 48, 32, 0, 0, 60, 1, 0, 0, 0, 0, 0, 0, 23, 240, 0, 0, 68, 1, 0, 0, 0, 0, 0, 0, 128, 240,
    0, 0, 88, 1, 0, 0, 0, 0, 0, 0,
];

/// The fixed header of the same bookmark: "book", 756 bytes, version, offset 48.
const LOGIN_ITEM_HEADER: [u8; 48] = [
    98, 111, 111, 107, 244, 2, 0, 0, 0, 0, 4, 16, 48, 0, 0, 0, 0, 0, 0, 0, 0, 0, 0, 0, 0, 0, 0,
    0, 0, 0, 0, 0, 0, 0, 0, 0, 0, 0, 0, 0, 0, 0, 0, 0, 0, 0, 0, 0,
];

fn login_item_blob() -> Vec<u8> {
    let mut blob = LOGIN_ITEM_HEADER.to_vec();
    blob.extend_from_slice(&LOGIN_ITEM_DATA);
    blob
}

/// A data region with a single TOC entry pointing at `record`.
fn single_record_region(record_type: u32, record: &[u8]) -> Vec<u8> {
    let toc_offset = 4 + record.len() as u32;
    let mut d = toc_offset.to_le_bytes().to_vec();
    d.extend_from_slice(record);
    d.extend_from_slice(&12u32.to_le_bytes());
    d.extend_from_slice(&[0xfe, 0xff, 0xff, 0xff]);
    d.extend_from_slice(&1u32.to_le_bytes());
    d.extend_from_slice(&0u32.to_le_bytes());
    d.extend_from_slice(&1u32.to_le_bytes());
    d.extend_from_slice(&record_type.to_le_bytes());
    d.extend_from_slice(&4u32.to_le_bytes());
    d.extend_from_slice(&0u32.to_le_bytes());
    d
}

fn standard_record(data_type: u32, payload: &[u8]) -> Vec<u8> {
    let mut r = (payload.len() as u32).to_le_bytes().to_vec();
    r.extend_from_slice(&data_type.to_le_bytes());
    r.extend_from_slice(payload);
    r
}

#[test]
fn login_item_blob_decodes_end_to_end() {
    let blob = login_item_blob();
    assert_eq!(blob.len(), 756);
    let bookmark = decode(&blob).unwrap();
    assert_eq!(bookmark.path, ["Applications", "Syncthing.app"]);
    assert_eq!(bookmark.cnid_path, [103, 706090]);
    assert_eq!(f64::from_bits(bookmark.creation), 665473989.0);
    assert_eq!(bookmark.volume_path, "/");
    assert_eq!(bookmark.volume_url, "file:///");
    assert_eq!(bookmark.volume_name, "Macintosh HD");
    assert_eq!(bookmark.volume_uuid, "0A81F3B1-51D9-3335-B3E3-169C3640360D");
    assert_eq!(bookmark.volume_size, 160851517440);
    assert_eq!(f64::from_bits(bookmark.volume_creation), 241134516.0);
    assert_eq!(bookmark.volume_flag, [4294967425, 4294972399, 0]);
    assert!(bookmark.volume_root);
    assert_eq!(bookmark.localized_name, "Syncthing");
    assert_eq!(
        bookmark.security_extension,
        "64cb7eaa9a1bbccc4e1397c9f2a411ebe539cd29;00000000;00000000;0000000000000020;com.apple.app-sandbox.read-write;01;01000004;00000000000ac62a;/applications/syncthing.app\u{0}"
    );
    assert_eq!(bookmark.target_flags, [2, 15, 0]);
    assert_eq!(bookmark.folder_index, 0);
    assert_eq!(bookmark.uid, 0);
    assert_eq!(bookmark.username, "");
    assert_eq!(bookmark.creation_options, 0);
}

#[test]
fn path_lengths_follow_array_entries() {
    let bookmark = decode(&login_item_blob()).unwrap();
    assert_eq!(bookmark.path.len(), 2);
    assert_eq!(bookmark.cnid_path.len(), 2);
}

#[test]
fn decoding_twice_gives_identical_output() {
    let blob = login_item_blob();
    let first = decode(&blob).unwrap();
    let second = decode(&blob).unwrap();
    assert_eq!(format!("{:?}", first), format!("{:?}", second));
}

#[test]
fn short_buffer_is_bad_header() {
    let blob = login_item_blob();
    assert_eq!(decode(&blob[..47]).unwrap_err(), BookmarkError::BadHeader);
    assert_eq!(decode(&[]).unwrap_err(), BookmarkError::BadHeader);
    assert_eq!(
        BookmarkData::parse_bookmark_header(&blob[..47]).unwrap_err(),
        BookmarkError::BadHeader
    );
}

#[test]
fn wrong_magic_is_bad_header() {
    let mut blob = login_item_blob();
    blob[0] = b'c';
    assert_eq!(decode(&blob).unwrap_err(), BookmarkError::BadHeader);
}

#[test]
fn toc_offset_beyond_buffer_is_bad_data() {
    let mut blob = login_item_blob();
    blob[48..52].copy_from_slice(&5000u32.to_le_bytes());
    assert_eq!(decode(&blob).unwrap_err(), BookmarkError::BadBookmarkData);
}

#[test]
fn toc_offset_below_four_is_bad_data() {
    let mut blob = login_item_blob();
    blob[48..52].copy_from_slice(&2u32.to_le_bytes());
    assert_eq!(decode(&blob).unwrap_err(), BookmarkError::BadBookmarkData);
}

#[test]
fn record_offset_beyond_buffer_is_bad_data() {
    let mut blob = login_item_blob();
    // The data offset of the first TOC entry: 48 + 520 (TOC) + 20 + 4.
    blob[592..596].copy_from_slice(&9000u32.to_le_bytes());
    assert_eq!(decode(&blob).unwrap_err(), BookmarkError::BadBookmarkData);
}

#[test]
fn truncated_toc_entries_are_bad_data() {
    let blob = login_item_blob();
    assert_eq!(decode(&blob[..700]).unwrap_err(), BookmarkError::BadBookmarkData);
    assert!(BookmarkData::parse_bookmark_data(&[8, 0, 0]).is_err());
}

#[test]
fn error_messages() {
    assert_eq!(BookmarkError::BadHeader.message(), "Incorrect bookmark header");
    assert_eq!(BookmarkError::BadBookmarkData.message(), "Failed to parse bookmark data");
}

#[test]
fn flags_are_capped_at_three() {
    let mut payload = Vec::new();
    for v in [1u64, 2, 3, 4, 5] {
        payload.extend_from_slice(&v.to_le_bytes());
    }
    let (rest, flags) = BookmarkData::bookmark_target_flags(&payload).unwrap();
    assert_eq!(flags, [1, 2, 3]);
    assert_eq!(rest.len(), 16);
    let (_, one) = BookmarkData::bookmark_target_flags(&payload[..8]).unwrap();
    assert_eq!(one, [1]);
    let (_, two) = BookmarkData::bookmark_target_flags(&payload[..16]).unwrap();
    assert_eq!(two, [1, 2]);
}

#[test]
fn flags_ending_inside_a_value_are_refused() {
    let payload = [1u8; 20];
    assert!(BookmarkData::bookmark_target_flags(&payload).is_none());
    assert!(BookmarkData::bookmark_target_flags(&payload[..12]).is_none());
    assert!(BookmarkData::bookmark_target_flags(&[]).is_none());
}

#[test]
fn dates_are_big_endian_numbers_little_endian() {
    let payload = [65, 172, 190, 215, 104, 0, 0, 0];
    let (_, date) = BookmarkData::bookmark_data_type_date(&payload).unwrap();
    assert_eq!(f64::from_bits(date), 241134516.0);
    assert_eq!(date, u64::from_be_bytes(payload));
    let (_, number) = BookmarkData::bookmark_data_type_number_eight(&payload).unwrap();
    assert_eq!(number, i64::from_le_bytes(payload));
    assert_ne!(number as u64, date);
}

#[test]
fn negative_numbers() {
    let (_, four) = BookmarkData::bookmark_data_type_number_four(&[0xff, 0xff, 0xff, 0xff]).unwrap();
    assert_eq!(four, -1);
    let (_, eight) = BookmarkData::bookmark_data_type_number_eight(&[0xfe; 8]).unwrap();
    assert_eq!(eight, -72340172838076674);
    assert!(BookmarkData::bookmark_data_type_number_four(&[1, 2, 3]).is_none());
    assert!(BookmarkData::bookmark_cnid(&[1, 2, 3, 4, 5, 6, 7]).is_none());
    assert!(BookmarkData::bookmark_data_type_date(&[1]).is_none());
}

#[test]
fn text_is_utf8() {
    assert_eq!(BookmarkData::bookmark_data_type_string("caf\u{e9}".as_bytes()).unwrap(), "caf\u{e9}");
    assert_eq!(BookmarkData::bookmark_data_type_string(&[]).unwrap(), "");
    assert!(BookmarkData::bookmark_data_type_string(&[0x66, 0xff, 0x66]).is_none());
    assert!(BookmarkData::bookmark_data_type_string(&[0xed, 0xa0, 0x80]).is_none());
}

#[test]
fn bad_array_payloads_are_refused() {
    assert!(BookmarkData::bookmark_array(&[4, 0, 0, 0, 24]).is_none());
    assert!(BookmarkData::bookmark_array(&[4, 0]).is_none());
}

#[test]
fn empty_array_payload_is_an_empty_offset_list() {
    let (rest, offsets) = BookmarkData::bookmark_array(&[]).unwrap();
    assert!(offsets.is_empty());
    assert!(rest.is_empty());
}

#[test]
fn array_element_out_of_range_is_refused() {
    let record = TableOfContentsDataRecord { record_type: 0x1004, data_offset: 48, reserved: 0 };
    assert!(BookmarkData::bookmark_array_data(&LOGIN_ITEM_DATA[4..520], vec![4, 900], &record).is_none());
}

#[test]
fn standard_record_offset_below_four_is_refused() {
    let record = TableOfContentsDataRecord { record_type: 0x2011, data_offset: 3, reserved: 0 };
    assert!(BookmarkData::bookmark_standard_data(&LOGIN_ITEM_DATA, &record).is_none());
}

#[test]
fn toc_data_beyond_declared_length_is_consumed() {
    // Two entries (24 bytes) against a declared length of 8: exactly 24 bytes are handed on.
    let mut d = vec![1, 0, 0, 0, 0, 0, 0, 0, 2, 0, 0, 0];
    d.extend_from_slice(&[7u8; 30]);
    let (rest, toc) = BookmarkData::table_of_contents_data(&d, 8).unwrap();
    assert_eq!(toc.number_of_records, 2);
    assert_eq!(rest.len(), 24);
    let (rest, _) = BookmarkData::table_of_contents_data(&d, 100).unwrap();
    assert_eq!(rest.len(), 30);
    assert!(BookmarkData::table_of_contents_data(&d[..30], 8).is_none());
}

#[test]
fn folder_index_accepts_both_widths() {
    let four = single_record_region(0xc001, &standard_record(0x0303, &[0xfe, 0xff, 0xff, 0xff]));
    let (_, b) = BookmarkData::parse_bookmark_data(&four).unwrap();
    assert_eq!(b.folder_index, -2);
    let eight = single_record_region(0xc001, &standard_record(0x0304, &[9, 0, 0, 0, 0, 0, 0, 0]));
    let (_, b) = BookmarkData::parse_bookmark_data(&eight).unwrap();
    assert_eq!(b.folder_index, 9);
}

#[test]
fn unknown_and_undecodable_records_are_skipped() {
    let unknown = single_record_region(0x9999, &standard_record(0x0101, b"abc"));
    let (_, b) = BookmarkData::parse_bookmark_data(&unknown).unwrap();
    assert!(b.path.is_empty() && b.volume_name.is_empty());
    let bad_text = single_record_region(0x2010, &standard_record(0x0101, &[0xff]));
    let (_, b) = BookmarkData::parse_bookmark_data(&bad_text).unwrap();
    assert_eq!(b.volume_name, "");
    let name = single_record_region(0x2010, &standard_record(0x0101, b"Disk"));
    let (_, b) = BookmarkData::parse_bookmark_data(&name).unwrap();
    assert_eq!(b.volume_name, "Disk");
}

#[test]
fn empty_offset_list_contributes_nothing() {
    let empty_array = single_record_region(0x1004, &standard_record(0x0601, &[]));
    let (_, b) = BookmarkData::parse_bookmark_data(&empty_array).unwrap();
    assert!(b.path.is_empty());
}

#[test]
fn volume_root_needs_no_payload() {
    let root = single_record_region(0x2030, &standard_record(0x0501, &[]));
    let (_, b) = BookmarkData::parse_bookmark_data(&root).unwrap();
    assert!(b.volume_root);
}

#[test]
fn array_element_beyond_buffer_is_bad_data() {
    let array = single_record_region(0x1004, &standard_record(0x0601, &900u32.to_le_bytes()));
    assert_eq!(
        BookmarkData::parse_bookmark_data(&array).unwrap_err(),
        BookmarkError::BadBookmarkData
    );
}
