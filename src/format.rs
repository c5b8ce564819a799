//! The bookmark container's layout: tags, the structures it is made of, and
//! what a well-formed buffer decodes to, stated over byte sequences.
//!
//! A buffer starts with a fixed 48-byte header. The rest, the data region,
//! starts with a 4-byte offset to the table of contents (TOC); the bytes in
//! between hold the records that the TOC entries point to. Every record
//! offset counts the 4 bytes of that leading TOC offset, so a record at
//! offset `o` sits at `o - 4` in the record area.

use crate::error::BookmarkError;
use crate::reader::{be_u32_at, be_u64_at, le_i32_at, le_i64_at, le_u16_at, le_u32_at, le_u64_at};
use vstd::prelude::*;
use vstd::utf8::{decode_utf8, valid_utf8};

verus! {

/// "book", read little-endian.
pub const BOOKMARK_MAGIC: u32 = 0x6b6f_6f62;

/// Size of the fixed header, reserved bytes included.
pub const HEADER_SIZE: usize = 48;

/// Size of the TOC offset that starts the data region.
pub const TOC_OFFSET_SIZE: u32 = 4;

/// Size of one TOC entry.
pub const TOC_RECORD_SIZE: u32 = 12;

// Data-type tags of a standard record.
pub const STRING_TYPE: u32 = 0x0101;
pub const DATA_TYPE: u32 = 0x0201;
pub const NUMBER_FOUR_BYTE: u32 = 0x0303;
pub const NUMBER_EIGHT_BYTE: u32 = 0x0304;
pub const DATE: u32 = 0x0400;
pub const BOOL_TRUE: u32 = 0x0501;
pub const ARRAY_TYPE: u32 = 0x0601;
pub const URL: u32 = 0x0901;

// Record-type tags of a TOC entry.
pub const TARGET_PATH: u32 = 0x1004;
pub const TARGET_CNID_PATH: u32 = 0x1005;
pub const TARGET_FLAGS: u32 = 0x1010;
pub const TARGET_CREATION_DATE: u32 = 0x1040;
pub const VOLUME_PATH: u32 = 0x2002;
pub const VOLUME_URL: u32 = 0x2005;
pub const VOLUME_NAME: u32 = 0x2010;
pub const VOLUME_UUID: u32 = 0x2011;
pub const VOLUME_SIZE: u32 = 0x2012;
pub const VOLUME_CREATION: u32 = 0x2013;
pub const VOLUME_FLAGS: u32 = 0x2020;
pub const VOLUME_ROOT: u32 = 0x2030;
pub const CONTAIN_FOLDER_INDEX: u32 = 0xc001;
pub const CREATOR_USERNAME: u32 = 0xc011;
pub const CREATOR_UID: u32 = 0xc012;
pub const CREATION_OPTIONS: u32 = 0xd010;
pub const LOCALIZED_NAME: u32 = 0xf017;
pub const SECURITY_EXTENSION: u32 = 0xf080;

#[derive(Debug, Clone, Copy, PartialEq, Eq)]
pub struct BookmarkHeader {
    /// Must be `BOOKMARK_MAGIC`.
    pub signature: u32,
    /// Total size of the bookmark.
    pub bookmark_data_length: u32,
    /// Stored big-endian, unlike every other header field.
    pub version: u32,
    /// Offset of the data region (0x30 in every known file; not checked).
    pub bookmark_data_offset: u32,
}

#[derive(Debug, Clone, Copy, PartialEq, Eq)]
pub struct TableOfContentsHeader {
    /// Declared size of the TOC; known to under-report, so never trusted.
    pub data_length: u32,
    pub record_type: u16,
    pub flags: u16,
}

#[derive(Debug, Clone, Copy, PartialEq, Eq)]
pub struct TableOfContentsData {
    pub level: u32,
    pub next_record_offset: u32,
    pub number_of_records: u32,
}

#[derive(Debug, Clone, Copy, PartialEq, Eq)]
pub struct TableOfContentsDataRecord {
    /// Which field of the bookmark the record holds.
    pub record_type: u32,
    /// Offset of the record in the data region, counting the TOC offset field.
    pub data_offset: u32,
    pub reserved: u32,
}

/// A record resolved from a TOC entry: a length, a type tag and the payload.
#[derive(Debug)]
pub struct StandardDataRecord {
    pub data_length: u32,
    pub data_type: u32,
    pub record_data: Vec<u8>,
    /// Copied from the TOC entry the record was reached from.
    pub record_type: u32,
}

/// What a `StandardDataRecord` holds, as a value.
pub struct RecordView {
    pub data_length: u32,
    pub data_type: u32,
    pub record_data: Seq<u8>,
    pub record_type: u32,
}

impl View for StandardDataRecord {
    type V = RecordView;

    open spec fn view(&self) -> RecordView {
        RecordView {
            data_length: self.data_length,
            data_type: self.data_type,
            record_data: self.record_data@,
            record_type: self.record_type,
        }
    }
}

pub open spec fn header_at(b: Seq<u8>) -> BookmarkHeader {
    BookmarkHeader {
        signature: le_u32_at(b, 0),
        bookmark_data_length: le_u32_at(b, 4),
        version: be_u32_at(b, 8),
        bookmark_data_offset: le_u32_at(b, 12),
    }
}

/// The buffer holds a whole header that starts with the magic.
pub open spec fn has_valid_header(b: Seq<u8>) -> bool {
    b.len() >= HEADER_SIZE && le_u32_at(b, 0) == BOOKMARK_MAGIC
}

pub open spec fn toc_header_at(s: Seq<u8>, at: int) -> TableOfContentsHeader {
    TableOfContentsHeader {
        data_length: le_u32_at(s, at),
        record_type: le_u16_at(s, at + 4),
        flags: le_u16_at(s, at + 6),
    }
}

pub open spec fn toc_data_at(s: Seq<u8>, at: int) -> TableOfContentsData {
    TableOfContentsData {
        level: le_u32_at(s, at),
        next_record_offset: le_u32_at(s, at + 4),
        number_of_records: le_u32_at(s, at + 8),
    }
}

pub open spec fn toc_record_at(s: Seq<u8>, at: int) -> TableOfContentsDataRecord {
    TableOfContentsDataRecord {
        record_type: le_u32_at(s, at),
        data_offset: le_u32_at(s, at + 4),
        reserved: le_u32_at(s, at + 8),
    }
}

/// Where the TOC starts in the data region `d`.
pub open spec fn toc_offset(d: Seq<u8>) -> u32 {
    le_u32_at(d, 0)
}

/// The record area: the bytes between the TOC offset field and the TOC.
pub open spec fn record_area(d: Seq<u8>) -> Seq<u8> {
    d.subrange(4, toc_offset(d) as int)
}

/// The number of TOC entries that the TOC descriptor declares.
pub open spec fn record_count(d: Seq<u8>) -> u32 {
    toc_data_at(d, toc_offset(d) + 8).number_of_records
}

/// The TOC offset, TOC header, TOC descriptor and every declared entry lie in `d`.
pub open spec fn toc_is_readable(d: Seq<u8>) -> bool {
    &&& d.len() >= 4
    &&& toc_offset(d) >= 4
    &&& toc_offset(d) + 20 <= d.len()
    &&& toc_offset(d) + 20 + 12 * record_count(d) <= d.len()
}

/// The TOC entries, which follow the 8-byte TOC header and 12-byte descriptor.
pub open spec fn toc_entries(d: Seq<u8>) -> Seq<TableOfContentsDataRecord> {
    Seq::new(record_count(d) as nat, |i: int| toc_record_at(d, toc_offset(d) + 20 + 12 * i))
}

/// The record at `data_offset`, or `None` where it does not lie within the record area.
pub open spec fn standard_record_at(area: Seq<u8>, data_offset: u32, record_type: u32) -> Option<
    RecordView,
> {
    let at = data_offset - TOC_OFFSET_SIZE;
    if data_offset < TOC_OFFSET_SIZE || at + 8 > area.len() {
        None
    } else {
        let len = le_u32_at(area, at);
        if at + 8 + len > area.len() {
            None
        } else {
            Some(
                RecordView {
                    data_length: len,
                    data_type: le_u32_at(area, at + 4),
                    record_data: area.subrange(at + 8, at + 8 + len),
                    record_type,
                },
            )
        }
    }
}

/// The payload of an array record read as packed 32-bit offsets; `None` where it
/// is not a whole number of offsets. An empty payload is an empty offset list.
pub open spec fn array_offsets_of(p: Seq<u8>) -> Option<Seq<u32>> {
    if p.len() % 4 == 0 {
        Some(Seq::new(p.len() / 4, |i: int| le_u32_at(p, 4 * i)))
    } else {
        None
    }
}

/// The records that `offsets` point to, each tagged `record_type`; `None` where one
/// of them cannot be resolved.
pub open spec fn array_records(area: Seq<u8>, offsets: Seq<u32>, record_type: u32) -> Option<
    Seq<RecordView>,
>
    decreases offsets.len(),
{
    if offsets.len() == 0 {
        Some(Seq::empty())
    } else {
        match array_records(area, offsets.drop_last(), record_type) {
            None => None,
            Some(prev) => match standard_record_at(area, offsets.last(), record_type) {
                None => None,
                Some(r) => Some(prev.push(r)),
            },
        }
    }
}

/// A payload read as UTF-8 text.
pub open spec fn text_of(p: Seq<u8>) -> Option<Seq<char>> {
    if valid_utf8(p) {
        Some(decode_utf8(p))
    } else {
        None
    }
}

/// A payload read as a little-endian signed 64-bit number.
pub open spec fn i64_of(p: Seq<u8>) -> Option<i64> {
    if p.len() >= 8 {
        Some(le_i64_at(p, 0))
    } else {
        None
    }
}

/// A payload read as a little-endian signed 32-bit number.
pub open spec fn i32_of(p: Seq<u8>) -> Option<i32> {
    if p.len() >= 4 {
        Some(le_i32_at(p, 0))
    } else {
        None
    }
}

/// A payload read as a date: the bits of a big-endian IEEE-754 double, seconds
/// since 2001-01-01, kept as they are.
pub open spec fn date_of(p: Seq<u8>) -> Option<u64> {
    if p.len() >= 8 {
        Some(be_u64_at(p, 0))
    } else {
        None
    }
}

/// How many 8-byte flag values a payload of `len` bytes yields, where it yields any.
pub open spec fn flag_count(len: nat) -> nat {
    if len >= 24 {
        3
    } else {
        len / 8
    }
}

/// A payload read as flags: up to three little-endian 64-bit values. Decoding
/// stops after the third value or at the end of the payload, and fails where
/// the payload ends inside a value before that.
pub open spec fn flags_of(p: Seq<u8>) -> Option<Seq<u64>> {
    if p.len() == 8 || p.len() == 16 || p.len() >= 24 {
        Some(Seq::new(flag_count(p.len()), |i: int| le_u64_at(p, 8 * i)))
    } else {
        None
    }
}

/// Where a record's value goes, by its (record type, data type) pair.
#[derive(Debug, Clone, Copy, PartialEq, Eq, Structural)]
pub enum Field {
    TargetPath,
    TargetCnidPath,
    TargetFlags,
    TargetCreation,
    VolumePath,
    VolumeUrl,
    VolumeName,
    VolumeUuid,
    VolumeSize,
    VolumeCreation,
    VolumeFlags,
    VolumeRoot,
    LocalizedName,
    SecurityExtension,
    CreatorUsername,
    FolderIndexFour,
    FolderIndexEight,
    CreatorUid,
    CreationOptions,
    Unknown,
}

/// The dispatch table.
pub open spec fn field_of(record_type: u32, data_type: u32) -> Field {
    if record_type == TARGET_PATH && data_type == STRING_TYPE {
        Field::TargetPath
    } else if record_type == TARGET_CNID_PATH && data_type == NUMBER_EIGHT_BYTE {
        Field::TargetCnidPath
    } else if record_type == TARGET_FLAGS && data_type == DATA_TYPE {
        Field::TargetFlags
    } else if record_type == TARGET_CREATION_DATE && data_type == DATE {
        Field::TargetCreation
    } else if record_type == VOLUME_PATH && data_type == STRING_TYPE {
        Field::VolumePath
    } else if record_type == VOLUME_URL && data_type == URL {
        Field::VolumeUrl
    } else if record_type == VOLUME_NAME && data_type == STRING_TYPE {
        Field::VolumeName
    } else if record_type == VOLUME_UUID && data_type == STRING_TYPE {
        Field::VolumeUuid
    } else if record_type == VOLUME_SIZE && data_type == NUMBER_EIGHT_BYTE {
        Field::VolumeSize
    } else if record_type == VOLUME_CREATION && data_type == DATE {
        Field::VolumeCreation
    } else if record_type == VOLUME_FLAGS && data_type == DATA_TYPE {
        Field::VolumeFlags
    } else if record_type == VOLUME_ROOT && data_type == BOOL_TRUE {
        Field::VolumeRoot
    } else if record_type == LOCALIZED_NAME && data_type == STRING_TYPE {
        Field::LocalizedName
    } else if record_type == SECURITY_EXTENSION && data_type == DATA_TYPE {
        Field::SecurityExtension
    } else if record_type == CREATOR_USERNAME && data_type == STRING_TYPE {
        Field::CreatorUsername
    } else if record_type == CONTAIN_FOLDER_INDEX && data_type == NUMBER_FOUR_BYTE {
        Field::FolderIndexFour
    } else if record_type == CONTAIN_FOLDER_INDEX && data_type == NUMBER_EIGHT_BYTE {
        Field::FolderIndexEight
    } else if record_type == CREATOR_UID && data_type == NUMBER_FOUR_BYTE {
        Field::CreatorUid
    } else if record_type == CREATION_OPTIONS && data_type == NUMBER_FOUR_BYTE {
        Field::CreationOptions
    } else {
        Field::Unknown
    }
}

/// The decoded bookmark, as a value. Dates are the bits of the stored double.
pub struct BookmarkView {
    pub path: Seq<Seq<char>>,
    pub cnid_path: Seq<i64>,
    pub creation: u64,
    pub volume_path: Seq<char>,
    pub volume_url: Seq<char>,
    pub volume_name: Seq<char>,
    pub volume_uuid: Seq<char>,
    pub volume_size: i64,
    pub volume_creation: u64,
    pub volume_flag: Seq<u64>,
    pub volume_root: bool,
    pub localized_name: Seq<char>,
    pub security_extension: Seq<char>,
    pub target_flags: Seq<u64>,
    pub username: Seq<char>,
    pub folder_index: i64,
    pub uid: i32,
    pub creation_options: i32,
}

/// Every field at its default, before any record is applied.
pub open spec fn empty_view() -> BookmarkView {
    BookmarkView {
        path: Seq::empty(),
        cnid_path: Seq::empty(),
        creation: 0,
        volume_path: Seq::empty(),
        volume_url: Seq::empty(),
        volume_name: Seq::empty(),
        volume_uuid: Seq::empty(),
        volume_size: 0,
        volume_creation: 0,
        volume_flag: Seq::empty(),
        volume_root: false,
        localized_name: Seq::empty(),
        security_extension: Seq::empty(),
        target_flags: Seq::empty(),
        username: Seq::empty(),
        folder_index: 0,
        uid: 0,
        creation_options: 0,
    }
}

/// A record reached directly from a TOC entry. A field whose value does not
/// decode keeps what it had; unknown pairs change nothing.
#[verifier::opaque]
pub open spec fn apply_single(m: BookmarkView, rec: RecordView) -> BookmarkView {
    let p = rec.record_data;
    match field_of(rec.record_type, rec.data_type) {
        Field::TargetFlags => match flags_of(p) {
            Some(v) => BookmarkView { target_flags: v, ..m },
            None => m,
        },
        Field::TargetCreation => match date_of(p) {
            Some(v) => BookmarkView { creation: v, ..m },
            None => m,
        },
        Field::VolumePath => match text_of(p) {
            Some(v) => BookmarkView { volume_path: v, ..m },
            None => m,
        },
        Field::VolumeUrl => match text_of(p) {
            Some(v) => BookmarkView { volume_url: v, ..m },
            None => m,
        },
        Field::VolumeName => match text_of(p) {
            Some(v) => BookmarkView { volume_name: v, ..m },
            None => m,
        },
        Field::VolumeUuid => match text_of(p) {
            Some(v) => BookmarkView { volume_uuid: v, ..m },
            None => m,
        },
        Field::VolumeSize => match i64_of(p) {
            Some(v) => BookmarkView { volume_size: v, ..m },
            None => m,
        },
        Field::VolumeCreation => match date_of(p) {
            Some(v) => BookmarkView { volume_creation: v, ..m },
            None => m,
        },
        Field::VolumeFlags => match flags_of(p) {
            Some(v) => BookmarkView { volume_flag: v, ..m },
            None => m,
        },
        Field::VolumeRoot => BookmarkView { volume_root: true, ..m },
        Field::LocalizedName => match text_of(p) {
            Some(v) => BookmarkView { localized_name: v, ..m },
            None => m,
        },
        Field::SecurityExtension => match text_of(p) {
            Some(v) => BookmarkView { security_extension: v, ..m },
            None => m,
        },
        Field::CreatorUsername => match text_of(p) {
            Some(v) => BookmarkView { username: v, ..m },
            None => m,
        },
        Field::FolderIndexFour => match i32_of(p) {
            Some(v) => BookmarkView { folder_index: v as i64, ..m },
            None => m,
        },
        Field::FolderIndexEight => match i64_of(p) {
            Some(v) => BookmarkView { folder_index: v, ..m },
            None => m,
        },
        Field::CreatorUid => match i32_of(p) {
            Some(v) => BookmarkView { uid: v, ..m },
            None => m,
        },
        Field::CreationOptions => match i32_of(p) {
            Some(v) => BookmarkView { creation_options: v, ..m },
            None => m,
        },
        _ => m,
    }
}

/// A record reached through an array: only path components and their catalog
/// node IDs are taken from arrays. A component or ID whose value does not
/// decode is skipped in its own list alone, so where one of the two fails,
/// `path` and `cnid_path` no longer line up index by index. That is most likely
/// a latent bug of the format's handling, kept here as the decoder behaves.
#[verifier::opaque]
pub open spec fn apply_item(m: BookmarkView, rec: RecordView) -> BookmarkView {
    let p = rec.record_data;
    match field_of(rec.record_type, rec.data_type) {
        Field::TargetPath => match text_of(p) {
            Some(v) => BookmarkView { path: m.path.push(v), ..m },
            None => m,
        },
        Field::TargetCnidPath => match i64_of(p) {
            Some(v) => BookmarkView { cnid_path: m.cnid_path.push(v), ..m },
            None => m,
        },
        _ => m,
    }
}

/// The array items applied in order.
pub open spec fn apply_items(m: BookmarkView, items: Seq<RecordView>) -> BookmarkView
    decreases items.len(),
{
    if items.len() == 0 {
        m
    } else {
        apply_item(apply_items(m, items.drop_last()), items.last())
    }
}

/// One TOC entry applied: its record is resolved (fatal where it cannot be),
/// and an array record is expanded (fatal where an element cannot be
/// resolved; an empty offset list, or one that does not parse, contributes
/// nothing).
#[verifier::opaque]
pub open spec fn apply_entry(area: Seq<u8>, m: BookmarkView, e: TableOfContentsDataRecord) -> Option<
    BookmarkView,
> {
    match standard_record_at(area, e.data_offset, e.record_type) {
        None => None,
        Some(rec) => if rec.data_type == ARRAY_TYPE {
            match array_offsets_of(rec.record_data) {
                None => Some(m),
                Some(offsets) => match array_records(area, offsets, e.record_type) {
                    None => None,
                    Some(items) => Some(apply_items(m, items)),
                },
            }
        } else {
            Some(apply_single(m, rec))
        },
    }
}

/// The TOC entries applied in order; `None` where one is fatal.
pub open spec fn apply_entries(area: Seq<u8>, m: BookmarkView, entries: Seq<TableOfContentsDataRecord>) -> Option<
    BookmarkView,
>
    decreases entries.len(),
{
    if entries.len() == 0 {
        Some(m)
    } else {
        match apply_entries(area, m, entries.drop_last()) {
            None => None,
            Some(prev) => apply_entry(area, prev, entries.last()),
        }
    }
}

/// What the data region `d` (the buffer after its header) decodes to.
pub open spec fn data_view(d: Seq<u8>) -> Option<BookmarkView> {
    if toc_is_readable(d) {
        apply_entries(record_area(d), empty_view(), toc_entries(d))
    } else {
        None
    }
}

/// What a whole buffer decodes to.
pub open spec fn decode_view(b: Seq<u8>) -> Result<BookmarkView, BookmarkError> {
    if !has_valid_header(b) {
        Err(BookmarkError::BadHeader)
    } else {
        match data_view(b.subrange(HEADER_SIZE as int, b.len() as int)) {
            None => Err(BookmarkError::BadBookmarkData),
            Some(m) => Ok(m),
        }
    }
}

} // verus!
