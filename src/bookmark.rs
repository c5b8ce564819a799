//! The decoded bookmark and the decoder's entry points.

use crate::error::BookmarkError;
use crate::format::{
    ARRAY_TYPE, BOOL_TRUE, BookmarkHeader, BookmarkView, CONTAIN_FOLDER_INDEX, CREATION_OPTIONS,
    CREATOR_UID, CREATOR_USERNAME, DATA_TYPE, DATE, Field, HEADER_SIZE, LOCALIZED_NAME,
    NUMBER_EIGHT_BYTE, NUMBER_FOUR_BYTE, SECURITY_EXTENSION, STRING_TYPE,
    StandardDataRecord, TARGET_CNID_PATH, TARGET_CREATION_DATE, TARGET_FLAGS, TARGET_PATH,
    TOC_OFFSET_SIZE, TableOfContentsDataRecord, URL, VOLUME_CREATION, VOLUME_FLAGS, VOLUME_NAME,
    VOLUME_PATH, VOLUME_ROOT, VOLUME_SIZE, VOLUME_URL, VOLUME_UUID, apply_entries, apply_entry,
    apply_item, apply_items, apply_single, data_view, decode_view, empty_view, field_of,
    has_valid_header, header_at, record_area, toc_entries, toc_is_readable, toc_offset, toc_record_at,
};
use crate::reader::{read_u32_be, read_u32_le};
use vstd::prelude::*;
use vstd::slice::slice_subrange;

verus! {

/// A decoded bookmark. Dates (`creation`, `volume_creation`) are the bits of
/// the stored IEEE-754 double, seconds since 2001-01-01; `f64::from_bits`
/// gives the number.
#[derive(Debug)]
pub struct BookmarkData {
    /// Path components of the target.
    pub path: Vec<String>,
    /// The catalog node ID of each path component.
    pub cnid_path: Vec<i64>,
    pub creation: u64,
    pub volume_path: String,
    pub volume_url: String,
    pub volume_name: String,
    pub volume_uuid: String,
    pub volume_size: i64,
    pub volume_creation: u64,
    pub volume_flag: Vec<u64>,
    pub volume_root: bool,
    pub localized_name: String,
    pub security_extension: String,
    pub target_flags: Vec<u64>,
    pub username: String,
    pub folder_index: i64,
    pub uid: i32,
    pub creation_options: i32,
}

impl View for BookmarkData {
    type V = BookmarkView;

    open spec fn view(&self) -> BookmarkView {
        BookmarkView {
            path: self.path@.map_values(|s: String| s@),
            cnid_path: self.cnid_path@,
            creation: self.creation,
            volume_path: self.volume_path@,
            volume_url: self.volume_url@,
            volume_name: self.volume_name@,
            volume_uuid: self.volume_uuid@,
            volume_size: self.volume_size,
            volume_creation: self.volume_creation,
            volume_flag: self.volume_flag@,
            volume_root: self.volume_root,
            localized_name: self.localized_name@,
            security_extension: self.security_extension@,
            target_flags: self.target_flags@,
            username: self.username@,
            folder_index: self.folder_index,
            uid: self.uid,
            creation_options: self.creation_options,
        }
    }
}

impl BookmarkData {
    /// A bookmark with every field at its default.
    pub fn empty() -> (r: BookmarkData)
        ensures
            r@ == empty_view(),
    {
        let r = BookmarkData {
            path: Vec::new(),
            cnid_path: Vec::new(),
            creation: 0,
            volume_path: String::new(),
            volume_url: String::new(),
            volume_name: String::new(),
            volume_uuid: String::new(),
            volume_size: 0,
            volume_creation: 0,
            volume_flag: Vec::new(),
            volume_root: false,
            localized_name: String::new(),
            security_extension: String::new(),
            target_flags: Vec::new(),
            username: String::new(),
            folder_index: 0,
            uid: 0,
            creation_options: 0,
        };
        assert(r@.path =~= Seq::<Seq<char>>::empty());
        r
    }

    /// Decodes the 48-byte header and checks its magic; hands on the bytes after it.
    pub fn parse_bookmark_header(data: &[u8]) -> (r: Result<(&[u8], BookmarkHeader), BookmarkError>)
        ensures
            r is Ok <==> has_valid_header(data@),
            r matches Ok((rest, h)) ==> h == header_at(data@) && rest@ == data@.subrange(
                HEADER_SIZE as int,
                data@.len() as int,
            ),
            r matches Err(e) ==> e == BookmarkError::BadHeader,
    {
        let len = data.len();
        if len < HEADER_SIZE {
            return Err(BookmarkError::BadHeader);
        }
        let header = BookmarkHeader {
            signature: read_u32_le(data, 0),
            bookmark_data_length: read_u32_le(data, 4),
            version: read_u32_be(data, 8),
            bookmark_data_offset: read_u32_le(data, 12),
        };
        if header.signature != crate::format::BOOKMARK_MAGIC {
            return Err(BookmarkError::BadHeader);
        }
        Ok((slice_subrange(data, HEADER_SIZE, len), header))
    }

    /// Decodes the data region (the bytes after the header): locates the TOC,
    /// reads its entries, resolves each entry's record (expanding arrays) and
    /// stores each value in its field. Hands on the bytes after the TOC header.
    pub fn parse_bookmark_data(data: &[u8]) -> (r: Result<(&[u8], BookmarkData), BookmarkError>)
        ensures
            r is Ok <==> data_view(data@) is Some,
            r matches Ok((rest, b)) ==> data_view(data@) == Some(b@) && rest@ == data@.subrange(
                toc_offset(data@) + 8,
                data@.len() as int,
            ),
            r matches Err(e) ==> e == BookmarkError::BadBookmarkData,
    {
        let (input, area, entries) = match BookmarkData::read_toc(data) {
            None => return Err(BookmarkError::BadBookmarkData),
            Some(found) => found,
        };
        let mut result = BookmarkData::empty();
        if !result.apply_toc_entries(area, &entries) {
            return Err(BookmarkError::BadBookmarkData);
        }
        Ok((input, result))
    }

    /// Locates the TOC in the data region and reads its entries. Returns the
    /// bytes after the TOC header, the record area and the entries.
    fn read_toc(data: &[u8]) -> (r: Option<(&[u8], &[u8], Vec<TableOfContentsDataRecord>)>)
        ensures
            r is Some <==> toc_is_readable(data@),
            r matches Some((input, area, entries)) ==> {
                &&& input@ == data@.subrange(toc_offset(data@) + 8, data@.len() as int)
                &&& area@ == record_area(data@)
                &&& entries@ == toc_entries(data@)
            },
    {
        let len = data.len();
        if len < 4 {
            return None;
        }
        let toc = read_u32_le(data, 0);
        if toc < TOC_OFFSET_SIZE || toc as usize > len {
            return None;
        }
        let area = slice_subrange(data, 4, toc as usize);
        let after = slice_subrange(data, toc as usize, len);
        let (input, toc_header) = match BookmarkData::table_of_contents_header(after) {
            None => return None,
            Some(found) => found,
        };
        let (record_data, toc_data) = match BookmarkData::table_of_contents_data(
            input,
            toc_header.data_length,
        ) {
            None => return None,
            Some(found) => found,
        };
        let (_, entries) = match BookmarkData::table_of_contents_record(
            record_data,
            &toc_data.number_of_records,
        ) {
            None => return None,
            Some(found) => found,
        };
        assert(entries@ =~= toc_entries(data@)) by {
            assert forall|i: int| 0 <= i < entries@.len() implies entries@[i] == toc_record_at(
                data@,
                toc + 20 + 12 * i,
            ) by {
            }
        }
        Some((input, area, entries))
    }

    /// Applies the TOC entries in order; `false` where one of them is fatal.
    fn apply_toc_entries(&mut self, area: &[u8], entries: &Vec<TableOfContentsDataRecord>) -> (ok:
        bool)
        ensures
            ok <==> apply_entries(area@, old(self)@, entries@) is Some,
            ok ==> apply_entries(area@, old(self)@, entries@) == Some(final(self)@),
    {
        let ghost start = self@;
        let mut i: usize = 0;
        while i < entries.len()
            invariant
                i <= entries@.len(),
                start == old(self)@,
                apply_entries(area@, start, entries@.take(i as int)) == Some(self@),
            decreases entries@.len() - i,
        {
            assert(entries@.take(i + 1).drop_last() =~= entries@.take(i as int));
            assert(entries@.take(i + 1).last() == entries@[i as int]);
            let ghost before = self@;
            if !self.apply_toc_entry(area, &entries[i]) {
                proof {
                    assert(apply_entry(area@, before, entries@[i as int]) is None);
                    lemma_apply_entries_prefix_fails(area@, start, entries@, i + 1);
                }
                return false;
            }
            i = i + 1;
        }
        assert(entries@.take(i as int) =~= entries@);
        true
    }

    /// Applies one TOC entry: resolves its record, expands it where it is an
    /// array, and stores the values. `false` where the entry is fatal.
    fn apply_toc_entry(&mut self, area: &[u8], entry: &TableOfContentsDataRecord) -> (ok: bool)
        ensures
            ok <==> apply_entry(area@, old(self)@, *entry) is Some,
            ok ==> apply_entry(area@, old(self)@, *entry) == Some(final(self)@),
    {
        reveal(apply_entry);
        let (_, standard) = match BookmarkData::bookmark_standard_data(area, entry) {
            None => return false,
            Some(found) => found,
        };
        if standard.data_type == ARRAY_TYPE {
            match BookmarkData::bookmark_array(standard.record_data.as_slice()) {
                None => {},
                Some((_, offsets)) => {
                    match BookmarkData::bookmark_array_data(area, offsets, entry) {
                        None => return false,
                        Some((_, items)) => self.apply_array_items(&items),
                    }
                },
            }
        } else {
            self.apply_record(&standard);
        }
        true
    }

    /// Stores the value of a record reached directly from a TOC entry.
    fn apply_record(&mut self, rec: &StandardDataRecord)
        ensures
            final(self)@ == apply_single(old(self)@, rec@),
    {
        reveal(apply_single);
        let p = rec.record_data.as_slice();
        match field_for(rec.record_type, rec.data_type) {
            Field::TargetFlags => {
                if let Some((_, v)) = BookmarkData::bookmark_target_flags(p) {
                    self.target_flags = v;
                }
            },
            Field::TargetCreation => {
                if let Some((_, v)) = BookmarkData::bookmark_data_type_date(p) {
                    self.creation = v;
                }
            },
            Field::VolumePath => {
                if let Some(v) = BookmarkData::bookmark_data_type_string(p) {
                    self.volume_path = v;
                }
            },
            Field::VolumeUrl => {
                if let Some(v) = BookmarkData::bookmark_data_type_string(p) {
                    self.volume_url = v;
                }
            },
            Field::VolumeName => {
                if let Some(v) = BookmarkData::bookmark_data_type_string(p) {
                    self.volume_name = v;
                }
            },
            Field::VolumeUuid => {
                if let Some(v) = BookmarkData::bookmark_data_type_string(p) {
                    self.volume_uuid = v;
                }
            },
            Field::VolumeSize => {
                if let Some((_, v)) = BookmarkData::bookmark_data_type_number_eight(p) {
                    self.volume_size = v;
                }
            },
            Field::VolumeCreation => {
                if let Some((_, v)) = BookmarkData::bookmark_data_type_date(p) {
                    self.volume_creation = v;
                }
            },
            Field::VolumeFlags => {
                if let Some((_, v)) = BookmarkData::bookmark_target_flags(p) {
                    self.volume_flag = v;
                }
            },
            Field::VolumeRoot => {
                self.volume_root = true;
            },
            Field::LocalizedName => {
                if let Some(v) = BookmarkData::bookmark_data_type_string(p) {
                    self.localized_name = v;
                }
            },
            Field::SecurityExtension => {
                if let Some(v) = BookmarkData::bookmark_data_type_string(p) {
                    self.security_extension = v;
                }
            },
            Field::CreatorUsername => {
                if let Some(v) = BookmarkData::bookmark_data_type_string(p) {
                    self.username = v;
                }
            },
            Field::FolderIndexFour => {
                if let Some((_, v)) = BookmarkData::bookmark_data_type_number_four(p) {
                    self.folder_index = v as i64;
                }
            },
            Field::FolderIndexEight => {
                if let Some((_, v)) = BookmarkData::bookmark_data_type_number_eight(p) {
                    self.folder_index = v;
                }
            },
            Field::CreatorUid => {
                if let Some((_, v)) = BookmarkData::bookmark_data_type_number_four(p) {
                    self.uid = v;
                }
            },
            Field::CreationOptions => {
                if let Some((_, v)) = BookmarkData::bookmark_data_type_number_four(p) {
                    self.creation_options = v;
                }
            },
            _ => {},
        }
    }

    /// Stores the value of one record reached through an array.
    fn apply_array_item(&mut self, rec: &StandardDataRecord)
        ensures
            final(self)@ == apply_item(old(self)@, rec@),
    {
        reveal(apply_item);
        let p = rec.record_data.as_slice();
        match field_for(rec.record_type, rec.data_type) {
            Field::TargetPath => {
                if let Some(v) = BookmarkData::bookmark_data_type_string(p) {
                    let ghost before = self.path@;
                    self.path.push(v);
                    assert(self.path@.map_values(|s: String| s@) =~= before.map_values(
                        |s: String| s@,
                    ).push(v@));
                }
            },
            Field::TargetCnidPath => {
                if let Some((_, v)) = BookmarkData::bookmark_cnid(p) {
                    self.cnid_path.push(v);
                }
            },
            _ => {},
        }
    }

    /// Stores the values of the records of an array, in order.
    fn apply_array_items(&mut self, items: &Vec<StandardDataRecord>)
        ensures
            final(self)@ == apply_items(
                old(self)@,
                items@.map_values(|s: StandardDataRecord| s@),
            ),
    {
        let ghost views = items@.map_values(|s: StandardDataRecord| s@);
        let mut i: usize = 0;
        while i < items.len()
            invariant
                i <= items@.len(),
                views == items@.map_values(|s: StandardDataRecord| s@),
                self@ == apply_items(old(self)@, views.take(i as int)),
            decreases items@.len() - i,
        {
            assert(views.take(i + 1).drop_last() =~= views.take(i as int));
            self.apply_array_item(&items[i]);
            i = i + 1;
        }
        assert(views.take(i as int) =~= views);
    }
}

/// The dispatch table: where a record with these tags is stored.
pub fn field_for(record_type: u32, data_type: u32) -> (f: Field)
    ensures
        f == field_of(record_type, data_type),
{
    if record_type == TARGET_PATH && data_type == STRING_TYPE {
        Field::TargetPath
    } else if record_type == TARGET_CNID_PATH && data_type == NUMBER_EIGHT_BYTE {
        Field::TargetCnidPath
    } else if record_type == TARGET_FLAGS && data_type == DATA_TYPE {
        Field::TargetFlags
    } else if record_type == TARGET_CREATION_DATE && data_type == DATE {
        Field::TargetCreation
    } else if record_type == VOLUME_PATH && data_type == STRING_TYPE {
        Field::VolumePath
    } else if record_type == VOLUME_URL && data_type == URL {
        Field::VolumeUrl
    } else if record_type == VOLUME_NAME && data_type == STRING_TYPE {
        Field::VolumeName
    } else if record_type == VOLUME_UUID && data_type == STRING_TYPE {
        Field::VolumeUuid
    } else if record_type == VOLUME_SIZE && data_type == NUMBER_EIGHT_BYTE {
        Field::VolumeSize
    } else if record_type == VOLUME_CREATION && data_type == DATE {
        Field::VolumeCreation
    } else if record_type == VOLUME_FLAGS && data_type == DATA_TYPE {
        Field::VolumeFlags
    } else if record_type == VOLUME_ROOT && data_type == BOOL_TRUE {
        Field::VolumeRoot
    } else if record_type == LOCALIZED_NAME && data_type == STRING_TYPE {
        Field::LocalizedName
    } else if record_type == SECURITY_EXTENSION && data_type == DATA_TYPE {
        Field::SecurityExtension
    } else if record_type == CREATOR_USERNAME && data_type == STRING_TYPE {
        Field::CreatorUsername
    } else if record_type == CONTAIN_FOLDER_INDEX && data_type == NUMBER_FOUR_BYTE {
        Field::FolderIndexFour
    } else if record_type == CONTAIN_FOLDER_INDEX && data_type == NUMBER_EIGHT_BYTE {
        Field::FolderIndexEight
    } else if record_type == CREATOR_UID && data_type == NUMBER_FOUR_BYTE {
        Field::CreatorUid
    } else if record_type == CREATION_OPTIONS && data_type == NUMBER_FOUR_BYTE {
        Field::CreationOptions
    } else {
        Field::Unknown
    }
}

/// Once a prefix of the entries is fatal, so is the whole list.
pub proof fn lemma_apply_entries_prefix_fails(
    area: Seq<u8>,
    m: BookmarkView,
    entries: Seq<TableOfContentsDataRecord>,
    k: int,
)
    requires
        0 <= k <= entries.len(),
        apply_entries(area, m, entries.take(k)) is None,
    ensures
        apply_entries(area, m, entries) is None,
    decreases entries.len(),
{
    if k == entries.len() {
        assert(entries.take(k) =~= entries);
    } else {
        assert(entries.drop_last().take(k) =~= entries.take(k));
        lemma_apply_entries_prefix_fails(area, m, entries.drop_last(), k);
    }
}

/// Decodes a whole bookmark buffer: the header, then the data region after it.
pub fn decode(data: &[u8]) -> (r: Result<BookmarkData, BookmarkError>)
    ensures
        r matches Ok(b) ==> decode_view(data@) == Ok::<BookmarkView, BookmarkError>(b@),
        r matches Err(e) ==> decode_view(data@) == Err::<BookmarkView, BookmarkError>(e),
{
    let (rest, _) = BookmarkData::parse_bookmark_header(data)?;
    match BookmarkData::parse_bookmark_data(rest) {
        Ok((_, bookmark)) => Ok(bookmark),
        Err(e) => Err(e),
    }
}

} // verus!
