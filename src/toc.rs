//! Reading the table of contents and resolving the records it points to.

use crate::bookmark::BookmarkData;
use crate::format::{
    StandardDataRecord, TableOfContentsData, TableOfContentsDataRecord, TableOfContentsHeader,
    TOC_OFFSET_SIZE, TOC_RECORD_SIZE, array_offsets_of, array_records,
    standard_record_at, toc_data_at, toc_header_at, toc_record_at,
};
use crate::reader::{le_u32_at, read_u16_le, read_u32_le};
use vstd::prelude::*;
use vstd::slice::{slice_subrange, slice_to_vec};

verus! {

/// Once a prefix of the offsets fails to resolve, so do all of them.
pub proof fn lemma_array_records_prefix_fails(
    area: Seq<u8>,
    offsets: Seq<u32>,
    k: int,
    record_type: u32,
)
    requires
        0 <= k <= offsets.len(),
        array_records(area, offsets.take(k), record_type) is None,
    ensures
        array_records(area, offsets, record_type) is None,
    decreases offsets.len(),
{
    if k == offsets.len() {
        assert(offsets.take(k) =~= offsets);
    } else {
        assert(offsets.drop_last().take(k) =~= offsets.take(k));
        lemma_array_records_prefix_fails(area, offsets.drop_last(), k, record_type);
    }
}

impl BookmarkData {
    /// Decodes the TOC header (length, record type, flags) at the start of `data`.
    pub fn table_of_contents_header(data: &[u8]) -> (r: Option<(&[u8], TableOfContentsHeader)>)
        ensures
            r is Some <==> data@.len() >= 8,
            r matches Some((rest, h)) ==> h == toc_header_at(data@, 0) && rest@ == data@.subrange(
                8,
                data@.len() as int,
            ),
    {
        if data.len() < 8 {
            return None;
        }
        let header = TableOfContentsHeader {
            data_length: read_u32_le(data, 0),
            record_type: read_u16_le(data, 4),
            flags: read_u16_le(data, 6),
        };
        Some((slice_subrange(data, 8, data.len()), header))
    }

    /// Decodes the TOC descriptor (level, next TOC, entry count) at the start of
    /// `data`. Where the entries take more than the declared `data_length`, the
    /// bytes handed on are exactly the entries, whose presence is then checked;
    /// otherwise all that follows the descriptor is handed on.
    pub fn table_of_contents_data(data: &[u8], data_length: u32) -> (r: Option<
        (&[u8], TableOfContentsData),
    >)
        ensures
            ({
                let n = toc_data_at(data@, 0).number_of_records;
                &&& r is Some <==> data@.len() >= 12 && (12 * n > data_length ==> 12 + 12 * n
                    <= data@.len())
                &&& r matches Some((rest, t)) ==> t == toc_data_at(data@, 0) && rest@ == (if 12 * n
                    > data_length {
                    data@.subrange(12, 12 + 12 * n)
                } else {
                    data@.subrange(12, data@.len() as int)
                })
            }),
    {
        if data.len() < 12 {
            return None;
        }
        let toc = TableOfContentsData {
            level: read_u32_le(data, 0),
            next_record_offset: read_u32_le(data, 4),
            number_of_records: read_u32_le(data, 8),
        };
        let rest = slice_subrange(data, 12, data.len());
        let record_bytes: u64 = TOC_RECORD_SIZE as u64 * toc.number_of_records as u64;
        if record_bytes > data_length as u64 {
            if record_bytes > rest.len() as u64 {
                return None;
            }
            return Some((slice_subrange(rest, 0, record_bytes as usize), toc));
        }
        Some((rest, toc))
    }

    /// Decodes `records` consecutive 12-byte TOC entries from the start of `data`.
    pub fn table_of_contents_record<'a>(data: &'a [u8], records: &u32) -> (r: Option<
        (&'a [u8], Vec<TableOfContentsDataRecord>),
    >)
        ensures
            r is Some <==> 12 * *records <= data@.len(),
            r matches Some((rest, v)) ==> v@ == Seq::new(
                *records as nat,
                |i: int| toc_record_at(data@, 12 * i),
            ) && rest@ == data@.subrange(12 * *records, data@.len() as int),
    {
        let n = *records;
        let len = data.len();
        let needed: u64 = TOC_RECORD_SIZE as u64 * n as u64;
        if needed > len as u64 {
            return None;
        }
        let mut entries: Vec<TableOfContentsDataRecord> = Vec::new();
        let mut i: u32 = 0;
        while i < n
            invariant
                i <= n,
                12 * n <= data@.len(),
                len == data@.len(),
                entries@.len() == i,
                forall|j: int| 0 <= j < i ==> entries@[j] == toc_record_at(data@, 12 * j),
            decreases n - i,
        {
            let at: usize = 12 * (i as usize);
            entries.push(
                TableOfContentsDataRecord {
                    record_type: read_u32_le(data, at),
                    data_offset: read_u32_le(data, at + 4),
                    reserved: read_u32_le(data, at + 8),
                },
            );
            i = i + 1;
        }
        assert(entries@ =~= Seq::new(n as nat, |i: int| toc_record_at(data@, 12 * i)));
        Some((slice_subrange(data, needed as usize, len), entries))
    }

    /// Resolves a TOC entry in the record area `bookmark_data`: at the entry's
    /// offset less the 4 bytes of the TOC offset field stand a length and a data
    /// type, then that many payload bytes.
    pub fn bookmark_standard_data<'a>(
        bookmark_data: &'a [u8],
        toc_record: &TableOfContentsDataRecord,
    ) -> (r: Option<(&'a [u8], StandardDataRecord)>)
        ensures
            ({
                let spec_rec = standard_record_at(
                    bookmark_data@,
                    toc_record.data_offset,
                    toc_record.record_type,
                );
                &&& r is Some <==> spec_rec is Some
                &&& r matches Some((rest, rec)) ==> spec_rec == Some(rec@) && rest@
                    == bookmark_data@.subrange(
                    toc_record.data_offset - 4 + 8 + rec.data_length,
                    bookmark_data@.len() as int,
                )
            }),
    {
        if toc_record.data_offset < TOC_OFFSET_SIZE {
            return None;
        }
        let at = (toc_record.data_offset - TOC_OFFSET_SIZE) as usize;
        let len = bookmark_data.len();
        if at > len || len - at < 8 {
            return None;
        }
        let data_length = read_u32_le(bookmark_data, at);
        let data_type = read_u32_le(bookmark_data, at + 4);
        let start = at + 8;
        if data_length as usize > len - start {
            return None;
        }
        let end = start + data_length as usize;
        let record = StandardDataRecord {
            data_length,
            data_type,
            record_data: slice_to_vec(slice_subrange(bookmark_data, start, end)),
            record_type: toc_record.record_type,
        };
        Some((slice_subrange(bookmark_data, end, len), record))
    }

    /// Reads the payload of an array record as packed little-endian 32-bit
    /// offsets. An empty payload is an empty list, not an error.
    pub fn bookmark_array(standard_data: &[u8]) -> (r: Option<(&[u8], Vec<u32>)>)
        ensures
            r is Some <==> array_offsets_of(standard_data@) is Some,
            r matches Some((rest, v)) ==> array_offsets_of(standard_data@) == Some(v@)
                && rest@.len() == 0,
    {
        let len = standard_data.len();
        if len % 4 != 0 {
            return None;
        }
        let count = len / 4;
        let mut offsets: Vec<u32> = Vec::new();
        let mut i: usize = 0;
        while i < count
            invariant
                i <= count,
                count == len / 4,
                len == standard_data@.len(),
                len % 4 == 0,
                offsets@.len() == i,
                forall|j: int| 0 <= j < i ==> offsets@[j] == le_u32_at(standard_data@, 4 * j),
            decreases count - i,
        {
            offsets.push(read_u32_le(standard_data, 4 * i));
            i = i + 1;
        }
        assert(offsets@ =~= Seq::new(
            standard_data@.len() / 4,
            |j: int| le_u32_at(standard_data@, 4 * j),
        ));
        Some((slice_subrange(standard_data, len, len), offsets))
    }

    /// Resolves each offset of an array record in the record area `data`; every
    /// element carries the record type of the array's TOC entry.
    pub fn bookmark_array_data<'a>(
        data: &'a [u8],
        array_offsets: Vec<u32>,
        record: &TableOfContentsDataRecord,
    ) -> (r: Option<(&'a [u8], Vec<StandardDataRecord>)>)
        ensures
            r is Some <==> array_records(data@, array_offsets@, record.record_type) is Some,
            r matches Some((rest, v)) ==> rest@ == data@ && array_records(
                data@,
                array_offsets@,
                record.record_type,
            ) == Some(v@.map_values(|s: StandardDataRecord| s@)),
    {
        let mut records: Vec<StandardDataRecord> = Vec::new();
        let mut i: usize = 0;
        while i < array_offsets.len()
            invariant
                i <= array_offsets@.len(),
                array_records(data@, array_offsets@.take(i as int), record.record_type) == Some(
                    records@.map_values(|s: StandardDataRecord| s@),
                ),
            decreases array_offsets@.len() - i,
        {
            let element = TableOfContentsDataRecord {
                record_type: record.record_type,
                data_offset: array_offsets[i],
                reserved: 0,
            };
            let ghost before = records@;
            assert(array_offsets@.take(i + 1).drop_last() =~= array_offsets@.take(i as int));
            match BookmarkData::bookmark_standard_data(data, &element) {
                None => {
                    proof {
                        lemma_array_records_prefix_fails(
                            data@,
                            array_offsets@,
                            i + 1,
                            record.record_type,
                        );
                    }
                    return None;
                },
                Some((_, found)) => {
                    records.push(found);
                    assert(records@.map_values(|s: StandardDataRecord| s@) =~= before.map_values(
                        |s: StandardDataRecord| s@,
                    ).push(found@));
                },
            }
            i = i + 1;
        }
        assert(array_offsets@.take(i as int) =~= array_offsets@);
        Some((data, records))
    }
}

} // verus!
