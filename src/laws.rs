//! Properties of the decoder as a whole, stated over `decode_view`, the value
//! that `decode` is proved to return.

use crate::error::BookmarkError;
use crate::format::{
    ARRAY_TYPE, BOOKMARK_MAGIC, BookmarkView, HEADER_SIZE, NUMBER_EIGHT_BYTE, RecordView,
    STRING_TYPE, TARGET_CNID_PATH, TARGET_PATH, TableOfContentsDataRecord, apply_entries,
    apply_entry, apply_item, apply_items, apply_single, array_offsets_of, array_records,
    decode_view, empty_view, flag_count, i64_of, record_area, standard_record_at, text_of, toc_entries,
    toc_is_readable, toc_offset,
};
use crate::reader::le_u32_at;
use vstd::prelude::*;
use vstd::utf8::valid_utf8;

verus! {

/// The data region of a buffer: all that follows the fixed header.
pub open spec fn data_region(b: Seq<u8>) -> Seq<u8> {
    b.subrange(HEADER_SIZE as int, b.len() as int)
}

/// The records that a TOC entry expands to where it is an array of records;
/// empty for any other entry.
pub open spec fn entry_items(area: Seq<u8>, e: TableOfContentsDataRecord) -> Seq<RecordView> {
    match standard_record_at(area, e.data_offset, e.record_type) {
        Some(rec) => if rec.data_type == ARRAY_TYPE {
            match array_offsets_of(rec.record_data) {
                Some(offsets) => match array_records(area, offsets, e.record_type) {
                    Some(items) => items,
                    None => Seq::empty(),
                },
                None => Seq::empty(),
            }
        } else {
            Seq::empty()
        },
        None => Seq::empty(),
    }
}

/// How many of `items` carry the record type `tag`.
pub open spec fn count_tagged(items: Seq<RecordView>, tag: u32) -> nat
    decreases items.len(),
{
    if items.len() == 0 {
        0
    } else {
        count_tagged(items.drop_last(), tag) + if items.last().record_type == tag {
            1nat
        } else {
            0nat
        }
    }
}

/// How many array-expanded records under the record type `tag` the entries hold.
pub open spec fn expanded_count(area: Seq<u8>, entries: Seq<TableOfContentsDataRecord>, tag: u32) -> nat
    decreases entries.len(),
{
    if entries.len() == 0 {
        0
    } else {
        expanded_count(area, entries.drop_last(), tag) + count_tagged(
            entry_items(area, entries.last()),
            tag,
        )
    }
}

/// The path components that `items` contribute: the text of each record under
/// the target-path tag.
pub open spec fn path_values(items: Seq<RecordView>) -> Seq<Seq<char>>
    decreases items.len(),
{
    if items.len() == 0 {
        Seq::empty()
    } else if items.last().record_type == TARGET_PATH {
        path_values(items.drop_last()).push(text_of(items.last().record_data)->Some_0)
    } else {
        path_values(items.drop_last())
    }
}

/// The catalog node IDs that `items` contribute: the number in each record
/// under the target-CNID-path tag.
pub open spec fn cnid_values(items: Seq<RecordView>) -> Seq<i64>
    decreases items.len(),
{
    if items.len() == 0 {
        Seq::empty()
    } else if items.last().record_type == TARGET_CNID_PATH {
        cnid_values(items.drop_last()).push(i64_of(items.last().record_data)->Some_0)
    } else {
        cnid_values(items.drop_last())
    }
}

/// The path components of all array-expanded records, in TOC-entry order and
/// then array order.
pub open spec fn expanded_paths(area: Seq<u8>, entries: Seq<TableOfContentsDataRecord>) -> Seq<
    Seq<char>,
>
    decreases entries.len(),
{
    if entries.len() == 0 {
        Seq::empty()
    } else {
        expanded_paths(area, entries.drop_last()) + path_values(entry_items(area, entries.last()))
    }
}

/// The catalog node IDs of all array-expanded records, in TOC-entry order and
/// then array order.
pub open spec fn expanded_cnids(area: Seq<u8>, entries: Seq<TableOfContentsDataRecord>) -> Seq<
    i64,
>
    decreases entries.len(),
{
    if entries.len() == 0 {
        Seq::empty()
    } else {
        expanded_cnids(area, entries.drop_last()) + cnid_values(entry_items(area, entries.last()))
    }
}

/// A record under the target-path tag is a string holding valid UTF-8.
pub open spec fn path_item_is_text(r: RecordView) -> bool {
    r.record_type == TARGET_PATH ==> r.data_type == STRING_TYPE && valid_utf8(r.record_data)
}

/// A record under the target-CNID-path tag is an 8-byte number.
pub open spec fn cnid_item_is_number(r: RecordView) -> bool {
    r.record_type == TARGET_CNID_PATH ==> r.data_type == NUMBER_EIGHT_BYTE
        && r.record_data.len() >= 8
}

/// Every array-expanded record under the target-path tag is text.
pub open spec fn path_items_are_text(area: Seq<u8>, entries: Seq<TableOfContentsDataRecord>) -> bool {
    forall|j: int, k: int|
        0 <= j < entries.len() && 0 <= k < entry_items(area, entries[j]).len()
            ==> path_item_is_text(#[trigger] entry_items(area, entries[j])[k])
}

/// Every array-expanded record under the target-CNID-path tag is an 8-byte number.
pub open spec fn cnid_items_are_numbers(
    area: Seq<u8>,
    entries: Seq<TableOfContentsDataRecord>,
) -> bool {
    forall|j: int, k: int|
        0 <= j < entries.len() && 0 <= k < entry_items(area, entries[j]).len()
            ==> cnid_item_is_number(#[trigger] entry_items(area, entries[j])[k])
}

/// Both flag lists hold at most three values.
pub open spec fn flag_lists_are_bounded(m: BookmarkView) -> bool {
    m.target_flags.len() <= 3 && m.volume_flag.len() <= 3
}

/// A buffer shorter than the 48-byte header, or one whose first four bytes are
/// not the magic, is refused with `BadHeader`.
pub proof fn lemma_bad_header(b: Seq<u8>)
    requires
        b.len() < HEADER_SIZE || le_u32_at(b, 0) != BOOKMARK_MAGIC,
    ensures
        decode_view(b) == Err::<BookmarkView, BookmarkError>(BookmarkError::BadHeader),
{
}

/// A buffer with a valid header whose TOC offset lies beyond the data region
/// is refused with `BadBookmarkData`.
pub proof fn lemma_toc_offset_beyond_buffer(b: Seq<u8>)
    requires
        b.len() >= HEADER_SIZE,
        le_u32_at(b, 0) == BOOKMARK_MAGIC,
        toc_offset(data_region(b)) > data_region(b).len(),
    ensures
        decode_view(b) == Err::<BookmarkView, BookmarkError>(BookmarkError::BadBookmarkData),
{
}

/// A buffer with a valid header and a readable TOC, one of whose entries has a
/// record that cannot be resolved (its offset is below 4, or the record's
/// length or payload runs past the record area), is refused with
/// `BadBookmarkData`.
pub proof fn lemma_unresolvable_record_is_fatal(b: Seq<u8>, i: int)
    requires
        b.len() >= HEADER_SIZE,
        le_u32_at(b, 0) == BOOKMARK_MAGIC,
        toc_is_readable(data_region(b)),
        0 <= i < toc_entries(data_region(b)).len(),
        standard_record_at(
            record_area(data_region(b)),
            toc_entries(data_region(b))[i].data_offset,
            toc_entries(data_region(b))[i].record_type,
        ) is None,
    ensures
        decode_view(b) == Err::<BookmarkView, BookmarkError>(BookmarkError::BadBookmarkData),
{
    let d = data_region(b);
    let area = record_area(d);
    let entries = toc_entries(d);
    assert forall|p: BookmarkView| #[trigger] apply_entry(area, p, entries[i]) is None by {
        reveal(apply_entry);
    }
    lemma_fatal_entry_is_fatal(area, empty_view(), entries, i);
}

/// A buffer with a valid header and a readable TOC, one of whose entries is an
/// array with an element that cannot be resolved, is refused with
/// `BadBookmarkData`.
pub proof fn lemma_unresolvable_array_element_is_fatal(b: Seq<u8>, i: int, k: int)
    requires
        b.len() >= HEADER_SIZE,
        le_u32_at(b, 0) == BOOKMARK_MAGIC,
        toc_is_readable(data_region(b)),
        0 <= i < toc_entries(data_region(b)).len(),
        ({
            let area = record_area(data_region(b));
            let e = toc_entries(data_region(b))[i];
            &&& standard_record_at(area, e.data_offset, e.record_type) is Some
            &&& standard_record_at(area, e.data_offset, e.record_type)->Some_0.data_type
                == ARRAY_TYPE
            &&& array_offsets_of(
                standard_record_at(area, e.data_offset, e.record_type)->Some_0.record_data,
            ) is Some
            &&& 0 <= k < array_offsets_of(
                standard_record_at(area, e.data_offset, e.record_type)->Some_0.record_data,
            )->Some_0.len()
            &&& standard_record_at(
                area,
                array_offsets_of(
                    standard_record_at(area, e.data_offset, e.record_type)->Some_0.record_data,
                )->Some_0[k],
                e.record_type,
            ) is None
        }),
    ensures
        decode_view(b) == Err::<BookmarkView, BookmarkError>(BookmarkError::BadBookmarkData),
{
    let d = data_region(b);
    let area = record_area(d);
    let entries = toc_entries(d);
    let e = entries[i];
    let rec = standard_record_at(area, e.data_offset, e.record_type)->Some_0;
    let offsets = array_offsets_of(rec.record_data)->Some_0;
    lemma_unresolvable_offset_is_fatal(area, offsets, k, e.record_type);
    assert forall|p: BookmarkView| #[trigger] apply_entry(area, p, entries[i]) is None by {
        reveal(apply_entry);
    }
    lemma_fatal_entry_is_fatal(area, empty_view(), entries, i);
}

/// A buffer with a valid header and a readable TOC, one of whose entries points
/// beyond the data region, is refused with `BadBookmarkData`.
pub proof fn lemma_record_offset_beyond_buffer(b: Seq<u8>, i: int)
    requires
        b.len() >= HEADER_SIZE,
        le_u32_at(b, 0) == BOOKMARK_MAGIC,
        toc_is_readable(data_region(b)),
        0 <= i < toc_entries(data_region(b)).len(),
        toc_entries(data_region(b))[i].data_offset > data_region(b).len(),
    ensures
        decode_view(b) == Err::<BookmarkView, BookmarkError>(BookmarkError::BadBookmarkData),
{
    lemma_unresolvable_record_is_fatal(b, i);
}

/// A buffer with a valid header and a readable TOC, one of whose entries is an
/// array with an element offset beyond the data region, is refused with
/// `BadBookmarkData`.
pub proof fn lemma_array_element_offset_beyond_buffer(b: Seq<u8>, i: int, k: int)
    requires
        b.len() >= HEADER_SIZE,
        le_u32_at(b, 0) == BOOKMARK_MAGIC,
        toc_is_readable(data_region(b)),
        0 <= i < toc_entries(data_region(b)).len(),
        ({
            let area = record_area(data_region(b));
            let e = toc_entries(data_region(b))[i];
            &&& standard_record_at(area, e.data_offset, e.record_type) is Some
            &&& standard_record_at(area, e.data_offset, e.record_type)->Some_0.data_type
                == ARRAY_TYPE
            &&& array_offsets_of(
                standard_record_at(area, e.data_offset, e.record_type)->Some_0.record_data,
            ) is Some
            &&& 0 <= k < array_offsets_of(
                standard_record_at(area, e.data_offset, e.record_type)->Some_0.record_data,
            )->Some_0.len()
            &&& array_offsets_of(
                standard_record_at(area, e.data_offset, e.record_type)->Some_0.record_data,
            )->Some_0[k] > data_region(b).len()
        }),
    ensures
        decode_view(b) == Err::<BookmarkView, BookmarkError>(BookmarkError::BadBookmarkData),
{
    lemma_unresolvable_array_element_is_fatal(b, i, k);
}

/// Where one entry is fatal whatever came before it, applying the entries fails.
proof fn lemma_fatal_entry_is_fatal(
    area: Seq<u8>,
    m: BookmarkView,
    entries: Seq<TableOfContentsDataRecord>,
    i: int,
)
    requires
        0 <= i < entries.len(),
        forall|p: BookmarkView| #[trigger] apply_entry(area, p, entries[i]) is None,
    ensures
        apply_entries(area, m, entries) is None,
    decreases entries.len(),
{
    if i < entries.len() - 1 {
        assert(entries.drop_last()[i] == entries[i]);
        lemma_fatal_entry_is_fatal(area, m, entries.drop_last(), i);
    } else {
        if let Some(p) = apply_entries(area, m, entries.drop_last()) {
            assert(apply_entry(area, p, entries[i]) is None);
        }
    }
}

/// Where one offset cannot be resolved, the array's records cannot be either.
proof fn lemma_unresolvable_offset_is_fatal(area: Seq<u8>, offsets: Seq<u32>, k: int, record_type: u32)
    requires
        0 <= k < offsets.len(),
        standard_record_at(area, offsets[k], record_type) is None,
    ensures
        array_records(area, offsets, record_type) is None,
    decreases offsets.len(),
{
    if k < offsets.len() - 1 {
        assert(offsets.drop_last()[k] == offsets[k]);
        lemma_unresolvable_offset_is_fatal(area, offsets.drop_last(), k, record_type);
    }
}

/// Decoding is a function of the bytes alone: equal buffers decode to equal
/// results, so decoding one buffer twice gives identical output.
pub proof fn lemma_decode_is_deterministic(a: Seq<u8>, b: Seq<u8>)
    requires
        a == b,
    ensures
        decode_view(a) == decode_view(b),
{
}

/// Where every array-expanded record under the target-path tag is text,
/// `path` holds the text of exactly those records, in TOC-entry order and then
/// array order; so it holds as many components as there are such records.
pub proof fn lemma_path_contents(b: Seq<u8>)
    requires
        decode_view(b) is Ok,
        path_items_are_text(record_area(data_region(b)), toc_entries(data_region(b))),
    ensures
        ({
            let m = decode_view(b)->Ok_0;
            let area = record_area(data_region(b));
            let entries = toc_entries(data_region(b));
            &&& m.path == expanded_paths(area, entries)
            &&& m.path.len() == expanded_count(area, entries, TARGET_PATH)
        }),
{
    let d = data_region(b);
    lemma_entries_paths(record_area(d), empty_view(), toc_entries(d));
    lemma_expanded_paths_len(record_area(d), toc_entries(d));
}

/// Where every array-expanded record under the target-CNID-path tag is an
/// 8-byte number, `cnid_path` holds the number of exactly those records, in
/// TOC-entry order and then array order; so it holds as many IDs as there are
/// such records.
pub proof fn lemma_cnid_path_contents(b: Seq<u8>)
    requires
        decode_view(b) is Ok,
        cnid_items_are_numbers(record_area(data_region(b)), toc_entries(data_region(b))),
    ensures
        ({
            let m = decode_view(b)->Ok_0;
            let area = record_area(data_region(b));
            let entries = toc_entries(data_region(b));
            &&& m.cnid_path == expanded_cnids(area, entries)
            &&& m.cnid_path.len() == expanded_count(area, entries, TARGET_CNID_PATH)
        }),
{
    let d = data_region(b);
    lemma_entries_cnids(record_area(d), empty_view(), toc_entries(d));
    lemma_expanded_cnids_len(record_area(d), toc_entries(d));
}

/// The records of the last entry, where the entries' records are well formed.
proof fn lemma_last_entry_items(
    area: Seq<u8>,
    entries: Seq<TableOfContentsDataRecord>,
)
    requires
        entries.len() > 0,
    ensures
        ({
            let items = entry_items(area, entries.last());
            &&& path_items_are_text(area, entries) ==> forall|k: int|
                0 <= k < items.len() ==> path_item_is_text(#[trigger] items[k])
            &&& cnid_items_are_numbers(area, entries) ==> forall|k: int|
                0 <= k < items.len() ==> cnid_item_is_number(#[trigger] items[k])
            &&& path_items_are_text(area, entries) ==> path_items_are_text(
                area,
                entries.drop_last(),
            )
            &&& cnid_items_are_numbers(area, entries) ==> cnid_items_are_numbers(
                area,
                entries.drop_last(),
            )
        }),
{
    let n = entries.len() - 1;
    let items = entry_items(area, entries.last());
    let prefix = entries.drop_last();
    if path_items_are_text(area, entries) {
        assert forall|k: int| 0 <= k < items.len() implies path_item_is_text(
            #[trigger] items[k],
        ) by {
            assert(entry_items(area, entries[n])[k] == items[k]);
        }
        assert forall|j: int, k: int|
            0 <= j < prefix.len() && 0 <= k < entry_items(area, prefix[j]).len()
                implies path_item_is_text(#[trigger] entry_items(area, prefix[j])[k]) by {
            assert(prefix[j] == entries[j]);
        }
    }
    if cnid_items_are_numbers(area, entries) {
        assert forall|k: int| 0 <= k < items.len() implies cnid_item_is_number(
            #[trigger] items[k],
        ) by {
            assert(entry_items(area, entries[n])[k] == items[k]);
        }
        assert forall|j: int, k: int|
            0 <= j < prefix.len() && 0 <= k < entry_items(area, prefix[j]).len()
                implies cnid_item_is_number(#[trigger] entry_items(area, prefix[j])[k]) by {
            assert(prefix[j] == entries[j]);
        }
    }
}

/// The path through a sequence of entries.
proof fn lemma_entries_paths(area: Seq<u8>, m: BookmarkView, entries: Seq<TableOfContentsDataRecord>)
    requires
        apply_entries(area, m, entries) is Some,
        path_items_are_text(area, entries),
    ensures
        apply_entries(area, m, entries)->Some_0.path == m.path + expanded_paths(area, entries),
    decreases entries.len(),
{
    if entries.len() == 0 {
        assert(m.path + Seq::<Seq<char>>::empty() =~= m.path);
    } else {
        lemma_last_entry_items(area, entries);
        let prefix = entries.drop_last();
        lemma_entries_paths(area, m, prefix);
        let p = apply_entries(area, m, prefix)->Some_0;
        let e = entries.last();
        let items = entry_items(area, e);
        reveal(apply_entry);
        match standard_record_at(area, e.data_offset, e.record_type) {
            Some(rec) => {
                if rec.data_type == ARRAY_TYPE {
                    match array_offsets_of(rec.record_data) {
                        Some(offsets) => {
                            lemma_items_paths(p, items);
                        },
                        None => {},
                    }
                } else {
                    reveal(apply_single);
                }
            },
            None => {},
        }
        assert(m.path + expanded_paths(area, prefix) + path_values(items) =~= m.path
            + expanded_paths(area, entries));
        assert(path_values(Seq::<RecordView>::empty()) =~= Seq::<Seq<char>>::empty());
        assert(p.path + Seq::<Seq<char>>::empty() =~= p.path);
    }
}

/// The catalog node IDs through a sequence of entries.
proof fn lemma_entries_cnids(area: Seq<u8>, m: BookmarkView, entries: Seq<TableOfContentsDataRecord>)
    requires
        apply_entries(area, m, entries) is Some,
        cnid_items_are_numbers(area, entries),
    ensures
        apply_entries(area, m, entries)->Some_0.cnid_path == m.cnid_path + expanded_cnids(
            area,
            entries,
        ),
    decreases entries.len(),
{
    if entries.len() == 0 {
        assert(m.cnid_path + Seq::<i64>::empty() =~= m.cnid_path);
    } else {
        lemma_last_entry_items(area, entries);
        let prefix = entries.drop_last();
        lemma_entries_cnids(area, m, prefix);
        let p = apply_entries(area, m, prefix)->Some_0;
        let e = entries.last();
        let items = entry_items(area, e);
        reveal(apply_entry);
        match standard_record_at(area, e.data_offset, e.record_type) {
            Some(rec) => {
                if rec.data_type == ARRAY_TYPE {
                    match array_offsets_of(rec.record_data) {
                        Some(offsets) => {
                            lemma_items_cnids(p, items);
                        },
                        None => {},
                    }
                } else {
                    reveal(apply_single);
                }
            },
            None => {},
        }
        assert(m.cnid_path + expanded_cnids(area, prefix) + cnid_values(items) =~= m.cnid_path
            + expanded_cnids(area, entries));
        assert(cnid_values(Seq::<RecordView>::empty()) =~= Seq::<i64>::empty());
        assert(p.cnid_path + Seq::<i64>::empty() =~= p.cnid_path);
    }
}

/// The path through the records of an array.
proof fn lemma_items_paths(m: BookmarkView, items: Seq<RecordView>)
    requires
        forall|k: int| 0 <= k < items.len() ==> path_item_is_text(#[trigger] items[k]),
    ensures
        apply_items(m, items).path == m.path + path_values(items),
    decreases items.len(),
{
    if items.len() == 0 {
        assert(m.path + Seq::<Seq<char>>::empty() =~= m.path);
    } else {
        let prefix = items.drop_last();
        lemma_items_paths(m, prefix);
        assert(path_item_is_text(items[items.len() - 1]));
        reveal(apply_item);
        let q = apply_items(m, prefix);
        let last = items.last();
        if last.record_type == TARGET_PATH {
            assert(q.path.push(text_of(last.record_data)->Some_0) =~= m.path + path_values(
                prefix,
            ).push(text_of(last.record_data)->Some_0));
        }
    }
}

/// The catalog node IDs through the records of an array.
proof fn lemma_items_cnids(m: BookmarkView, items: Seq<RecordView>)
    requires
        forall|k: int| 0 <= k < items.len() ==> cnid_item_is_number(#[trigger] items[k]),
    ensures
        apply_items(m, items).cnid_path == m.cnid_path + cnid_values(items),
    decreases items.len(),
{
    if items.len() == 0 {
        assert(m.cnid_path + Seq::<i64>::empty() =~= m.cnid_path);
    } else {
        let prefix = items.drop_last();
        lemma_items_cnids(m, prefix);
        assert(cnid_item_is_number(items[items.len() - 1]));
        reveal(apply_item);
        let q = apply_items(m, prefix);
        let last = items.last();
        if last.record_type == TARGET_CNID_PATH {
            assert(q.cnid_path.push(i64_of(last.record_data)->Some_0) =~= m.cnid_path
                + cnid_values(prefix).push(i64_of(last.record_data)->Some_0));
        }
    }
}

proof fn lemma_path_values_len(items: Seq<RecordView>)
    ensures
        path_values(items).len() == count_tagged(items, TARGET_PATH),
    decreases items.len(),
{
    if items.len() > 0 {
        lemma_path_values_len(items.drop_last());
    }
}

proof fn lemma_cnid_values_len(items: Seq<RecordView>)
    ensures
        cnid_values(items).len() == count_tagged(items, TARGET_CNID_PATH),
    decreases items.len(),
{
    if items.len() > 0 {
        lemma_cnid_values_len(items.drop_last());
    }
}

proof fn lemma_expanded_paths_len(area: Seq<u8>, entries: Seq<TableOfContentsDataRecord>)
    ensures
        expanded_paths(area, entries).len() == expanded_count(area, entries, TARGET_PATH),
    decreases entries.len(),
{
    if entries.len() > 0 {
        lemma_expanded_paths_len(area, entries.drop_last());
        lemma_path_values_len(entry_items(area, entries.last()));
    }
}

proof fn lemma_expanded_cnids_len(area: Seq<u8>, entries: Seq<TableOfContentsDataRecord>)
    ensures
        expanded_cnids(area, entries).len() == expanded_count(area, entries, TARGET_CNID_PATH),
    decreases entries.len(),
{
    if entries.len() > 0 {
        lemma_expanded_cnids_len(area, entries.drop_last());
        lemma_cnid_values_len(entry_items(area, entries.last()));
    }
}

/// Each flag list of a decoded bookmark holds at most three values.
pub proof fn lemma_flag_lists_bounded(b: Seq<u8>)
    requires
        decode_view(b) is Ok,
    ensures
        decode_view(b)->Ok_0.target_flags.len() <= 3,
        decode_view(b)->Ok_0.volume_flag.len() <= 3,
{
    let d = data_region(b);
    lemma_entries_keep_flags_bounded(record_area(d), empty_view(), toc_entries(d));
}

/// Applying entries keeps both flag lists at three values or fewer.
proof fn lemma_entries_keep_flags_bounded(
    area: Seq<u8>,
    m: BookmarkView,
    entries: Seq<TableOfContentsDataRecord>,
)
    requires
        flag_lists_are_bounded(m),
        apply_entries(area, m, entries) is Some,
    ensures
        flag_lists_are_bounded(apply_entries(area, m, entries)->Some_0),
    decreases entries.len(),
{
    if entries.len() > 0 {
        lemma_entries_keep_flags_bounded(area, m, entries.drop_last());
        let p = apply_entries(area, m, entries.drop_last())->Some_0;
        let e = entries.last();
        reveal(apply_entry);
        match standard_record_at(area, e.data_offset, e.record_type) {
            Some(rec) => {
                if rec.data_type == ARRAY_TYPE {
                    match array_offsets_of(rec.record_data) {
                        Some(offsets) => match array_records(area, offsets, e.record_type) {
                            Some(items) => lemma_items_keep_flags(p, items),
                            None => {},
                        },
                        None => {},
                    }
                } else {
                    reveal(apply_single);
                    let q = rec.record_data;
                    assert(flag_count(q.len()) <= 3);
                }
            },
            None => {},
        }
    }
}

/// Array records never change the flag lists.
proof fn lemma_items_keep_flags(m: BookmarkView, items: Seq<RecordView>)
    ensures
        apply_items(m, items).target_flags == m.target_flags,
        apply_items(m, items).volume_flag == m.volume_flag,
    decreases items.len(),
{
    if items.len() > 0 {
        lemma_items_keep_flags(m, items.drop_last());
        reveal(apply_item);
    }
}

} // verus!
