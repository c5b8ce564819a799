//! Decoders for record payloads: text, numbers, dates and flag triples.

use crate::bookmark::BookmarkData;
use crate::format::{date_of, flag_count, flags_of, i32_of, i64_of, text_of};
use crate::reader::{le_u64_at, read_i32_le, read_i64_le, read_u64_be, read_u64_le};
use vstd::prelude::*;
use vstd::slice::slice_subrange;
use vstd::utf8::{decode_utf8, valid_utf8};

verus! {

/// Relies on `std::str::from_utf8`: it accepts exactly the well-formed UTF-8
/// sequences and yields the characters they encode.
#[verifier::external_body]
fn utf8_text(bytes: &[u8]) -> (r: Option<String>)
    ensures
        r is Some <==> valid_utf8(bytes@),
        r matches Some(s) ==> s@ == decode_utf8(bytes@),
{
    match std::str::from_utf8(bytes) {
        Ok(s) => Some(s.to_string()),
        Err(_) => None,
    }
}

impl BookmarkData {
    /// Reads a payload as UTF-8 text; `None` where it is not valid UTF-8.
    pub fn bookmark_data_type_string(standard_data: &[u8]) -> (r: Option<String>)
        ensures
            r is Some <==> text_of(standard_data@) is Some,
            r matches Some(s) ==> text_of(standard_data@) == Some(s@),
    {
        utf8_text(standard_data)
    }

    /// Reads a catalog node ID: a little-endian signed 64-bit number.
    pub fn bookmark_cnid(standard_data: &[u8]) -> (r: Option<(&[u8], i64)>)
        ensures
            r is Some <==> i64_of(standard_data@) is Some,
            r matches Some((rest, v)) ==> i64_of(standard_data@) == Some(v) && rest@
                == standard_data@.subrange(8, standard_data@.len() as int),
    {
        BookmarkData::bookmark_data_type_number_eight(standard_data)
    }

    /// Reads up to three little-endian 64-bit flags. Decoding stops after the
    /// third or at the end of the payload; a payload that ends inside one of
    /// the first three values is refused.
    pub fn bookmark_target_flags(standard_data: &[u8]) -> (r: Option<(&[u8], Vec<u64>)>)
        ensures
            r is Some <==> flags_of(standard_data@) is Some,
            r matches Some((rest, v)) ==> {
                &&& flags_of(standard_data@) == Some(v@)
                &&& v@.len() <= 3
                &&& rest@ == standard_data@.subrange(8 * v@.len() as int, standard_data@.len() as int)
            },
    {
        let len = standard_data.len();
        if !(len == 8 || len == 16 || len >= 24) {
            return None;
        }
        let count: usize = if len >= 24 {
            3
        } else {
            len / 8
        };
        let mut flags: Vec<u64> = Vec::new();
        let mut i: usize = 0;
        while i < count
            invariant
                i <= count,
                count == flag_count(len as nat),
                8 * count <= len,
                len == standard_data@.len(),
                flags@.len() == i,
                forall|j: int| 0 <= j < i ==> flags@[j] == le_u64_at(standard_data@, 8 * j),
            decreases count - i,
        {
            flags.push(read_u64_le(standard_data, 8 * i));
            i = i + 1;
        }
        assert(flags@ =~= Seq::new(
            flag_count(len as nat),
            |j: int| le_u64_at(standard_data@, 8 * j),
        ));
        Some((slice_subrange(standard_data, 8 * count, len), flags))
    }

    /// Reads a little-endian signed 64-bit number (volume size, folder index).
    pub fn bookmark_data_type_number_eight(standard_data: &[u8]) -> (r: Option<(&[u8], i64)>)
        ensures
            r is Some <==> i64_of(standard_data@) is Some,
            r matches Some((rest, v)) ==> i64_of(standard_data@) == Some(v) && rest@
                == standard_data@.subrange(8, standard_data@.len() as int),
    {
        let len = standard_data.len();
        if len < 8 {
            return None;
        }
        Some((slice_subrange(standard_data, 8, len), read_i64_le(standard_data, 0)))
    }

    /// Reads a little-endian signed 32-bit number (folder index, UID, options).
    pub fn bookmark_data_type_number_four(standard_data: &[u8]) -> (r: Option<(&[u8], i32)>)
        ensures
            r is Some <==> i32_of(standard_data@) is Some,
            r matches Some((rest, v)) ==> i32_of(standard_data@) == Some(v) && rest@
                == standard_data@.subrange(4, standard_data@.len() as int),
    {
        let len = standard_data.len();
        if len < 4 {
            return None;
        }
        Some((slice_subrange(standard_data, 4, len), read_i32_le(standard_data, 0)))
    }

    /// Reads a date: a big-endian IEEE-754 double, returned as its bits.
    pub fn bookmark_data_type_date(standard_data: &[u8]) -> (r: Option<(&[u8], u64)>)
        ensures
            r is Some <==> date_of(standard_data@) is Some,
            r matches Some((rest, v)) ==> date_of(standard_data@) == Some(v) && rest@
                == standard_data@.subrange(8, standard_data@.len() as int),
    {
        let len = standard_data.len();
        if len < 8 {
            return None;
        }
        Some((slice_subrange(standard_data, 8, len), read_u64_be(standard_data, 0)))
    }
}

} // verus!
