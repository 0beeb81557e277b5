//! CRC-32 (IEEE 802.3 polynomial), computed by the `crc32fast` crate.

use vstd::prelude::*;

verus! {

/// The standard CRC-32 of a byte sequence: the same checksum that zip and
/// gzip use. Its value depends on the bytes alone.
pub uninterp spec fn crc32_of(data: Seq<u8>) -> u32;

/// Relies on `crc32fast::hash`: the CRC-32 of exactly the bytes passed in.
#[verifier::external_body]
pub(crate) fn crc32(data: &[u8]) -> (r: u32)
    ensures
        r == crc32_of(data@),
{
    crc32fast::hash(data)
}

/// CRC-32 of the byte range `data[start..end]`.
pub fn crc32_range(data: &[u8], start: usize, end: usize) -> (r: u32)
    requires
        start <= end <= data@.len(),
    ensures
        r == crc32_of(data@.subrange(start as int, end as int)),
{
    let part = vstd::slice::slice_subrange(data, start, end);
    crc32(part)
}

} // verus!
