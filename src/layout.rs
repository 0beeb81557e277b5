//! The format registry: the magic constant, the three header versions with
//! their sizes and CRC coverage windows, and the fixed field offsets.

use vstd::prelude::*;

verus! {

/// The eight bytes `J E T H O M E NUL` that open every valid header.
pub const MAGIC: [u8; 8] = [0x4a, 0x45, 0x54, 0x48, 0x4f, 0x4d, 0x45, 0x00];
pub const MAGIC_LENGTH: usize = 8;
/// Newest header version this library knows.
pub const HEADER_VERSION: usize = 3;
pub const SIGNATURE_FIELD_SIZE: usize = 64;
/// Longest file name, not counting its terminating zero.
pub const FILE_NAME_LENGTH: usize = 15;
pub const MAC_LENGTH: usize = 6;
pub const SERIAL_LENGTH: usize = 32;
pub const USID_LENGTH: usize = 32;
pub const CPUID_LENGTH: usize = 32;
pub const BOARDNAME_LENGTH: usize = 31;
pub const BOARDVERSION_LENGTH: usize = 31;
pub const EEPROM_EMPTYBYTE: u8 = 0x00;
pub const EEPROM_PARTITION_SIZE: usize = 4096;

/// Size of the version probe: magic, version byte and three reserved bytes.
pub const VERSION_PROBE_SIZE: usize = 12;
pub const HEADER_V1_SIZE: usize = 512;
pub const HEADER_V2_SIZE: usize = 256;
pub const HEADER_V3_SIZE: usize = 256;
/// Size of one file-table entry.
pub const FILE_ENTRY_SIZE: usize = 24;
/// Size of the stored CRC-32 field at the tail of a header.
pub const CRC_FIELD_SIZE: usize = 4;

/// Byte offset of the version byte.
pub const VERSION_OFFSET: usize = 8;
/// Byte offset of `signature_version` in a v3 header.
pub const SIGNATURE_VERSION_OFFSET: usize = 9;
pub const BOARDNAME_OFFSET: usize = 12;
pub const BOARDVERSION_OFFSET: usize = 44;
pub const SERIAL_OFFSET: usize = 76;
pub const USID_OFFSET: usize = 108;
pub const CPUID_OFFSET: usize = 140;
/// Width of each of the five text fields.
pub const TEXT_FIELD_SIZE: usize = 32;
pub const MAC_OFFSET: usize = 172;
/// Byte offset of the module table in a v1 header.
pub const MODULES_OFFSET: usize = 180;
/// Byte offset of the signature in a v3 header.
pub const SIGNATURE_OFFSET: usize = 180;
/// Byte offset of the timestamp in a v3 header.
pub const TIMESTAMP_OFFSET: usize = 244;

/// The magic constant as a sequence.
pub open spec fn magic_bytes() -> Seq<u8> {
    seq![0x4au8, 0x45u8, 0x54u8, 0x48u8, 0x4fu8, 0x4du8, 0x45u8, 0x00u8]
}

/// Total header size of a version, or `None` for an unsupported version.
pub open spec fn spec_header_size(version: u8) -> Option<usize> {
    if version == 1 {
        Some(512usize)
    } else if version == 2 || version == 3 {
        Some(256usize)
    } else {
        None
    }
}

/// Number of leading bytes the header CRC covers: everything before the
/// four-byte CRC field at the header's tail.
pub open spec fn spec_crc_coverage(version: u8) -> Option<usize> {
    match spec_header_size(version) {
        Some(s) => Some((s - 4) as usize),
        None => None,
    }
}

/// Expected header size in bytes for `version`; `None` outside 1..=3.
pub fn header_size(version: u8) -> (r: Option<usize>)
    ensures
        r == spec_header_size(version),
{
    match version {
        1 => Some(HEADER_V1_SIZE),
        2 => Some(HEADER_V2_SIZE),
        3 => Some(HEADER_V3_SIZE),
        _ => None,
    }
}

/// Number of bytes the header CRC covers for `version`; `None` outside 1..=3.
pub fn crc_coverage(version: u8) -> (r: Option<usize>)
    ensures
        r == spec_crc_coverage(version),
{
    match version {
        1 => Some(HEADER_V1_SIZE - CRC_FIELD_SIZE),
        2 => Some(HEADER_V2_SIZE - CRC_FIELD_SIZE),
        3 => Some(HEADER_V3_SIZE - CRC_FIELD_SIZE),
        _ => None,
    }
}

/// Whether the first eight bytes of `data` are the magic constant.
pub fn has_magic(data: &[u8]) -> (r: bool)
    requires
        data@.len() >= 8,
    ensures
        r == (data@.subrange(0, 8) == magic_bytes()),
{
    let mut i: usize = 0;
    while i < MAGIC_LENGTH
        invariant
            i <= 8,
            data@.len() >= 8,
            forall|j: int| 0 <= j < i ==> data@[j] == magic_bytes()[j],
        decreases 8 - i,
    {
        if data[i] != MAGIC[i] {
            assert(data@.subrange(0, 8)[i as int] != magic_bytes()[i as int]);
            return false;
        }
        i = i + 1;
    }
    assert(data@.subrange(0, 8) =~= magic_bytes());
    true
}

} // verus!
