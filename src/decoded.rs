//! Decoded copies of the fixed-layout header structures, one per version.
//!
//! Each structure is read field by field from its documented byte offsets
//! (little-endian integers, no padding), so byte N of a structure is byte N
//! of the wire image.

use vstd::prelude::*;

use crate::bytes::{le_i64, le_u16, le_u32, read_array, read_i64_le, read_u16_array, read_u32_le};
use crate::layout::{header_size, spec_header_size};
use crate::signature::{algorithm_of_code, SignatureAlgorithm};
use crate::text::{field_text, str_from_bytes};

verus! {

/// The twelve-byte probe at the start of every header, read to learn the
/// version before the full header is parsed.
#[derive(Debug, Clone, Copy)]
pub struct JeepromHeaderVersion {
    /// Magic string `JETHOME\0`.
    pub magic: [u8; 8],
    /// Header version number.
    pub version: u8,
    /// Reserved.
    pub reserved1: [u8; 3],
}

impl JeepromHeaderVersion {
    /// `self` is the probe stored at the start of `s`.
    pub open spec fn decodes(&self, s: Seq<u8>) -> bool {
        &&& self.magic@ == s.subrange(0, 8)
        &&& self.version == s[8]
        &&& self.reserved1@ == s.subrange(9, 12)
    }

    /// Decodes the probe from the start of `data`; `None` if it is shorter
    /// than 12 bytes.
    pub fn from_bytes(data: &[u8]) -> (r: Option<JeepromHeaderVersion>)
        ensures
            r is Some <==> data@.len() >= 12,
            r matches Some(h) ==> h.decodes(data@),
    {
        if data.len() < 12 {
            return None;
        }
        Some(JeepromHeaderVersion {
            magic: read_array(data, 0),
            version: data[8],
            reserved1: read_array(data, 9),
        })
    }
}

/// Header version 1 (512 bytes).
#[derive(Debug, Clone, Copy)]
pub struct JeepromHeaderV1 {
    /// Magic string `JETHOME\0`.
    pub magic: [u8; 8],
    /// Header version, 1.
    pub version: u8,
    /// Reserved.
    pub reserved1: [u8; 3],
    /// Board name, null-terminated.
    pub boardname: [u8; 32],
    /// Board version, null-terminated.
    pub boardversion: [u8; 32],
    /// Device serial number.
    pub serial: [u8; 32],
    /// CPU eFuse USID.
    pub usid: [u8; 32],
    /// CPU ID.
    pub cpuid: [u8; 32],
    /// MAC address, six raw bytes.
    pub mac: [u8; 6],
    /// Reserved for an extended MAC.
    pub reserved2: [u8; 2],
    /// Sixteen module IDs.
    pub modules: [u16; 16],
    /// Reserved for future use.
    pub reserved3: [u8; 296],
    /// CRC-32 of bytes 0..508.
    pub crc32: u32,
}

impl JeepromHeaderV1 {
    /// `self` is the v1 header stored at the start of `s`.
    pub open spec fn decodes(&self, s: Seq<u8>) -> bool {
        &&& self.magic@ == s.subrange(0, 8)
        &&& self.version == s[8]
        &&& self.boardname@ == s.subrange(12, 44)
        &&& self.boardversion@ == s.subrange(44, 76)
        &&& self.serial@ == s.subrange(76, 108)
        &&& self.usid@ == s.subrange(108, 140)
        &&& self.cpuid@ == s.subrange(140, 172)
        &&& self.mac@ == s.subrange(172, 178)
        &&& self.reserved2@ == s.subrange(178, 180)
        &&& self.reserved1@ == s.subrange(9, 12)
        &&& forall|j: int| 0 <= j < 16 ==> self.modules@[j] == le_u16(s, 180 + 2 * j)
        &&& self.reserved3@ == s.subrange(212, 508)
        &&& self.crc32 == le_u32(s, 508)
    }

    /// Decodes a header from the start of `data`; `None` if it is shorter
    /// than 512 bytes. The result is a copy: it does not borrow `data`.
    pub fn from_bytes(data: &[u8]) -> (r: Option<JeepromHeaderV1>)
        ensures
            r is Some <==> data@.len() >= 512,
            r matches Some(h) ==> h.decodes(data@),
    {
        if data.len() < 512 {
            return None;
        }
        Some(JeepromHeaderV1 {
            magic: read_array(data, 0),
            version: data[8],
            boardname: read_array(data, 12),
            boardversion: read_array(data, 44),
            serial: read_array(data, 76),
            usid: read_array(data, 108),
            cpuid: read_array(data, 140),
            mac: read_array(data, 172),
            reserved2: read_array(data, 178),
            reserved1: read_array(data, 9),
            modules: read_u16_array(data, 180),
            reserved3: read_array(data, 212),
            crc32: read_u32_le(data, 508),
        })
    }

    /// The board name as text.
    pub fn boardname_str(&self) -> (r: &str)
        ensures
            r@ == field_text(self.boardname@),
    {
        str_from_bytes(self.boardname.as_slice())
    }

    /// The board version as text.
    pub fn boardversion_str(&self) -> (r: &str)
        ensures
            r@ == field_text(self.boardversion@),
    {
        str_from_bytes(self.boardversion.as_slice())
    }

    /// The serial number as text.
    pub fn serial_str(&self) -> (r: &str)
        ensures
            r@ == field_text(self.serial@),
    {
        str_from_bytes(self.serial.as_slice())
    }

    /// The USID as text.
    pub fn usid_str(&self) -> (r: &str)
        ensures
            r@ == field_text(self.usid@),
    {
        str_from_bytes(self.usid.as_slice())
    }

    /// The CPU ID as text.
    pub fn cpuid_str(&self) -> (r: &str)
        ensures
            r@ == field_text(self.cpuid@),
    {
        str_from_bytes(self.cpuid.as_slice())
    }
}

/// Header version 2 (256 bytes).
#[derive(Debug, Clone, Copy)]
pub struct JeepromHeaderV2 {
    /// Magic string `JETHOME\0`.
    pub magic: [u8; 8],
    /// Header version, 2.
    pub version: u8,
    /// Reserved.
    pub reserved1: [u8; 3],
    /// Board name, null-terminated.
    pub boardname: [u8; 32],
    /// Board version, null-terminated.
    pub boardversion: [u8; 32],
    /// Device serial number.
    pub serial: [u8; 32],
    /// CPU eFuse USID.
    pub usid: [u8; 32],
    /// CPU ID.
    pub cpuid: [u8; 32],
    /// MAC address, six raw bytes.
    pub mac: [u8; 6],
    /// Reserved for an extended MAC.
    pub reserved2: [u8; 2],
    /// Reserved for future use.
    pub reserved3: [u8; 72],
    /// CRC-32 of bytes 0..252.
    pub crc32: u32,
}

impl JeepromHeaderV2 {
    /// `self` is the v2 header stored at the start of `s`.
    pub open spec fn decodes(&self, s: Seq<u8>) -> bool {
        &&& self.magic@ == s.subrange(0, 8)
        &&& self.version == s[8]
        &&& self.boardname@ == s.subrange(12, 44)
        &&& self.boardversion@ == s.subrange(44, 76)
        &&& self.serial@ == s.subrange(76, 108)
        &&& self.usid@ == s.subrange(108, 140)
        &&& self.cpuid@ == s.subrange(140, 172)
        &&& self.mac@ == s.subrange(172, 178)
        &&& self.reserved2@ == s.subrange(178, 180)
        &&& self.reserved1@ == s.subrange(9, 12)
        &&& self.reserved3@ == s.subrange(180, 252)
        &&& self.crc32 == le_u32(s, 252)
    }

    /// Decodes a header from the start of `data`; `None` if it is shorter
    /// than 256 bytes. The result is a copy: it does not borrow `data`.
    pub fn from_bytes(data: &[u8]) -> (r: Option<JeepromHeaderV2>)
        ensures
            r is Some <==> data@.len() >= 256,
            r matches Some(h) ==> h.decodes(data@),
    {
        if data.len() < 256 {
            return None;
        }
        Some(JeepromHeaderV2 {
            magic: read_array(data, 0),
            version: data[8],
            boardname: read_array(data, 12),
            boardversion: read_array(data, 44),
            serial: read_array(data, 76),
            usid: read_array(data, 108),
            cpuid: read_array(data, 140),
            mac: read_array(data, 172),
            reserved2: read_array(data, 178),
            reserved1: read_array(data, 9),
            reserved3: read_array(data, 180),
            crc32: read_u32_le(data, 252),
        })
    }

    /// The board name as text.
    pub fn boardname_str(&self) -> (r: &str)
        ensures
            r@ == field_text(self.boardname@),
    {
        str_from_bytes(self.boardname.as_slice())
    }

    /// The board version as text.
    pub fn boardversion_str(&self) -> (r: &str)
        ensures
            r@ == field_text(self.boardversion@),
    {
        str_from_bytes(self.boardversion.as_slice())
    }

    /// The serial number as text.
    pub fn serial_str(&self) -> (r: &str)
        ensures
            r@ == field_text(self.serial@),
    {
        str_from_bytes(self.serial.as_slice())
    }

    /// The USID as text.
    pub fn usid_str(&self) -> (r: &str)
        ensures
            r@ == field_text(self.usid@),
    {
        str_from_bytes(self.usid.as_slice())
    }

    /// The CPU ID as text.
    pub fn cpuid_str(&self) -> (r: &str)
        ensures
            r@ == field_text(self.cpuid@),
    {
        str_from_bytes(self.cpuid.as_slice())
    }
}

/// Header version 3 (256 bytes).
#[derive(Debug, Clone, Copy)]
pub struct JeepromHeaderV3 {
    /// Magic string `JETHOME\0`.
    pub magic: [u8; 8],
    /// Header version, 3.
    pub version: u8,
    /// Signature algorithm code (see [`SignatureAlgorithm`]).
    pub signature_version: u8,
    /// Reserved.
    pub header_reserved: [u8; 2],
    /// Board name, null-terminated.
    pub boardname: [u8; 32],
    /// Board version, null-terminated.
    pub boardversion: [u8; 32],
    /// Device serial number.
    pub serial: [u8; 32],
    /// CPU eFuse USID.
    pub usid: [u8; 32],
    /// CPU ID.
    pub cpuid: [u8; 32],
    /// MAC address, six raw bytes.
    pub mac: [u8; 6],
    /// Reserved for an extended MAC.
    pub reserved2: [u8; 2],
    /// ECDSA signature `r || s`, zero-padded.
    pub signature: [u8; 64],
    /// Unix timestamp in seconds.
    pub timestamp: i64,
    /// CRC-32 of bytes 0..252.
    pub crc32: u32,
}

impl JeepromHeaderV3 {
    /// `self` is the v3 header stored at the start of `s`.
    pub open spec fn decodes(&self, s: Seq<u8>) -> bool {
        &&& self.magic@ == s.subrange(0, 8)
        &&& self.version == s[8]
        &&& self.boardname@ == s.subrange(12, 44)
        &&& self.boardversion@ == s.subrange(44, 76)
        &&& self.serial@ == s.subrange(76, 108)
        &&& self.usid@ == s.subrange(108, 140)
        &&& self.cpuid@ == s.subrange(140, 172)
        &&& self.mac@ == s.subrange(172, 178)
        &&& self.reserved2@ == s.subrange(178, 180)
        &&& self.signature_version == s[9]
        &&& self.header_reserved@ == s.subrange(10, 12)
        &&& self.signature@ == s.subrange(180, 244)
        &&& self.timestamp == le_i64(s, 244)
        &&& self.crc32 == le_u32(s, 252)
    }

    /// Decodes a header from the start of `data`; `None` if it is shorter
    /// than 256 bytes. The result is a copy: it does not borrow `data`.
    pub fn from_bytes(data: &[u8]) -> (r: Option<JeepromHeaderV3>)
        ensures
            r is Some <==> data@.len() >= 256,
            r matches Some(h) ==> h.decodes(data@),
    {
        if data.len() < 256 {
            return None;
        }
        Some(JeepromHeaderV3 {
            magic: read_array(data, 0),
            version: data[8],
            boardname: read_array(data, 12),
            boardversion: read_array(data, 44),
            serial: read_array(data, 76),
            usid: read_array(data, 108),
            cpuid: read_array(data, 140),
            mac: read_array(data, 172),
            reserved2: read_array(data, 178),
            signature_version: data[9],
            header_reserved: read_array(data, 10),
            signature: read_array(data, 180),
            timestamp: read_i64_le(data, 244),
            crc32: read_u32_le(data, 252),
        })
    }

    /// The board name as text.
    pub fn boardname_str(&self) -> (r: &str)
        ensures
            r@ == field_text(self.boardname@),
    {
        str_from_bytes(self.boardname.as_slice())
    }

    /// The board version as text.
    pub fn boardversion_str(&self) -> (r: &str)
        ensures
            r@ == field_text(self.boardversion@),
    {
        str_from_bytes(self.boardversion.as_slice())
    }

    /// The serial number as text.
    pub fn serial_str(&self) -> (r: &str)
        ensures
            r@ == field_text(self.serial@),
    {
        str_from_bytes(self.serial.as_slice())
    }

    /// The USID as text.
    pub fn usid_str(&self) -> (r: &str)
        ensures
            r@ == field_text(self.usid@),
    {
        str_from_bytes(self.usid.as_slice())
    }

    /// The CPU ID as text.
    pub fn cpuid_str(&self) -> (r: &str)
        ensures
            r@ == field_text(self.cpuid@),
    {
        str_from_bytes(self.cpuid.as_slice())
    }

    /// The signature algorithm named by `signature_version`, or `Err` with
    /// the raw code when it is outside the catalog.
    pub fn signature_algorithm(&self) -> (r: Result<SignatureAlgorithm, u8>)
        ensures
            match algorithm_of_code(self.signature_version) {
                Some(a) => r == Ok::<SignatureAlgorithm, u8>(a),
                None => r == Err::<SignatureAlgorithm, u8>(self.signature_version),
            },
    {
        SignatureAlgorithm::from_u8(self.signature_version)
    }
}

/// A decoded header of any supported version.
#[derive(Debug, Clone, Copy)]
pub enum Header {
    V1(JeepromHeaderV1),
    V2(JeepromHeaderV2),
    V3(JeepromHeaderV3),
}

/// Why a header could not be decoded for a declared version.
#[derive(Debug, Clone, Copy, PartialEq, Eq, Structural)]
pub enum HeaderError {
    /// The version is not 1, 2 or 3.
    UnsupportedVersion(u8),
    /// The buffer is shorter than the version's header size.
    BufferTooShort { needed: usize, got: usize },
}

/// Decodes the header of the declared `version` at the start of `data`.
pub fn view_header(data: &[u8], version: u8) -> (r: Result<Header, HeaderError>)
    ensures
        match spec_header_size(version) {
            None => r == Err::<Header, HeaderError>(HeaderError::UnsupportedVersion(version)),
            Some(n) => if data@.len() < n {
                r == Err::<Header, HeaderError>(
                    HeaderError::BufferTooShort { needed: n, got: data@.len() as usize },
                )
            } else {
                match r {
                    Ok(Header::V1(h)) => version == 1 && h.decodes(data@),
                    Ok(Header::V2(h)) => version == 2 && h.decodes(data@),
                    Ok(Header::V3(h)) => version == 3 && h.decodes(data@),
                    Err(_) => false,
                }
            },
        },
{
    let needed = match header_size(version) {
        Some(n) => n,
        None => return Err(HeaderError::UnsupportedVersion(version)),
    };
    if data.len() < needed {
        return Err(HeaderError::BufferTooShort { needed, got: data.len() });
    }
    match version {
        1 => match JeepromHeaderV1::from_bytes(data) {
            Some(h) => Ok(Header::V1(h)),
            None => Err(HeaderError::BufferTooShort { needed, got: data.len() }),
        },
        2 => match JeepromHeaderV2::from_bytes(data) {
            Some(h) => Ok(Header::V2(h)),
            None => Err(HeaderError::BufferTooShort { needed, got: data.len() }),
        },
        _ => match JeepromHeaderV3::from_bytes(data) {
            Some(h) => Ok(Header::V3(h)),
            None => Err(HeaderError::BufferTooShort { needed, got: data.len() }),
        },
    }
}

} // verus!
