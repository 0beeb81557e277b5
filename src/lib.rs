//! JEEFS EEPROM header library.
//!
//! Decoding, encoding and integrity checking of the versioned JEEFS EEPROM
//! header (versions 1, 2 and 3) and traversal of the linked file table that
//! follows it. Every structure is decoded from explicit little-endian byte
//! offsets, so the wire image never depends on native struct layout.

pub mod bytes;
pub mod signature;
pub mod checksum;
pub mod text;
pub mod layout;
pub mod header;
pub mod filetable;
pub mod decoded;
pub mod provision;

pub use decoded::{JeepromHeaderV1, JeepromHeaderV2, JeepromHeaderV3, JeepromHeaderVersion};
pub use filetable::{walk_file_table, FileRecord, FileTableError, JeefsFileHeaderV1};
pub use header::{detect_version, initialize_header, update_crc, verify_crc};
pub use layout::{crc_coverage, header_size, MAGIC};
pub use signature::SignatureAlgorithm;
pub use text::str_from_bytes;
