use jeefs_header::decoded::{
    view_header, Header, HeaderError, JeepromHeaderV1, JeepromHeaderV2, JeepromHeaderV3, JeepromHeaderVersion,
};
use jeefs_header::filetable::JeefsFileHeaderV1;
use jeefs_header::header::{detect_version, initialize_header, update_crc, verify_crc};
use jeefs_header::layout::{crc_coverage, header_size, MAGIC};
use jeefs_header::signature::SignatureAlgorithm;
use jeefs_header::text::str_from_bytes;

fn make_v3_header() -> Vec<u8> {
    let mut buf = vec![0u8; 256];
    buf[0..8].copy_from_slice(&MAGIC);
    buf[8] = 3;
    buf[9] = 0;
    let name = b"TestBoard";
    buf[12..12 + name.len()].copy_from_slice(name);
    let ver = b"1.0";
    buf[44..44 + ver.len()].copy_from_slice(ver);
    let serial = b"SN-001";
    buf[76..76 + serial.len()].copy_from_slice(serial);
    buf[172..178].copy_from_slice(&[0xAA, 0xBB, 0xCC, 0xDD, 0xEE, 0xFF]);
    let crc = crc32fast::hash(&buf[..252]);
    buf[252..256].copy_from_slice(&crc.to_le_bytes());
    buf
}

#[test]
fn test_detect_version() {
    let buf = make_v3_header();
    assert_eq!(detect_version(&buf), Some(3));
}

#[test]
fn test_detect_version_too_short() {
    assert_eq!(detect_version(&[0; 4]), None);
}

#[test]
fn test_detect_version_bad_magic() {
    let mut buf = make_v3_header();
    buf[0] = b'X';
    assert_eq!(detect_version(&buf), None);
}

#[test]
fn test_header_size() {
    assert_eq!(header_size(1), Some(512));
    assert_eq!(header_size(2), Some(256));
    assert_eq!(header_size(3), Some(256));
    assert_eq!(header_size(4), None);
}

#[test]
fn test_verify_crc() {
    let buf = make_v3_header();
    assert!(verify_crc(&buf));
}

#[test]
fn test_verify_crc_corrupted() {
    let mut buf = make_v3_header();
    buf[20] ^= 0xFF;
    assert!(!verify_crc(&buf));
}

#[test]
fn test_update_crc() {
    let mut buf = make_v3_header();
    buf[20] = 0x42;
    assert!(!verify_crc(&buf));
    assert!(update_crc(&mut buf));
    assert!(verify_crc(&buf));
}

#[test]
fn test_v3_field_access() {
    let buf = make_v3_header();
    let hdr = JeepromHeaderV3::from_bytes(&buf).unwrap();
    assert_eq!(hdr.boardname_str(), "TestBoard");
    assert_eq!(hdr.boardversion_str(), "1.0");
    assert_eq!(hdr.serial_str(), "SN-001");
    assert_eq!(hdr.mac, [0xAA, 0xBB, 0xCC, 0xDD, 0xEE, 0xFF]);
    assert_eq!(hdr.signature_algorithm(), Ok(SignatureAlgorithm::NONE));
}

#[test]
fn test_struct_sizes() {
    assert_eq!(core::mem::size_of::<JeepromHeaderVersion>(), 12);
    assert_eq!(core::mem::size_of::<JeepromHeaderV1>(), 512);
    assert_eq!(core::mem::size_of::<JeepromHeaderV2>(), 256);
    assert_eq!(core::mem::size_of::<JeepromHeaderV3>(), 256);
    assert_eq!(core::mem::size_of::<JeefsFileHeaderV1>(), 24);
}

#[test]
fn test_initialize_header() {
    for ver in [1u8, 2, 3] {
        let size = header_size(ver).unwrap();
        let buf = initialize_header(ver).unwrap();
        assert_eq!(buf.len(), size);
        assert_eq!(detect_version(&buf), Some(ver));
        assert!(verify_crc(&buf));
    }
    assert!(initialize_header(0).is_none());
    assert!(initialize_header(4).is_none());
    // Buffer too small
    let mut small = initialize_header(3).unwrap();
    small.truncate(100);
    assert!(!update_crc(&mut small));
}

#[test]
fn test_enum_from_u8() {
    assert_eq!(SignatureAlgorithm::from_u8(0), Ok(SignatureAlgorithm::NONE));
    assert_eq!(SignatureAlgorithm::from_u8(2), Ok(SignatureAlgorithm::SECP256R1));
    assert_eq!(SignatureAlgorithm::from_u8(99), Err(99));
}

#[test]
fn test_signature_size() {
    assert_eq!(SignatureAlgorithm::NONE.signature_size(), 0);
    assert_eq!(SignatureAlgorithm::SECP192R1.signature_size(), 48);
    assert_eq!(SignatureAlgorithm::SECP256R1.signature_size(), 64);
}

#[test]
fn initialized_headers_have_exact_contents() {
    for ver in [1u8, 2, 3] {
        let buf = initialize_header(ver).unwrap();
        let cov = crc_coverage(ver).unwrap();
        assert_eq!(&buf[0..8], b"JETHOME\0");
        assert_eq!(buf[8], ver);
        assert!(buf[9..cov].iter().all(|&b| b == 0));
        let crc = crc32fast::hash(&buf[..cov]);
        assert_eq!(&buf[cov..cov + 4], &crc.to_le_bytes());
    }
    assert_eq!(initialize_header(1).unwrap().len(), 512);
    assert_eq!(initialize_header(2).unwrap().len(), 256);
    assert_eq!(initialize_header(255), None);
}

#[test]
fn crc_coverage_per_version() {
    assert_eq!(crc_coverage(1), Some(508));
    assert_eq!(crc_coverage(2), Some(252));
    assert_eq!(crc_coverage(3), Some(252));
    assert_eq!(crc_coverage(0), None);
    assert_eq!(crc_coverage(4), None);
}

#[test]
fn detect_version_indeterminate_cases() {
    for len in 0..12 {
        let buf = initialize_header(3).unwrap();
        assert_eq!(detect_version(&buf[..len]), None);
    }
    for bad in [0u8, 4, 255] {
        let mut buf = initialize_header(3).unwrap();
        buf[8] = bad;
        assert_eq!(detect_version(&buf), None);
        assert!(!verify_crc(&buf));
    }
    let buf = initialize_header(2).unwrap();
    assert_eq!(detect_version(&buf[..12]), Some(2));
}

#[test]
fn flipping_any_covered_byte_breaks_crc_and_update_restores_it() {
    for ver in [1u8, 2, 3] {
        let cov = crc_coverage(ver).unwrap();
        let valid = initialize_header(ver).unwrap();
        for i in 0..cov {
            let mut buf = valid.clone();
            buf[i] ^= 0x5A;
            assert!(!verify_crc(&buf), "version {} byte {}", ver, i);
            if i >= 9 {
                assert!(update_crc(&mut buf));
                assert!(verify_crc(&buf));
            }
        }
    }
}

#[test]
fn verify_crc_rejects_short_buffer() {
    let buf = initialize_header(1).unwrap();
    assert!(verify_crc(&buf));
    assert!(!verify_crc(&buf[..256]));
    assert!(!verify_crc(&[]));
}

#[test]
fn update_crc_stores_checksum_little_endian() {
    let mut buf = make_v3_header();
    buf[100] = 7;
    assert!(update_crc(&mut buf));
    let crc = crc32fast::hash(&buf[..252]);
    assert_eq!(&buf[252..256], &crc.to_le_bytes());
    let hdr = JeepromHeaderV3::from_bytes(&buf).unwrap();
    assert_eq!(hdr.crc32, crc);
}

#[test]
fn update_crc_fails_without_header() {
    let mut buf = vec![0u8; 256];
    assert!(!update_crc(&mut buf));
    assert_eq!(buf, vec![0u8; 256]);
}

#[test]
fn v1_and_v2_fields_decode() {
    let mut buf = initialize_header(1).unwrap();
    buf[12..17].copy_from_slice(b"Board");
    buf[108..112].copy_from_slice(b"USID");
    buf[140..143].copy_from_slice(b"CPU");
    buf[180] = 0x34;
    buf[181] = 0x12;
    buf[210] = 0xFF;
    buf[211] = 0xFF;
    assert!(update_crc(&mut buf));
    let h1 = JeepromHeaderV1::from_bytes(&buf).unwrap();
    assert_eq!(h1.version, 1);
    assert_eq!(h1.boardname_str(), "Board");
    assert_eq!(h1.usid_str(), "USID");
    assert_eq!(h1.cpuid_str(), "CPU");
    assert_eq!(h1.serial_str(), "");
    assert_eq!(h1.boardversion_str(), "");
    assert_eq!(h1.modules[0], 0x1234);
    assert_eq!(h1.modules[15], 0xFFFF);
    assert_eq!(h1.crc32, crc32fast::hash(&buf[..508]));
    assert!(JeepromHeaderV1::from_bytes(&buf[..511]).is_none());

    let mut buf = initialize_header(2).unwrap();
    buf[76..80].copy_from_slice(b"SN-2");
    buf[44..47].copy_from_slice(b"2.1");
    buf[172..178].copy_from_slice(&[1, 2, 3, 4, 5, 6]);
    let h2 = JeepromHeaderV2::from_bytes(&buf).unwrap();
    assert_eq!(h2.serial_str(), "SN-2");
    assert_eq!(h2.boardversion_str(), "2.1");
    assert_eq!(h2.boardname_str(), "");
    assert_eq!(h2.usid_str(), "");
    assert_eq!(h2.cpuid_str(), "");
    assert_eq!(h2.mac, [1, 2, 3, 4, 5, 6]);
    assert!(JeepromHeaderV2::from_bytes(&buf[..255]).is_none());
}

#[test]
fn v3_timestamp_and_signature_decode() {
    let mut buf = make_v3_header();
    buf[9] = 2;
    buf[244..252].copy_from_slice(&(-2i64).to_le_bytes());
    buf[180] = 0xAB;
    let hdr = JeepromHeaderV3::from_bytes(&buf).unwrap();
    assert_eq!(hdr.timestamp, -2);
    assert_eq!(hdr.signature[0], 0xAB);
    assert_eq!(hdr.signature_algorithm(), Ok(SignatureAlgorithm::SECP256R1));
    assert_eq!(hdr.usid_str(), "");
    assert_eq!(hdr.cpuid_str(), "");
    buf[244..252].copy_from_slice(&1_700_000_000i64.to_le_bytes());
    let hdr = JeepromHeaderV3::from_bytes(&buf).unwrap();
    assert_eq!(hdr.timestamp, 1_700_000_000);
}

#[test]
fn signature_catalog() {
    let expected = [
        (0u8, SignatureAlgorithm::NONE, 0usize),
        (1, SignatureAlgorithm::SECP192R1, 48),
        (2, SignatureAlgorithm::SECP256R1, 64),
    ];
    for (code, alg, size) in expected {
        let got = SignatureAlgorithm::from_u8(code).unwrap();
        assert_eq!(got, alg);
        assert_eq!(got.signature_size(), size);
    }
    assert_eq!(SignatureAlgorithm::from_u8(3), Err(3));
    assert_eq!(SignatureAlgorithm::from_u8(99), Err(99));
    let mut buf = make_v3_header();
    buf[9] = 99;
    let hdr = JeepromHeaderV3::from_bytes(&buf).unwrap();
    assert_eq!(hdr.signature_algorithm(), Err(99));
}

#[test]
fn version_probe_decodes() {
    let buf = make_v3_header();
    let probe = JeepromHeaderVersion::from_bytes(&buf).unwrap();
    assert_eq!(probe.magic, MAGIC);
    assert_eq!(probe.version, 3);
    assert_eq!(probe.reserved1, [0, 0, 0]);
    assert!(JeepromHeaderVersion::from_bytes(&buf[..11]).is_none());
}

#[test]
fn text_fields_stop_at_zero_and_fail_soft() {
    assert_eq!(str_from_bytes(b"abc\0def"), "abc");
    assert_eq!(str_from_bytes(b"abc"), "abc");
    assert_eq!(str_from_bytes(b"\0abc"), "");
    assert_eq!(str_from_bytes(&[0xC3, 0xA9, 0x21, 0]), "\u{e9}!");
    assert_eq!(str_from_bytes(&[0x41, 0xFF, 0x42, 0]), "");
    assert_eq!(str_from_bytes(&[0xC3, 0, 0xA9]), "");
    assert_eq!(str_from_bytes(&[]), "");
}

#[test]
fn view_header_by_declared_version() {
    let buf = make_v3_header();
    match view_header(&buf, 3) {
        Ok(Header::V3(h)) => assert_eq!(h.boardname_str(), "TestBoard"),
        other => panic!("unexpected {:?}", other),
    }
    match view_header(&buf, 2) {
        Ok(Header::V2(h)) => assert_eq!(h.serial_str(), "SN-001"),
        other => panic!("unexpected {:?}", other),
    }
    assert_eq!(
        view_header(&buf, 1).err(),
        Some(HeaderError::BufferTooShort { needed: 512, got: 256 })
    );
    assert_eq!(view_header(&buf, 0).err(), Some(HeaderError::UnsupportedVersion(0)));
    assert_eq!(view_header(&buf, 7).err(), Some(HeaderError::UnsupportedVersion(7)));
    let v1 = initialize_header(1).unwrap();
    assert!(matches!(view_header(&v1, 1), Ok(Header::V1(_))));
}
