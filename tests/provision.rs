use jeefs_header::bytes::{i64_to_le, read_i64_le, read_u32_le, u32_to_le, write_bytes};
use jeefs_header::checksum::crc32_range;
use jeefs_header::provision::{hex_to_bytes, pack_string, parse_hex_u8_range, parse_mac};

#[test]
fn pack_string_truncates_to_field() {
    let mut buf = vec![0u8; 40];
    pack_string(&mut buf, 4, 8, "abcdefghijk");
    assert_eq!(&buf[4..11], b"abcdefg");
    assert_eq!(buf[11], 0);
    assert_eq!(buf[3], 0);
    let mut buf = vec![0xEEu8; 10];
    pack_string(&mut buf, 0, 10, "ab");
    assert_eq!(&buf[..3], &[b'a', b'b', 0xEE]);
    pack_string(&mut buf, 5, 1, "zzz");
    assert_eq!(buf[5], 0xEE);
}

#[test]
fn parse_mac_values() {
    assert_eq!(parse_mac("aa:BB:0c:dd:ee:ff"), Some([0xAA, 0xBB, 0x0C, 0xDD, 0xEE, 0xFF]));
    assert_eq!(parse_mac("1:2:3:4:5:6"), Some([1, 2, 3, 4, 5, 6]));
    assert_eq!(parse_mac("aa:bb:cc:dd:ee"), None);
    assert_eq!(parse_mac("aa:bb:cc:dd:ee:ff:00"), None);
    assert_eq!(parse_mac("aa:bb:zz:cc:dd:ee:ff"), Some([0xAA, 0xBB, 0xCC, 0xDD, 0xEE, 0xFF]));
    assert_eq!(parse_mac("aa:bb:cc:dd:ee:100"), None);
    assert_eq!(parse_mac("+a:bb:cc:dd:ee:0ff"), Some([0x0A, 0xBB, 0xCC, 0xDD, 0xEE, 0xFF]));
    assert_eq!(parse_mac(""), None);
}

#[test]
fn hex_pairs_decode() {
    assert_eq!(hex_to_bytes("00ff10Ab"), vec![0x00, 0xFF, 0x10, 0xAB]);
    assert_eq!(hex_to_bytes("zz01"), vec![0x01]);
    assert_eq!(hex_to_bytes("+f"), vec![0x0F]);
    assert_eq!(hex_to_bytes(""), Vec::<u8>::new());
    assert_eq!(hex_to_bytes("abc"), vec![0xAB]);
}

#[test]
fn radix16_byte_ranges() {
    let s = b"x+7f:100:-1:+:0000ff";
    assert_eq!(parse_hex_u8_range(s, 1, 4), Some(0x7F));
    assert_eq!(parse_hex_u8_range(s, 5, 8), None);
    assert_eq!(parse_hex_u8_range(s, 9, 11), None);
    assert_eq!(parse_hex_u8_range(s, 12, 13), None);
    assert_eq!(parse_hex_u8_range(s, 14, 20), Some(0xFF));
    assert_eq!(parse_hex_u8_range(s, 4, 4), None);
}

#[test]
fn little_endian_codec() {
    let data = [0x78u8, 0x56, 0x34, 0x12, 0xFE, 0xFF, 0xFF, 0xFF, 0xFF, 0xFF, 0xFF, 0xFF];
    assert_eq!(read_u32_le(&data, 0), 0x12345678);
    assert_eq!(read_i64_le(&data, 4), -2);
    assert_eq!(u32_to_le(0x12345678), [0x78, 0x56, 0x34, 0x12]);
    for x in [0i64, 1, -1, i64::MIN, i64::MAX, 1_700_000_000] {
        assert_eq!(i64_to_le(x), x.to_le_bytes());
        assert_eq!(read_i64_le(&i64_to_le(x), 0), x);
    }
    let mut buf = vec![0u8; 6];
    write_bytes(&mut buf, 2, &[9, 8, 7]);
    assert_eq!(buf, vec![0, 0, 9, 8, 7, 0]);
}

#[test]
fn crc32_of_known_input() {
    let data = b"123456789";
    assert_eq!(crc32_range(data, 0, 9), 0xCBF43926);
    assert_eq!(crc32_range(data, 0, 0), 0);
    assert_eq!(crc32_range(b"xx123456789", 2, 11), 0xCBF43926);
}
