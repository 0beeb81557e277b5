//! Helpers for populating a blank header from textual values: packing a
//! string into a fixed-width field, and parsing radix-16 byte values, MAC
//! addresses and hex strings.
//!
//! A radix-16 byte value is read as `u8::from_str_radix(_, 16)` reads it: an
//! optional leading `+`, then one or more hex digits of either case whose
//! value is below 256 (leading zeros allowed).

use vstd::prelude::*;
use vstd::string::StringSliceAdditionalSpecFns;

use crate::bytes::{spliced, write_bytes};
use crate::text::{find_byte, len_before};

verus! {

/// Value of one hex digit of either case.
pub open spec fn hex_digit(b: u8) -> Option<nat> {
    if 0x30 <= b <= 0x39 {
        Some((b - 0x30) as nat)
    } else if 0x61 <= b <= 0x66 {
        Some((b - 0x61 + 10) as nat)
    } else if 0x41 <= b <= 0x46 {
        Some((b - 0x41 + 10) as nat)
    } else {
        None
    }
}

/// Every byte of `d` is a hex digit.
pub open spec fn all_hex(d: Seq<u8>) -> bool {
    forall|i: int| 0 <= i < d.len() ==> (#[trigger] hex_digit(d[i])) is Some
}

/// Value of the hex numeral `d`, most significant digit first.
pub open spec fn hex_value(d: Seq<u8>) -> nat
    decreases d.len(),
{
    if d.len() == 0 {
        0
    } else {
        hex_value(d.drop_last()) * 16 + match hex_digit(d.last()) {
            Some(v) => v,
            None => 0,
        }
    }
}

/// The digits of a numeral: without its leading `+`, if it has one.
pub open spec fn numeral_digits(seg: Seq<u8>) -> Seq<u8> {
    if seg.len() > 0 && seg[0] == 0x2b {
        seg.drop_first()
    } else {
        seg
    }
}

/// The byte a radix-16 numeral denotes, or `None` when it is empty, holds a
/// byte that is not a hex digit, or denotes 256 or more.
pub open spec fn parse_hex_u8(seg: Seq<u8>) -> Option<u8> {
    let d = numeral_digits(seg);
    if d.len() > 0 && all_hex(d) && hex_value(d) < 256 {
        Some(hex_value(d) as u8)
    } else {
        None
    }
}

/// The value a parse gave, as a sequence of zero or one bytes.
pub open spec fn kept(o: Option<u8>) -> Seq<u8> {
    match o {
        Some(v) => seq![v],
        None => Seq::empty(),
    }
}

/// The values of the consecutive two-byte numerals of `b`, skipping those
/// that do not parse; a trailing odd byte is ignored.
pub open spec fn hex_pairs(b: Seq<u8>) -> Seq<u8>
    decreases b.len(),
{
    if b.len() < 2 {
        Seq::empty()
    } else {
        kept(parse_hex_u8(b.take(2))) + hex_pairs(b.skip(2))
    }
}

/// The values of the colon-separated numerals of `s`, skipping those that
/// do not parse.
pub open spec fn colon_fields_parsed(s: Seq<u8>) -> Seq<u8>
    decreases s.len(),
{
    let k = len_before(s, 0x3a);
    if k >= s.len() {
        kept(parse_hex_u8(s))
    } else {
        kept(parse_hex_u8(s.take(k as int))) + colon_fields_parsed(s.skip(k + 1 as int))
    }
}

/// The MAC address `s` denotes: exactly six of its colon-separated fields
/// parse as radix-16 bytes.
pub open spec fn spec_parse_mac(s: Seq<u8>) -> Option<Seq<u8>> {
    let p = colon_fields_parsed(s);
    if p.len() == 6 {
        Some(p)
    } else {
        None
    }
}

/// Number of bytes of `value_len` that fit a field of `size` bytes with room
/// for its terminating zero.
pub open spec fn packed_len(value_len: int, size: int) -> int {
    if value_len < size - 1 {
        value_len
    } else {
        size - 1
    }
}

/// A numeral's value never drops as digits are appended.
proof fn lemma_hex_value_grows(d: Seq<u8>, k: int)
    requires
        0 <= k <= d.len(),
    ensures
        hex_value(d.take(k)) <= hex_value(d),
    decreases d.len(),
{
    if k < d.len() {
        assert(d.drop_last().take(k) =~= d.take(k));
        lemma_hex_value_grows(d.drop_last(), k);
    } else {
        assert(d.take(k) =~= d);
    }
}

fn hex_digit_value(b: u8) -> (r: Option<u8>)
    ensures
        match hex_digit(b) {
            Some(v) => r == Some(v as u8),
            None => r is None,
        },
{
    if 0x30 <= b && b <= 0x39 {
        Some(b - 0x30)
    } else if 0x61 <= b && b <= 0x66 {
        Some(b - 0x61 + 10)
    } else if 0x41 <= b && b <= 0x46 {
        Some(b - 0x41 + 10)
    } else {
        None
    }
}

/// Parses `data[start..end]` as a radix-16 byte value.
pub fn parse_hex_u8_range(data: &[u8], start: usize, end: usize) -> (r: Option<u8>)
    requires
        start <= end <= data@.len(),
    ensures
        r == parse_hex_u8(data@.subrange(start as int, end as int)),
{
    let ghost seg = data@.subrange(start as int, end as int);
    let mut ds: usize = start;
    if start < end && data[start] == 0x2b {
        ds = start + 1;
    }
    let ghost d = data@.subrange(ds as int, end as int);
    assert(d =~= numeral_digits(seg));
    if ds == end {
        return None;
    }
    let mut acc: u32 = 0;
    let mut i: usize = ds;
    assert(d.take(0) =~= Seq::<u8>::empty());
    while i < end
        invariant
            ds <= i <= end,
            end <= data@.len(),
            d == data@.subrange(ds as int, end as int),
            d == numeral_digits(data@.subrange(start as int, end as int)),
            d.len() > 0,
            acc == hex_value(d.take(i - ds)),
            acc < 256,
            all_hex(d.take(i - ds)),
        decreases end - i,
    {
        let v = match hex_digit_value(data[i]) {
            Some(v) => v,
            None => {
                assert(d[i - ds] == data@[i as int]);
                assert(hex_digit(d[i - ds]) is None);
                assert(!all_hex(d));
                return None;
            },
        };
        let next = acc * 16 + v as u32;
        assert(d.take(i - ds + 1).drop_last() =~= d.take(i - ds));
        assert(d.take(i - ds + 1).last() == d[i - ds]);
        assert(d[i - ds] == data@[i as int]);
        assert(hex_value(d.take(i - ds + 1)) == next);
        if next >= 256 {
            proof {
                lemma_hex_value_grows(d, i - ds + 1);
            }
            return None;
        }
        assert forall|j: int| 0 <= j < i - ds + 1 implies (#[trigger] hex_digit(
            d.take(i - ds + 1)[j],
        )) is Some by {
            if j < i - ds {
                assert(d.take(i - ds + 1)[j] == d.take(i - ds)[j]);
            }
        }
        acc = next;
        i = i + 1;
    }
    assert(d.take(d.len() as int) =~= d);
    Some(acc as u8)
}

/// Decodes the hex string `hex` two characters at a time, skipping pairs
/// that are not a radix-16 byte value; a trailing odd character is ignored.
pub fn hex_to_bytes(hex: &str) -> (r: Vec<u8>)
    ensures
        r@ == hex_pairs(hex.spec_bytes()),
{
    let b = hex.as_bytes();
    let n = b.len();
    let mut out: Vec<u8> = Vec::new();
    let mut i: usize = 0;
    assert(b@.skip(0) =~= b@);
    while i < n && n - i >= 2
        invariant
            i <= n,
            n == b@.len(),
            out@ + hex_pairs(b@.skip(i as int)) == hex_pairs(b@),
        decreases n - i,
    {
        let v = parse_hex_u8_range(b, i, i + 2);
        let ghost t = b@.skip(i as int);
        assert(t.take(2) =~= b@.subrange(i as int, i + 2));
        assert(t.skip(2) =~= b@.skip(i + 2));
        assert(out@ + kept(v) + hex_pairs(b@.skip(i + 2)) == out@ + hex_pairs(t)) by {
            assert(out@ + kept(v) + hex_pairs(b@.skip(i + 2)) =~= out@ + (kept(v) + hex_pairs(
                b@.skip(i + 2),
            )));
        }
        let ghost before = out@;
        match v {
            Some(x) => {
                out.push(x);
            },
            None => {},
        }
        assert(out@ =~= before + kept(v));
        i = i + 2;
    }
    assert(out@ + Seq::<u8>::empty() =~= out@);
    out
}

/// The values of the colon-separated radix-16 fields of `b` that parse.
pub fn parse_colon_fields(b: &[u8]) -> (r: Vec<u8>)
    ensures
        r@ == colon_fields_parsed(b@),
{
    let n = b.len();
    let mut parts: Vec<u8> = Vec::new();
    let mut fs: usize = 0;
    assert(b@.skip(0) =~= b@);
    loop
        invariant
            fs <= n,
            n == b@.len(),
            parts@ + colon_fields_parsed(b@.skip(fs as int)) == colon_fields_parsed(b@),
        decreases n - fs,
    {
        let k = find_byte(b, fs, 0x3a);
        let v = parse_hex_u8_range(b, fs, k);
        let ghost t = b@.skip(fs as int);
        let ghost before = parts@;
        assert(t.take(k - fs) =~= b@.subrange(fs as int, k as int));
        match v {
            Some(x) => {
                parts.push(x);
            },
            None => {},
        }
        assert(parts@ =~= before + kept(v));
        if k == n {
            assert(t =~= b@.subrange(fs as int, k as int));
            return parts;
        }
        assert(t.skip(k - fs + 1) =~= b@.skip(k + 1));
        assert(before + kept(v) + colon_fields_parsed(b@.skip(k + 1)) =~= before + (kept(v)
            + colon_fields_parsed(b@.skip(k + 1))));
        fs = k + 1;
    }
}

/// Parses a MAC address written as colon-separated radix-16 bytes
/// (`aa:bb:cc:dd:ee:ff`). Fields that do not parse are skipped; the address
/// is returned when exactly six fields parse.
pub fn parse_mac(mac_str: &str) -> (r: Option<[u8; 6]>)
    ensures
        match spec_parse_mac(mac_str.spec_bytes()) {
            Some(p) => r matches Some(m) && m@ == p,
            None => r is None,
        },
{
    let parts = parse_colon_fields(mac_str.as_bytes());
    if parts.len() != 6 {
        return None;
    }
    let m: [u8; 6] = [parts[0], parts[1], parts[2], parts[3], parts[4], parts[5]];
    assert(m@ =~= parts@);
    Some(m)
}

/// Writes the bytes of `value` into the `size`-byte field at `offset`,
/// truncated to `size - 1` bytes so that a terminating zero fits. The rest
/// of the field is left as it was (zero in a blank header).
pub fn pack_string(buf: &mut [u8], offset: usize, size: usize, value: &str)
    requires
        size >= 1,
        offset + packed_len(value.spec_bytes().len() as int, size as int) <= old(buf)@.len(),
    ensures
        final(buf)@ == spliced(
            old(buf)@,
            offset as int,
            value.spec_bytes().take(packed_len(value.spec_bytes().len() as int, size as int)),
        ),
{
    let bytes = value.as_bytes();
    let len = if bytes.len() < size - 1 {
        bytes.len()
    } else {
        size - 1
    };
    let part = vstd::slice::slice_subrange(bytes, 0, len);
    assert(part@ =~= value.spec_bytes().take(len as int));
    write_bytes(buf, offset, part);
}

} // verus!
