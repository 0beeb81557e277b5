//! The header codec: version detection, CRC verification and update,
//! creation of blank headers, and decoded views of each header version.

use vstd::prelude::*;

use crate::bytes::{le_bytes_u32, le_u32, lemma_le_u32_round_trip, read_u32_le, u32_to_le};
use crate::checksum::{crc32_of, crc32_range};
use crate::layout::{
    crc_coverage, has_magic, header_size, magic_bytes, spec_crc_coverage, spec_header_size, MAGIC,
    MAGIC_LENGTH, VERSION_OFFSET, VERSION_PROBE_SIZE,
};

verus! {

/// The version a buffer announces: `Some(v)` when it holds at least the
/// twelve-byte probe, starts with the magic constant and its version byte
/// `v` is 1, 2 or 3; `None` ("indeterminate") otherwise.
pub open spec fn spec_detect_version(s: Seq<u8>) -> Option<u8> {
    if s.len() >= 12 && s.subrange(0, 8) == magic_bytes() && 1 <= s[8] <= 3 {
        Some(s[8])
    } else {
        None
    }
}

/// The CRC coverage of the header `s` holds, when its version is detected
/// and `s` is long enough for the whole header of that version.
pub open spec fn header_window(s: Seq<u8>) -> Option<int> {
    match spec_detect_version(s) {
        Some(v) => if s.len() >= spec_header_size(v).unwrap() {
            Some(spec_crc_coverage(v).unwrap() as int)
        } else {
            None
        },
        None => None,
    }
}

/// `s` holds a complete header whose stored CRC-32 equals the CRC-32 of its
/// coverage window.
pub open spec fn crc_valid(s: Seq<u8>) -> bool {
    match header_window(s) {
        Some(c) => le_u32(s, c) == crc32_of(s.subrange(0, c)),
        None => false,
    }
}

/// `s` with the four bytes at `c` replaced by the little-endian `crc`.
pub open spec fn with_stored_crc(s: Seq<u8>, c: int, crc: u32) -> Seq<u8> {
    s.subrange(0, c) + le_bytes_u32(crc) + s.subrange(c + 4, s.len() as int)
}

/// `s` with the CRC of its first `c` bytes stored at `c`.
pub open spec fn with_crc(s: Seq<u8>, c: int) -> Seq<u8> {
    with_stored_crc(s, c, crc32_of(s.subrange(0, c)))
}

/// A fresh header of a supported version before its CRC is stored: the magic
/// constant, the version byte, and zeros.
pub open spec fn blank_header(version: u8) -> Seq<u8> {
    magic_bytes() + seq![version] + Seq::new(
        (spec_header_size(version).unwrap() - 9) as nat,
        |i: int| 0u8,
    )
}

/// Storing a CRC and reading it back gives it, and leaves the bytes before it alone.
pub proof fn lemma_with_stored_crc(s: Seq<u8>, c: int, crc: u32)
    requires
        0 <= c,
        c + 4 <= s.len(),
    ensures
        with_stored_crc(s, c, crc).len() == s.len(),
        with_stored_crc(s, c, crc).subrange(0, c) == s.subrange(0, c),
        le_u32(with_stored_crc(s, c, crc), c) == crc,
        forall|i: int|
            0 <= i < s.len() && !(c <= i < c + 4) ==> #[trigger] with_stored_crc(s, c, crc)[i]
                == s[i],
{
    let t = with_stored_crc(s, c, crc);
    let b = le_bytes_u32(crc);
    assert(t.subrange(0, c) =~= s.subrange(0, c));
    assert(t[c] == b[0]);
    assert(t[c + 1] == b[1]);
    assert(t[c + 2] == b[2]);
    assert(t[c + 3] == b[3]);
    lemma_le_u32_round_trip(crc);
}

/// Detects the header version of `data`: `Some(1..=3)` or `None`.
pub fn detect_version(data: &[u8]) -> (r: Option<u8>)
    ensures
        r == spec_detect_version(data@),
{
    if data.len() < VERSION_PROBE_SIZE {
        return None;
    }
    if !has_magic(data) {
        return None;
    }
    let ver = data[VERSION_OFFSET];
    if 1 <= ver && ver <= 3 {
        Some(ver)
    } else {
        None
    }
}

/// The CRC coverage of the complete header `data` holds, if any.
pub fn header_crc_window(data: &[u8]) -> (r: Option<usize>)
    ensures
        match header_window(data@) {
            Some(c) => r == Some(c as usize),
            None => r is None,
        },
        r matches Some(c) ==> c + 4 <= data@.len(),
{
    let ver = match detect_version(data) {
        Some(v) => v,
        None => return None,
    };
    let size = match header_size(ver) {
        Some(s) => s,
        None => return None,
    };
    if data.len() < size {
        return None;
    }
    crc_coverage(ver)
}

/// Whether `data` holds a complete header whose stored CRC field equals `calc`.
pub fn stored_crc_matches(data: &[u8], calc: u32) -> (r: bool)
    ensures
        r == match header_window(data@) {
            Some(c) => le_u32(data@, c) == calc,
            None => false,
        },
{
    match header_crc_window(data) {
        Some(c) => read_u32_le(data, c) == calc,
        None => false,
    }
}

/// Verifies the CRC-32 of the header `data` holds. Fails closed: `false`
/// when the version is indeterminate or the buffer is too short.
pub fn verify_crc(data: &[u8]) -> (r: bool)
    ensures
        r == crc_valid(data@),
{
    match header_crc_window(data) {
        Some(c) => {
            let calc = crc32_range(data, 0, c);
            stored_crc_matches(data, calc)
        },
        None => false,
    }
}

/// Writes `crc` into the CRC field of the complete header `data` holds.
/// Returns `false`, and changes nothing, when there is no such header.
pub fn store_crc(data: &mut [u8], crc: u32) -> (r: bool)
    ensures
        r == header_window(old(data)@) is Some,
        match header_window(old(data)@) {
            Some(c) => final(data)@ == with_stored_crc(old(data)@, c, crc),
            None => final(data)@ == old(data)@,
        },
{
    let c = match header_crc_window(data) {
        Some(c) => c,
        None => return false,
    };
    let bytes = u32_to_le(crc);
    let ghost s0 = data@;
    let mut i: usize = 0;
    while i < 4
        invariant
            i <= 4,
            c + 4 <= data.len(),
            data@.len() == s0.len(),
            bytes@ == le_bytes_u32(crc),
            forall|j: int| 0 <= j < i ==> data@[c + j] == bytes@[j],
            forall|j: int| 0 <= j < s0.len() && !(c <= j < c + i) ==> data@[j] == s0[j],
        decreases 4 - i,
    {
        data[c + i] = bytes[i];
        i = i + 1;
    }
    assert(data@ =~= with_stored_crc(s0, c as int, crc));
    true
}

/// Recomputes the CRC-32 over the coverage window of the header `data`
/// holds and stores it in place. Returns `false`, and changes nothing, when
/// the version is indeterminate or the buffer is too short.
pub fn update_crc(data: &mut [u8]) -> (r: bool)
    ensures
        r == header_window(old(data)@) is Some,
        match header_window(old(data)@) {
            Some(c) => final(data)@ == with_crc(old(data)@, c),
            None => final(data)@ == old(data)@,
        },
        r ==> crc_valid(final(data)@),
{
    let c = match header_crc_window(data) {
        Some(c) => c,
        None => return false,
    };
    let calc = crc32_range(data, 0, c);
    let ghost s0 = data@;
    let ok = store_crc(data, calc);
    proof {
        lemma_with_stored_crc(s0, c as int, calc);
        lemma_window_kept(s0, data@, c as int);
    }
    ok
}

/// A change confined to the CRC field keeps the header's window.
proof fn lemma_window_kept(s: Seq<u8>, t: Seq<u8>, c: int)
    requires
        header_window(s) == Some(c),
        t.len() == s.len(),
        t.subrange(0, c) == s.subrange(0, c),
    ensures
        header_window(t) == Some(c),
{
    assert(c >= 252);
    assert(t.subrange(0, 8) =~= t.subrange(0, c).subrange(0, 8));
    assert(s.subrange(0, 8) =~= s.subrange(0, c).subrange(0, 8));
    assert(t[8] == t.subrange(0, c)[8]);
    assert(s[8] == s.subrange(0, c)[8]);
}

/// A buffer shorter than the twelve-byte probe, or whose version byte is
/// not 1, 2 or 3, has an indeterminate version.
pub proof fn lemma_detect_indeterminate(s: Seq<u8>)
    ensures
        s.len() < 12 ==> spec_detect_version(s) is None,
        s.len() > 8 && !(1 <= s[8] <= 3) ==> spec_detect_version(s) is None,
{
}

/// Changing a byte of a valid header's coverage window past the magic
/// constant and the version byte keeps it a complete header of the same
/// version, and recomputing its CRC makes it valid again.
pub proof fn lemma_update_restores_validity(s: Seq<u8>, i: int, x: u8)
    requires
        crc_valid(s),
        9 <= i < header_window(s).unwrap(),
    ensures
        header_window(s.update(i, x)) == header_window(s),
        crc_valid(with_crc(s.update(i, x), header_window(s).unwrap())),
{
    let c = header_window(s).unwrap();
    let t = s.update(i, x);
    assert(t.subrange(0, 8) =~= s.subrange(0, 8));
    assert(t[8] == s[8]);
    assert(header_window(t) == Some(c));
    let u = with_crc(t, c);
    lemma_with_stored_crc(t, c, crc32_of(t.subrange(0, c)));
    lemma_window_kept(t, u, c);
}

/// Creates a zero-filled header of exactly `header_size(version)` bytes
/// holding the magic constant, the version byte and a valid CRC. `None` for
/// an unsupported version.
pub fn initialize_header(version: u8) -> (r: Option<Vec<u8>>)
    ensures
        r is Some <==> spec_header_size(version) is Some,
        r matches Some(b) ==> {
            &&& b@.len() == spec_header_size(version).unwrap()
            &&& b@ == with_crc(blank_header(version), spec_crc_coverage(version).unwrap() as int)
            &&& spec_detect_version(b@) == Some(version)
            &&& crc_valid(b@)
        },
{
    let size = match header_size(version) {
        Some(s) => s,
        None => return None,
    };
    let mut buf: Vec<u8> = Vec::new();
    let mut i: usize = 0;
    while i < size
        invariant
            i <= size,
            buf@.len() == i,
            forall|j: int| 0 <= j < i ==> buf@[j] == 0,
        decreases size - i,
    {
        buf.push(0u8);
        i = i + 1;
    }
    let mut k: usize = 0;
    while k < MAGIC_LENGTH
        invariant
            k <= 8,
            buf@.len() == size,
            size >= 256,
            forall|j: int| 0 <= j < k ==> buf@[j] == magic_bytes()[j],
            forall|j: int| 8 <= j < size ==> buf@[j] == 0,
        decreases 8 - k,
    {
        buf.set(k, MAGIC[k]);
        k = k + 1;
    }
    buf.set(VERSION_OFFSET, version);
    let ghost blank = buf@;
    assert(blank =~= blank_header(version));
    assert(blank.subrange(0, 8) =~= magic_bytes());
    update_crc(buf.as_mut_slice());
    proof {
        let c = spec_crc_coverage(version).unwrap() as int;
        lemma_with_stored_crc(blank, c, crc32_of(blank.subrange(0, c)));
        lemma_window_kept(blank, buf@, c);
    }
    Some(buf)
}

} // verus!
