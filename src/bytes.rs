//! Little-endian integer fields and fixed-width byte fields at explicit offsets.

use vstd::prelude::*;

verus! {

/// The unsigned 16-bit little-endian integer stored at `s[off..off + 2]`.
pub open spec fn le_u16(s: Seq<u8>, off: int) -> int {
    s[off] + 256 * s[off + 1]
}

/// The unsigned 32-bit little-endian integer stored at `s[off..off + 4]`.
pub open spec fn le_u32(s: Seq<u8>, off: int) -> int {
    le_u16(s, off) + 65536 * le_u16(s, off + 2)
}

/// The unsigned 64-bit little-endian integer stored at `s[off..off + 8]`.
pub open spec fn le_u64(s: Seq<u8>, off: int) -> int {
    le_u32(s, off) + 4294967296 * le_u32(s, off + 4)
}

/// The two's-complement 64-bit little-endian integer stored at `s[off..off + 8]`.
pub open spec fn le_i64(s: Seq<u8>, off: int) -> int {
    let u = le_u64(s, off);
    if u < 0x8000_0000_0000_0000 {
        u
    } else {
        u - 0x1_0000_0000_0000_0000
    }
}

/// The four little-endian bytes of `x`.
pub open spec fn le_bytes_u32(x: u32) -> Seq<u8> {
    seq![(x % 256) as u8, (x / 256 % 256) as u8, (x / 65536 % 256) as u8, (x / 16777216) as u8]
}

/// Encoding a `u32` and decoding it again gives it back.
pub proof fn lemma_le_u32_round_trip(x: u32)
    ensures
        le_u32(le_bytes_u32(x), 0) == x,
{
    let b = le_bytes_u32(x);
    assert(b[0] == x % 256);
    assert(b[1] == x / 256 % 256);
    assert(b[2] == x / 65536 % 256);
    assert(b[3] == x / 16777216);
    assert((x % 256) + 256 * (x / 256 % 256) + 65536 * ((x / 65536 % 256) + 256 * (x / 16777216))
        == x) by (nonlinear_arith);
}

/// Reads the little-endian `u16` at `data[off..off + 2]`.
pub fn read_u16_le(data: &[u8], off: usize) -> (r: u16)
    requires
        off + 2 <= data.len(),
    ensures
        r == le_u16(data@, off as int),
{
    let lo = data[off] as u16;
    let hi = data[off + 1] as u16;
    lo + hi * 256
}

/// Reads the little-endian `u32` at `data[off..off + 4]`.
pub fn read_u32_le(data: &[u8], off: usize) -> (r: u32)
    requires
        off + 4 <= data.len(),
    ensures
        r == le_u32(data@, off as int),
{
    let lo = read_u16_le(data, off) as u32;
    let hi = read_u16_le(data, off + 2) as u32;
    assert(hi * 65536 <= 65535 * 65536) by (nonlinear_arith)
        requires
            hi <= 65535,
    ;
    lo + hi * 65536
}

/// Reads the little-endian `u64` at `data[off..off + 8]`.
pub fn read_u64_le(data: &[u8], off: usize) -> (r: u64)
    requires
        off + 8 <= data.len(),
    ensures
        r == le_u64(data@, off as int),
{
    let lo = read_u32_le(data, off) as u64;
    let hi = read_u32_le(data, off + 4) as u64;
    assert(hi * 4294967296 <= 4294967295 * 4294967296) by (nonlinear_arith)
        requires
            hi <= 4294967295,
    ;
    lo + hi * 4294967296
}

/// Reads the little-endian two's-complement `i64` at `data[off..off + 8]`.
pub fn read_i64_le(data: &[u8], off: usize) -> (r: i64)
    requires
        off + 8 <= data.len(),
    ensures
        r == le_i64(data@, off as int),
{
    let u = read_u64_le(data, off);
    if u < 0x8000_0000_0000_0000 {
        u as i64
    } else {
        ((u - 0x8000_0000_0000_0000) as i64) + i64::MIN
    }
}

/// The four little-endian bytes of `x`.
pub fn u32_to_le(x: u32) -> (r: [u8; 4])
    ensures
        r@ == le_bytes_u32(x),
{
    let r: [u8; 4] = [(x % 256) as u8, (x / 256 % 256) as u8, (x / 65536 % 256) as u8, (x / 16777216) as u8];
    assert(r@ =~= le_bytes_u32(x));
    r
}

/// Copies the fixed-width field `data[off..off + N]`.
pub fn read_array<const N: usize>(data: &[u8], off: usize) -> (r: [u8; N])
    requires
        off + N <= data.len(),
    ensures
        r@ == data@.subrange(off as int, off + N),
{
    let mut r: [u8; N] = [0u8; N];
    let mut i: usize = 0;
    while i < N
        invariant
            i <= N,
            off + N <= data.len(),
            r@.len() == N,
            forall|j: int| 0 <= j < i ==> r@[j] == data@[off + j],
        decreases N - i,
    {
        r[i] = data[off + i];
        i = i + 1;
    }
    assert(r@ =~= data@.subrange(off as int, off + N));
    r
}

/// Reads `N` consecutive little-endian `u16` values starting at `data[off]`.
pub fn read_u16_array<const N: usize>(data: &[u8], off: usize) -> (r: [u16; N])
    requires
        off + 2 * N <= data.len(),
    ensures
        forall|j: int| 0 <= j < N ==> r@[j] == le_u16(data@, off + 2 * j),
{
    let mut r: [u16; N] = [0u16; N];
    let mut i: usize = 0;
    while i < N
        invariant
            i <= N,
            off + 2 * N <= data.len(),
            r@.len() == N,
            forall|j: int| 0 <= j < i ==> r@[j] == le_u16(data@, off + 2 * j),
        decreases N - i,
    {
        r[i] = read_u16_le(data, off + 2 * i);
        i = i + 1;
    }
    r
}

/// `s` with `src` written over it from `off` on.
pub open spec fn spliced(s: Seq<u8>, off: int, src: Seq<u8>) -> Seq<u8> {
    s.subrange(0, off) + src + s.subrange(off + src.len(), s.len() as int)
}

/// Copies `src` into `buf[off..off + src.len()]`, leaving the rest of `buf` as it was.
pub fn write_bytes(buf: &mut [u8], off: usize, src: &[u8])
    requires
        off + src@.len() <= old(buf)@.len(),
    ensures
        final(buf)@ == spliced(old(buf)@, off as int, src@),
{
    let ghost s0 = buf@;
    let n = src.len();
    let mut i: usize = 0;
    while i < n
        invariant
            i <= n,
            n == src@.len(),
            off + n <= buf.len(),
            buf@.len() == s0.len(),
            forall|j: int| 0 <= j < i ==> buf@[off + j] == src@[j],
            forall|j: int| 0 <= j < s0.len() && !(off <= j < off + i) ==> buf@[j] == s0[j],
        decreases n - i,
    {
        buf[off + i] = src[i];
        i = i + 1;
    }
    assert(buf@ =~= spliced(s0, off as int, src@));
}

/// The eight little-endian two's-complement bytes of `x`.
pub fn i64_to_le(x: i64) -> (r: [u8; 8])
    ensures
        r@.len() == 8,
        le_i64(r@, 0) == x,
{
    let u: u64 = if x >= 0 {
        x as u64
    } else {
        ((x - i64::MIN) as u64) + 0x8000_0000_0000_0000
    };
    assert(u == if x >= 0 { x as int } else { x + 0x1_0000_0000_0000_0000 });
    let lo = (u % 4294967296) as u32;
    let hi = (u / 4294967296) as u32;
    assert(u == lo + 4294967296 * hi) by (nonlinear_arith)
        requires
            lo == u % 4294967296,
            hi == u / 4294967296,
    ;
    let a = u32_to_le(lo);
    let b = u32_to_le(hi);
    let r: [u8; 8] = [a[0], a[1], a[2], a[3], b[0], b[1], b[2], b[3]];
    proof {
        lemma_le_u32_round_trip(lo);
        lemma_le_u32_round_trip(hi);
        assert(le_u32(r@, 0) == le_u32(le_bytes_u32(lo), 0));
        assert(le_u32(r@, 4) == le_u32(le_bytes_u32(hi), 0));
    }
    r
}

} // verus!
