//! The file table: a singly linked list of 24-byte entries stored after the
//! header, each followed by its data bytes.
//!
//! The walk stops cleanly at a zero or out-of-range offset or at an entry
//! whose name starts with a zero byte. It checks each file's data CRC-32 and
//! goes on past a mismatch, so one pass reports every corrupt file. Links
//! come from untrusted media: the number of entries visited is capped at
//! `image.len() / 24`, so a cycle ends in an error instead of looping.

use vstd::prelude::*;

use crate::bytes::{le_u16, le_u32, read_array, read_u16_le, read_u32_le};
use crate::checksum::{crc32_of, crc32_range};
use crate::layout::FILE_ENTRY_SIZE;
use crate::text::{field_text, str_from_bytes};

verus! {

/// One entry of the file table (24 bytes on the media).
#[derive(Debug, Clone, Copy)]
pub struct JeefsFileHeaderV1 {
    /// File name, null-terminated (at most 15 characters).
    pub name: [u8; 16],
    /// Size of the file's data in bytes.
    pub data_size: u16,
    /// CRC-32 of the file's data only.
    pub crc32: u32,
    /// Absolute offset of the next entry; 0 ends the table.
    pub next_file_address: u16,
}

/// Why a walk of the file table failed. Both are traversal corruption.
#[derive(Debug, Clone, Copy, PartialEq, Eq, Structural)]
pub enum FileTableError {
    /// More entries than `image.len() / 24` were linked: the links form a cycle.
    TraversalCorruption,
    /// An entry's data runs past the end of the image.
    DataOutOfBounds,
}

/// One file found by a walk, in traversal order.
#[derive(Debug, Clone, Copy)]
pub struct FileRecord {
    /// The decoded entry.
    pub entry: JeefsFileHeaderV1,
    /// Offset of the entry in the image.
    pub offset: usize,
    /// Offset of the file's data: right after the entry.
    pub data_offset: usize,
    /// Whether the CRC-32 of the data equals the entry's stored `crc32`.
    pub crc_ok: bool,
}

/// Data size of the entry at `off`.
pub open spec fn entry_data_size(s: Seq<u8>, off: int) -> int {
    le_u16(s, off + 16)
}

/// Stored data CRC of the entry at `off`.
pub open spec fn entry_crc(s: Seq<u8>, off: int) -> int {
    le_u32(s, off + 18)
}

/// Link to the next entry from the entry at `off`.
pub open spec fn entry_next(s: Seq<u8>, off: int) -> int {
    le_u16(s, off + 22)
}

/// The walk ends cleanly at `off`: a zero or out-of-range offset, or an
/// entry whose name starts with a zero byte.
pub open spec fn table_ends_at(s: Seq<u8>, off: int) -> bool {
    off == 0 || off + 24 > s.len() || s[off] == 0
}

/// Whether the data of the entry at `off` matches its stored CRC.
pub open spec fn entry_crc_ok(s: Seq<u8>, off: int) -> bool {
    crc32_of(s.subrange(off + 24, off + 24 + entry_data_size(s, off))) == entry_crc(s, off)
}

/// The offsets of the entries a walk from `off` visits, when at most `fuel`
/// more entries may be visited.
pub open spec fn walk_offsets(s: Seq<u8>, off: int, fuel: nat) -> Result<Seq<int>, FileTableError>
    decreases fuel,
{
    if table_ends_at(s, off) {
        Ok(Seq::empty())
    } else if fuel == 0 {
        Err(FileTableError::TraversalCorruption)
    } else if off + 24 + entry_data_size(s, off) > s.len() {
        Err(FileTableError::DataOutOfBounds)
    } else {
        match walk_offsets(s, entry_next(s, off), (fuel - 1) as nat) {
            Ok(rest) => Ok(seq![off] + rest),
            Err(e) => Err(e),
        }
    }
}

/// The most entries a walk of an image of `len` bytes visits.
pub open spec fn entry_cap(len: int) -> nat {
    (len / 24) as nat
}

/// The entry at `off` is visited and read by a walk: it does not end the
/// table and its data lies inside the image.
pub open spec fn entry_live(s: Seq<u8>, off: int) -> bool {
    !table_ends_at(s, off) && off + 24 + entry_data_size(s, off) <= s.len()
}

/// The offset reached from `off` by following `k` links.
pub open spec fn follow(s: Seq<u8>, off: int, k: nat) -> int
    decreases k,
{
    if k == 0 {
        off
    } else {
        follow(s, entry_next(s, off), (k - 1) as nat)
    }
}

/// The first `k` entries reached from `off` are all live.
pub open spec fn chain_live(s: Seq<u8>, off: int, k: nat) -> bool
    decreases k,
{
    if k == 0 {
        true
    } else {
        entry_live(s, off) && chain_live(s, entry_next(s, off), (k - 1) as nat)
    }
}

proof fn lemma_chain_split(s: Seq<u8>, off: int, a: nat, b: nat)
    requires
        chain_live(s, off, a + b),
    ensures
        chain_live(s, off, a),
        chain_live(s, follow(s, off, a), b),
        follow(s, off, a + b) == follow(s, follow(s, off, a), b),
    decreases a,
{
    if a > 0 {
        lemma_chain_split(s, entry_next(s, off), (a - 1) as nat, b);
        assert((a + b - 1) as nat == (a - 1) as nat + b);
    }
}

/// A walk that fails after following `i` live links fails the same way
/// from the start.
proof fn lemma_walk_shift(s: Seq<u8>, off: int, i: nat, fuel: nat)
    requires
        chain_live(s, off, i),
        i <= fuel,
        walk_offsets(s, follow(s, off, i), (fuel - i) as nat) is Err,
    ensures
        walk_offsets(s, off, fuel) == walk_offsets(s, follow(s, off, i), (fuel - i) as nat),
    decreases i,
{
    if i > 0 {
        lemma_walk_shift(s, entry_next(s, off), (i - 1) as nat, (fuel - 1) as nat);
        assert((fuel - 1 - (i - 1)) as nat == (fuel - i) as nat);
    }
}

/// A walk that reaches a live entry with no visits left fails.
proof fn lemma_walk_exhausted(s: Seq<u8>, off: int, i: nat, n: nat)
    requires
        chain_live(s, off, n),
        i < n,
    ensures
        walk_offsets(s, off, i) == Err::<Seq<int>, FileTableError>(
            FileTableError::TraversalCorruption,
        ),
{
    lemma_chain_split(s, off, i, (n - i) as nat);
    let q = follow(s, off, i);
    assert(entry_live(s, q));
    assert(walk_offsets(s, q, 0) == Err::<Seq<int>, FileTableError>(
        FileTableError::TraversalCorruption,
    ));
    lemma_walk_shift(s, off, i, i);
}

/// A walk started on a cycle of `d` live entries fails, whatever its budget.
proof fn lemma_walk_on_cycle(s: Seq<u8>, p: int, d: nat, fuel: nat)
    requires
        d >= 1,
        chain_live(s, p, d),
        follow(s, p, d) == p,
    ensures
        walk_offsets(s, p, fuel) == Err::<Seq<int>, FileTableError>(
            FileTableError::TraversalCorruption,
        ),
    decreases fuel,
{
    if fuel < d {
        lemma_walk_exhausted(s, p, fuel, d);
    } else {
        lemma_walk_on_cycle(s, p, d, (fuel - d) as nat);
        lemma_walk_shift(s, p, d, fuel);
    }
}

/// A file table whose links lead back to an entry already visited (after
/// `n` live entries the walk is where it was after `m < n`) makes the walk
/// end in `TraversalCorruption` rather than loop forever.
pub proof fn lemma_cycle_is_corruption(s: Seq<u8>, start: int, m: nat, n: nat)
    requires
        m < n,
        chain_live(s, start, n),
        follow(s, start, n) == follow(s, start, m),
    ensures
        walk_offsets(s, start, entry_cap(s.len() as int)) == Err::<Seq<int>, FileTableError>(
            FileTableError::TraversalCorruption,
        ),
{
    let fuel = entry_cap(s.len() as int);
    if fuel >= m {
        lemma_chain_split(s, start, m, (n - m) as nat);
        let p = follow(s, start, m);
        lemma_walk_on_cycle(s, p, (n - m) as nat, (fuel - m) as nat);
        lemma_walk_shift(s, start, m, fuel);
    } else {
        lemma_walk_exhausted(s, start, fuel, n);
    }
}

impl JeefsFileHeaderV1 {
    /// `self` is the entry stored at `s[off..off + 24]`.
    pub open spec fn decodes(&self, s: Seq<u8>, off: int) -> bool {
        &&& self.name@ == s.subrange(off, off + 16)
        &&& self.data_size == entry_data_size(s, off)
        &&& self.crc32 == entry_crc(s, off)
        &&& self.next_file_address == entry_next(s, off)
    }

    /// Decodes the entry stored at `data[off..off + 24]`.
    pub fn read_at(data: &[u8], off: usize) -> (r: JeefsFileHeaderV1)
        requires
            off + 24 <= data.len(),
        ensures
            r.decodes(data@, off as int),
    {
        JeefsFileHeaderV1 {
            name: read_array(data, off),
            data_size: read_u16_le(data, off + 16),
            crc32: read_u32_le(data, off + 18),
            next_file_address: read_u16_le(data, off + 22),
        }
    }

    /// Decodes the entry at the start of `data`; `None` if it is shorter than 24 bytes.
    pub fn from_bytes(data: &[u8]) -> (r: Option<JeefsFileHeaderV1>)
        ensures
            r is Some <==> data@.len() >= 24,
            r matches Some(e) ==> e.decodes(data@, 0),
    {
        if data.len() < FILE_ENTRY_SIZE {
            None
        } else {
            Some(JeefsFileHeaderV1::read_at(data, 0))
        }
    }

    /// The file name as text.
    pub fn name_str(&self) -> (r: &str)
        ensures
            r@ == field_text(self.name@),
    {
        str_from_bytes(self.name.as_slice())
    }

    /// Whether `calc`, the CRC-32 of this file's data, matches the stored one.
    pub fn data_crc_matches(&self, calc: u32) -> (r: bool)
        ensures
            r == (self.crc32 == calc),
    {
        self.crc32 == calc
    }
}

/// `records` are the files at `offs` in `s`, in that order.
pub open spec fn records_match(records: Seq<FileRecord>, s: Seq<u8>, offs: Seq<int>) -> bool {
    &&& records.len() == offs.len()
    &&& forall|i: int|
        0 <= i < records.len() ==> {
            let r = #[trigger] records[i];
            &&& r.offset == offs[i]
            &&& r.data_offset == offs[i] + 24
            &&& r.entry.decodes(s, offs[i])
            &&& r.crc_ok == entry_crc_ok(s, offs[i])
            &&& r.data_offset + r.entry.data_size <= s.len()
        }
}

impl FileRecord {
    /// The file's data bytes within `image`, the image the walk read.
    pub fn data<'a>(&self, image: &'a [u8]) -> (r: &'a [u8])
        requires
            self.data_offset + self.entry.data_size <= image.len(),
        ensures
            r@ == image@.subrange(
                self.data_offset as int,
                self.data_offset + self.entry.data_size,
            ),
    {
        vstd::slice::slice_subrange(
            image,
            self.data_offset,
            self.data_offset + self.entry.data_size as usize,
        )
    }
}

/// Walks the file table of `image` from the entry at `start` (normally the
/// size of the detected header). Returns every file in traversal order with
/// its data-integrity flag, or the corruption that stopped the walk.
pub fn walk_file_table(image: &[u8], start: usize) -> (r: Result<Vec<FileRecord>, FileTableError>)
    ensures
        match walk_offsets(image@, start as int, entry_cap(image@.len() as int)) {
            Ok(offs) => r matches Ok(records) && records_match(records@, image@, offs),
            Err(e) => r == Err::<Vec<FileRecord>, FileTableError>(e),
        },
{
    let len = image.len();
    let cap = len / FILE_ENTRY_SIZE;
    let ghost s = image@;
    let ghost total = walk_offsets(s, start as int, cap as nat);
    let ghost mut seen: Seq<int> = Seq::empty();
    let mut records: Vec<FileRecord> = Vec::new();
    let mut count: usize = 0;
    let mut off: usize = start;
    loop
        invariant
            s == image@,
            len == s.len(),
            cap == entry_cap(len as int),
            count <= cap,
            total == walk_offsets(s, start as int, cap as nat),
            total == match walk_offsets(s, off as int, (cap - count) as nat) {
                Ok(rest) => Ok(seen + rest),
                Err(e) => Err(e),
            },
            records_match(records@, s, seen),
        decreases cap - count,
    {
        if off == 0 || len < FILE_ENTRY_SIZE || off > len - FILE_ENTRY_SIZE {
            assert(seen + Seq::<int>::empty() =~= seen);
            return Ok(records);
        }
        if image[off] == 0 {
            assert(seen + Seq::<int>::empty() =~= seen);
            return Ok(records);
        }
        if count >= cap {
            return Err(FileTableError::TraversalCorruption);
        }
        let entry = JeefsFileHeaderV1::read_at(image, off);
        let data_offset = off + FILE_ENTRY_SIZE;
        let size = entry.data_size as usize;
        if size > len - data_offset {
            return Err(FileTableError::DataOutOfBounds);
        }
        let calc = crc32_range(image, data_offset, data_offset + size);
        let crc_ok = entry.data_crc_matches(calc);
        records.push(FileRecord { entry, offset: off, data_offset, crc_ok });
        proof {
            assert(seen + seq![off as int] + walk_offsets(s, entry_next(s, off as int), (cap - count - 1) as nat).unwrap()
                =~= seen + (seq![off as int] + walk_offsets(s, entry_next(s, off as int), (cap - count - 1) as nat).unwrap()));
            seen = seen + seq![off as int];
        }
        count = count + 1;
        off = entry.next_file_address as usize;
    }
}

} // verus!
