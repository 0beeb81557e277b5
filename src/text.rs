//! Fixed-width, null-terminated text fields.
//!
//! A field's text ends at its first zero byte (or at the end of the field).
//! The bytes before it are decoded as UTF-8; bytes that are not valid UTF-8
//! give the empty string. This fail-soft policy serves display only.

use vstd::prelude::*;
use vstd::string::StringSliceAdditionalSpecFns;
use vstd::utf8::{decode_utf8, encode_utf8_decode_utf8, valid_utf8};

verus! {

/// Number of bytes of `b` before the first byte equal to `stop` (all of
/// `b` if it has none).
pub open spec fn len_before(b: Seq<u8>, stop: u8) -> nat
    decreases b.len(),
{
    if b.len() == 0 || b[0] == stop {
        0
    } else {
        1 + len_before(b.drop_first(), stop)
    }
}

/// Number of bytes before the first zero byte of `b` (all of `b` if it has none).
pub open spec fn text_len(b: Seq<u8>) -> nat {
    len_before(b, 0)
}

/// The text a fixed-width field holds: its bytes up to the first zero,
/// decoded as UTF-8, or empty where those bytes are not valid UTF-8.
pub open spec fn field_text(b: Seq<u8>) -> Seq<char> {
    let t = b.take(text_len(b) as int);
    if valid_utf8(t) {
        decode_utf8(t)
    } else {
        Seq::empty()
    }
}

/// `e` is the position of the first `stop` byte in `b`, or `b.len()` if none.
pub proof fn lemma_len_before(b: Seq<u8>, stop: u8, e: int)
    requires
        0 <= e <= b.len(),
        forall|j: int| 0 <= j < e ==> b[j] != stop,
        e == b.len() || b[e] == stop,
    ensures
        len_before(b, stop) == e,
    decreases e,
{
    if e > 0 {
        let t = b.drop_first();
        assert forall|j: int| 0 <= j < e - 1 implies t[j] != stop by {
            assert(t[j] == b[j + 1]);
        }
        if e < b.len() {
            assert(t[e - 1] == b[e]);
        }
        lemma_len_before(t, stop, e - 1);
    }
}

/// Relies on `core::str::from_utf8`: `Some` exactly when the bytes are valid
/// UTF-8, and the string then consists of those very bytes.
#[verifier::external_body]
fn utf8_str(b: &[u8]) -> (r: Option<&str>)
    ensures
        r is Some <==> valid_utf8(b@),
        r matches Some(s) ==> s.spec_bytes() == b@,
{
    match core::str::from_utf8(b) {
        Ok(s) => Some(s),
        Err(_) => None,
    }
}

/// Position of the first `stop` byte of `bytes` at or after `start`, or the
/// length of `bytes` if there is none.
pub fn find_byte(bytes: &[u8], start: usize, stop: u8) -> (r: usize)
    requires
        start <= bytes@.len(),
    ensures
        r == start + len_before(bytes@.skip(start as int), stop),
        start <= r <= bytes@.len(),
{
    let n = bytes.len();
    let mut i: usize = start;
    while i < n && bytes[i] != stop
        invariant
            start <= i <= n,
            n == bytes@.len(),
            forall|j: int| start <= j < i ==> bytes@[j] != stop,
        decreases n - i,
    {
        i = i + 1;
    }
    proof {
        lemma_len_before(bytes@.skip(start as int), stop, i - start);
    }
    i
}

/// Position of the first zero byte of `bytes`, or its length if it has none.
pub fn text_end(bytes: &[u8]) -> (r: usize)
    ensures
        r == text_len(bytes@),
        r <= bytes@.len(),
{
    assert(bytes@.skip(0) =~= bytes@);
    find_byte(bytes, 0, 0)
}

/// The text held by a fixed-width, null-terminated field; empty where the
/// bytes before the terminator are not valid UTF-8.
pub fn str_from_bytes(bytes: &[u8]) -> (r: &str)
    ensures
        r@ == field_text(bytes@),
{
    let end = text_end(bytes);
    let t = vstd::slice::slice_subrange(bytes, 0, end);
    assert(t@ =~= bytes@.take(end as int));
    match utf8_str(t) {
        Some(s) => {
            proof {
                encode_utf8_decode_utf8(s@);
            }
            s
        },
        None => {
            proof {
                reveal_strlit("");
            }
            ""
        },
    }
}

} // verus!
