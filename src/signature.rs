//! The closed catalog of signature algorithms a version 3 header may name.

use vstd::prelude::*;

verus! {

/// Signature algorithm recorded in the `signature_version` byte of a v3 header.
#[derive(Debug, Clone, Copy, PartialEq, Eq, Structural)]
#[allow(non_camel_case_types)]
pub enum SignatureAlgorithm {
    /// No signature.
    NONE,
    /// ECDSA secp192r1 / NIST P-192, `r || s`.
    SECP192R1,
    /// ECDSA secp256r1 / NIST P-256, `r || s`.
    SECP256R1,
}

/// The algorithm a code names, or `None` for a code outside the catalog.
pub open spec fn algorithm_of_code(v: u8) -> Option<SignatureAlgorithm> {
    if v == 0 {
        Some(SignatureAlgorithm::NONE)
    } else if v == 1 {
        Some(SignatureAlgorithm::SECP192R1)
    } else if v == 2 {
        Some(SignatureAlgorithm::SECP256R1)
    } else {
        None
    }
}

/// Length in bytes of a signature made with `a`.
pub open spec fn spec_signature_size(a: SignatureAlgorithm) -> nat {
    match a {
        SignatureAlgorithm::NONE => 0,
        SignatureAlgorithm::SECP192R1 => 48,
        SignatureAlgorithm::SECP256R1 => 64,
    }
}

impl SignatureAlgorithm {
    /// Maps a one-byte code to its algorithm; an unknown code comes back as
    /// `Err` carrying the raw byte, never coerced to `NONE`.
    pub fn from_u8(v: u8) -> (r: Result<SignatureAlgorithm, u8>)
        ensures
            match algorithm_of_code(v) {
                Some(a) => r == Ok::<SignatureAlgorithm, u8>(a),
                None => r == Err::<SignatureAlgorithm, u8>(v),
            },
    {
        match v {
            0 => Ok(SignatureAlgorithm::NONE),
            1 => Ok(SignatureAlgorithm::SECP192R1),
            2 => Ok(SignatureAlgorithm::SECP256R1),
            _ => Err(v),
        }
    }

    /// Expected signature length in bytes: 0, 48 or 64.
    pub fn signature_size(self) -> (r: usize)
        ensures
            r == spec_signature_size(self),
    {
        match self {
            SignatureAlgorithm::NONE => 0,
            SignatureAlgorithm::SECP192R1 => 48,
            SignatureAlgorithm::SECP256R1 => 64,
        }
    }
}

} // verus!
