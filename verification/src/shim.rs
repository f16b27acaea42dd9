//! The conformance driver's own decisions, kept apart from the engine: the
//! echo transform applied to received plaintext, and the post-handshake
//! expectation checks a test asserts.

use vstd::prelude::*;

use crate::conn::HandshakeKind;
use crate::negotiation::TLS13;

verus! {

/// The driver's echo: every received byte is sent back inverted.
pub fn echo_transform(data: &Vec<u8>) -> (r: Vec<u8>)
    ensures
        r@.len() == data@.len(),
        forall|k: int| 0 <= k < data@.len() ==> r@[k] == (data@[k] ^ 0xff),
{
    let mut out: Vec<u8> = Vec::new();
    let mut k: usize = 0;
    while k < data.len()
        invariant
            k <= data@.len(),
            out@.len() == k,
            forall|j: int| 0 <= j < k ==> out@[j] == (data@[j] ^ 0xff),
        decreases data@.len() - k,
    {
        out.push(data[k] ^ 0xff);
        k = k + 1;
    }
    out
}

/// Whether the negotiated version satisfies an expected one; only the
/// newest version is asserted by the harness, and no expectation passes
/// vacuously.
pub fn version_expected(expect_version: u16, negotiated: Option<u16>) -> (r: bool)
    ensures
        r == (expect_version != 0x0304 || negotiated == Some(TLS13)),
{
    if expect_version != 0x0304 {
        true
    } else {
        match negotiated {
            Some(v) => v == TLS13,
            None => false,
        }
    }
}

/// Whether the negotiated key-exchange group matches an expected one; no
/// expectation passes vacuously when the group is absent.
pub fn curve_expected(expected: Option<u16>, actual: Option<u16>) -> (r: bool)
    ensures
        r == (match expected {
            Some(e) => actual == Some(e),
            None => true,
        }),
{
    match expected {
        Some(e) => actual == Some(e),
        None => true,
    }
}

} // verus!
