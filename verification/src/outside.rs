//! Trusted declarations over the outside crates the engine's callers rely
//! on: issuer extraction from certificates.

use vstd::prelude::*;

verus! {

/// What certificate parsing yields as the issuer: the DER bytes of the
/// issuer name (without the outer sequence tag), or nothing when the input
/// does not parse as a certificate.  A function of the certificate bytes
/// alone.
pub uninterp spec fn issuer_of(cert_der: Seq<u8>) -> Option<Seq<u8>>;

/// Relies on webpki's `EndEntityCert::try_from`, a deterministic parse of
/// the DER bytes, and its `issuer()` accessor.
#[verifier::external_body]
pub fn cert_issuer(der: &Vec<u8>) -> (r: Option<Vec<u8>>)
    ensures
        match r {
            Some(v) => issuer_of(der@) == Some(v@),
            None => issuer_of(der@) is None,
        },
{
    let cert = rustls_pki_types::CertificateDer::from(der.as_slice());
    match webpki::EndEntityCert::try_from(&cert) {
        Ok(c) => Some(c.issuer().to_vec()),
        Err(_) => None,
    }
}

} // verus!
