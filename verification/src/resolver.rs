//! Credential selection.
//!
//! A client may hold several certificates.  When the server requests one, the
//! candidates are tried in the server's signature-scheme preference order;
//! a credential marked as issuer-bound is skipped unless the server's
//! authority hints name its issuer.  The configured credentials are examined
//! in order, then the default credential by scheme-set intersection; the two
//! failure reasons — no acceptable issuer versus no common signature
//! algorithm — are kept distinct.

use vstd::prelude::*;

use crate::codec::bytes_eq;

verus! {

/// Signature scheme codes the engine recognises.
pub open spec fn spec_scheme_supported(s: u16) -> bool {
    ||| s == 0x0401
    ||| s == 0x0501
    ||| s == 0x0601
    ||| s == 0x0403
    ||| s == 0x0503
    ||| s == 0x0603
    ||| s == 0x0804
    ||| s == 0x0805
    ||| s == 0x0806
    ||| s == 0x0807
}

/// Validates a signature-scheme code; an unrecognised code yields nothing.
pub fn lookup_scheme(scheme: u16) -> (r: Option<u16>)
    ensures
        r == if spec_scheme_supported(scheme) {
            Some(scheme)
        } else {
            None::<u16>
        },
{
    if scheme == 0x0401 || scheme == 0x0501 || scheme == 0x0601 || scheme == 0x0403 || scheme
        == 0x0503 || scheme == 0x0603 || scheme == 0x0804 || scheme == 0x0805 || scheme == 0x0806
        || scheme == 0x0807 {
        Some(scheme)
    } else {
        None
    }
}

pub fn contains_u16(v: &Vec<u16>, x: u16) -> (r: bool)
    ensures
        r == v@.contains(x),
{
    let mut i: usize = 0;
    while i < v.len()
        invariant
            i <= v@.len(),
            forall|j: int| 0 <= j < i ==> v@[j] != x,
        decreases v@.len() - i,
    {
        if v[i] == x {
            assert(v@[i as int] == x);
            return true;
        }
        i = i + 1;
    }
    assert(!v@.contains(x));
    false
}

/// A private-key capability: the signature schemes the key can produce.
#[derive(Debug)]
pub struct SigningKey {
    pub schemes: Vec<u16>,
    pub algorithm: u16,
}

impl SigningKey {
    /// Picks the first offered scheme this key supports.
    pub fn choose_scheme(&self, offered: &Vec<u16>) -> (r: Option<u16>)
        ensures
            match r {
                Some(s) => exists|j: int|
                    0 <= j < offered@.len() && offered@[j] == s && self.schemes@.contains(s) && (
                    forall|j2: int|
                        0 <= j2 < j ==> !self.schemes@.contains(#[trigger] offered@[j2])),
                None => forall|j: int|
                    0 <= j < offered@.len() ==> !self.schemes@.contains(#[trigger] offered@[j]),
            },
    {
        let mut i: usize = 0;
        while i < offered.len()
            invariant
                i <= offered@.len(),
                forall|j: int| 0 <= j < i ==> !self.schemes@.contains(#[trigger] offered@[j]),
            decreases offered@.len() - i,
        {
            if contains_u16(&self.schemes, offered[i]) {
                let s = offered[i];
                proof {
                    let j = i as int;
                    assert(0 <= j < offered@.len() && offered@[j] == s && self.schemes@.contains(s)
                        && (forall|j2: int|
                        0 <= j2 < j ==> !self.schemes@.contains(#[trigger] offered@[j2])));
                }
                return Some(s);
            }
            i = i + 1;
        }
        None
    }

    /// Restricts the key to one scheme, as a pinned-preference credential
    /// does: the result supports that scheme alone, and only if the
    /// underlying key does.
    pub fn fix_scheme(self, scheme: u16) -> (r: SigningKey)
        ensures
            r.algorithm == self.algorithm,
            r.schemes@.contains(scheme) <==> self.schemes@.contains(scheme),
            forall|s: u16| s != scheme ==> !r.schemes@.contains(s),
    {
        let mut schemes: Vec<u16> = Vec::new();
        if contains_u16(&self.schemes, scheme) {
            schemes.push(scheme);
        }
        let r = SigningKey { schemes, algorithm: self.algorithm };
        proof {
            if self.schemes@.contains(scheme) {
                assert(r.schemes@[0] == scheme);
            }
            assert forall|s: u16| s != scheme implies !r.schemes@.contains(s) by {
                if r.schemes@.contains(s) {
                    let j = choose|j: int| 0 <= j < r.schemes@.len() && r.schemes@[j] == s;
                    assert(r.schemes@[j] == scheme);
                }
            }
        }
        r
    }
}

/// A certificate chain with its matching private-key capability.
#[derive(Debug)]
pub struct CertifiedKey {
    pub cert_chain: Vec<Vec<u8>>,
    pub key: SigningKey,
}

/// One client credential: a certified key, the issuer name parsed out of its
/// end-entity certificate, and whether it may only answer a server that
/// hints at that issuer.
#[derive(Debug)]
pub struct ClientCert {
    pub certkey: CertifiedKey,
    pub issuer_dn: Vec<u8>,
    pub must_match_issuer: bool,
}

/// Whether a hint list names this credential's issuer.
pub open spec fn spec_issuer_hinted(hints: Seq<Vec<u8>>, issuer: Seq<u8>) -> bool {
    exists|j: int| 0 <= j < hints.len() && (#[trigger] hints[j])@ == issuer
}

pub fn issuer_hinted(hints: &Vec<Vec<u8>>, issuer: &Vec<u8>) -> (r: bool)
    ensures
        r == spec_issuer_hinted(hints@, issuer@),
{
    let mut i: usize = 0;
    while i < hints.len()
        invariant
            i <= hints@.len(),
            forall|j: int| 0 <= j < i ==> (#[trigger] hints@[j])@ != issuer@,
        decreases hints@.len() - i,
    {
        if bytes_eq(&hints[i], issuer) {
            assert((hints@[i as int])@ == issuer@);
            return true;
        }
        i = i + 1;
    }
    false
}

/// Whether a credential may serve a request for `scheme` under the given
/// authority hints.
pub open spec fn spec_cert_ok(c: &ClientCert, hints: Seq<Vec<u8>>, scheme: u16) -> bool {
    (!c.must_match_issuer || spec_issuer_hinted(hints, c.issuer_dn@))
        && c.certkey.key.schemes@.contains(scheme)
}

/// Why no credential could be selected.
#[derive(Clone, Copy, Debug, PartialEq, Eq, Structural)]
pub enum ResolveError {
    /// Every candidate was issuer-bound and the server hinted no acceptable
    /// issuer.
    NoMatchingIssuer,
    /// No candidate supports any signature scheme the server accepts.
    NoCommonSignatureAlgorithms,
}

/// Which credential was selected.
#[derive(Clone, Copy, Debug, PartialEq, Eq, Structural)]
pub enum Selected {
    Additional(usize),
    Default,
}

/// Several client credentials, tried in order, with an optional fallback.
#[derive(Debug)]
pub struct MultipleClientCredentialResolver {
    pub additional: Vec<ClientCert>,
    pub default: Option<ClientCert>,
    pub expect_selected: Option<i64>,
}

impl MultipleClientCredentialResolver {
    pub fn new() -> (r: Self)
        ensures
            r.additional@.len() == 0,
            r.default is None,
            r.expect_selected is None,
    {
        MultipleClientCredentialResolver {
            additional: Vec::new(),
            default: None,
            expect_selected: None,
        }
    }

    /// Adds a further candidate credential.
    pub fn add(&mut self, cert: ClientCert)
        ensures
            final(self).additional@ == old(self).additional@.push(cert),
            final(self).default == old(self).default,
            final(self).expect_selected == old(self).expect_selected,
    {
        self.additional.push(cert);
    }

    /// Installs the fallback credential.
    pub fn set_default(&mut self, cert: ClientCert)
        ensures
            final(self).default == Some(cert),
            final(self).additional@ == old(self).additional@,
            final(self).expect_selected == old(self).expect_selected,
    {
        self.default = Some(cert);
    }

    /// Whether a selection agrees with the test's expectation: an expected
    /// index names an extra credential, and the sentinel names the default.
    pub fn check_expectation(&self, sel: Selected) -> (r: bool)
        ensures
            r == (match sel {
                Selected::Additional(i) => (self.expect_selected matches Some(e) ==> e
                    == i as i64),
                Selected::Default => (self.expect_selected matches Some(e) ==> e == -1),
            }),
    {
        match self.expect_selected {
            Some(e) => match sel {
                Selected::Additional(i) => i as i64 == e,
                Selected::Default => e == -1,
            },
            None => true,
        }
    }

    pub fn has_certs(&self) -> (r: bool)
        ensures
            r == (self.default is Some || self.additional@.len() > 0),
    {
        self.default.is_some() || self.additional.len() > 0
    }

    /// Selects a credential.  `sig_schemes` is in the server's preference
    /// order: for each scheme in turn, the candidate credentials are tried
    /// in their configured order, honouring the issuer constraint; only then
    /// is the fallback tried against the whole scheme set.  The failure
    /// reason distinguishes a missing issuer from a missing algorithm.
    pub fn resolve(&self, root_hint_subjects: &Vec<Vec<u8>>, sig_schemes: &Vec<u16>) -> (r: Result<
        Selected,
        ResolveError,
    >)
        ensures
            match r {
                Ok(Selected::Additional(i)) => i < self.additional@.len() && exists|si: int|
                    0 <= si < sig_schemes@.len() && spec_cert_ok(
                        &self.additional@[i as int],
                        root_hint_subjects@,
                        #[trigger] sig_schemes@[si],
                    ) && (forall|c: int|
                        0 <= c < i ==> !spec_cert_ok(
                            &self.additional@[c],
                            root_hint_subjects@,
                            sig_schemes@[si],
                        )) && (forall|sj: int, c: int|
                        #![trigger sig_schemes@[sj], self.additional@[c]]
                        0 <= sj < si && 0 <= c < self.additional@.len() ==> !spec_cert_ok(
                            &self.additional@[c],
                            root_hint_subjects@,
                            sig_schemes@[sj],
                        )),
                Ok(Selected::Default) => (forall|sj: int, c: int|
                    #![trigger sig_schemes@[sj], self.additional@[c]]
                    0 <= sj < sig_schemes@.len() && 0 <= c < self.additional@.len()
                        ==> !spec_cert_ok(
                        &self.additional@[c],
                        root_hint_subjects@,
                        sig_schemes@[sj],
                    )) && (self.default matches Some(d) && exists|sj: int|
                    0 <= sj < sig_schemes@.len() && d.certkey.key.schemes@.contains(
                        #[trigger] sig_schemes@[sj],
                    )),
                Err(e) => (forall|sj: int, c: int|
                    #![trigger sig_schemes@[sj], self.additional@[c]]
                    0 <= sj < sig_schemes@.len() && 0 <= c < self.additional@.len()
                        ==> !spec_cert_ok(
                        &self.additional@[c],
                        root_hint_subjects@,
                        sig_schemes@[sj],
                    )) && (self.default matches Some(d) ==> forall|sj: int|
                    0 <= sj < sig_schemes@.len() ==> !d.certkey.key.schemes@.contains(
                        #[trigger] sig_schemes@[sj],
                    )) && (e == ResolveError::NoMatchingIssuer <==> ((forall|c: int|
                    0 <= c < self.additional@.len()
                        ==> (#[trigger] self.additional@[c]).must_match_issuer) && (
                self.default matches Some(d) ==> d.must_match_issuer))),
            },
    {
        let mut si: usize = 0;
        while si < sig_schemes.len()
            invariant
                si <= sig_schemes@.len(),
                forall|sj: int, c: int|
                    #![trigger sig_schemes@[sj], self.additional@[c]]
                    0 <= sj < si && 0 <= c < self.additional@.len() ==> !spec_cert_ok(
                        &self.additional@[c],
                        root_hint_subjects@,
                        sig_schemes@[sj],
                    ),
            decreases sig_schemes@.len() - si,
        {
            let scheme = sig_schemes[si];
            let mut c: usize = 0;
            while c < self.additional.len()
                invariant
                    c <= self.additional@.len(),
                    si < sig_schemes@.len(),
                    scheme == sig_schemes@[si as int],
                    forall|j: int|
                        0 <= j < c ==> !spec_cert_ok(
                            &self.additional@[j],
                            root_hint_subjects@,
                            scheme,
                        ),
                    forall|sj: int, c2: int|
                        #![trigger sig_schemes@[sj], self.additional@[c2]]
                        0 <= sj < si && 0 <= c2 < self.additional@.len() ==> !spec_cert_ok(
                            &self.additional@[c2],
                            root_hint_subjects@,
                            sig_schemes@[sj],
                        ),
                decreases self.additional@.len() - c,
            {
                let cert = &self.additional[c];
                let hinted = if cert.must_match_issuer {
                    issuer_hinted(root_hint_subjects, &cert.issuer_dn)
                } else {
                    true
                };
                if hinted && contains_u16(&cert.certkey.key.schemes, scheme) {
                    proof {
                        let siw = si as int;
                        assert(spec_cert_ok(
                            &self.additional@[c as int],
                            root_hint_subjects@,
                            sig_schemes@[siw],
                        ));
                    }
                    return Ok(Selected::Additional(c));
                }
                c = c + 1;
            }
            si = si + 1;
        }
        match &self.default {
            Some(d) => {
                match d.certkey.key.choose_scheme(sig_schemes) {
                    Some(_) => {
                        proof {
                            let s = choose|j: int|
                                0 <= j < sig_schemes@.len() && d.certkey.key.schemes@.contains(
                                    #[trigger] sig_schemes@[j],
                                );
                        }
                        return Ok(Selected::Default);
                    },
                    None => {},
                }
            },
            None => {},
        }
        let mut all_must_match: bool = true;
        let mut c: usize = 0;
        while c < self.additional.len()
            invariant
                c <= self.additional@.len(),
                all_must_match == (forall|j: int|
                    0 <= j < c ==> (#[trigger] self.additional@[j]).must_match_issuer),
            decreases self.additional@.len() - c,
        {
            if !self.additional[c].must_match_issuer {
                all_must_match = false;
            }
            c = c + 1;
        }
        let all_must_match = match &self.default {
            Some(d) => all_must_match && d.must_match_issuer,
            None => all_must_match,
        };
        if all_must_match {
            Err(ResolveError::NoMatchingIssuer)
        } else {
            Err(ResolveError::NoCommonSignatureAlgorithms)
        }
    }
}

impl ClientCert {
    /// Builds a credential from a certified key: the issuer is parsed out of
    /// the last certificate of the chain, and the key may be pinned to one
    /// signature scheme.  An unparseable certificate or an unsupported
    /// scheme yields nothing.
    pub fn new(certkey: CertifiedKey, use_signing_scheme: Option<u16>, must_match_issuer: bool)
        -> (r: Option<ClientCert>)
        ensures
            (r is Some) <==> (certkey.cert_chain@.len() > 0 && (crate::outside::issuer_of(
                certkey.cert_chain@.last()@,
            ) is Some) && (use_signing_scheme matches Some(s) ==> spec_scheme_supported(s))),
            r matches Some(c) ==> c.must_match_issuer == must_match_issuer
                && crate::outside::issuer_of(certkey.cert_chain@.last()@) == Some(c.issuer_dn@)
                && c.certkey.cert_chain == certkey.cert_chain && (match use_signing_scheme {
                Some(s) => (c.certkey.key.schemes@.contains(s)
                    <==> certkey.key.schemes@.contains(s)) && (forall|x: u16|
                    x != s ==> !c.certkey.key.schemes@.contains(x)) && c.certkey.key.algorithm
                    == certkey.key.algorithm,
                None => c.certkey.key == certkey.key,
            }),
    {
        if certkey.cert_chain.len() == 0 {
            return None;
        }
        let last = certkey.cert_chain.len() - 1;
        let issuer_dn = match crate::outside::cert_issuer(&certkey.cert_chain[last]) {
            Some(v) => v,
            None => {
                return None;
            },
        };
        let mut certkey = certkey;
        match use_signing_scheme {
            Some(code) => {
                let scheme = match lookup_scheme(code) {
                    Some(s) => s,
                    None => {
                        return None;
                    },
                };
                let key = CertifiedKey {
                    cert_chain: certkey.cert_chain,
                    key: certkey.key.fix_scheme(scheme),
                };
                certkey = key;
            },
            None => {},
        }
        Some(ClientCert { certkey, issuer_dn, must_match_issuer })
    }
}

} // verus!
