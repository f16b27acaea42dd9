//! Parameter negotiation: protocol version, cipher suite, key-exchange
//! group, and application protocol.
//!
//! The server picks each parameter from the client's offer; the client then
//! checks the server's choice against what it offered.  Both sides end up
//! with the same parameters, which is proved below.

use vstd::prelude::*;

use crate::codec::bytes_eq;
use crate::errs::{Error, PeerIncompatible, PeerMisbehaved};
use crate::msgs::KeyShareEntry;

verus! {

/// Protocol version code for TLS 1.2 on the wire.
pub const TLS12: u16 = 0x0303;

/// Protocol version code for TLS 1.3 on the wire.
pub const TLS13: u16 = 0x0304;

// ---------------------------------------------------------------------------
// First-common selection
// ---------------------------------------------------------------------------

/// The first element of `pref` that also occurs in `other`.
pub open spec fn spec_first_common(pref: Seq<u16>, other: Seq<u16>) -> Option<u16>
    decreases pref.len(),
{
    if pref.len() == 0 {
        None
    } else if other.contains(pref[0]) {
        Some(pref[0])
    } else {
        spec_first_common(pref.skip(1), other)
    }
}

pub proof fn lemma_first_common_in(pref: Seq<u16>, other: Seq<u16>)
    ensures
        spec_first_common(pref, other) matches Some(x) ==> pref.contains(x) && other.contains(x),
    decreases pref.len(),
{
    if pref.len() > 0 {
        lemma_first_common_in(pref.skip(1), other);
        if !other.contains(pref[0]) {
            let rec = spec_first_common(pref.skip(1), other);
            if rec is Some {
                let x = rec->Some_0;
                let j = choose|j: int|
                    0 <= j < pref.skip(1).len() && pref.skip(1)[j] == x;
                assert(pref[j + 1] == x);
            }
        } else {
            assert(pref.contains(pref[0]));
        }
    }
}

pub fn first_common(pref: &Vec<u16>, other: &Vec<u16>) -> (r: Option<u16>)
    ensures
        r == spec_first_common(pref@, other@),
{
    proof {
        assert(pref@.skip(0) =~= pref@);
    }
    let mut i: usize = 0;
    while i < pref.len()
        invariant
            i <= pref@.len(),
            spec_first_common(pref@, other@) == spec_first_common(pref@.skip(i as int), other@),
        decreases pref@.len() - i,
    {
        proof {
            assert(pref@.skip(i as int)[0] == pref@[i as int]);
            assert(pref@.skip(i as int).skip(1) =~= pref@.skip(i as int + 1));
        }
        if crate::resolver::contains_u16(other, pref[i]) {
            return Some(pref[i]);
        }
        i = i + 1;
    }
    proof {
        assert(pref@.skip(pref@.len() as int) =~= Seq::<u16>::empty());
    }
    None
}

/// The first byte-string of `pref` that also occurs in `other`.
pub open spec fn spec_first_common_bytes(pref: Seq<Seq<u8>>, other: Seq<Seq<u8>>) -> Option<
    Seq<u8>,
>
    decreases pref.len(),
{
    if pref.len() == 0 {
        None
    } else if other.contains(pref[0]) {
        Some(pref[0])
    } else {
        spec_first_common_bytes(pref.skip(1), other)
    }
}

fn contains_bytes(v: &Vec<Vec<u8>>, x: &Vec<u8>) -> (r: bool)
    ensures
        r == v.deep_view().contains(x@),
{
    let mut i: usize = 0;
    while i < v.len()
        invariant
            i <= v@.len(),
            v.deep_view().len() == v@.len(),
            forall|j: int| 0 <= j < i ==> v.deep_view()[j] != x@,
            forall|j: int| 0 <= j < v@.len() ==> #[trigger] v.deep_view()[j] == v@[j].deep_view(),
        decreases v@.len() - i,
    {
        proof {
            assert(v@[i as int].deep_view() =~= v@[i as int]@);
        }
        if bytes_eq(&v[i], x) {
            assert(v.deep_view()[i as int] == x@);
            return true;
        }
        i = i + 1;
    }
    assert(!v.deep_view().contains(x@));
    false
}

pub fn first_common_bytes(pref: &Vec<Vec<u8>>, other: &Vec<Vec<u8>>) -> (r: Option<Vec<u8>>)
    ensures
        match r {
            Some(v) => spec_first_common_bytes(pref.deep_view(), other.deep_view()) == Some(v@),
            None => spec_first_common_bytes(pref.deep_view(), other.deep_view()) is None,
        },
{
    let ghost pdv = pref.deep_view();
    proof {
        assert(pdv.skip(0) =~= pdv);
    }
    let mut i: usize = 0;
    while i < pref.len()
        invariant
            i <= pref@.len(),
            pdv == pref.deep_view(),
            pdv.len() == pref@.len(),
            forall|j: int| 0 <= j < pref@.len() ==> #[trigger] pdv[j] == pref@[j].deep_view(),
            spec_first_common_bytes(pdv, other.deep_view()) == spec_first_common_bytes(
                pdv.skip(i as int),
                other.deep_view(),
            ),
        decreases pref@.len() - i,
    {
        proof {
            assert(pdv.skip(i as int)[0] == pdv[i as int]);
            assert(pdv.skip(i as int).skip(1) =~= pdv.skip(i as int + 1));
            assert(pref@[i as int].deep_view() =~= pref@[i as int]@);
        }
        if contains_bytes(other, &pref[i]) {
            let out = crate::codec::copy_range(&pref[i], 0, pref[i].len());
            proof {
                assert(out@ =~= pref@[i as int]@);
            }
            return Some(out);
        }
        i = i + 1;
    }
    proof {
        assert(pdv.skip(pref@.len() as int) =~= Seq::<Seq<u8>>::empty());
    }
    None
}

// ---------------------------------------------------------------------------
// Version selection
// ---------------------------------------------------------------------------

/// The newest protocol version both sides enable.
pub open spec fn spec_select_version(server: Seq<u16>, client: Seq<u16>) -> Option<u16> {
    if server.contains(TLS13) && client.contains(TLS13) {
        Some(TLS13)
    } else if server.contains(TLS12) && client.contains(TLS12) {
        Some(TLS12)
    } else {
        None
    }
}

pub fn select_version(server: &Vec<u16>, client: &Vec<u16>) -> (r: Option<u16>)
    ensures
        r == spec_select_version(server@, client@),
{
    if crate::resolver::contains_u16(server, TLS13) && crate::resolver::contains_u16(
        client,
        TLS13,
    ) {
        Some(TLS13)
    } else if crate::resolver::contains_u16(server, TLS12) && crate::resolver::contains_u16(
        client,
        TLS12,
    ) {
        Some(TLS12)
    } else {
        None
    }
}

// ---------------------------------------------------------------------------
// Whole-offer negotiation
// ---------------------------------------------------------------------------

/// What both sides agree on after a successful negotiation.
#[verifier::ext_equal]
pub struct ParamsV {
    pub version: u16,
    pub suite: u16,
    pub group: Option<u16>,
    pub alpn: Option<Seq<u8>>,
}

/// The server's negotiation, as a function of its configuration and the
/// client's offer.  Failures are classified: a version gap, a suite gap and
/// a group gap are incompatibilities; an application-protocol gap is its own
/// error.
pub open spec fn spec_server_negotiate(
    server_versions: Seq<u16>,
    server_suites: Seq<u16>,
    server_groups: Seq<u16>,
    server_alpn: Seq<Seq<u8>>,
    server_preference: bool,
    client_versions: Seq<u16>,
    client_suites: Seq<u16>,
    client_share_groups: Seq<u16>,
    client_alpn: Seq<Seq<u8>>,
) -> Result<ParamsV, Error> {
    match spec_select_version(server_versions, client_versions) {
        Some(version) => {
            let suite = if server_preference {
                spec_first_common(server_suites, client_suites)
            } else {
                spec_first_common(client_suites, server_suites)
            };
            match suite {
                Some(suite) => match spec_first_common(client_share_groups, server_groups) {
                    Some(group) => if server_alpn.len() == 0 {
                        Ok(
                            ParamsV {
                                version,
                                suite,
                                group: Some(group),
                                alpn: None::<Seq<u8>>,
                            },
                        )
                    } else {
                        match spec_first_common_bytes(server_alpn, client_alpn) {
                            Some(proto) => Ok(
                                ParamsV { version, suite, group: Some(group), alpn: Some(proto) },
                            ),
                            None => Err(Error::NoApplicationProtocol),
                        }
                    },
                    None => Err(Error::PeerIncompatible(PeerIncompatible::NoKxGroupsInCommon)),
                },
                None => Err(Error::PeerIncompatible(PeerIncompatible::NoCipherSuitesInCommon)),
            }
        },
        None => Err(Error::PeerIncompatible(PeerIncompatible::NoSupportedVersions)),
    }
}

/// The client's audit of the server's choice: each selected parameter must
/// have been offered.
pub open spec fn spec_client_check(
    client_versions: Seq<u16>,
    client_suites: Seq<u16>,
    client_share_groups: Seq<u16>,
    client_alpn: Seq<Seq<u8>>,
    chosen_version: u16,
    chosen_suite: u16,
    chosen_group: Option<u16>,
    chosen_alpn: Option<Seq<u8>>,
) -> Result<ParamsV, Error> {
    if !client_versions.contains(chosen_version) {
        Err(Error::PeerIncompatible(PeerIncompatible::NoSupportedVersions))
    } else if !client_suites.contains(chosen_suite) {
        Err(Error::PeerMisbehaved(PeerMisbehaved::SelectedUnofferedCipherSuite))
    } else if chosen_group matches Some(g) && !client_share_groups.contains(g) {
        Err(Error::PeerMisbehaved(PeerMisbehaved::SelectedUnofferedKxGroup))
    } else if chosen_alpn matches Some(p) && !client_alpn.contains(p) {
        Err(Error::NoApplicationProtocol)
    } else {
        Ok(
            ParamsV {
                version: chosen_version,
                suite: chosen_suite,
                group: chosen_group,
                alpn: chosen_alpn,
            },
        )
    }
}

/// Agreement: whenever the server's negotiation of a client offer succeeds
/// and its choice is echoed back, the client's audit of that choice also
/// succeeds and both sides hold exactly the same parameters — the same
/// protocol version, cipher suite, key-exchange group, and application
/// protocol.
pub proof fn lemma_negotiation_agreement(
    server_versions: Seq<u16>,
    server_suites: Seq<u16>,
    server_groups: Seq<u16>,
    server_alpn: Seq<Seq<u8>>,
    server_preference: bool,
    client_versions: Seq<u16>,
    client_suites: Seq<u16>,
    client_share_groups: Seq<u16>,
    client_alpn: Seq<Seq<u8>>,
)
    requires
        spec_server_negotiate(
            server_versions,
            server_suites,
            server_groups,
            server_alpn,
            server_preference,
            client_versions,
            client_suites,
            client_share_groups,
            client_alpn,
        ) is Ok,
    ensures
        ({
            let params = spec_server_negotiate(
                server_versions,
                server_suites,
                server_groups,
                server_alpn,
                server_preference,
                client_versions,
                client_suites,
                client_share_groups,
                client_alpn,
            )->Ok_0;
            spec_client_check(
                client_versions,
                client_suites,
                client_share_groups,
                client_alpn,
                params.version,
                params.suite,
                params.group,
                params.alpn,
            ) == Ok::<ParamsV, Error>(params)
        }),
{
    if server_preference {
        lemma_first_common_in(server_suites, client_suites);
    } else {
        lemma_first_common_in(client_suites, server_suites);
    }
    lemma_first_common_in(client_share_groups, server_groups);
    lemma_first_common_bytes_in(server_alpn, client_alpn);
}

pub proof fn lemma_first_common_bytes_in(pref: Seq<Seq<u8>>, other: Seq<Seq<u8>>)
    ensures
        spec_first_common_bytes(pref, other) matches Some(x) ==> pref.contains(x)
            && other.contains(x),
    decreases pref.len(),
{
    if pref.len() > 0 {
        lemma_first_common_bytes_in(pref.skip(1), other);
        if !other.contains(pref[0]) {
            let rec = spec_first_common_bytes(pref.skip(1), other);
            if rec is Some {
                let x = rec->Some_0;
                let j = choose|j: int|
                    0 <= j < pref.skip(1).len() && pref.skip(1)[j] == x;
                assert(pref[j + 1] == x);
            }
        } else {
            assert(pref.contains(pref[0]));
        }
    }
}

/// Extracts the group codes the client offered key shares for, in offer
/// order.
pub fn share_groups(shares: &Vec<KeyShareEntry>) -> (r: Vec<u16>)
    ensures
        r@.len() == shares@.len(),
        forall|j: int| 0 <= j < shares@.len() ==> r@[j] == (#[trigger] shares@[j]).group,
{
    let mut out: Vec<u16> = Vec::new();
    let mut i: usize = 0;
    while i < shares.len()
        invariant
            i <= shares@.len(),
            out@.len() == i,
            forall|j: int| 0 <= j < i ==> out@[j] == (#[trigger] shares@[j]).group,
        decreases shares@.len() - i,
    {
        out.push(shares[i].group);
        i = i + 1;
    }
    out
}

} // verus!
