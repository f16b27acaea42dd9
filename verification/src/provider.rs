//! The cryptographic capability interface the engine consumes.
//!
//! The engine never implements AEAD, signing, hashing or key exchange: it
//! calls whatever provider the configuration installs.  The one provider in
//! this crate, [`NullProvider`], offers no security at all — its transforms
//! are plain concatenation and mixing — but it is deterministic and obeys
//! the interface laws, so the engine's state machine can be exercised end to
//! end.

use vstd::prelude::*;

use crate::codec::{enc_u64, put_u64, bytes_eq, copy_range};

verus! {

pub const LBL_DERIVE_HANDSHAKE: u8 = 1;
pub const LBL_DERIVE_MASTER: u8 = 2;
pub const LBL_CLIENT_HS_TRAFFIC: u8 = 3;
pub const LBL_SERVER_HS_TRAFFIC: u8 = 4;
pub const LBL_CLIENT_AP_TRAFFIC: u8 = 5;
pub const LBL_SERVER_AP_TRAFFIC: u8 = 6;
pub const LBL_EXPORTER: u8 = 7;
pub const LBL_RESUMPTION: u8 = 8;
pub const LBL_TRAFFIC_UPD: u8 = 9;
pub const LBL_FINISHED: u8 = 10;
pub const LBL_EARLY_TRAFFIC: u8 = 11;
pub const LBL_EXPORT: u8 = 12;
pub const LBL_MAC: u8 = 13;

/// The capability set the engine requires of a cryptography provider.
///
/// `spec_opens` names, per provider, what a given key, sequence number and
/// ciphertext open to; `seal` must produce something that opens back to its
/// input, and `open` must agree with the name.  Everything else carries only
/// the length guarantees the record layer and the message bounds need.
pub trait CryptoProvider: Sized {
    /// What record protection yields for a key, sequence number and sealed
    /// payload: the plaintext, or nothing when they disagree.
    spec fn spec_opens(&self, key: Seq<u8>, seq: u64, sealed: Seq<u8>) -> Option<Seq<u8>>;

    /// What derivation yields for a secret, label and context.  Derivation
    /// is a function of these alone, so both sides of a connection reproduce
    /// the same schedule.
    spec fn spec_derive(&self, secret: Seq<u8>, label: u8, context: Seq<u8>) -> Seq<u8>;

    /// What the verification code over a message under a secret is.
    spec fn spec_mac(&self, secret: Seq<u8>, msg: Seq<u8>) -> Seq<u8>;

    /// Derives a labelled child secret.
    fn derive(&self, secret: &Vec<u8>, label: u8, context: &Vec<u8>) -> (r: Vec<u8>)
        ensures
            r@ == self.spec_derive(secret@, label, context@),
            r@.len() == 32,
    ;

    /// A verification code over a message under a secret.
    fn mac(&self, secret: &Vec<u8>, msg: &Vec<u8>) -> (r: Vec<u8>)
        ensures
            r@ == self.spec_mac(secret@, msg@),
            r@.len() == 32,
    ;

    /// The public half of a key-exchange value.
    fn kx_public(&self, group: u16, private: &Vec<u8>) -> (r: Vec<u8>)
        ensures
            r@.len() <= 64,
    ;

    /// Combines a private value with the peer's public value.  Both sides
    /// obtain the same shared secret.
    fn kx_shared(&self, group: u16, private: &Vec<u8>, peer_public: &Vec<u8>) -> (r: Vec<u8>)
        ensures
            r@.len() == 32,
    ;

    /// Seals a payload; the result opens back to the payload under the same
    /// key and sequence number, and grows by a bounded amount.
    fn seal(&self, key: &Vec<u8>, seq: u64, payload: &Vec<u8>) -> (r: Vec<u8>)
        ensures
            r@.len() <= payload@.len() + 64,
            self.spec_opens(key@, seq, r@) == Some(payload@),
    ;

    /// Opens a sealed payload; agrees exactly with `spec_opens`.
    fn open(&self, key: &Vec<u8>, seq: u64, sealed: &Vec<u8>) -> (r: Option<Vec<u8>>)
        ensures
            match r {
                Some(v) => self.spec_opens(key@, seq, sealed@) == Some(v@) && v@.len()
                    <= sealed@.len(),
                None => self.spec_opens(key@, seq, sealed@) is None,
            },
    ;

    /// Fresh bytes of the requested length.
    fn random(&self, n: usize) -> (r: Vec<u8>)
        ensures
            r@.len() == n,
    ;

    /// Signs a message with a key capability.
    fn sign(&self, key: &Vec<u8>, msg: &Vec<u8>) -> (r: Vec<u8>)
        ensures
            r@.len() == 32,
    ;

    /// Checks a signature.
    fn verify(&self, key: &Vec<u8>, msg: &Vec<u8>, sig: &Vec<u8>) -> bool;

    /// Seals an inner hello under a hello-encryption configuration.
    fn hpke_seal(&self, pk: &Vec<u8>, inner: &Vec<u8>) -> (r: Vec<u8>)
        ensures
            r@.len() <= inner@.len() + 64,
    ;

    /// Opens a sealed inner hello.
    fn hpke_open(&self, pk: &Vec<u8>, sealed: &Vec<u8>) -> (r: Option<Vec<u8>>)
        ensures
            r matches Some(v) ==> v@.len() <= sealed@.len(),
    ;
}

// ---------------------------------------------------------------------------
// The stand-in provider
// ---------------------------------------------------------------------------

/// A key, forced to exactly 32 bytes by truncation or zero padding.
pub open spec fn spec_norm32(key: Seq<u8>) -> Seq<u8> {
    if key.len() >= 32 {
        key.subrange(0, 32)
    } else {
        key + Seq::new((32 - key.len()) as nat, |i: int| 0u8)
    }
}

fn norm32(key: &Vec<u8>) -> (r: Vec<u8>)
    ensures
        r@ == spec_norm32(key@),
        r@.len() == 32,
{
    let mut out: Vec<u8> = Vec::new();
    let mut i: usize = 0;
    while i < 32
        invariant
            i <= 32,
            out@.len() == i,
            forall|j: int| 0 <= j < i ==> out@[j] == spec_norm32(key@)[j],
    decreases 32 - i,
    {
        if i < key.len() {
            out.push(key[i]);
        } else {
            out.push(0);
        }
        i = i + 1;
    }
    assert(out@ =~= spec_norm32(key@));
    out
}

/// One byte of the stand-in's mixing transform.
pub open spec fn spec_mix_byte(label: u8, a: Seq<u8>, b: Seq<u8>, i: int) -> u8 {
    let la = label ^ (i as u8);
    let wa = if a.len() > 0 {
        la ^ a[i % a.len() as int]
    } else {
        la
    };
    if b.len() > 0 {
        wa ^ b[i % b.len() as int]
    } else {
        wa
    }
}

/// The stand-in's 32-byte mixing transform.
pub open spec fn spec_mix32(label: u8, a: Seq<u8>, b: Seq<u8>) -> Seq<u8> {
    Seq::new(32, |i: int| spec_mix_byte(label, a, b, i))
}

/// A deterministic, security-free stand-in for the capability set: sealing
/// appends the key and sequence number, opening checks and strips them, and
/// derivation mixes bytes.  It exists to drive the engine, not to protect
/// anything.
#[derive(Clone, Copy, Debug, PartialEq, Eq, Structural)]
pub struct NullProvider;

impl NullProvider {
    fn mix32(&self, label: u8, a: &Vec<u8>, b: &Vec<u8>) -> (r: Vec<u8>)
        ensures
            r@ == spec_mix32(label, a@, b@),
            r@.len() == 32,
    {
        let mut out: Vec<u8> = Vec::new();
        let mut i: usize = 0;
        while i < 32
            invariant
                i <= 32,
                out@.len() == i,
                forall|j: int| 0 <= j < i ==> out@[j] == spec_mix_byte(label, a@, b@, j),
            decreases 32 - i,
        {
            let mut x: u8 = label ^ (i as u8);
            if a.len() > 0 {
                x = x ^ a[i % a.len()];
            }
            if b.len() > 0 {
                x = x ^ b[i % b.len()];
            }
            out.push(x);
            i = i + 1;
        }
        assert(out@ =~= spec_mix32(label, a@, b@));
        out
    }
}

impl CryptoProvider for NullProvider {
    /// Derivation is the mixing transform keyed by the label.
    open spec fn spec_derive(&self, secret: Seq<u8>, label: u8, context: Seq<u8>) -> Seq<u8> {
        spec_mix32(label, secret, context)
    }

    /// The verification code is the mixing transform under its own label.
    open spec fn spec_mac(&self, secret: Seq<u8>, msg: Seq<u8>) -> Seq<u8> {
        spec_mix32(LBL_MAC, secret, msg)
    }

    /// Opens exactly those payloads of the form `plaintext ++ key ++ seq`.
    open spec fn spec_opens(&self, key: Seq<u8>, seq: u64, sealed: Seq<u8>) -> Option<Seq<u8>> {
        let k = spec_norm32(key);
        if sealed.len() >= 40 && sealed.subrange(sealed.len() - 8, sealed.len() as int) == enc_u64(
            seq,
        ) && sealed.subrange(sealed.len() - 40, sealed.len() - 8) == k {
            Some(sealed.subrange(0, sealed.len() - 40))
        } else {
            None
        }
    }

    fn derive(&self, secret: &Vec<u8>, label: u8, context: &Vec<u8>) -> (r: Vec<u8>) {
        self.mix32(label, secret, context)
    }

    fn mac(&self, secret: &Vec<u8>, msg: &Vec<u8>) -> (r: Vec<u8>) {
        self.mix32(LBL_MAC, secret, msg)
    }

    fn kx_public(&self, _group: u16, private: &Vec<u8>) -> (r: Vec<u8>) {
        norm32(private)
    }

    fn kx_shared(&self, _group: u16, private: &Vec<u8>, peer_public: &Vec<u8>) -> (r: Vec<u8>) {
        let a = norm32(private);
        let b = norm32(peer_public);
        let mut out: Vec<u8> = Vec::new();
        let mut i: usize = 0;
        while i < 32
            invariant
                i <= 32,
                out@.len() == i,
                a@.len() == 32,
                b@.len() == 32,
            decreases 32 - i,
        {
            out.push(a[i] ^ b[i]);
            i = i + 1;
        }
        out
    }

    fn seal(&self, key: &Vec<u8>, seq: u64, payload: &Vec<u8>) -> (r: Vec<u8>) {
        let mut out = copy_range(payload, 0, payload.len());
        let k = norm32(key);
        let mut j: usize = 0;
        while j < k.len()
            invariant
                j <= k@.len(),
                k@.len() == 32,
                out@ == payload@ + k@.subrange(0, j as int),
            decreases k@.len() - j,
        {
            out.push(k[j]);
            j = j + 1;
            assert(out@ =~= payload@ + k@.subrange(0, j as int));
        }
        assert(k@.subrange(0, 32) =~= k@);
        put_u64(&mut out, seq);
        proof {
            let s = out@;
            assert(s.len() == payload@.len() + 40);
            assert(s.subrange(s.len() - 8, s.len() as int) =~= enc_u64(seq));
            assert(s.subrange(s.len() - 40, s.len() - 8) =~= spec_norm32(key@));
            assert(s.subrange(0, s.len() - 40) =~= payload@);
        }
        out
    }

    fn open(&self, key: &Vec<u8>, seq: u64, sealed: &Vec<u8>) -> (r: Option<Vec<u8>>) {
        if sealed.len() < 40 {
            return None;
        }
        let k = norm32(key);
        let tail = copy_range(sealed, sealed.len() - 8, sealed.len());
        let mid = copy_range(sealed, sealed.len() - 40, sealed.len() - 8);
        let mut expect_tail: Vec<u8> = Vec::new();
        put_u64(&mut expect_tail, seq);
        if !bytes_eq(&tail, &expect_tail) {
            return None;
        }
        if !bytes_eq(&mid, &k) {
            return None;
        }
        let content = copy_range(sealed, 0, sealed.len() - 40);
        proof {
            assert(Seq::<u8>::empty() + enc_u64(seq) =~= enc_u64(seq));
        }
        Some(content)
    }

    fn random(&self, n: usize) -> (r: Vec<u8>) {
        let mut out: Vec<u8> = Vec::new();
        let mut i: usize = 0;
        while i < n
            invariant
                i <= n,
                out@.len() == i,
            decreases n - i,
        {
            out.push((i % 251) as u8);
            i = i + 1;
        }
        out
    }

    fn sign(&self, key: &Vec<u8>, msg: &Vec<u8>) -> (r: Vec<u8>) {
        self.mix32(LBL_MAC, key, msg)
    }

    fn verify(&self, key: &Vec<u8>, msg: &Vec<u8>, sig: &Vec<u8>) -> bool {
        let expect = self.mix32(LBL_MAC, key, msg);
        bytes_eq(sig, &expect)
    }

    fn hpke_seal(&self, pk: &Vec<u8>, inner: &Vec<u8>) -> (r: Vec<u8>) {
        let mut out = copy_range(inner, 0, inner.len());
        let k = norm32(pk);
        let mut j: usize = 0;
        while j < k.len()
            invariant
                j <= k@.len(),
                k@.len() == 32,
                out@.len() == inner@.len() + j,
            decreases k@.len() - j,
        {
            out.push(k[j]);
            j = j + 1;
        }
        out
    }

    fn hpke_open(&self, pk: &Vec<u8>, sealed: &Vec<u8>) -> (r: Option<Vec<u8>>) {
        if sealed.len() < 32 {
            return None;
        }
        let k = norm32(pk);
        let tail = copy_range(sealed, sealed.len() - 32, sealed.len());
        if !bytes_eq(&tail, &k) {
            return None;
        }
        Some(copy_range(sealed, 0, sealed.len() - 32))
    }
}

// ---------------------------------------------------------------------------
// Provider selection and the ticket sealer
// ---------------------------------------------------------------------------

/// Which provider the process selected at startup.
#[derive(Clone, Copy, Debug, PartialEq, Eq, Structural)]
pub enum SelectedProvider {
    AwsLcRs,
    AwsLcRsFips,
    Ring,
}

/// Whether a selection can seal encrypted hellos.
pub open spec fn spec_supports_ech(p: SelectedProvider) -> bool {
    !(p is Ring)
}

impl SelectedProvider {
    /// The capability set for this selection.  Primitive implementations are
    /// outside the engine's scope, so every selection maps to the stand-in.
    pub fn provider(&self) -> (r: NullProvider)
        ensures
            r == NullProvider,
    {
        match self {
            SelectedProvider::AwsLcRs => NullProvider,
            SelectedProvider::AwsLcRsFips => NullProvider,
            SelectedProvider::Ring => NullProvider,
        }
    }

    /// A fresh ticket sealer for a server configuration.
    pub fn ticketer(&self) -> (r: Ticketer)
        ensures
            r.key@.len() == 32,
    {
        let p = self.provider();
        let seed: Vec<u8> = Vec::new();
        let empty: Vec<u8> = Vec::new();
        let key = p.derive(&seed, LBL_RESUMPTION, &empty);
        Ticketer { key }
    }

    /// Whether this selection can seal encrypted hellos.
    pub fn supports_ech(&self) -> (r: bool)
        ensures
            r == spec_supports_ech(*self),
    {
        match self {
            SelectedProvider::AwsLcRs => true,
            SelectedProvider::AwsLcRsFips => true,
            SelectedProvider::Ring => false,
        }
    }
}

/// Seals server state into self-contained tickets.
#[derive(Debug)]
pub struct Ticketer {
    pub key: Vec<u8>,
}

impl Ticketer {
    /// A sealed ticket is the state followed by the ticketer's key.
    pub fn encrypt(&self, state: &Vec<u8>) -> (r: Vec<u8>)
        ensures
            r@ == state@ + self.key@,
    {
        let mut out = copy_range(state, 0, state.len());
        let mut j: usize = 0;
        while j < self.key.len()
            invariant
                j <= self.key@.len(),
                out@ == state@ + self.key@.subrange(0, j as int),
            decreases self.key@.len() - j,
        {
            out.push(self.key[j]);
            j = j + 1;
            assert(out@ =~= state@ + self.key@.subrange(0, j as int));
        }
        assert(self.key@.subrange(0, self.key@.len() as int) =~= self.key@);
        out
    }

    /// Recovers the state from a ticket sealed with the same key.
    pub fn decrypt(&self, ticket: &Vec<u8>) -> (r: Option<Vec<u8>>)
        ensures
            (ticket@.len() >= self.key@.len() && ticket@.subrange(
                ticket@.len() - self.key@.len(),
                ticket@.len() as int,
            ) == self.key@) ==> (r matches Some(v) && v@ == ticket@.subrange(
                0,
                ticket@.len() - self.key@.len(),
            )),
            !(ticket@.len() >= self.key@.len() && ticket@.subrange(
                ticket@.len() - self.key@.len(),
                ticket@.len() as int,
            ) == self.key@) ==> r is None,
    {
        if ticket.len() < self.key.len() {
            return None;
        }
        let tail = copy_range(ticket, ticket.len() - self.key.len(), ticket.len());
        if !bytes_eq(&tail, &self.key) {
            return None;
        }
        Some(copy_range(ticket, 0, ticket.len() - self.key.len()))
    }
}

// ---------------------------------------------------------------------------
// Key logging
// ---------------------------------------------------------------------------

/// Which secret a key-log entry names.
#[derive(Clone, Copy, Debug, PartialEq, Eq, Structural)]
pub enum KeyLogLabel {
    ClientTraffic0,
    ServerTraffic0,
    Other,
}

/// The two traffic secrets a key log retains.
#[derive(Debug)]
pub struct KeyLogMemoInner {
    pub client_traffic_secret: Vec<u8>,
    pub server_traffic_secret: Vec<u8>,
}

/// Remembers the first application traffic secrets as they become
/// available; fired once per label per connection.
#[derive(Debug)]
pub struct KeyLogMemo {
    inner: KeyLogMemoInner,
}

impl KeyLogMemo {
    pub closed spec fn spec_client(self) -> Seq<u8> {
        self.inner.client_traffic_secret@
    }

    pub closed spec fn spec_server(self) -> Seq<u8> {
        self.inner.server_traffic_secret@
    }

    pub fn new() -> (r: Self)
        ensures
            r.spec_client().len() == 0,
            r.spec_server().len() == 0,
    {
        KeyLogMemo {
            inner: KeyLogMemoInner {
                client_traffic_secret: Vec::new(),
                server_traffic_secret: Vec::new(),
            },
        }
    }

    /// Records one secret under its label; other labels are ignored.
    pub fn log(&mut self, label: KeyLogLabel, secret: &Vec<u8>)
        ensures
            label == KeyLogLabel::ClientTraffic0 ==> final(self).spec_client() == secret@ && final(self).spec_server() == old(self).spec_server(),
            label == KeyLogLabel::ServerTraffic0 ==> final(self).spec_server() == secret@ && final(self).spec_client() == old(self).spec_client(),
            label == KeyLogLabel::Other ==> final(self).spec_client() == old(self).spec_client()
                && final(self).spec_server() == old(self).spec_server(),
    {
        match label {
            KeyLogLabel::ClientTraffic0 => {
                self.inner.client_traffic_secret = copy_range(secret, 0, secret.len());
                assert(self.inner.client_traffic_secret@ =~= secret@);
            },
            KeyLogLabel::ServerTraffic0 => {
                self.inner.server_traffic_secret = copy_range(secret, 0, secret.len());
                assert(self.inner.server_traffic_secret@ =~= secret@);
            },
            KeyLogLabel::Other => {},
        }
    }

    pub fn will_log(&self, _label: KeyLogLabel) -> (r: bool)
        ensures
            r == true,
    {
        true
    }

    /// A copy of the recorded secrets.
    pub fn clone_inner(&self) -> (r: KeyLogMemoInner)
        ensures
            r.client_traffic_secret@ == self.spec_client(),
            r.server_traffic_secret@ == self.spec_server(),
    {
        KeyLogMemoInner {
            client_traffic_secret: copy_range(
                &self.inner.client_traffic_secret,
                0,
                self.inner.client_traffic_secret.len(),
            ),
            server_traffic_secret: copy_range(
                &self.inner.server_traffic_secret,
                0,
                self.inner.server_traffic_secret.len(),
            ),
        }
    }
}

} // verus!
