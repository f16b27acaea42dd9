//! The per-connection engine: configuration, the handshake state machine,
//! the key lifecycle, and the push/pull facade a transport adapter drives.
//!
//! The engine performs no transport work itself.  Raw TLS bytes are pushed
//! in with [`Connection::read_tls_bytes`] and pulled out with
//! [`Connection::write_tls_bytes`]; [`Connection::process_new_packets`]
//! advances the state machine over whatever has been buffered.  Every
//! handshake message is validated against the current state's accept set
//! before any semantic processing, and the states advance one way only,
//! except that an established connection may pass through a key update and
//! return.

use vstd::prelude::*;

use crate::codec::{DecodeError, bytes_eq, copy_range, put_u8};
use crate::compress::CompressionAlg;
use crate::errs::{
    Error, InvalidMessage, PeerIncompatible, PeerMisbehaved, CertificateError,
    ALERT_CLOSE_NOTIFY,
};
use crate::hsmsgs::{
    Msg, ClientHello, ServerHello, NewSessionTicket, CertificatePayload, CertificateRequest,
    CertificateVerify, CompressedCertificate, ServerKeyExchange, encode_msg, decode_msg_at,
    wf_msg, HT_CLIENT_HELLO, HT_SERVER_HELLO, HT_NEW_SESSION_TICKET, HT_ENCRYPTED_EXTENSIONS,
    HT_CERTIFICATE, HT_SERVER_KEY_EXCHANGE, HT_CERTIFICATE_REQUEST, HT_SERVER_HELLO_DONE,
    HT_CERTIFICATE_VERIFY, HT_CLIENT_KEY_EXCHANGE, HT_FINISHED, HT_KEY_UPDATE,
    HT_COMPRESSED_CERTIFICATE,
};
use crate::msgs::{Ext, KeyShareEntry};
use crate::negotiation::{
    TLS12, TLS13, select_version, first_common, first_common_bytes, share_groups,
};
use crate::provider::{
    CryptoProvider, KeyLogMemo, KeyLogLabel, Ticketer, LBL_DERIVE_HANDSHAKE, LBL_DERIVE_MASTER,
    LBL_CLIENT_HS_TRAFFIC, LBL_SERVER_HS_TRAFFIC, LBL_CLIENT_AP_TRAFFIC, LBL_SERVER_AP_TRAFFIC,
    LBL_EXPORTER, LBL_RESUMPTION, LBL_TRAFFIC_UPD, LBL_FINISHED, LBL_EARLY_TRAFFIC, LBL_EXPORT,
};
use crate::record::{
    RecordLayer, Epoch, get_record, CT_CHANGE_CIPHER_SPEC, CT_ALERT, CT_HANDSHAKE,
    CT_APPLICATION_DATA, MAX_PLAIN_LEN,
};
use crate::resolver::MultipleClientCredentialResolver;
use crate::session::{
    ServerSessionValue, ServerCacheWithResumptionDelay, NoServerSessionStorage,
    ClientCacheWithoutKxHints, Tls12ClientSessionValue, Tls13ClientSessionValue, ticket_fresh,
    spec_ticket_fresh,
};

verus! {

/// Which half of the protocol this connection runs.
#[derive(Clone, Copy, Debug, PartialEq, Eq, Structural)]
pub enum Side {
    Client,
    Server,
}

/// The handshake phases.  Transitions move forward only, except that an
/// established connection may enter a key update and come back; a closed
/// connection never leaves that state.
#[derive(Clone, Copy, Debug, PartialEq, Eq, Structural)]
pub enum HandshakeState {
    Start,
    ExpectClientHello,
    ExpectServerHello,
    ExpectEncryptedExtensions,
    ExpectCertificate,
    ExpectCertificateVerify,
    ExpectServerHelloDone,
    ExpectClientKeyExchange,
    ExpectFinished,
    Established,
    KeyUpdateInFlight,
    Closed,
}

/// The forward order of the phases; the key-update detour shares the
/// established rank.
pub open spec fn state_rank(s: HandshakeState) -> int {
    match s {
        HandshakeState::Start => 0,
        HandshakeState::ExpectClientHello => 1,
        HandshakeState::ExpectServerHello => 1,
        HandshakeState::ExpectEncryptedExtensions => 2,
        HandshakeState::ExpectCertificate => 3,
        HandshakeState::ExpectCertificateVerify => 4,
        HandshakeState::ExpectServerHelloDone => 4,
        HandshakeState::ExpectClientKeyExchange => 4,
        HandshakeState::ExpectFinished => 5,
        HandshakeState::Established => 6,
        HandshakeState::KeyUpdateInFlight => 6,
        HandshakeState::Closed => 7,
    }
}

/// Which handshake message codes the current state accepts.
pub open spec fn spec_accepts(side: Side, state: HandshakeState, code: u8) -> bool {
    match state {
        HandshakeState::ExpectClientHello => code == HT_CLIENT_HELLO,
        HandshakeState::ExpectServerHello => code == HT_SERVER_HELLO,
        HandshakeState::ExpectEncryptedExtensions => code == HT_ENCRYPTED_EXTENSIONS,
        HandshakeState::ExpectCertificate => code == HT_CERTIFICATE || code
            == HT_COMPRESSED_CERTIFICATE || code == HT_CERTIFICATE_REQUEST || code
            == HT_SERVER_KEY_EXCHANGE,
        HandshakeState::ExpectCertificateVerify => code == HT_CERTIFICATE_VERIFY || code
            == HT_SERVER_KEY_EXCHANGE,
        HandshakeState::ExpectServerHelloDone => code == HT_SERVER_HELLO_DONE,
        HandshakeState::ExpectClientKeyExchange => side == Side::Server && (code
            == HT_CLIENT_KEY_EXCHANGE || code == HT_CERTIFICATE),
        HandshakeState::ExpectFinished => code == HT_FINISHED || (side == Side::Server && (code
            == HT_CERTIFICATE || code == HT_CERTIFICATE_VERIFY)),
        HandshakeState::Established => (side == Side::Client && code == HT_NEW_SESSION_TICKET)
            || code == HT_KEY_UPDATE,
        HandshakeState::KeyUpdateInFlight => code == HT_KEY_UPDATE,
        HandshakeState::Start => false,
        HandshakeState::Closed => false,
    }
}

pub fn accepts(side: Side, state: HandshakeState, code: u8) -> (r: bool)
    ensures
        r == spec_accepts(side, state, code),
{
    match state {
        HandshakeState::ExpectClientHello => code == HT_CLIENT_HELLO,
        HandshakeState::ExpectServerHello => code == HT_SERVER_HELLO,
        HandshakeState::ExpectEncryptedExtensions => code == HT_ENCRYPTED_EXTENSIONS,
        HandshakeState::ExpectCertificate => code == HT_CERTIFICATE || code
            == HT_COMPRESSED_CERTIFICATE || code == HT_CERTIFICATE_REQUEST || code
            == HT_SERVER_KEY_EXCHANGE,
        HandshakeState::ExpectCertificateVerify => code == HT_CERTIFICATE_VERIFY || code
            == HT_SERVER_KEY_EXCHANGE,
        HandshakeState::ExpectServerHelloDone => code == HT_SERVER_HELLO_DONE,
        HandshakeState::ExpectClientKeyExchange => matches!(side, Side::Server) && (code
            == HT_CLIENT_KEY_EXCHANGE || code == HT_CERTIFICATE),
        HandshakeState::ExpectFinished => code == HT_FINISHED || (matches!(side, Side::Server)
            && (code == HT_CERTIFICATE || code == HT_CERTIFICATE_VERIFY)),
        HandshakeState::Established => (matches!(side, Side::Client) && code
            == HT_NEW_SESSION_TICKET) || code == HT_KEY_UPDATE,
        HandshakeState::KeyUpdateInFlight => code == HT_KEY_UPDATE,
        HandshakeState::Start => false,
        HandshakeState::Closed => false,
    }
}

/// Whether the handshake was run in full or resumed from stored state.
#[derive(Clone, Copy, Debug, PartialEq, Eq, Structural)]
pub enum HandshakeKind {
    Full,
    Resumed,
}

/// Encrypted-hello progress, surfaced to the caller.
#[derive(Clone, Copy, Debug, PartialEq, Eq, Structural)]
pub enum EchStatus {
    NotOffered,
    Offered,
    Grease,
    Accepted,
    Rejected,
}

/// The server's session storage choice.
#[derive(Debug)]
pub enum ServerStorage {
    Nothing(NoServerSessionStorage),
    Memory(ServerCacheWithResumptionDelay),
}

/// Everything a client connection is configured with.
#[derive(Debug)]
pub struct ClientConfig {
    pub versions: Vec<u16>,
    pub suites: Vec<u16>,
    pub groups: Vec<u16>,
    pub alpn: Vec<Vec<u8>>,
    pub enable_sni: bool,
    pub hostname: Vec<u8>,
    pub resumption: ClientCacheWithoutKxHints,
    pub tickets_enabled: bool,
    pub enable_early_data: bool,
    pub max_fragment: usize,
    pub require_ems: bool,
    pub key_log_enabled: bool,
    pub compressors: Vec<CompressionAlg>,
    pub ech_config: Option<Vec<u8>>,
    pub ech_grease: bool,
    pub resolver: Option<MultipleClientCredentialResolver>,
    pub reject_ocsp: bool,
}

/// Everything a server connection is configured with.
#[derive(Debug)]
pub struct ServerConfig {
    pub versions: Vec<u16>,
    pub suites: Vec<u16>,
    pub groups: Vec<u16>,
    pub alpn: Vec<Vec<u8>>,
    pub session_storage: ServerStorage,
    pub ticketer: Option<Ticketer>,
    pub max_fragment: usize,
    pub require_ems: bool,
    pub ignore_client_order: bool,
    pub max_early_data: u32,
    pub send_half_rtt_data: bool,
    pub ticket_lifetime: u32,
    pub send_tls13_tickets: u32,
    pub compressors: Vec<CompressionAlg>,
    pub offer_client_auth: bool,
    pub require_client_auth: bool,
    pub root_hint_subjects: Vec<Vec<u8>>,
    pub key_log_enabled: bool,
    pub ocsp_response: Vec<u8>,
    pub cert_chain: Vec<Vec<u8>>,
    pub key_schemes: Vec<u16>,
    pub ech_config: Option<Vec<u8>>,
}

/// Bounds on a client configuration.  Each count keeps the corresponding
/// length prefix of the hello in range: the extension block carries one
/// two-byte length shared by up to twelve extensions, so the protocol list,
/// the group list and the version list are capped well below the format's
/// absolute limits rather than at them.
pub open spec fn wf_client_config(c: ClientConfig) -> bool {
    &&& 1 <= c.max_fragment <= MAX_PLAIN_LEN
    &&& c.versions@.len() <= 8
    &&& c.suites@.len() >= 1 && c.suites@.len() <= 32
    &&& c.groups@.len() >= 1 && c.groups@.len() <= 8
    &&& c.alpn@.len() <= 16
    &&& (forall|j: int| 0 <= j < c.alpn@.len() ==> 1 <= (#[trigger] c.alpn@[j])@.len() < 256)
    &&& c.hostname@.len() < 256
    &&& c.compressors@.len() <= 16
    &&& c.resumption.wf()
    &&& (c.ech_config matches Some(e) ==> e@.len() < 512)
}

/// Bounds on a server configuration; as with the client's, each count keeps
/// a certificate, request or hello length prefix within range.
pub open spec fn wf_server_config(c: ServerConfig) -> bool {
    &&& 1 <= c.max_fragment <= MAX_PLAIN_LEN
    &&& c.versions@.len() <= 8
    &&& c.alpn@.len() <= 16
    &&& (forall|j: int| 0 <= j < c.alpn@.len() ==> 1 <= (#[trigger] c.alpn@[j])@.len() < 256)
    &&& (match c.session_storage {
        ServerStorage::Memory(m) => m.wf(),
        ServerStorage::Nothing(_) => true,
    })
    &&& c.ocsp_response@.len() < 2048
    &&& c.cert_chain@.len() >= 1 && c.cert_chain@.len() <= 8
    &&& (forall|j: int| 0 <= j < c.cert_chain@.len() ==> (#[trigger] c.cert_chain@[j])@.len()
        < 16384)
    &&& c.root_hint_subjects@.len() <= 8
    &&& (forall|j: int| 0 <= j < c.root_hint_subjects@.len() ==> (
    #[trigger] c.root_hint_subjects@[j])@.len() < 512)
    &&& (c.ech_config matches Some(e) ==> e@.len() < 512)
}

/// How many key-update requests without intervening application data are
/// tolerated.
pub const MAX_KEY_UPDATES: u32 = 24;

/// How many warning alerts in a row are tolerated.
pub const MAX_WARNING_ALERTS: u32 = 4;

/// The early-data gate: how many bytes were accepted against the
/// configured budget.  No byte beyond the budget is ever accepted.
#[derive(Debug)]
pub struct EarlyDataGate {
    pub budget: u32,
    pub taken: u32,
}

impl EarlyDataGate {
    pub open spec fn wf(self) -> bool {
        self.taken <= self.budget
    }

    pub fn new(budget: u32) -> (r: Self)
        ensures
            r.wf(),
            r.budget == budget,
            r.taken == 0,
    {
        EarlyDataGate { budget, taken: 0 }
    }

    /// Accepts `n` further early-data bytes, or rejects the peer once the
    /// budget would be exceeded; a rejected call accepts nothing at all.
    pub fn accept(&mut self, n: usize) -> (r: Result<(), Error>)
        requires
            old(self).wf(),
        ensures
            final(self).wf(),
            final(self).budget == old(self).budget,
            n + old(self).taken <= old(self).budget ==> (r is Ok && final(self).taken == old(
                self,
            ).taken + n),
            n + old(self).taken > old(self).budget ==> (r matches Err(e) && e
                matches Error::PeerMisbehaved(pm) && pm
                == PeerMisbehaved::TooMuchEarlyDataReceived && final(self).taken == old(
                self,
            ).taken),
    {
        if n <= (self.budget - self.taken) as usize {
            self.taken = self.taken + n as u32;
            Ok(())
        } else {
            Err(Error::PeerMisbehaved(PeerMisbehaved::TooMuchEarlyDataReceived))
        }
    }
}

/// Law: the early-data gate never admits more than the configured budget.
/// In every reachable state the accepted total is within the budget, and an
/// admission that would cross the budget fails without delivering anything.
pub proof fn lemma_early_data_budget(g: EarlyDataGate)
    requires
        g.wf(),
    ensures
        g.taken <= g.budget,
{
}

/// What the server decides about a resumption offer: the stored state is
/// used only while fresh.
pub open spec fn spec_decide_resumption(
    v: Option<crate::session::ServerSessionValueV>,
    now: u64,
    lifetime: u32,
) -> Option<crate::session::ServerSessionValueV> {
    match v {
        Some(x) => if spec_ticket_fresh(x.creation_time_sec, now, lifetime as u64) {
            Some(x)
        } else {
            None
        },
        None => None,
    }
}

/// Applies the resumption rule to a recovered session value.
pub fn decide_resumption(v: Option<ServerSessionValue>, now: u64, lifetime: u32) -> (r: Option<
    ServerSessionValue,
>)
    ensures
        match v {
            Some(x) => r == (if spec_ticket_fresh(x.creation_time_sec, now, lifetime as u64) {
                Some(x)
            } else {
                None::<ServerSessionValue>
            }),
            None => r is None,
        },
{
    match v {
        Some(x) => {
            if ticket_fresh(x.creation_time_sec, now, lifetime as u64) {
                Some(x)
            } else {
                None
            }
        },
        None => None,
    }
}

/// Law: resuming with a stale entry is impossible.  Whenever the stored
/// entry's age exceeds the configured lifetime, the decision is to discard
/// it, so the handshake that follows is a full one, never a resumption.
pub proof fn lemma_expired_ticket_forces_full(
    v: crate::session::ServerSessionValueV,
    now: u64,
    lifetime: u32,
)
    requires
        !spec_ticket_fresh(v.creation_time_sec, now, lifetime as u64),
    ensures
        spec_decide_resumption(Some(v), now, lifetime) is None,
{
}

/// The per-connection engine object.
#[verifier::ext_equal]
#[derive(Debug)]
pub struct Connection<P: CryptoProvider> {
    pub provider: P,
    pub side: Side,
    pub state: HandshakeState,
    pub rec: RecordLayer,
    pub ccfg: Option<ClientConfig>,
    pub scfg: Option<ServerConfig>,
    pub now: u64,
    // negotiated parameters
    pub version: Option<u16>,
    pub suite: Option<u16>,
    pub group: Option<u16>,
    pub alpn_selected: Option<Vec<u8>>,
    pub kind: Option<HandshakeKind>,
    pub ems: bool,
    // key schedule
    pub secret: Vec<u8>,
    pub client_traffic: Vec<u8>,
    pub server_traffic: Vec<u8>,
    pub exporter_secret: Vec<u8>,
    pub resumption_secret: Vec<u8>,
    pub fin_key: Vec<u8>,
    pub transcript: Vec<u8>,
    pub kx_private: Vec<u8>,
    pub client_random: Vec<u8>,
    pub server_random: Vec<u8>,
    // the client's offer, remembered for auditing the server's choice
    pub offered_suites: Vec<u16>,
    pub offered_groups: Vec<u16>,
    pub offered_session_id: Vec<u8>,
    pub offered_psk: Option<Tls13ClientSessionValue>,
    pub offered_early_data: bool,
    // transport-facing buffers
    pub inbuf: Vec<u8>,
    pub outbuf: Vec<u8>,
    pub plaintext_in: Vec<u8>,
    pub plaintext_out: Vec<u8>,
    pub hsbuf: Vec<u8>,
    // lifecycle flags
    pub sent_close_notify: bool,
    pub received_close_notify: bool,
    pub key_update_requests: u32,
    pub warning_alerts: u32,
    // early data
    pub early: EarlyDataGate,
    pub early_accepted: bool,
    pub early_rejected: bool,
    pub ech_status: EchStatus,
    pub key_log: KeyLogMemo,
    // client authentication exchange
    pub cert_requested: bool,
    pub req_schemes: Vec<u16>,
    pub req_hints: Vec<Vec<u8>>,
    pub selected_credential: Option<crate::resolver::Selected>,
    pub peer_cert_chain: Vec<Vec<u8>>,
    pub tls12_peer_pub: Vec<u8>,
}

impl<P: CryptoProvider> Connection<P> {
    pub open spec fn wf(self) -> bool {
        &&& self.rec.wf()
        &&& (self.side == Side::Client ==> self.ccfg is Some && self.scfg is None)
        &&& (self.side == Side::Server ==> self.scfg is Some && self.ccfg is None)
        &&& (self.ccfg matches Some(c) ==> wf_client_config(c))
        &&& (self.scfg matches Some(c) ==> wf_server_config(c))
        &&& self.early.wf()
    }

    /// Whether the engine has TLS bytes waiting for the transport.
    pub fn wants_write(&self) -> (r: bool)
        ensures
            r == (self.outbuf@.len() > 0),
    {
        self.outbuf.len() > 0
    }

    /// Whether the engine could use more TLS bytes from the transport.
    pub fn wants_read(&self) -> (r: bool)
        ensures
            r == (!self.received_close_notify && !(self.state is Closed)),
    {
        !self.received_close_notify && !matches!(self.state, HandshakeState::Closed)
    }

    /// Pushes raw TLS bytes from the transport into the engine.
    pub fn read_tls_bytes(&mut self, data: &Vec<u8>) -> (r: usize)
        ensures
            *final(self) == (Connection { inbuf: final(self).inbuf, ..*old(self) }),
            final(self).inbuf@ == old(self).inbuf@ + data@,
            r == data@.len(),
    {
        crate::codec::put_bytes(&mut self.inbuf, data);
        data.len()
    }

    /// Pulls all pending TLS bytes for the transport.
    pub fn write_tls_bytes(&mut self) -> (r: Vec<u8>)
        ensures
            r@ == old(self).outbuf@,
            *final(self) == (Connection { outbuf: final(self).outbuf, ..*old(self) }),
            final(self).outbuf@.len() == 0,
    {
        let mut out: Vec<u8> = Vec::new();
        core::mem::swap(&mut out, &mut self.outbuf);
        out
    }

    /// Reads up to `max` bytes of received application plaintext.
    pub fn reader_read(&mut self, max: usize) -> (r: Vec<u8>)
        ensures
            *final(self) == (Connection { plaintext_in: final(self).plaintext_in, ..*old(self) }),
            r@.len() <= max,
            r@ + final(self).plaintext_in@ == old(self).plaintext_in@,
    {
        let take = if self.plaintext_in.len() < max {
            self.plaintext_in.len()
        } else {
            max
        };
        let out = copy_range(&self.plaintext_in, 0, take);
        let rest = copy_range(&self.plaintext_in, take, self.plaintext_in.len());
        self.plaintext_in = rest;
        proof {
            assert(out@ + self.plaintext_in@ =~= old(self).plaintext_in@);
        }
        out
    }

    /// Whether the peer closed the stream in an orderly way.
    pub fn reader_closed(&self) -> (r: bool)
        ensures
            r == self.received_close_notify,
    {
        self.received_close_notify
    }

    pub fn is_handshaking(&self) -> (r: bool)
        ensures
            r == !(self.state is Established || self.state is KeyUpdateInFlight || self.state
                is Closed),
    {
        !(matches!(self.state, HandshakeState::Established) || matches!(
            self.state,
            HandshakeState::KeyUpdateInFlight,
        ) || matches!(self.state, HandshakeState::Closed))
    }

    pub fn protocol_version(&self) -> (r: Option<u16>)
        ensures
            r == self.version,
    {
        self.version
    }

    pub fn handshake_kind(&self) -> (r: Option<HandshakeKind>)
        ensures
            r == self.kind,
    {
        self.kind
    }

    pub fn negotiated_key_exchange_group(&self) -> (r: Option<u16>)
        ensures
            r == self.group,
    {
        self.group
    }

    /// The negotiated application protocol, if any.
    pub fn alpn_protocol(&self) -> (r: Option<Vec<u8>>)
        ensures
            match self.alpn_selected {
                Some(p) => r matches Some(v) && v@ == p@,
                None => r is None,
            },
    {
        match &self.alpn_selected {
            Some(p) => Some(copy_range(p, 0, p.len())),
            None => None,
        }
    }

    pub fn ech_status(&self) -> (r: EchStatus)
        ensures
            r == self.ech_status,
    {
        self.ech_status
    }

    /// Which configured credential answered the server's certificate
    /// request, once the handshake is done.
    pub fn selected_credential(&self) -> (r: Option<crate::resolver::Selected>)
        ensures
            r == self.selected_credential,
    {
        self.selected_credential
    }

    /// Whether the server accepted this client's early data.
    pub fn is_early_data_accepted(&self) -> (r: bool)
        ensures
            r == self.early_accepted,
    {
        self.early_accepted
    }

    /// Derives exporter material of the requested length; independent of the
    /// connection keys, and only available once the handshake is done.
    pub fn export_keying_material(&self, label: &Vec<u8>, context: Option<&Vec<u8>>, len: usize)
        -> (r: Result<Vec<u8>, Error>)
        ensures
            (self.state is Established || self.state is KeyUpdateInFlight) <==> r is Ok,
            r matches Ok(v) ==> v@.len() == len,
            ({
                let seed = label@ + (match context {
                    Some(c) => c@,
                    None => Seq::<u8>::empty(),
                });
                let base = self.provider.spec_derive(self.exporter_secret@, LBL_EXPORT, seed);
                r matches Ok(v) ==> forall|k: int| 0 <= k < len ==> v@[k] == base[k % 32]
            }),
    {
        if !(matches!(self.state, HandshakeState::Established) || matches!(
            self.state,
            HandshakeState::KeyUpdateInFlight,
        )) {
            return Err(Error::InappropriateMessage { got_type: 0 });
        }
        let mut seed = copy_range(label, 0, label.len());
        match context {
            Some(c) => {
                crate::codec::put_bytes(&mut seed, c);
            },
            None => {},
        }
        proof {
            assert(seed@ =~= label@ + (match context {
                Some(c) => c@,
                None => Seq::<u8>::empty(),
            }));
        }
        let base = self.provider.derive(&self.exporter_secret, LBL_EXPORT, &seed);
        let mut out: Vec<u8> = Vec::new();
        let mut k: usize = 0;
        while k < len
            invariant
                k <= len,
                out@.len() == k,
                base@.len() == 32,
                base@ == self.provider.spec_derive(self.exporter_secret@, LBL_EXPORT, seed@),
                seed@ == label@ + (match context {
                    Some(c) => c@,
                    None => Seq::<u8>::empty(),
                }),
                forall|j: int| 0 <= j < k ==> out@[j] == base@[j % 32],
            decreases len - k,
        {
            out.push(base[k % 32]);
            k = k + 1;
        }
        Ok(out)
    }

    /// Queues one alert record.
    fn queue_alert(&mut self, level: u8, desc: u8)
        requires
            old(self).wf(),
        ensures
            final(self).wf(),
            final(self).state == old(self).state,
            final(self).side == old(self).side,
            final(self).outbuf@.len() >= old(self).outbuf@.len(),
            (old(self).rec.write.epoch is Plaintext || old(self).rec.write.seq
                < crate::record::SEQ_LIMIT) ==> final(self).outbuf@.len() > old(
                self,
            ).outbuf@.len(),
            final(self).sent_close_notify == old(self).sent_close_notify,
            final(self).inbuf == old(self).inbuf,
            final(self).provider == old(self).provider,
            final(self).client_traffic == old(self).client_traffic,
            final(self).server_traffic == old(self).server_traffic,
    {
        let mut body: Vec<u8> = Vec::new();
        put_u8(&mut body, level);
        put_u8(&mut body, desc);
        let rec_out = self.rec.seal(&self.provider, crate::record::CT_ALERT, &body);
        match rec_out {
            Ok(bytes) => {
                crate::codec::put_bytes(&mut self.outbuf, &bytes);
            },
            Err(_) => {},
        }
    }

    /// Requests an orderly close: queues a close-notify alert once.
    pub fn send_close_notify(&mut self)
        requires
            old(self).wf(),
        ensures
            final(self).wf(),
            final(self).sent_close_notify,
            final(self).state == old(self).state,
            (!old(self).sent_close_notify && (old(self).rec.write.epoch is Plaintext || old(
                self,
            ).rec.write.seq < crate::record::SEQ_LIMIT)) ==> final(self).outbuf@.len() > old(
                self,
            ).outbuf@.len(),
            old(self).sent_close_notify ==> *final(self) == *old(self),
    {
        if !self.sent_close_notify {
            self.queue_alert(1, ALERT_CLOSE_NOTIFY);
            self.sent_close_notify = true;
        }
    }
}

// ---------------------------------------------------------------------------
// Extension extraction
// ---------------------------------------------------------------------------

/// Looks up extensions by kind; used on received hellos.
fn exts_versions(exts: &Vec<Ext>) -> (r: Option<Vec<u16>>) {
    let mut i: usize = 0;
    while i < exts.len()
        invariant
            i <= exts@.len(),
        decreases exts@.len() - i,
    {
        match &exts[i] {
            Ext::SupportedVersions(v) => {
                let mut out: Vec<u16> = Vec::new();
                let mut k: usize = 0;
                while k < v.len()
                    invariant
                        k <= v@.len(),
                    decreases v@.len() - k,
                {
                    out.push(v[k]);
                    k = k + 1;
                }
                return Some(out);
            },
            _ => {},
        }
        i = i + 1;
    }
    None
}

fn exts_groups(exts: &Vec<Ext>) -> (r: Option<Vec<u16>>) {
    let mut i: usize = 0;
    while i < exts.len()
        invariant
            i <= exts@.len(),
        decreases exts@.len() - i,
    {
        match &exts[i] {
            Ext::SupportedGroups(v) => {
                let mut out: Vec<u16> = Vec::new();
                let mut k: usize = 0;
                while k < v.len()
                    invariant
                        k <= v@.len(),
                    decreases v@.len() - k,
                {
                    out.push(v[k]);
                    k = k + 1;
                }
                return Some(out);
            },
            _ => {},
        }
        i = i + 1;
    }
    None
}

fn exts_key_shares(exts: &Vec<Ext>) -> (r: Option<Vec<KeyShareEntry>>) {
    let mut i: usize = 0;
    while i < exts.len()
        invariant
            i <= exts@.len(),
        decreases exts@.len() - i,
    {
        match &exts[i] {
            Ext::KeyShare(v) => {
                let mut out: Vec<KeyShareEntry> = Vec::new();
                let mut k: usize = 0;
                while k < v.len()
                    invariant
                        k <= v@.len(),
                    decreases v@.len() - k,
                {
                    out.push(
                        KeyShareEntry {
                            group: v[k].group,
                            data: copy_range(&v[k].data, 0, v[k].data.len()),
                        },
                    );
                    k = k + 1;
                }
                return Some(out);
            },
            _ => {},
        }
        i = i + 1;
    }
    None
}

fn exts_protocols(exts: &Vec<Ext>) -> (r: Option<Vec<Vec<u8>>>) {
    let mut i: usize = 0;
    while i < exts.len()
        invariant
            i <= exts@.len(),
        decreases exts@.len() - i,
    {
        match &exts[i] {
            Ext::Protocols(v) => {
                let mut out: Vec<Vec<u8>> = Vec::new();
                let mut k: usize = 0;
                while k < v.len()
                    invariant
                        k <= v@.len(),
                    decreases v@.len() - k,
                {
                    out.push(copy_range(&v[k], 0, v[k].len()));
                    k = k + 1;
                }
                return Some(out);
            },
            _ => {},
        }
        i = i + 1;
    }
    None
}

fn exts_bytes_of(exts: &Vec<Ext>, want_psk: bool, want_ech: bool) -> (r: Option<Vec<u8>>) {
    let mut i: usize = 0;
    while i < exts.len()
        invariant
            i <= exts@.len(),
        decreases exts@.len() - i,
    {
        match &exts[i] {
            Ext::PreSharedKey(v) => {
                if want_psk {
                    return Some(copy_range(v, 0, v.len()));
                }
            },
            Ext::Ech(v) => {
                if want_ech {
                    return Some(copy_range(v, 0, v.len()));
                }
            },
            _ => {},
        }
        i = i + 1;
    }
    None
}

fn exts_has_early_data(exts: &Vec<Ext>) -> (r: bool) {
    let mut i: usize = 0;
    while i < exts.len()
        invariant
            i <= exts@.len(),
        decreases exts@.len() - i,
    {
        if matches!(&exts[i], Ext::EarlyData) {
            return true;
        }
        i = i + 1;
    }
    false
}

fn exts_has_ems(exts: &Vec<Ext>) -> (r: bool) {
    let mut i: usize = 0;
    while i < exts.len()
        invariant
            i <= exts@.len(),
        decreases exts@.len() - i,
    {
        if matches!(&exts[i], Ext::ExtendedMasterSecret) {
            return true;
        }
        i = i + 1;
    }
    false
}

fn exts_compress_algs(exts: &Vec<Ext>) -> (r: Option<Vec<u16>>) {
    let mut i: usize = 0;
    while i < exts.len()
        invariant
            i <= exts@.len(),
        decreases exts@.len() - i,
    {
        match &exts[i] {
            Ext::CompressCertAlgs(v) => {
                let mut out: Vec<u16> = Vec::new();
                let mut k: usize = 0;
                while k < v.len()
                    invariant
                        k <= v@.len(),
                    decreases v@.len() - k,
                {
                    out.push(v[k]);
                    k = k + 1;
                }
                return Some(out);
            },
            _ => {},
        }
        i = i + 1;
    }
    None
}

/// Rejects a hello whose extension list repeats a type code.
fn check_no_duplicate_exts(exts: &Vec<Ext>) -> (r: bool) {
    let mut i: usize = 0;
    while i < exts.len()
        invariant
            i <= exts@.len(),
        decreases exts@.len() - i,
    {
        let ci = crate::msgs::ext_code_of(&exts[i]);
        let mut j: usize = i + 1;
        while j < exts.len()
            invariant
                i < j <= exts@.len(),
            decreases exts@.len() - j,
        {
            if crate::msgs::ext_code_of(&exts[j]) == ci {
                return false;
            }
            j = j + 1;
        }
        i = i + 1;
    }
    true
}

/// The negotiated parameter set in executable form.
#[derive(Debug)]
pub struct Params {
    pub version: u16,
    pub suite: u16,
    pub group: Option<u16>,
    pub alpn: Option<Vec<u8>>,
}

impl<P: CryptoProvider> Connection<P> {
    /// Marks the connection dead, queues the matching alert, and hands the
    /// error back.
    fn fatal(&mut self, e: Error) -> (r: Error)
        requires
            old(self).wf(),
        ensures
            final(self).wf(),
            final(self).state is Closed,
            final(self).side == old(self).side,
            r == e,
            final(self).inbuf == old(self).inbuf,
            final(self).provider == old(self).provider,
            final(self).client_traffic == old(self).client_traffic,
            final(self).server_traffic == old(self).server_traffic,
    {
        let desc: u8 = match &e {
            Error::InappropriateMessage { .. } => crate::errs::ALERT_UNEXPECTED_MESSAGE,
            Error::InappropriateHandshakeMessage { .. } => crate::errs::ALERT_UNEXPECTED_MESSAGE,
            Error::InvalidMessage(_) => 50,
            Error::DecryptError => crate::errs::ALERT_DECRYPT_ERROR,
            Error::PeerMisbehaved(_) => 47,
            Error::PeerIncompatible(_) => crate::errs::ALERT_HANDSHAKE_FAILURE,
            Error::InvalidCertificate(_) => crate::errs::ALERT_BAD_CERTIFICATE,
            Error::AlertReceived(_) => crate::errs::ALERT_UNEXPECTED_MESSAGE,
            Error::NoApplicationProtocol => 120,
            Error::NoCertificatesPresented => crate::errs::ALERT_BAD_CERTIFICATE,
            Error::PeerSentOversizedRecord => crate::errs::ALERT_RECORD_OVERFLOW,
            Error::RejectedEch { .. } => 121,
            Error::CredentialResolution(_) => crate::errs::ALERT_HANDSHAKE_FAILURE,
        };
        self.queue_alert(2, desc);
        self.state = HandshakeState::Closed;
        e
    }

    /// Frames and queues one handshake message, appending its encoding to
    /// the transcript.
    fn send_handshake(&mut self, m: &Msg) -> (r: Result<(), Error>)
        requires
            old(self).wf(),
            wf_msg(m@),
        ensures
            final(self).wf(),
            final(self).side == old(self).side,
            r is Ok ==> final(self).state == old(self).state,
            r is Err ==> final(self).state is Closed,
            r is Ok ==> final(self).transcript@ == old(self).transcript@
                + crate::hsmsgs::enc_msg(m@),
            r is Ok ==> final(self).outbuf@.len() > old(self).outbuf@.len(),
            old(self).rec.write.epoch is Plaintext ==> r is Ok,
            old(self).rec.write.epoch is Application && old(self).rec.write.seq
                < crate::record::SEQ_LIMIT - 16777300 ==> r is Ok,
            r is Ok ==> final(self).rec.write.epoch == old(self).rec.write.epoch && final(self).rec.write.generation == old(self).rec.write.generation,
            final(self).provider == old(self).provider,
            final(self).client_traffic == old(self).client_traffic,
            final(self).server_traffic == old(self).server_traffic,
    {
        let bytes = encode_msg(m);
        proof {
            crate::hsmsgs::lemma_len_msg_body(m@);
        }
        crate::codec::put_bytes(&mut self.transcript, &bytes);
        let chunks = crate::record::fragment(&bytes, self.rec.max_fragment);
        proof {
            if chunks.deep_view().len() == 0 {
                assert(crate::record::spec_concat(chunks.deep_view()) =~= Seq::<u8>::empty());
            }
            assert(chunks@.len() > 0);
            assert(chunks@.len() <= 16777300);
        }
        let mut k: usize = 0;
        while k < chunks.len()
            invariant
                k <= chunks@.len(),
                0 < chunks@.len() <= 16777300,
                self.wf(),
                self.state == old(self).state,
                self.side == old(self).side,
                self.transcript@ == old(self).transcript@ + crate::hsmsgs::enc_msg(m@),
                self.rec.write.epoch == old(self).rec.write.epoch,
                self.rec.write.generation == old(self).rec.write.generation,
                self.rec.write.seq <= old(self).rec.write.seq + k,
                self.provider == old(self).provider,
                self.client_traffic == old(self).client_traffic,
                self.server_traffic == old(self).server_traffic,
                self.outbuf@.len() >= old(self).outbuf@.len(),
                k > 0 ==> self.outbuf@.len() > old(self).outbuf@.len(),
                forall|j: int| 0 <= j < chunks.deep_view().len() ==> 1 <= (
                #[trigger] chunks.deep_view()[j]).len() <= self.rec.max_fragment,
            decreases chunks@.len() - k,
        {
            proof {
                assert(chunks.deep_view()[k as int] == chunks@[k as int]@);
            }
            let out = self.rec.seal(&self.provider, CT_HANDSHAKE, &chunks[k]);
            match out {
                Ok(bytes) => {
                    crate::codec::put_bytes(&mut self.outbuf, &bytes);
                },
                Err(e) => {
                    return Err(self.fatal(e));
                },
            }
            k = k + 1;
        }
        Ok(())
    }

    /// Seals and queues application plaintext.
    fn send_appdata(&mut self, data: &Vec<u8>) -> (r: Result<(), Error>)
        requires
            old(self).wf(),
        ensures
            final(self).wf(),
            final(self).side == old(self).side,
            r is Ok ==> final(self).state == old(self).state,
            r is Err ==> final(self).state is Closed,
            r is Ok && data@.len() > 0 ==> final(self).outbuf@.len() > old(self).outbuf@.len(),
            final(self).provider == old(self).provider,
            final(self).client_traffic == old(self).client_traffic,
            final(self).server_traffic == old(self).server_traffic,
    {
        if data.len() == 0 {
            return Ok(());
        }
        let chunks = crate::record::fragment(data, self.rec.max_fragment);
        proof {
            if chunks.deep_view().len() == 0 {
                assert(crate::record::spec_concat(chunks.deep_view()) =~= Seq::<u8>::empty());
            }
            assert(chunks@.len() > 0);
        }
        let mut k: usize = 0;
        while k < chunks.len()
            invariant
                k <= chunks@.len(),
                chunks@.len() > 0,
                self.wf(),
                self.state == old(self).state,
                self.side == old(self).side,
                self.outbuf@.len() >= old(self).outbuf@.len(),
                k > 0 ==> self.outbuf@.len() > old(self).outbuf@.len(),
                self.provider == old(self).provider,
                self.client_traffic == old(self).client_traffic,
                self.server_traffic == old(self).server_traffic,
                forall|j: int| 0 <= j < chunks.deep_view().len() ==> 1 <= (
                #[trigger] chunks.deep_view()[j]).len() <= self.rec.max_fragment,
            decreases chunks@.len() - k,
        {
            proof {
                assert(chunks.deep_view()[k as int] == chunks@[k as int]@);
            }
            let out = self.rec.seal(&self.provider, CT_APPLICATION_DATA, &chunks[k]);
            match out {
                Ok(bytes) => {
                    crate::codec::put_bytes(&mut self.outbuf, &bytes);
                },
                Err(e) => {
                    return Err(self.fatal(e));
                },
            }
            k = k + 1;
        }
        Ok(())
    }

    /// Queues application data for the peer: buffered while handshaking,
    /// sealed and framed once traffic keys are live.
    pub fn writer_write(&mut self, data: &Vec<u8>) -> (r: Result<usize, Error>)
        requires
            old(self).wf(),
        ensures
            final(self).wf(),
            r matches Ok(n) ==> n == data@.len(),
            (r is Ok) <==> (!(old(self).state is Closed) && !(final(self).state is Closed)),
            ({
                let live = (old(self).state is Established || old(self).state
                    is KeyUpdateInFlight) || (old(self).side == Side::Client && old(
                    self,
                ).rec.write.epoch is EarlyData);
                &&& ((r is Ok && !live) ==> final(self).plaintext_out@ == old(
                    self,
                ).plaintext_out@ + data@)
                &&& ((r is Ok && live && data@.len() > 0) ==> final(self).outbuf@.len() > old(
                    self,
                ).outbuf@.len())
            }),
    {
        if matches!(self.state, HandshakeState::Closed) {
            return Err(Error::InappropriateMessage { got_type: 0 });
        }
        let established = matches!(self.state, HandshakeState::Established) || matches!(
            self.state,
            HandshakeState::KeyUpdateInFlight,
        );
        let early_live = matches!(self.side, Side::Client) && matches!(
            self.rec.write.epoch,
            Epoch::EarlyData,
        );
        if established || early_live {
            self.send_appdata(data)?;
            Ok(data.len())
        } else {
            crate::codec::put_bytes(&mut self.plaintext_out, data);
            Ok(data.len())
        }
    }

    /// Rotates this side's outbound traffic keys and tells the peer; only an
    /// established connection may update keys.
    pub fn refresh_traffic_keys(&mut self) -> (r: Result<(), Error>)
        requires
            old(self).wf(),
        ensures
            final(self).wf(),
            (r is Ok) ==> (old(self).state is Established || old(self).state
                is KeyUpdateInFlight),
            (old(self).state is Established || old(self).state is KeyUpdateInFlight) && old(
                self,
            ).rec.write.epoch is Application && old(self).rec.write.seq < crate::record::SEQ_LIMIT
                - 16777300 ==> r is Ok,
            r is Ok ==> final(self).outbuf@.len() > old(self).outbuf@.len(),
            r is Ok ==> final(self).rec.write.epoch is Application && (old(
                self,
            ).rec.write.generation < 0xffff_ffff ==> final(self).rec.write.generation == old(
                self,
            ).rec.write.generation + 1),
            r is Ok && old(self).side == Side::Client ==> final(self).client_traffic@ == old(
                self,
            ).provider.spec_derive(old(self).client_traffic@, LBL_TRAFFIC_UPD, Seq::empty()),
            r is Ok && old(self).side == Side::Server ==> final(self).server_traffic@ == old(
                self,
            ).provider.spec_derive(old(self).server_traffic@, LBL_TRAFFIC_UPD, Seq::empty()),
    {
        if !(matches!(self.state, HandshakeState::Established) || matches!(
            self.state,
            HandshakeState::KeyUpdateInFlight,
        )) {
            return Err(Error::InappropriateMessage { got_type: 0 });
        }
        let m = Msg::KeyUpdate(true);
        self.send_handshake(&m)?;
        let empty: Vec<u8> = Vec::new();
        let mine = if matches!(self.side, Side::Client) {
            self.provider.derive(&self.client_traffic, LBL_TRAFFIC_UPD, &empty)
        } else {
            self.provider.derive(&self.server_traffic, LBL_TRAFFIC_UPD, &empty)
        };
        if matches!(self.side, Side::Client) {
            self.client_traffic = mine;
        } else {
            self.server_traffic = mine;
        }
        let gen = self.rec.write.generation;
        let newgen = if gen < 0xffff_ffff {
            gen + 1
        } else {
            gen
        };
        let key = if matches!(self.side, Side::Client) {
            copy_range(&self.client_traffic, 0, self.client_traffic.len())
        } else {
            copy_range(&self.server_traffic, 0, self.server_traffic.len())
        };
        self.rec.set_write_key(Epoch::Application, key, newgen);
        Ok(())
    }
}

/// Appends one well-formed extension, keeping the whole list well formed.
fn push_ext(exts: &mut Vec<Ext>, e: Ext)
    requires
        crate::msgs::wf_exts(old(exts).deep_view()),
        crate::msgs::wf_ext(e@),
        old(exts)@.len() < 12,
    ensures
        crate::msgs::wf_exts(final(exts).deep_view()),
        final(exts)@.len() == old(exts)@.len() + 1,
{
    let ghost pre = exts.deep_view();
    let ghost ev = e@;
    exts.push(e);
    proof {
        assert(exts.deep_view() =~~= pre.push(ev));
        assert forall|k: int| 0 <= k < exts.deep_view().len() implies crate::msgs::wf_ext(
            #[trigger] exts.deep_view()[k],
        ) by {
            if k < pre.len() {
                assert(exts.deep_view()[k] == pre[k]);
            } else {
                assert(exts.deep_view()[k] == ev);
            }
        }
    }
}

fn kdf<P: CryptoProvider>(p: &P, secret: &Vec<u8>, label: u8) -> (r: Vec<u8>)
    ensures
        r@ == p.spec_derive(secret@, label, Seq::empty()),
        r@.len() == 32,
{
    let empty: Vec<u8> = Vec::new();
    proof {
        assert(empty@ =~= Seq::<u8>::empty());
    }
    p.derive(secret, label, &empty)
}

fn kdf_ctx<P: CryptoProvider>(p: &P, secret: &Vec<u8>, label: u8, ctx: &Vec<u8>) -> (r: Vec<u8>)
    ensures
        r@ == p.spec_derive(secret@, label, ctx@),
        r@.len() == 32,
{
    p.derive(secret, label, ctx)
}

impl<P: CryptoProvider> Connection<P> {
    /// Creates a client connection: the first hello is built and queued at
    /// once, resuming from stored state when any is fresh.
    pub fn new_client(provider: P, cfg: ClientConfig, now: u64) -> (r: Result<Connection<P>, Error>)
        requires
            wf_client_config(cfg),
        ensures
            r is Ok,
            r matches Ok(c) ==> c.wf() && c.side == Side::Client && c.state is ExpectServerHello
                && c.outbuf@.len() > 0,
    {
        let mut cfg = cfg;
        let hostname = copy_range(&cfg.hostname, 0, cfg.hostname.len());
        let ticket = cfg.resumption.take_tls13_ticket(&hostname);
        let random = provider.random(32);
        let session_id = provider.random(32);
        let kx_private = provider.random(32);
        let mut suites: Vec<u16> = Vec::new();
        crate::codec::append_u16s(&mut suites, &cfg.suites);
        let mut exts: Vec<Ext> = Vec::new();
        proof {
            assert(exts.deep_view() =~~= Seq::<crate::msgs::ExtV>::empty());
        }
        let mut vers: Vec<u16> = Vec::new();
        crate::codec::append_u16s(&mut vers, &cfg.versions);
        push_ext(&mut exts, Ext::SupportedVersions(vers));
        let mut groups: Vec<u16> = Vec::new();
        crate::codec::append_u16s(&mut groups, &cfg.groups);
        push_ext(&mut exts, Ext::SupportedGroups(groups));
        let share_data = provider.kx_public(cfg.groups[0], &kx_private);
        let mut shares: Vec<KeyShareEntry> = Vec::new();
        shares.push(KeyShareEntry { group: cfg.groups[0], data: share_data });
        proof {
            crate::msgs::lemma_shares_deep_view(&shares);
            assert(shares.deep_view()[0].data.len() < 512);
        }
        push_ext(&mut exts, Ext::KeyShare(shares));
        if cfg.enable_sni {
            push_ext(&mut exts, Ext::ServerName(copy_range(&hostname, 0, hostname.len())));
        }
        if cfg.alpn.len() > 0 {
            let mut ps: Vec<Vec<u8>> = Vec::new();
            let mut k: usize = 0;
            while k < cfg.alpn.len()
                invariant
                    k <= cfg.alpn@.len(),
                    ps@.len() == k,
                    wf_client_config(cfg),
                    forall|j: int| 0 <= j < k ==> 1 <= (#[trigger] ps@[j])@.len() < 256,
                decreases cfg.alpn@.len() - k,
            {
                let item = copy_range(&cfg.alpn[k], 0, cfg.alpn[k].len());
                ps.push(item);
                k = k + 1;
            }
            proof {
                crate::msgs::lemma_bytes_deep_view(&ps);
                assert forall|j: int| 0 <= j < ps.deep_view().len() implies 1 <= (
                #[trigger] ps.deep_view()[j]).len() < 256 by {
                    assert(ps.deep_view()[j] == ps@[j]@);
                }
            }
            push_ext(&mut exts, Ext::Protocols(ps));
        }
        push_ext(&mut exts, Ext::ExtendedMasterSecret);
        if cfg.compressors.len() > 0 {
            let mut algs: Vec<u16> = Vec::new();
            let mut k: usize = 0;
            while k < cfg.compressors.len()
                invariant
                    k <= cfg.compressors@.len(),
                    algs@.len() == k,
                    wf_client_config(cfg),
                decreases cfg.compressors@.len() - k,
            {
                algs.push(cfg.compressors[k].code());
                k = k + 1;
            }
            push_ext(&mut exts, Ext::CompressCertAlgs(algs));
        }
        let mut offered_psk: Option<Tls13ClientSessionValue> = None;
        let mut offered_early = false;
        match ticket {
            Some(t) => {
                if t.ticket.len() > 0 && t.ticket.len() < 2048 && ticket_fresh(
                    t.creation_time_sec,
                    now,
                    t.lifetime as u64,
                ) {
                    push_ext(&mut exts, Ext::PreSharedKey(copy_range(&t.ticket, 0, t.ticket.len())));
                    if cfg.enable_early_data && t.max_early_data > 0 {
                        push_ext(&mut exts, Ext::EarlyData);
                        offered_early = true;
                    }
                    offered_psk = Some(t);
                }
            },
            None => {},
        }
        let mut ech_status = EchStatus::NotOffered;
        match &cfg.ech_config {
            Some(e) => {
                let sealed = provider.hpke_seal(e, &hostname);
                if sealed.len() < 2048 {
                    push_ext(&mut exts, Ext::Ech(sealed));
                    ech_status = EchStatus::Offered;
                }
            },
            None => {
                if cfg.ech_grease {
                    push_ext(&mut exts, Ext::Ech(provider.random(32)));
                    ech_status = EchStatus::Grease;
                }
            },
        }
        let mut compression: Vec<u8> = Vec::new();
        compression.push(0);
        let ch = ClientHello {
            legacy_version: TLS12,
            random: copy_range(&random, 0, random.len()),
            session_id: copy_range(&session_id, 0, session_id.len()),
            cipher_suites: suites,
            compression,
            extensions: exts,
        };
        let max_fragment = cfg.max_fragment;
        let mut conn = Connection {
            provider,
            side: Side::Client,
            state: HandshakeState::Start,
            rec: RecordLayer::new(max_fragment),
            ccfg: None,
            scfg: None,
            now,
            version: None,
            suite: None,
            group: None,
            alpn_selected: None,
            kind: None,
            ems: false,
            secret: Vec::new(),
            client_traffic: Vec::new(),
            server_traffic: Vec::new(),
            exporter_secret: Vec::new(),
            resumption_secret: Vec::new(),
            fin_key: Vec::new(),
            transcript: Vec::new(),
            kx_private,
            client_random: random,
            server_random: Vec::new(),
            offered_suites: copy_range_u16(&ch.cipher_suites),
            offered_groups: copy_range_u16(&cfg.groups),
            offered_session_id: session_id,
            offered_psk,
            offered_early_data: offered_early,
            inbuf: Vec::new(),
            outbuf: Vec::new(),
            plaintext_in: Vec::new(),
            plaintext_out: Vec::new(),
            hsbuf: Vec::new(),
            sent_close_notify: false,
            received_close_notify: false,
            key_update_requests: 0,
            warning_alerts: 0,
            early: EarlyDataGate::new(0),
            early_accepted: false,
            early_rejected: false,
            ech_status,
            key_log: KeyLogMemo::new(),
            cert_requested: false,
            req_schemes: Vec::new(),
            req_hints: Vec::new(),
            selected_credential: None,
            peer_cert_chain: Vec::new(),
            tls12_peer_pub: Vec::new(),
        };
        conn.ccfg = Some(cfg);
        proof {
            let chv = ch@;
            assert(wf_msg(crate::hsmsgs::MsgV::ClientHello(chv)));
        }
        let m = Msg::ClientHello(ch);
        conn.send_handshake(&m)?;
        // a resuming client with early data starts the early-data epoch
        if offered_early {
            match &conn.offered_psk {
                Some(t) => {
                    let early_key = kdf(&conn.provider, &t.secret, LBL_EARLY_TRAFFIC);
                    conn.rec.set_write_key(Epoch::EarlyData, early_key, 0);
                },
                None => {},
            }
        }
        conn.state = HandshakeState::ExpectServerHello;
        Ok(conn)
    }

    /// Creates a server connection; it waits for the client's hello.
    pub fn new_server(provider: P, cfg: ServerConfig, now: u64) -> (r: Connection<P>)
        requires
            wf_server_config(cfg),
        ensures
            r.wf(),
            r.side == Side::Server,
            r.state is ExpectClientHello,
    {
        let max_fragment = cfg.max_fragment;
        let max_early = cfg.max_early_data;
        let mut conn = Connection {
            provider,
            side: Side::Server,
            state: HandshakeState::ExpectClientHello,
            rec: RecordLayer::new(max_fragment),
            ccfg: None,
            scfg: None,
            now,
            version: None,
            suite: None,
            group: None,
            alpn_selected: None,
            kind: None,
            ems: false,
            secret: Vec::new(),
            client_traffic: Vec::new(),
            server_traffic: Vec::new(),
            exporter_secret: Vec::new(),
            resumption_secret: Vec::new(),
            fin_key: Vec::new(),
            transcript: Vec::new(),
            kx_private: Vec::new(),
            client_random: Vec::new(),
            server_random: Vec::new(),
            offered_suites: Vec::new(),
            offered_groups: Vec::new(),
            offered_session_id: Vec::new(),
            offered_psk: None,
            offered_early_data: false,
            inbuf: Vec::new(),
            outbuf: Vec::new(),
            plaintext_in: Vec::new(),
            plaintext_out: Vec::new(),
            hsbuf: Vec::new(),
            sent_close_notify: false,
            received_close_notify: false,
            key_update_requests: 0,
            warning_alerts: 0,
            early: EarlyDataGate::new(max_early),
            early_accepted: false,
            early_rejected: false,
            ech_status: EchStatus::NotOffered,
            key_log: KeyLogMemo::new(),
            cert_requested: false,
            req_schemes: Vec::new(),
            req_hints: Vec::new(),
            selected_credential: None,
            peer_cert_chain: Vec::new(),
            tls12_peer_pub: Vec::new(),
        };
        conn.scfg = Some(cfg);
        conn
    }
}

fn copy_range_u16(v: &Vec<u16>) -> (r: Vec<u16>)
    ensures
        r@ == v@,
{
    let mut out: Vec<u16> = Vec::new();
    crate::codec::append_u16s(&mut out, v);
    out
}

/// The server's whole-offer negotiation in executable form; agrees exactly
/// with its specification, on which the agreement law is proved.
pub fn server_negotiate(
    server_versions: &Vec<u16>,
    server_suites: &Vec<u16>,
    server_groups: &Vec<u16>,
    server_alpn: &Vec<Vec<u8>>,
    server_preference: bool,
    client_versions: &Vec<u16>,
    client_suites: &Vec<u16>,
    client_share_groups: &Vec<u16>,
    client_alpn: &Vec<Vec<u8>>,
) -> (r: Result<Params, Error>)
    ensures
        ({
            let sp = crate::negotiation::spec_server_negotiate(
                server_versions@,
                server_suites@,
                server_groups@,
                server_alpn.deep_view(),
                server_preference,
                client_versions@,
                client_suites@,
                client_share_groups@,
                client_alpn.deep_view(),
            );
            match sp {
                Ok(p) => r matches Ok(q) && q.version == p.version && q.suite == p.suite
                    && q.group == p.group && (match (q.alpn, p.alpn) {
                    (Some(a), Some(b)) => a@ == b,
                    (None, None) => true,
                    _ => false,
                }),
                Err(_) => r is Err && (r matches Err(e2) ==> sp == Err::<
                    crate::negotiation::ParamsV,
                    Error,
                >(e2)),
            }
        }),
{
    let version = match select_version(server_versions, client_versions) {
        Some(v) => v,
        None => {
            return Err(Error::PeerIncompatible(PeerIncompatible::NoSupportedVersions));
        },
    };
    let suite = if server_preference {
        first_common(server_suites, client_suites)
    } else {
        first_common(client_suites, server_suites)
    };
    let suite = match suite {
        Some(s) => s,
        None => {
            return Err(Error::PeerIncompatible(PeerIncompatible::NoCipherSuitesInCommon));
        },
    };
    let group = match first_common(client_share_groups, server_groups) {
        Some(g) => g,
        None => {
            return Err(Error::PeerIncompatible(PeerIncompatible::NoKxGroupsInCommon));
        },
    };
    if server_alpn.len() == 0 {
        return Ok(Params { version, suite, group: Some(group), alpn: None });
    }
    match first_common_bytes(server_alpn, client_alpn) {
        Some(proto) => Ok(Params { version, suite, group: Some(group), alpn: Some(proto) }),
        None => Err(Error::NoApplicationProtocol),
    }
}

/// The client's audit of the server's choice in executable form.
pub fn client_check(
    client_versions: &Vec<u16>,
    client_suites: &Vec<u16>,
    client_share_groups: &Vec<u16>,
    client_alpn: &Vec<Vec<u8>>,
    chosen_version: u16,
    chosen_suite: u16,
    chosen_group: Option<u16>,
    chosen_alpn: &Option<Vec<u8>>,
) -> (r: Result<(), Error>)
    ensures
        ({
            let sp = crate::negotiation::spec_client_check(
                client_versions@,
                client_suites@,
                client_share_groups@,
                client_alpn.deep_view(),
                chosen_version,
                chosen_suite,
                chosen_group,
                match chosen_alpn {
                    Some(a) => Some(a@),
                    None => None,
                },
            );
            match sp {
                Ok(_) => r is Ok,
                Err(_) => r is Err && (r matches Err(e2) ==> sp == Err::<
                    crate::negotiation::ParamsV,
                    Error,
                >(e2)),
            }
        }),
{
    if !crate::resolver::contains_u16(client_versions, chosen_version) {
        return Err(Error::PeerIncompatible(PeerIncompatible::NoSupportedVersions));
    }
    if !crate::resolver::contains_u16(client_suites, chosen_suite) {
        return Err(Error::PeerMisbehaved(PeerMisbehaved::SelectedUnofferedCipherSuite));
    }
    match chosen_group {
        Some(g) => {
            if !crate::resolver::contains_u16(client_share_groups, g) {
                return Err(Error::PeerMisbehaved(PeerMisbehaved::SelectedUnofferedKxGroup));
            }
        },
        None => {},
    }
    match chosen_alpn {
        Some(a) => {
            let mut found = false;
            let mut i: usize = 0;
            while i < client_alpn.len()
                invariant
                    i <= client_alpn@.len(),
                    client_alpn.deep_view().len() == client_alpn@.len(),
                    forall|j: int| 0 <= j < client_alpn@.len() ==> #[trigger] client_alpn.deep_view()[j]
                        == client_alpn@[j].deep_view(),
                    found == exists|j: int|
                        0 <= j < i && #[trigger] client_alpn.deep_view()[j] == a@,
                decreases client_alpn@.len() - i,
            {
                proof {
                    assert(client_alpn@[i as int].deep_view() =~= client_alpn@[i as int]@);
                }
                if bytes_eq(&client_alpn[i], a) {
                    found = true;
                    assert(client_alpn.deep_view()[i as int] == a@);
                }
                i = i + 1;
            }
            if !found {
                assert(!client_alpn.deep_view().contains(a@));
                return Err(Error::NoApplicationProtocol);
            }
        },
        None => {},
    }
    Ok(())
}

impl<P: CryptoProvider> Connection<P> {
    /// Recovers stored server-session bytes for a resumption label.
    fn storage_take(&mut self, key: &Vec<u8>) -> (r: Option<Vec<u8>>)
        requires
            old(self).wf(),
        ensures
            final(self).wf(),
            final(self).state == old(self).state,
            final(self).side == old(self).side,
    {
        match &mut self.scfg {
            Some(c) => {
                match &c.ticketer {
                    Some(t) => {
                        return t.decrypt(key);
                    },
                    None => {},
                }
                match &mut c.session_storage {
                    ServerStorage::Memory(m) => m.take(key),
                    ServerStorage::Nothing(_) => None,
                }
            },
            None => None,
        }
    }

    /// Looks up stored server-session bytes without consuming them.
    fn storage_get(&mut self, key: &Vec<u8>) -> (r: Option<Vec<u8>>)
        requires
            old(self).wf(),
        ensures
            final(self).wf(),
            final(self).state == old(self).state,
            final(self).side == old(self).side,
    {
        match &self.scfg {
            Some(c) => match &c.session_storage {
                ServerStorage::Memory(m) => m.get(key),
                ServerStorage::Nothing(_) => None,
            },
            None => None,
        }
    }

    /// Stores server-session bytes under a label.
    fn storage_put(&mut self, key: Vec<u8>, value: Vec<u8>)
        requires
            old(self).wf(),
        ensures
            final(self).wf(),
            final(self).state == old(self).state,
            final(self).side == old(self).side,
    {
        match &mut self.scfg {
            Some(c) => match &mut c.session_storage {
                ServerStorage::Memory(m) => {
                    let _ = m.put(key, value);
                },
                ServerStorage::Nothing(n) => {
                    let _ = n.put(key, value);
                },
            },
            None => {},
        }
    }

    /// Derives both application traffic secrets, the exporter secret and the
    /// resumption secret from the master secret and the present transcript,
    /// reporting the first traffic secrets to the key log.
    fn derive_app_secrets(&mut self)
        requires
            old(self).wf(),
        ensures
            final(self).wf(),
            final(self).state == old(self).state,
            final(self).side == old(self).side,
            final(self).client_traffic@ == old(self).provider.spec_derive(
                old(self).secret@,
                LBL_CLIENT_AP_TRAFFIC,
                old(self).transcript@,
            ),
            final(self).server_traffic@ == old(self).provider.spec_derive(
                old(self).secret@,
                LBL_SERVER_AP_TRAFFIC,
                old(self).transcript@,
            ),
            final(self).exporter_secret@ == old(self).provider.spec_derive(
                old(self).secret@,
                LBL_EXPORTER,
                old(self).transcript@,
            ),
            final(self).resumption_secret@ == old(self).provider.spec_derive(
                old(self).secret@,
                LBL_RESUMPTION,
                old(self).transcript@,
            ),
    {
        let ctx = copy_range(&self.transcript, 0, self.transcript.len());
        proof {
            assert(ctx@ =~= self.transcript@);
        }
        let ct = kdf_ctx(&self.provider, &self.secret, LBL_CLIENT_AP_TRAFFIC, &ctx);
        let st = kdf_ctx(&self.provider, &self.secret, LBL_SERVER_AP_TRAFFIC, &ctx);
        let ex = kdf_ctx(&self.provider, &self.secret, LBL_EXPORTER, &ctx);
        let rs = kdf_ctx(&self.provider, &self.secret, LBL_RESUMPTION, &ctx);
        let log_enabled = match &self.ccfg {
            Some(c) => c.key_log_enabled,
            None => match &self.scfg {
                Some(c) => c.key_log_enabled,
                None => false,
            },
        };
        if log_enabled {
            self.key_log.log(KeyLogLabel::ClientTraffic0, &ct);
            self.key_log.log(KeyLogLabel::ServerTraffic0, &st);
        }
        self.client_traffic = ct;
        self.server_traffic = st;
        self.exporter_secret = ex;
        self.resumption_secret = rs;
    }

    /// Installs this side's application write key and the peer's read key.
    fn install_app_keys(&mut self)
        requires
            old(self).wf(),
        ensures
            final(self).wf(),
            final(self).state == old(self).state,
            final(self).side == old(self).side,
    {
        let (wk, rk) = if matches!(self.side, Side::Client) {
            (
                copy_range(&self.client_traffic, 0, self.client_traffic.len()),
                copy_range(&self.server_traffic, 0, self.server_traffic.len()),
            )
        } else {
            (
                copy_range(&self.server_traffic, 0, self.server_traffic.len()),
                copy_range(&self.client_traffic, 0, self.client_traffic.len()),
            )
        };
        self.rec.set_write_key(Epoch::Application, wk, 0);
        self.rec.set_read_key(Epoch::Application, rk, 0);
    }

    /// Flushes application data queued while the handshake was running.
    fn flush_pending_plaintext(&mut self) -> (r: Result<(), Error>)
        requires
            old(self).wf(),
        ensures
            final(self).wf(),
            final(self).side == old(self).side,
            r is Ok ==> final(self).state == old(self).state,
            r is Err ==> final(self).state is Closed,
    {
        if self.plaintext_out.len() == 0 {
            return Ok(());
        }
        let mut data: Vec<u8> = Vec::new();
        core::mem::swap(&mut data, &mut self.plaintext_out);
        self.send_appdata(&data)
    }
}

fn msg_code_of(m: &Msg) -> (r: u8)
    ensures
        r == crate::hsmsgs::msg_code(m@),
{
    match m {
        Msg::ClientHello(_) => HT_CLIENT_HELLO,
        Msg::ServerHello(_) => HT_SERVER_HELLO,
        Msg::NewSessionTicket(_) => HT_NEW_SESSION_TICKET,
        Msg::EncryptedExtensions(_) => HT_ENCRYPTED_EXTENSIONS,
        Msg::Certificate(_) => HT_CERTIFICATE,
        Msg::ServerKeyExchange(_) => HT_SERVER_KEY_EXCHANGE,
        Msg::CertificateRequest(_) => HT_CERTIFICATE_REQUEST,
        Msg::ServerHelloDone => HT_SERVER_HELLO_DONE,
        Msg::CertificateVerify(_) => HT_CERTIFICATE_VERIFY,
        Msg::ClientKeyExchange(_) => HT_CLIENT_KEY_EXCHANGE,
        Msg::Finished(_) => HT_FINISHED,
        Msg::KeyUpdate(_) => HT_KEY_UPDATE,
        Msg::CompressedCertificate(_) => HT_COMPRESSED_CERTIFICATE,
    }
}

impl<P: CryptoProvider> Connection<P> {
    /// The server's response to a client hello: negotiate, decide
    /// resumption, derive handshake secrets, and send the whole flight.
    #[verifier::rlimit(100)]
    #[verifier::spinoff_prover]
    fn server_handle_ch(&mut self, ch: ClientHello) -> (r: Result<(), Error>)
        requires
            old(self).wf(),
            old(self).side == Side::Server,
            old(self).state is ExpectClientHello,
        ensures
            final(self).wf(),
            final(self).side == old(self).side,
            state_rank(final(self).state) >= state_rank(old(self).state),
            r is Err ==> final(self).state is Closed,
    {
        if !check_no_duplicate_exts(&ch.extensions) {
            return Err(self.fatal(Error::InvalidMessage(InvalidMessage::DuplicateExtension)));
        }
        if ch.session_id.len() > 32 || ch.random.len() != 32 {
            return Err(self.fatal(Error::InvalidMessage(InvalidMessage::MessageTooShort)));
        }
        // gather the offer
        let client_versions = match exts_versions(&ch.extensions) {
            Some(v) => v,
            None => {
                let mut v: Vec<u16> = Vec::new();
                if ch.legacy_version >= TLS12 {
                    v.push(TLS12);
                }
                v
            },
        };
        let shares = match exts_key_shares(&ch.extensions) {
            Some(v) => v,
            None => Vec::new(),
        };
        let client_share_groups = share_groups(&shares);
        let client_alpn = match exts_protocols(&ch.extensions) {
            Some(v) => v,
            None => Vec::new(),
        };
        let offered_ems = exts_has_ems(&ch.extensions);
        let offered_early = exts_has_early_data(&ch.extensions);
        let psk = exts_bytes_of(&ch.extensions, true, false);
        let ech_payload = exts_bytes_of(&ch.extensions, false, true);
        let client_compress = exts_compress_algs(&ch.extensions);
        // copy what we need out of the configuration
        let (sv, ss, sg, sa, pref) = match &self.scfg {
            Some(c) => (
                copy_range_u16(&c.versions),
                copy_range_u16(&c.suites),
                copy_range_u16(&c.groups),
                copy_bytes_list(&c.alpn),
                c.ignore_client_order,
            ),
            None => {
                return Err(self.fatal(Error::InappropriateMessage { got_type: 0 }));
            },
        };
        let params = match server_negotiate(
            &sv,
            &ss,
            &sg,
            &sa,
            pref,
            &client_versions,
            &ch.cipher_suites,
            &client_share_groups,
            &client_alpn,
        ) {
            Ok(p) => p,
            Err(e) => {
                return Err(self.fatal(e));
            },
        };
        self.version = Some(params.version);
        self.suite = Some(params.suite);
        self.group = params.group;
        self.client_random = copy_range(&ch.random, 0, ch.random.len());
        // encrypted-hello disposition
        let mut ech_accepted = false;
        let mut ech_retry: Option<Vec<u8>> = None;
        match (&ech_payload, &self.scfg) {
            (Some(sealed), Some(c)) => {
                match &c.ech_config {
                    Some(cfgpk) => {
                        match self.provider.hpke_open(cfgpk, sealed) {
                            Some(_) => {
                                ech_accepted = true;
                            },
                            None => {
                                ech_retry = Some(copy_range(cfgpk, 0, cfgpk.len()));
                            },
                        }
                    },
                    None => {},
                }
            },
            _ => {},
        }
        // resumption
        let (lifetime, max_early) = match &self.scfg {
            Some(c) => (c.ticket_lifetime, c.max_early_data),
            None => (0, 0),
        };
        let mut resumed: Option<ServerSessionValue> = None;
        if params.version == TLS13 {
            match &psk {
                Some(label) => {
                    let recovered = self.storage_take(label);
                    let value = match recovered {
                        Some(enc) => ServerSessionValue::read_bytes(&enc),
                        None => None,
                    };
                    resumed = decide_resumption(value, self.now, lifetime);
                },
                None => {},
            }
        } else {
            if ch.session_id.len() > 0 {
                let recovered = self.storage_get(&ch.session_id);
                let value = match recovered {
                    Some(enc) => ServerSessionValue::read_bytes(&enc),
                    None => None,
                };
                resumed = decide_resumption(value, self.now, lifetime);
            }
        }
        let is_resumed = resumed.is_some();
        self.kind = Some(
            if is_resumed {
                HandshakeKind::Resumed
            } else {
                HandshakeKind::Full
            },
        );
        self.ems = offered_ems;
        // server key share
        let group = match params.group {
            Some(g) => g,
            None => 0,
        };
        self.kx_private = self.provider.random(32);
        let server_share = self.provider.kx_public(group, &self.kx_private);
        let server_random = self.provider.random(32);
        self.server_random = copy_range(&server_random, 0, server_random.len());
        // server hello
        let mut sh_exts: Vec<Ext> = Vec::new();
        proof {
            assert(sh_exts.deep_view() =~~= Seq::<crate::msgs::ExtV>::empty());
        }
        let mut one_ver: Vec<u16> = Vec::new();
        one_ver.push(params.version);
        push_ext(&mut sh_exts, Ext::SupportedVersions(one_ver));
        if params.version == TLS13 {
            let mut shl: Vec<KeyShareEntry> = Vec::new();
            let sd = copy_range(&server_share, 0, server_share.len());
            shl.push(KeyShareEntry { group, data: sd });
            proof {
                crate::msgs::lemma_shares_deep_view(&shl);
                assert(shl.deep_view()[0].data.len() < 512);
            }
            push_ext(&mut sh_exts, Ext::KeyShare(shl));
            if is_resumed {
                let mut marker: Vec<u8> = Vec::new();
                marker.push(0);
                marker.push(0);
                push_ext(&mut sh_exts, Ext::PreSharedKey(marker));
            }
        } else {
            if offered_ems {
                push_ext(&mut sh_exts, Ext::ExtendedMasterSecret);
            }
        }
        let session_id_echo = copy_range(&ch.session_id, 0, ch.session_id.len());
        let sh = ServerHello {
            legacy_version: TLS12,
            random: server_random,
            session_id: session_id_echo,
            cipher_suite: params.suite,
            compression: 0,
            extensions: sh_exts,
        };
        let m = Msg::ServerHello(sh);
        self.send_handshake(&m)?;
        // handshake secrets (the shared secret enters the schedule here)
        let peer_share: Vec<u8> = {
            let mut found: Vec<u8> = Vec::new();
            let mut i: usize = 0;
            while i < shares.len()
                invariant
                    i <= shares@.len(),
                decreases shares@.len() - i,
            {
                if shares[i].group == group {
                    found = copy_range(&shares[i].data, 0, shares[i].data.len());
                    break ;
                }
                i = i + 1;
            }
            found
        };
        let shared = self.provider.kx_shared(group, &self.kx_private, &peer_share);
        let ctx = copy_range(&self.transcript, 0, self.transcript.len());
        let hs = kdf_ctx(&self.provider, &shared, LBL_DERIVE_HANDSHAKE, &ctx);
        if params.version == TLS13 {
            self.secret = kdf(&self.provider, &hs, LBL_DERIVE_MASTER);
            self.fin_key = kdf(&self.provider, &hs, LBL_FINISHED);
            // early data admission
            if offered_early && is_resumed && max_early > 0 {
                match &resumed {
                    Some(ssv) => {
                        let early_key = kdf(
                            &self.provider,
                            &ssv.master_secret,
                            LBL_EARLY_TRAFFIC,
                        );
                        self.rec.set_read_key(Epoch::EarlyData, early_key, 0);
                        self.early_accepted = true;
                    },
                    None => {},
                }
            } else if offered_early {
                self.early_rejected = true;
            }
            // encrypted extensions
            let mut ee: Vec<Ext> = Vec::new();
            proof {
                assert(ee.deep_view() =~~= Seq::<crate::msgs::ExtV>::empty());
            }
            match &params.alpn {
                Some(proto) => {
                    if proto.len() >= 1 && proto.len() < 256 {
                        let mut ps: Vec<Vec<u8>> = Vec::new();
                        ps.push(copy_range(proto, 0, proto.len()));
                        proof {
                            crate::msgs::lemma_bytes_deep_view(&ps);
                        }
                        push_ext(&mut ee, Ext::Protocols(ps));
                        self.alpn_selected = Some(copy_range(proto, 0, proto.len()));
                    }
                },
                None => {},
            }
            if self.early_accepted {
                push_ext(&mut ee, Ext::EarlyData);
            }
            if ech_accepted {
                push_ext(&mut ee, Ext::Ech(Vec::new()));
            } else {
                match ech_retry {
                    Some(rc) => {
                        if rc.len() < 2048 {
                            push_ext(&mut ee, Ext::Ech(rc));
                        }
                    },
                    None => {},
                }
            }
            let m = Msg::EncryptedExtensions(ee);
            self.send_handshake(&m)?;
            if !is_resumed {
                self.server_send_cert_flight(&client_compress)?;
            }
            // server finished
            let fin_key = copy_range(&self.fin_key, 0, self.fin_key.len());
            let t2 = copy_range(&self.transcript, 0, self.transcript.len());
            let mac = self.provider.mac(&fin_key, &t2);
            let m = Msg::Finished(mac);
            self.send_handshake(&m)?;
            self.derive_app_secrets();
            // outbound application keys live from here
            let wk = copy_range(&self.server_traffic, 0, self.server_traffic.len());
            self.rec.set_write_key(Epoch::Application, wk, 0);
            self.state = HandshakeState::ExpectFinished;
        } else {
            // the legacy path: certificate, key exchange, hello-done
            match &resumed {
                Some(ssv) => {
                    // abbreviated run: the stored master is reused
                    self.ems = ssv.ems;
                    self.secret = copy_range(&ssv.master_secret, 0, ssv.master_secret.len());
                    let fin_key = kdf(&self.provider, &self.secret, LBL_FINISHED);
                    let t2 = copy_range(&self.transcript, 0, self.transcript.len());
                    let mac = self.provider.mac(&fin_key, &t2);
                    let m = Msg::Finished(mac);
                    self.send_handshake(&m)?;
                    self.derive_tls12_traffic();
                    let wk = copy_range(&self.server_traffic, 0, self.server_traffic.len());
                    self.rec.set_write_key(Epoch::Application, wk, 0);
                    self.state = HandshakeState::ExpectFinished;
                },
                None => {
                    self.server_send_cert_flight(&None)?;
                    let pubkey = copy_range(&server_share, 0, server_share.len());
                    let leaf = self.leaf_cert();
                    let t2 = copy_range(&self.transcript, 0, self.transcript.len());
                    let sig = self.provider.sign(&leaf, &t2);
                    if pubkey.len() >= 2048 {
                        return Err(self.fatal(Error::InappropriateMessage { got_type: 0 }));
                    }
                    let ske = ServerKeyExchange { group, pubkey, scheme: 0x0804, sig };
                    let m = Msg::ServerKeyExchange(ske);
                    self.send_handshake(&m)?;
                    let m = Msg::ServerHelloDone;
                    self.send_handshake(&m)?;
                    self.state = HandshakeState::ExpectClientKeyExchange;
                },
            }
        }
        Ok(())
    }

    /// A copy of the first certificate of this side's own chain.
    fn leaf_cert(&self) -> (r: Vec<u8>) {
        match &self.scfg {
            Some(c) => {
                if c.cert_chain.len() > 0 {
                    copy_range(&c.cert_chain[0], 0, c.cert_chain[0].len())
                } else {
                    Vec::new()
                }
            },
            None => Vec::new(),
        }
    }

    /// Sends the server certificate, compressed when the client offered a
    /// compression algorithm the server also has, plus a certificate request
    /// when client authentication is configured.
    fn server_send_cert_flight(&mut self, client_compress: &Option<Vec<u16>>) -> (r: Result<
        (),
        Error,
    >)
        requires
            old(self).wf(),
            old(self).side == Side::Server,
        ensures
            final(self).wf(),
            final(self).side == old(self).side,
            r is Ok ==> final(self).state == old(self).state,
            r is Err ==> final(self).state is Closed,
    {
        // certificate request first, when client authentication is on
        let (offer_auth, hints, schemes) = match &self.scfg {
            Some(c) => (
                c.offer_client_auth || c.require_client_auth,
                copy_bytes_list(&c.root_hint_subjects),
                copy_range_u16(&c.key_schemes),
            ),
            None => (false, Vec::new(), Vec::new()),
        };
        if offer_auth {
            proof {
                crate::msgs::lemma_bytes_deep_view(&hints);
            }
            if schemes.len() <= 32 && hints.len() <= 8 {
                let mut hints_ok = true;
                let mut k: usize = 0;
                while k < hints.len()
                    invariant
                        k <= hints@.len(),
                        hints_ok == forall|j: int| 0 <= j < k ==> (#[trigger] hints@[j])@.len()
                            < 512,
                    decreases hints@.len() - k,
                {
                    if hints[k].len() >= 512 {
                        hints_ok = false;
                    }
                    k = k + 1;
                }
                if hints_ok {
                    let cr = CertificateRequest {
                        context: Vec::new(),
                        schemes,
                        authorities: hints,
                    };
                    proof {
                        crate::msgs::lemma_bytes_deep_view(&cr.authorities);
                        assert forall|j: int|
                            0 <= j < cr.authorities.deep_view().len() implies (
                        #[trigger] cr.authorities.deep_view()[j]).len() < 512 by {
                            assert(cr.authorities.deep_view()[j] == cr.authorities@[j]@);
                        }
                    }
                    let m = Msg::CertificateRequest(cr);
                    self.send_handshake(&m)?;
                    self.cert_requested = true;
                }
            }
        }
        let (chain, ocsp) = match &self.scfg {
            Some(c) => (copy_bytes_list(&c.cert_chain), c.ocsp_response.len()),
            None => (Vec::new(), 0),
        };
        proof {
            crate::msgs::lemma_bytes_deep_view(&chain);
        }
        let mut chain_ok = chain.len() <= 8;
        let mut k: usize = 0;
        while k < chain.len()
            invariant
                k <= chain@.len(),
                chain_ok ==> chain@.len() <= 8,
                chain_ok == (chain@.len() <= 8 && forall|j: int|
                    0 <= j < k ==> (#[trigger] chain@[j])@.len() < 16384),
            decreases chain@.len() - k,
        {
            if chain[k].len() >= 16384 {
                chain_ok = false;
            }
            k = k + 1;
        }
        if !chain_ok {
            return Err(self.fatal(Error::InvalidCertificate(CertificateError::BadEncoding)));
        }
        let cert = CertificatePayload { context: Vec::new(), chain };
        proof {
            crate::msgs::lemma_bytes_deep_view(&cert.chain);
            assert forall|j: int| 0 <= j < cert.chain.deep_view().len() implies (
            #[trigger] cert.chain.deep_view()[j]).len() < 16384 by {
                assert(cert.chain.deep_view()[j] == cert.chain@[j]@);
            }
        }
        // try compression when there is a shared algorithm
        let own_algs: Vec<CompressionAlg> = match &self.scfg {
            Some(c) => copy_algs(&c.compressors),
            None => Vec::new(),
        };
        let mut chosen: Option<CompressionAlg> = None;
        match client_compress {
            Some(codes) => {
                let mut k: usize = 0;
                while k < own_algs.len()
                    invariant
                        k <= own_algs@.len(),
                    decreases own_algs@.len() - k,
                {
                    if crate::resolver::contains_u16(codes, own_algs[k].code()) {
                        chosen = Some(own_algs[k]);
                        break ;
                    }
                    k = k + 1;
                }
            },
            None => {},
        }
        match chosen {
            Some(alg) => {
                let cert_msg = Msg::Certificate(cert);
                let bytes = encode_msg(&cert_msg);
                let rand = {
                    let rv = self.provider.random(1);
                    if rv.len() > 0 {
                        rv[0]
                    } else {
                        0
                    }
                };
                match alg.compress(&bytes, rand) {
                    Ok(payload) => {
                        if bytes.len() < 16777216 && payload.len() < 262144 {
                            let cc = CompressedCertificate {
                                alg: alg.code(),
                                uncompressed_len: bytes.len() as u32,
                                payload,
                            };
                            let m = Msg::CompressedCertificate(cc);
                            self.send_handshake(&m)?;
                        } else {
                            self.send_handshake(&cert_msg)?;
                        }
                    },
                    Err(_) => {
                        self.send_handshake(&cert_msg)?;
                    },
                }
            },
            None => {
                let m = Msg::Certificate(cert);
                self.send_handshake(&m)?;
            },
        }
        // certificate verify binds the transcript
        let leaf = self.leaf_cert();
        let t2 = copy_range(&self.transcript, 0, self.transcript.len());
        let sig = self.provider.sign(&leaf, &t2);
        let cv = CertificateVerify { scheme: 0x0804, sig };
        let m = Msg::CertificateVerify(cv);
        self.send_handshake(&m)?;
        let _ = ocsp;
        Ok(())
    }

    /// The legacy traffic-secret derivation: bound to the full transcript
    /// when the extended master secret was negotiated, otherwise only to the
    /// two hello randoms.
    fn derive_tls12_traffic(&mut self)
        requires
            old(self).wf(),
        ensures
            final(self).wf(),
            final(self).state == old(self).state,
            final(self).side == old(self).side,
            final(self).client_traffic@ == old(self).provider.spec_derive(
                old(self).secret@,
                LBL_CLIENT_AP_TRAFFIC,
                old(self).client_random@ + old(self).server_random@,
            ),
            final(self).server_traffic@ == old(self).provider.spec_derive(
                old(self).secret@,
                LBL_SERVER_AP_TRAFFIC,
                old(self).client_random@ + old(self).server_random@,
            ),
            final(self).exporter_secret@ == old(self).provider.spec_derive(
                old(self).secret@,
                LBL_EXPORTER,
                old(self).client_random@ + old(self).server_random@,
            ),
    {
        let mut randoms = copy_range(&self.client_random, 0, self.client_random.len());
        crate::codec::put_bytes(&mut randoms, &self.server_random);
        proof {
            assert(randoms@ =~= self.client_random@ + self.server_random@);
        }
        let ct = kdf_ctx(&self.provider, &self.secret, LBL_CLIENT_AP_TRAFFIC, &randoms);
        let st = kdf_ctx(&self.provider, &self.secret, LBL_SERVER_AP_TRAFFIC, &randoms);
        let ex = kdf_ctx(&self.provider, &self.secret, LBL_EXPORTER, &randoms);
        let log_enabled = match &self.ccfg {
            Some(c) => c.key_log_enabled,
            None => match &self.scfg {
                Some(c) => c.key_log_enabled,
                None => false,
            },
        };
        if log_enabled {
            self.key_log.log(KeyLogLabel::ClientTraffic0, &ct);
            self.key_log.log(KeyLogLabel::ServerTraffic0, &st);
        }
        self.client_traffic = ct;
        self.server_traffic = st;
        self.exporter_secret = ex;
    }
}

fn copy_bytes_list(v: &Vec<Vec<u8>>) -> (r: Vec<Vec<u8>>)
    ensures
        r@.len() == v@.len(),
        forall|j: int| 0 <= j < v@.len() ==> (#[trigger] r@[j])@ == v@[j]@,
{
    let mut out: Vec<Vec<u8>> = Vec::new();
    let mut k: usize = 0;
    while k < v.len()
        invariant
            k <= v@.len(),
            out@.len() == k,
            forall|j: int| 0 <= j < k ==> (#[trigger] out@[j])@ == v@[j]@,
        decreases v@.len() - k,
    {
        out.push(copy_range(&v[k], 0, v[k].len()));
        k = k + 1;
    }
    out
}

fn copy_algs(v: &Vec<CompressionAlg>) -> (r: Vec<CompressionAlg>)
    ensures
        r@ == v@,
{
    let mut out: Vec<CompressionAlg> = Vec::new();
    let mut k: usize = 0;
    while k < v.len()
        invariant
            k <= v@.len(),
            out@ == v@.subrange(0, k as int),
        decreases v@.len() - k,
    {
        out.push(v[k]);
        k = k + 1;
        assert(out@ =~= v@.subrange(0, k as int));
    }
    assert(v@.subrange(0, v@.len() as int) =~= v@);
    out
}

impl<P: CryptoProvider> Connection<P> {
    /// The client's audit of the server hello and the key-schedule start.
    fn client_handle_sh(&mut self, sh: ServerHello) -> (r: Result<(), Error>)
        requires
            old(self).wf(),
            old(self).side == Side::Client,
            old(self).state is ExpectServerHello,
        ensures
            final(self).wf(),
            final(self).side == old(self).side,
            state_rank(final(self).state) >= state_rank(old(self).state),
            r is Err ==> final(self).state is Closed,
    {
        if !check_no_duplicate_exts(&sh.extensions) {
            return Err(self.fatal(Error::InvalidMessage(InvalidMessage::DuplicateExtension)));
        }
        let sh_versions = match exts_versions(&sh.extensions) {
            Some(v) => v,
            None => {
                let mut v: Vec<u16> = Vec::new();
                v.push(TLS12);
                v
            },
        };
        let chosen_version = if sh_versions.len() > 0 {
            sh_versions[0]
        } else {
            TLS12
        };
        let sh_shares = match exts_key_shares(&sh.extensions) {
            Some(v) => v,
            None => Vec::new(),
        };
        let chosen_group: Option<u16> = if chosen_version == TLS13 {
            if sh_shares.len() > 0 {
                Some(sh_shares[0].group)
            } else {
                None
            }
        } else {
            None
        };
        let (cv, cs, ca) = match &self.ccfg {
            Some(c) => (
                copy_range_u16(&c.versions),
                copy_range_u16(&c.suites),
                copy_bytes_list(&c.alpn),
            ),
            None => {
                return Err(self.fatal(Error::InappropriateMessage { got_type: 0 }));
            },
        };
        match client_check(
            &cv,
            &cs,
            &self.offered_groups,
            &ca,
            chosen_version,
            sh.cipher_suite,
            chosen_group,
            &None,
        ) {
            Ok(_) => {},
            Err(e) => {
                return Err(self.fatal(e));
            },
        }
        // the echoed session identifier must be ours
        if !bytes_eq(&sh.session_id, &self.offered_session_id) && chosen_version == TLS13 {
            return Err(
                self.fatal(
                    Error::PeerMisbehaved(PeerMisbehaved::ServerEchoedCompatibilitySessionId),
                ),
            );
        }
        self.version = Some(chosen_version);
        self.suite = Some(sh.cipher_suite);
        self.group = chosen_group;
        self.server_random = copy_range(&sh.random, 0, sh.random.len());
        let psk_marker = exts_bytes_of(&sh.extensions, true, false);
        if chosen_version == TLS13 {
            let accepted_psk = psk_marker.is_some();
            if accepted_psk && self.offered_psk.is_some() {
                self.kind = Some(HandshakeKind::Resumed);
            } else {
                self.kind = Some(HandshakeKind::Full);
                if self.offered_early_data {
                    self.early_rejected = true;
                    // early-data writes stop; further writes queue as 1-rtt
                    self.rec.set_write_key(Epoch::Plaintext, Vec::new(), 0);
                }
            }
            let peer_share = if sh_shares.len() > 0 {
                copy_range(&sh_shares[0].data, 0, sh_shares[0].data.len())
            } else {
                Vec::new()
            };
            let group = match chosen_group {
                Some(g) => g,
                None => 0,
            };
            let shared = self.provider.kx_shared(group, &self.kx_private, &peer_share);
            let ctx = copy_range(&self.transcript, 0, self.transcript.len());
            let hs = kdf_ctx(&self.provider, &shared, LBL_DERIVE_HANDSHAKE, &ctx);
            self.secret = kdf(&self.provider, &hs, LBL_DERIVE_MASTER);
            // remember the finished key through the flight
            self.fin_key = kdf(&self.provider, &hs, LBL_FINISHED);
            self.state = HandshakeState::ExpectEncryptedExtensions;
        } else {
            self.ems = exts_has_ems(&sh.extensions);
            let resumed_tls12 = sh.session_id.len() > 0 && bytes_eq(
                &sh.session_id,
                &self.offered_session_id,
            ) && false;  // a fresh client never reuses its identifier
            let _ = resumed_tls12;
            self.kind = Some(HandshakeKind::Full);
            if self.offered_early_data {
                self.early_rejected = true;
                self.rec.set_write_key(Epoch::Plaintext, Vec::new(), 0);
            }
            self.state = HandshakeState::ExpectCertificate;
        }
        Ok(())
    }

    /// The client's handling of the server's encrypted extensions.
    fn client_handle_ee(&mut self, exts: Vec<Ext>) -> (r: Result<(), Error>)
        requires
            old(self).wf(),
            old(self).side == Side::Client,
            old(self).state is ExpectEncryptedExtensions,
        ensures
            final(self).wf(),
            final(self).side == old(self).side,
            state_rank(final(self).state) >= state_rank(old(self).state),
            r is Err ==> final(self).state is Closed,
    {
        match exts_protocols(&exts) {
            Some(ps) => {
                if ps.len() > 0 {
                    let sel = copy_range(&ps[0], 0, ps[0].len());
                    // the selection must be something we offered
                    let offered = match &self.ccfg {
                        Some(c) => copy_bytes_list(&c.alpn),
                        None => Vec::new(),
                    };
                    let mut found = false;
                    let mut i: usize = 0;
                    while i < offered.len()
                        invariant
                            i <= offered@.len(),
                        decreases offered@.len() - i,
                    {
                        if bytes_eq(&offered[i], &sel) {
                            found = true;
                        }
                        i = i + 1;
                    }
                    if !found {
                        return Err(self.fatal(Error::NoApplicationProtocol));
                    }
                    self.alpn_selected = Some(sel);
                }
            },
            None => {},
        }
        if exts_has_early_data(&exts) {
            if self.offered_early_data {
                self.early_accepted = true;
            } else {
                return Err(
                    self.fatal(
                        Error::PeerMisbehaved(PeerMisbehaved::UnsolicitedEncryptedExtension),
                    ),
                );
            }
        } else {
            if self.offered_early_data {
                self.early_rejected = true;
            }
        }
        match exts_bytes_of(&exts, false, true) {
            Some(payload) => {
                if matches!(self.ech_status, EchStatus::Offered) {
                    if payload.len() == 0 {
                        self.ech_status = EchStatus::Accepted;
                    } else {
                        self.ech_status = EchStatus::Rejected;
                        let e = Error::RejectedEch { retry_configs: Some(payload) };
                        return Err(self.fatal(e));
                    }
                } else if matches!(self.ech_status, EchStatus::Grease) {
                    // a greased hello expects no acknowledgement
                    return Err(
                        self.fatal(Error::PeerMisbehaved(PeerMisbehaved::UnsolicitedEchExtension)),
                    );
                }
            },
            None => {
                if matches!(self.ech_status, EchStatus::Offered) {
                    self.ech_status = EchStatus::Rejected;
                    let e = Error::RejectedEch { retry_configs: None };
                    return Err(self.fatal(e));
                }
            },
        }
        let resumed = match self.kind {
            Some(HandshakeKind::Resumed) => true,
            _ => false,
        };
        self.state = if resumed {
            HandshakeState::ExpectFinished
        } else {
            HandshakeState::ExpectCertificate
        };
        Ok(())
    }

    /// Stores the peer's certificate chain, decompressing first when it
    /// arrived compressed.
    #[verifier::rlimit(100)]
    #[verifier::spinoff_prover]
    fn client_handle_cert(&mut self, m: Msg) -> (r: Result<(), Error>)
        requires
            old(self).wf(),
            old(self).side == Side::Client,
            old(self).state is ExpectCertificate,
        ensures
            final(self).wf(),
            final(self).side == old(self).side,
            state_rank(final(self).state) >= state_rank(old(self).state),
            r is Err ==> final(self).state is Closed,
    {
        let chain: Vec<Vec<u8>> = match m {
            Msg::Certificate(c) => c.chain,
            Msg::CompressedCertificate(cc) => {
                // only an algorithm we offered may be selected
                let own: Vec<CompressionAlg> = match &self.ccfg {
                    Some(c) => copy_algs(&c.compressors),
                    None => Vec::new(),
                };
                let mut chosen: Option<CompressionAlg> = None;
                let mut k: usize = 0;
                while k < own.len()
                    invariant
                        k <= own@.len(),
                    decreases own@.len() - k,
                {
                    if own[k].code() == cc.alg {
                        chosen = Some(own[k]);
                    }
                    k = k + 1;
                }
                let alg = match chosen {
                    Some(a) => a,
                    None => {
                        return Err(
                            self.fatal(
                                Error::PeerMisbehaved(
                                    PeerMisbehaved::SelectedUnofferedCertCompression,
                                ),
                            ),
                        );
                    },
                };
                let expanded = match alg.decompress(&cc.payload, cc.uncompressed_len as usize) {
                    Ok(v) => v,
                    Err(_) => {
                        return Err(
                            self.fatal(
                                Error::PeerMisbehaved(PeerMisbehaved::InvalidCertCompression),
                            ),
                        );
                    },
                };
                match crate::hsmsgs::decode_msg(&expanded) {
                    Ok(Msg::Certificate(c)) => c.chain,
                    _ => {
                        return Err(
                            self.fatal(
                                Error::PeerMisbehaved(PeerMisbehaved::InvalidCertCompression),
                            ),
                        );
                    },
                }
            },
            _ => {
                return Err(self.fatal(Error::InappropriateMessage { got_type: 0 }));
            },
        };
        if chain.len() == 0 {
            return Err(self.fatal(Error::NoCertificatesPresented));
        }
        let reject_ocsp = match &self.ccfg {
            Some(c) => c.reject_ocsp,
            None => false,
        };
        if reject_ocsp {
            return Err(
                self.fatal(Error::InvalidCertificate(CertificateError::InvalidOcspResponse)),
            );
        }
        self.peer_cert_chain = chain;
        let v13 = match self.version {
            Some(v) => v == TLS13,
            None => false,
        };
        if v13 {
            self.state = HandshakeState::ExpectCertificateVerify;
        } else {
            // the legacy flight continues with the key exchange
            self.state = HandshakeState::ExpectCertificateVerify;
        }
        Ok(())
    }

    /// The server's signature over the transcript; or, on the legacy path,
    /// the server key-exchange parameters arriving in this phase.
    fn client_handle_cv(&mut self, cv: CertificateVerify) -> (r: Result<(), Error>)
        requires
            old(self).wf(),
            old(self).side == Side::Client,
            old(self).state is ExpectCertificate || old(self).state is ExpectCertificateVerify,
        ensures
            final(self).wf(),
            final(self).side == old(self).side,
            state_rank(final(self).state) >= state_rank(old(self).state),
            r is Err ==> final(self).state is Closed,
    {
        let leaf = if self.peer_cert_chain.len() > 0 {
            copy_range(&self.peer_cert_chain[0], 0, self.peer_cert_chain[0].len())
        } else {
            Vec::new()
        };
        // the signature covers everything before this message
        let clen = cv_msg_len(&cv);
        let tlen = if self.transcript.len() >= clen {
            self.transcript.len() - clen
        } else {
            0
        };
        let t2 = copy_range(&self.transcript, 0, tlen);
        if !self.provider.verify(&leaf, &t2, &cv.sig) {
            return Err(self.fatal(Error::InvalidCertificate(CertificateError::BadSignature)));
        }
        self.state = HandshakeState::ExpectFinished;
        Ok(())
    }

    /// The legacy server key exchange: remember the peer's public value and
    /// check the parameter signature.
    fn client_handle_ske(&mut self, ske: ServerKeyExchange) -> (r: Result<(), Error>)
        requires
            old(self).wf(),
            old(self).side == Side::Client,
            old(self).state is ExpectCertificate || old(self).state is ExpectCertificateVerify,
        ensures
            final(self).wf(),
            final(self).side == old(self).side,
            state_rank(final(self).state) >= state_rank(old(self).state),
            r is Err ==> final(self).state is Closed,
    {
        if !crate::resolver::contains_u16(&self.offered_groups, ske.group) {
            return Err(self.fatal(Error::PeerMisbehaved(PeerMisbehaved::SelectedUnofferedKxGroup)));
        }
        self.group = Some(ske.group);
        self.tls12_peer_pub = ske.pubkey;
        self.state = HandshakeState::ExpectServerHelloDone;
        Ok(())
    }

    /// The legacy hello-done: the client answers with its key exchange and
    /// finished code, and installs its write keys.
    fn client_handle_shd(&mut self) -> (r: Result<(), Error>)
        requires
            old(self).wf(),
            old(self).side == Side::Client,
            old(self).state is ExpectServerHelloDone,
        ensures
            final(self).wf(),
            final(self).side == old(self).side,
            state_rank(final(self).state) >= state_rank(old(self).state),
            r is Err ==> final(self).state is Closed,
    {
        let group = match self.group {
            Some(g) => g,
            None => 0,
        };
        let my_pub = self.provider.kx_public(group, &self.kx_private);
        if my_pub.len() >= 2048 {
            return Err(self.fatal(Error::InappropriateMessage { got_type: 0 }));
        }
        let m = Msg::ClientKeyExchange(my_pub);
        self.send_handshake(&m)?;
        let shared = self.provider.kx_shared(group, &self.kx_private, &self.tls12_peer_pub);
        // the extended master secret binds the whole transcript
        let require_ems = match &self.ccfg {
            Some(c) => c.require_ems,
            None => false,
        };
        if require_ems && !self.ems {
            return Err(
                self.fatal(Error::PeerIncompatible(PeerIncompatible::ExtendedMasterSecretRequired)),
            );
        }
        let ctx = if self.ems {
            copy_range(&self.transcript, 0, self.transcript.len())
        } else {
            let mut randoms = copy_range(&self.client_random, 0, self.client_random.len());
            crate::codec::put_bytes(&mut randoms, &self.server_random);
            randoms
        };
        self.secret = kdf_ctx(&self.provider, &shared, LBL_DERIVE_MASTER, &ctx);
        let fin_key = kdf(&self.provider, &self.secret, LBL_FINISHED);
        let t2 = copy_range(&self.transcript, 0, self.transcript.len());
        let mac = self.provider.mac(&fin_key, &t2);
        let m = Msg::Finished(mac);
        self.send_handshake(&m)?;
        self.derive_tls12_traffic();
        let wk = copy_range(&self.client_traffic, 0, self.client_traffic.len());
        self.rec.set_write_key(Epoch::Application, wk, 0);
        self.state = HandshakeState::ExpectFinished;
        Ok(())
    }
}

/// The framed length of a certificate-verify message, used to locate the
/// transcript point the signature covers.
fn cv_msg_len(cv: &CertificateVerify) -> (r: usize) {
    if cv.sig.len() <= usize::MAX - 8 {
        4 + 2 + 2 + cv.sig.len()
    } else {
        usize::MAX
    }
}

impl<P: CryptoProvider> Connection<P> {
    /// Answers the server's certificate request: resolves a credential by
    /// the server's scheme preference and issuer hints, records which one
    /// was chosen, and sends the certificate and its transcript signature.
    /// A failed resolution is fatal, keeping the two failure reasons apart.
    fn client_send_credential(&mut self) -> (r: Result<(), Error>)
        requires
            old(self).wf(),
            old(self).side == Side::Client,
        ensures
            final(self).wf(),
            final(self).side == old(self).side,
            state_rank(final(self).state) >= state_rank(old(self).state),
            r is Err ==> final(self).state is Closed,
    {
        let sel = {
            let resolver = match &self.ccfg {
                Some(c) => &c.resolver,
                None => &None,
            };
            match resolver {
                Some(res) => Some(res.resolve(&self.req_hints, &self.req_schemes)),
                None => None,
            }
        };
        let sel = match sel {
            Some(Ok(sel)) => sel,
            Some(Err(e)) => {
                return Err(self.fatal(Error::CredentialResolution(e)));
            },
            None => {
                // nothing configured: decline with an empty certificate list
                let cert = CertificatePayload { context: Vec::new(), chain: Vec::new() };
                proof {
                    assert(cert.chain.deep_view() =~~= Seq::<Seq<u8>>::empty());
                }
                let m = Msg::Certificate(cert);
                return self.send_handshake(&m);
            },
        };
        self.selected_credential = Some(sel);
        let chain: Vec<Vec<u8>> = match (&self.ccfg, sel) {
            (Some(c), crate::resolver::Selected::Additional(i)) => match &c.resolver {
                Some(res) => {
                    if i < res.additional.len() {
                        copy_bytes_list(&res.additional[i].certkey.cert_chain)
                    } else {
                        Vec::new()
                    }
                },
                None => Vec::new(),
            },
            (Some(c), crate::resolver::Selected::Default) => match &c.resolver {
                Some(res) => match &res.default {
                    Some(d) => copy_bytes_list(&d.certkey.cert_chain),
                    None => Vec::new(),
                },
                None => Vec::new(),
            },
            _ => Vec::new(),
        };
        let mut ok = chain.len() <= 8;
        let mut k: usize = 0;
        while k < chain.len()
            invariant
                k <= chain@.len(),
                ok == (chain@.len() <= 8 && forall|j: int|
                    0 <= j < k ==> (#[trigger] chain@[j])@.len() < 16384),
            decreases chain@.len() - k,
        {
            if chain[k].len() >= 16384 {
                ok = false;
            }
            k = k + 1;
        }
        if !ok {
            return Err(self.fatal(Error::InvalidCertificate(CertificateError::BadEncoding)));
        }
        let leaf = if chain.len() > 0 {
            copy_range(&chain[0], 0, chain[0].len())
        } else {
            Vec::new()
        };
        let cert = CertificatePayload { context: Vec::new(), chain };
        proof {
            crate::msgs::lemma_bytes_deep_view(&cert.chain);
            assert forall|j: int| 0 <= j < cert.chain.deep_view().len() implies (
            #[trigger] cert.chain.deep_view()[j]).len() < 16384 by {
                assert(cert.chain.deep_view()[j] == cert.chain@[j]@);
            }
        }
        let m = Msg::Certificate(cert);
        self.send_handshake(&m)?;
        let t2 = copy_range(&self.transcript, 0, self.transcript.len());
        let sig = self.provider.sign(&leaf, &t2);
        let cv = CertificateVerify { scheme: 0x0804, sig };
        let m = Msg::CertificateVerify(cv);
        self.send_handshake(&m)?;
        Ok(())
    }

    /// Verifies the peer's finished code against the expected transcript
    /// authentication; any mismatch is fatal without retry.
    #[verifier::rlimit(100)]
    #[verifier::spinoff_prover]
    fn handle_finished(&mut self, mac: Vec<u8>, raw_len: usize) -> (r: Result<(), Error>)
        requires
            old(self).wf(),
            old(self).state is ExpectFinished,
        ensures
            final(self).wf(),
            final(self).side == old(self).side,
            state_rank(final(self).state) >= state_rank(old(self).state),
            r is Err ==> final(self).state is Closed,
    {
        let v13 = match self.version {
            Some(v) => v == TLS13,
            None => false,
        };
        let fin_key = if v13 {
            copy_range(&self.fin_key, 0, self.fin_key.len())
        } else {
            kdf(&self.provider, &self.secret, LBL_FINISHED)
        };
        // the code covers the transcript before this very message
        let tlen = if self.transcript.len() >= raw_len {
            self.transcript.len() - raw_len
        } else {
            0
        };
        let t2 = copy_range(&self.transcript, 0, tlen);
        let expect = self.provider.mac(&fin_key, &t2);
        if !bytes_eq(&mac, &expect) {
            return Err(self.fatal(Error::PeerMisbehaved(PeerMisbehaved::IncorrectFinished)));
        }
        let require_ems = match &self.ccfg {
            Some(c) => c.require_ems,
            None => match &self.scfg {
                Some(c) => c.require_ems,
                None => false,
            },
        };
        if !v13 && require_ems && !self.ems {
            return Err(
                self.fatal(Error::PeerIncompatible(PeerIncompatible::ExtendedMasterSecretRequired)),
            );
        }
        if matches!(self.side, Side::Client) {
            if v13 {
                // answer with the client's own finished code
                self.derive_app_secrets_from_server_fin();
                if self.cert_requested {
                    self.client_send_credential()?;
                }
                let t3 = copy_range(&self.transcript, 0, self.transcript.len());
                let my_mac = self.provider.mac(&fin_key, &t3);
                let m = Msg::Finished(my_mac);
                self.send_handshake(&m)?;
                self.install_app_keys();
            } else {
                // the legacy abbreviated run: server finished first
                let full = match self.kind {
                    Some(HandshakeKind::Full) => true,
                    _ => false,
                };
                if full {
                    // full run: our finished went out already; install read
                    let rk = copy_range(&self.server_traffic, 0, self.server_traffic.len());
                    self.rec.set_read_key(Epoch::Application, rk, 0);
                } else {
                    let t3 = copy_range(&self.transcript, 0, self.transcript.len());
                    let my_mac = self.provider.mac(&fin_key, &t3);
                    let m = Msg::Finished(my_mac);
                    self.send_handshake(&m)?;
                    self.derive_tls12_traffic();
                    self.install_app_keys();
                }
            }
            self.state = HandshakeState::Established;
            self.flush_pending_plaintext()?;
            self.client_store_session();
        } else {
            // the server: the client's finished completes the handshake
            if v13 {
                let rk = copy_range(&self.client_traffic, 0, self.client_traffic.len());
                self.rec.set_read_key(Epoch::Application, rk, 0);
                self.state = HandshakeState::Established;
                self.server_issue_tickets()?;
            } else {
                let full = match self.kind {
                    Some(HandshakeKind::Full) => true,
                    _ => false,
                };
                if full {
                    self.derive_tls12_traffic();
                    let fin_key2 = kdf(&self.provider, &self.secret, LBL_FINISHED);
                    let t3 = copy_range(&self.transcript, 0, self.transcript.len());
                    let my_mac = self.provider.mac(&fin_key2, &t3);
                    let m = Msg::Finished(my_mac);
                    self.send_handshake(&m)?;
                    self.install_app_keys();
                    self.state = HandshakeState::Established;
                    self.server_store_tls12_session();
                } else {
                    let rk = copy_range(&self.client_traffic, 0, self.client_traffic.len());
                    self.rec.set_read_key(Epoch::Application, rk, 0);
                    self.state = HandshakeState::Established;
                }
            }
            self.flush_pending_plaintext()?;
        }
        Ok(())
    }

    /// On the client, the application secrets become available once the
    /// server's finished code has been absorbed into the transcript.
    fn derive_app_secrets_from_server_fin(&mut self)
        requires
            old(self).wf(),
        ensures
            final(self).wf(),
            final(self).state == old(self).state,
            final(self).side == old(self).side,
    {
        self.derive_app_secrets();
    }

    /// Remembers this session on the client for later resumption attempts.
    fn client_store_session(&mut self)
        requires
            old(self).wf(),
        ensures
            final(self).wf(),
            final(self).state == old(self).state,
            final(self).side == old(self).side,
    {
        let v13 = match self.version {
            Some(v) => v == TLS13,
            None => false,
        };
        if v13 {
            return ;  // tickets arrive separately
        }
        let suite = match self.suite {
            Some(s) => s,
            None => 0,
        };
        let value = Tls12ClientSessionValue {
            cipher_suite: suite,
            session_id: copy_range(&self.offered_session_id, 0, self.offered_session_id.len()),
            master_secret: copy_range(&self.secret, 0, self.secret.len()),
            ems: self.ems,
            creation_time_sec: self.now,
            lifetime: 7200,
        };
        let hostname = match &self.ccfg {
            Some(c) => copy_range(&c.hostname, 0, c.hostname.len()),
            None => Vec::new(),
        };
        match &mut self.ccfg {
            Some(c) => {
                c.resumption.set_tls12_session(hostname, value);
            },
            None => {},
        }
    }

    /// Issues the configured number of session tickets after a completed
    /// handshake; each carries the resumption secret and the creation time.
    fn server_issue_tickets(&mut self) -> (r: Result<(), Error>)
        requires
            old(self).wf(),
        ensures
            final(self).wf(),
            final(self).side == old(self).side,
            r is Ok ==> final(self).state == old(self).state,
            r is Err ==> final(self).state is Closed,
    {
        let (count, lifetime, max_early, can_store) = match &self.scfg {
            Some(c) => (
                c.send_tls13_tickets,
                c.ticket_lifetime,
                c.max_early_data,
                c.ticketer.is_some() || match &c.session_storage {
                    ServerStorage::Memory(_) => true,
                    ServerStorage::Nothing(_) => false,
                },
            ),
            None => (0, 0, 0, false),
        };
        if count == 0 || !can_store {
            return Ok(());
        }
        let suite = match self.suite {
            Some(s) => s,
            None => 0,
        };
        let version = match self.version {
            Some(v) => v,
            None => TLS13,
        };
        let mut secret = copy_range(&self.resumption_secret, 0, self.resumption_secret.len());
        if secret.len() >= 256 {
            secret = kdf(&self.provider, &secret, LBL_RESUMPTION);
        }
        let mut alpn = match &self.alpn_selected {
            Some(a) => copy_range(a, 0, a.len()),
            None => Vec::new(),
        };
        if alpn.len() >= 256 {
            alpn = Vec::new();
        }
        let ssv = ServerSessionValue {
            version,
            cipher_suite: suite,
            ems: self.ems,
            creation_time_sec: self.now,
            master_secret: secret,
            alpn,
            max_early_data: max_early,
        };
        let enc = ssv.get_encoding();
        let use_ticketer = match &self.scfg {
            Some(c) => c.ticketer.is_some(),
            None => false,
        };
        let label: Vec<u8> = if use_ticketer {
            let mut out: Vec<u8> = Vec::new();
            match &self.scfg {
                Some(c) => match &c.ticketer {
                    Some(t) => {
                        out = t.encrypt(&enc);
                    },
                    None => {},
                },
                None => {},
            }
            out
        } else {
            let key = self.provider.random(16);
            self.storage_put(copy_range(&key, 0, key.len()), enc);
            key
        };
        if label.len() == 0 || label.len() >= 2048 {
            return Ok(());
        }
        let nst = NewSessionTicket {
            lifetime,
            age_add: 0,
            nonce: Vec::new(),
            ticket: label,
            max_early_data: max_early,
        };
        let m = Msg::NewSessionTicket(nst);
        self.send_handshake(&m)?;
        Ok(())
    }

    /// Stores the completed legacy session under its identifier.
    fn server_store_tls12_session(&mut self)
        requires
            old(self).wf(),
        ensures
            final(self).wf(),
            final(self).state == old(self).state,
            final(self).side == old(self).side,
    {
        let suite = match self.suite {
            Some(s) => s,
            None => 0,
        };
        let mut secret = copy_range(&self.secret, 0, self.secret.len());
        if secret.len() >= 256 {
            secret = kdf(&self.provider, &secret, LBL_RESUMPTION);
        }
        let ssv = ServerSessionValue {
            version: TLS12,
            cipher_suite: suite,
            ems: self.ems,
            creation_time_sec: self.now,
            master_secret: secret,
            alpn: Vec::new(),
            max_early_data: 0,
        };
        let enc = ssv.get_encoding();
        let sid = copy_range(&self.offered_session_id, 0, self.offered_session_id.len());
        if sid.len() > 0 {
            self.storage_put(sid, enc);
        }
    }

    /// A key-update request from the peer: bounded in frequency, it rotates
    /// the peer's write keys on our read side and answers when asked to.
    fn handle_key_update(&mut self, request: bool) -> (r: Result<(), Error>)
        requires
            old(self).wf(),
            old(self).state is Established || old(self).state is KeyUpdateInFlight,
        ensures
            final(self).wf(),
            final(self).side == old(self).side,
            state_rank(final(self).state) >= state_rank(old(self).state),
            r is Err ==> final(self).state is Closed,
    {
        if self.key_update_requests >= MAX_KEY_UPDATES {
            return Err(
                self.fatal(Error::PeerMisbehaved(PeerMisbehaved::TooManyKeyUpdateRequests)),
            );
        }
        self.key_update_requests = self.key_update_requests + 1;
        // the peer's write secret moves one generation forward
        let empty: Vec<u8> = Vec::new();
        let peer = if matches!(self.side, Side::Client) {
            self.provider.derive(&self.server_traffic, LBL_TRAFFIC_UPD, &empty)
        } else {
            self.provider.derive(&self.client_traffic, LBL_TRAFFIC_UPD, &empty)
        };
        if matches!(self.side, Side::Client) {
            self.server_traffic = peer;
        } else {
            self.client_traffic = peer;
        }
        let gen = self.rec.read.generation;
        let newgen = if gen < 0xffff_ffff {
            gen + 1
        } else {
            gen
        };
        let rk = if matches!(self.side, Side::Client) {
            copy_range(&self.server_traffic, 0, self.server_traffic.len())
        } else {
            copy_range(&self.client_traffic, 0, self.client_traffic.len())
        };
        self.rec.set_read_key(Epoch::Application, rk, newgen);
        if request {
            // answer with our own update, not itself requesting one
            let m = Msg::KeyUpdate(false);
            self.send_handshake(&m)?;
            let mine = if matches!(self.side, Side::Client) {
                self.provider.derive(&self.client_traffic, LBL_TRAFFIC_UPD, &empty)
            } else {
                self.provider.derive(&self.server_traffic, LBL_TRAFFIC_UPD, &empty)
            };
            if matches!(self.side, Side::Client) {
                self.client_traffic = mine;
            } else {
                self.server_traffic = mine;
            }
            let wgen = self.rec.write.generation;
            let nwgen = if wgen < 0xffff_ffff {
                wgen + 1
            } else {
                wgen
            };
            let wk = if matches!(self.side, Side::Client) {
                copy_range(&self.client_traffic, 0, self.client_traffic.len())
            } else {
                copy_range(&self.server_traffic, 0, self.server_traffic.len())
            };
            self.rec.set_write_key(Epoch::Application, wk, nwgen);
        }
        self.state = HandshakeState::Established;
        Ok(())
    }

    /// A fresh ticket from the server, stored for the next connection.
    fn client_handle_nst(&mut self, nst: NewSessionTicket) -> (r: Result<(), Error>)
        requires
            old(self).wf(),
            old(self).side == Side::Client,
            old(self).state is Established,
        ensures
            final(self).wf(),
            final(self).side == old(self).side,
            state_rank(final(self).state) >= state_rank(old(self).state),
            r is Err ==> final(self).state is Closed,
    {
        let suite = match self.suite {
            Some(s) => s,
            None => 0,
        };
        let value = Tls13ClientSessionValue {
            cipher_suite: suite,
            ticket: nst.ticket,
            secret: copy_range(&self.resumption_secret, 0, self.resumption_secret.len()),
            creation_time_sec: self.now,
            age_add: nst.age_add,
            lifetime: nst.lifetime,
            max_early_data: nst.max_early_data,
        };
        let hostname = match &self.ccfg {
            Some(c) => copy_range(&c.hostname, 0, c.hostname.len()),
            None => Vec::new(),
        };
        match &mut self.ccfg {
            Some(c) => {
                c.resumption.insert_tls13_ticket(hostname, value);
            },
            None => {},
        }
        Ok(())
    }

    /// Routes one complete handshake message: the current state's accept set
    /// is consulted before anything else, and a message outside it kills the
    /// connection.
    fn handle_msg(&mut self, m: Msg, raw: Vec<u8>) -> (r: Result<(), Error>)
        requires
            old(self).wf(),
        ensures
            final(self).wf(),
            final(self).side == old(self).side,
            state_rank(final(self).state) >= state_rank(old(self).state),
            r is Err ==> final(self).state is Closed,
            !spec_accepts(old(self).side, old(self).state, crate::hsmsgs::msg_code(m@)) ==> r
                is Err && (r matches Err(e) && e matches Error::InappropriateHandshakeMessage {
                ..
            }),
    {
        let code = msg_code_of(&m);
        if !accepts(self.side, self.state, code) {
            return Err(self.fatal(Error::InappropriateHandshakeMessage { got_type: code }));
        }
        let raw_len = raw.len();
        let established = matches!(self.state, HandshakeState::Established) || matches!(
            self.state,
            HandshakeState::KeyUpdateInFlight,
        );
        if !established {
            crate::codec::put_bytes(&mut self.transcript, &raw);
        }
        match (self.side, m) {
            (Side::Server, Msg::ClientHello(ch)) => self.server_handle_ch(ch),
            (Side::Client, Msg::ServerHello(sh)) => self.client_handle_sh(sh),
            (Side::Client, Msg::EncryptedExtensions(exts)) => self.client_handle_ee(exts),
            (Side::Client, Msg::Certificate(c)) => self.client_handle_cert(Msg::Certificate(c)),
            (Side::Client, Msg::CompressedCertificate(cc)) => self.client_handle_cert(
                Msg::CompressedCertificate(cc),
            ),
            (Side::Client, Msg::CertificateRequest(cr)) => {
                self.cert_requested = true;
                self.req_schemes = cr.schemes;
                self.req_hints = cr.authorities;
                Ok(())
            },
            (Side::Client, Msg::CertificateVerify(cv)) => self.client_handle_cv(cv),
            (Side::Client, Msg::ServerKeyExchange(ske)) => self.client_handle_ske(ske),
            (Side::Client, Msg::ServerHelloDone) => self.client_handle_shd(),
            (Side::Server, Msg::Certificate(c)) => {
                self.peer_cert_chain = c.chain;
                Ok(())
            },
            (Side::Server, Msg::CertificateVerify(cv)) => {
                let leaf = if self.peer_cert_chain.len() > 0 {
                    copy_range(&self.peer_cert_chain[0], 0, self.peer_cert_chain[0].len())
                } else {
                    Vec::new()
                };
                let clen = cv_msg_len(&cv);
                let tlen = if self.transcript.len() >= clen {
                    self.transcript.len() - clen
                } else {
                    0
                };
                let t2 = copy_range(&self.transcript, 0, tlen);
                if !self.provider.verify(&leaf, &t2, &cv.sig) {
                    return Err(
                        self.fatal(Error::InvalidCertificate(CertificateError::BadSignature)),
                    );
                }
                Ok(())
            },
            (Side::Server, Msg::ClientKeyExchange(pk)) => {
                self.tls12_peer_pub = pk;
                let group = match self.group {
                    Some(g) => g,
                    None => 0,
                };
                let shared = self.provider.kx_shared(group, &self.kx_private, &self.tls12_peer_pub);
                let ctx = if self.ems {
                    copy_range(&self.transcript, 0, self.transcript.len())
                } else {
                    let mut randoms = copy_range(&self.client_random, 0, self.client_random.len());
                    crate::codec::put_bytes(&mut randoms, &self.server_random);
                    randoms
                };
                self.secret = kdf_ctx(&self.provider, &shared, LBL_DERIVE_MASTER, &ctx);
                self.state = HandshakeState::ExpectFinished;
                Ok(())
            },
            (_, Msg::Finished(mac)) => self.handle_finished(mac, raw_len),
            (_, Msg::KeyUpdate(req)) => self.handle_key_update(req),
            (Side::Client, Msg::NewSessionTicket(nst)) => self.client_handle_nst(nst),
            (_, other) => {
                let c2 = msg_code_of(&other);
                Err(self.fatal(Error::InappropriateHandshakeMessage { got_type: c2 }))
            },
        }
    }
}

impl<P: CryptoProvider> Connection<P> {
    /// Advances the state machine over everything buffered so far.  Records
    /// are handled strictly in arrival order; an incomplete trailing record
    /// stays buffered for the next call.  On any fatal error the matching
    /// alert is queued and the connection is closed.
    pub fn process_new_packets(&mut self) -> (r: Result<(), Error>)
        requires
            old(self).wf(),
        ensures
            final(self).wf(),
            final(self).side == old(self).side,
            state_rank(final(self).state) >= state_rank(old(self).state),
            r is Err ==> final(self).state is Closed,
            old(self).state is Closed ==> *final(self) == *old(self),
            !(old(self).state is Closed) ==> exists|n: int|
                0 <= n <= old(self).inbuf@.len() && #[trigger] final(self).inbuf@ == old(
                    self,
                ).inbuf@.skip(n) && (r is Ok ==> crate::record::p_record(old(self).inbuf@, n)
                    is Short),
    {
        if matches!(self.state, HandshakeState::Closed) {
            return Ok(());
        }
        // take complete records off the input buffer
        let mut records: Vec<(u8, Vec<u8>)> = Vec::new();
        let mut pos: usize = 0;
        let mut bad = false;
        loop
            invariant
                pos <= self.inbuf@.len(),
                self.wf(),
                *self == *old(self),
            ensures
                pos <= self.inbuf@.len(),
                self.wf(),
                *self == *old(self),
                !bad ==> (crate::record::p_record(self.inbuf@, pos as int) is Short),
            decreases self.inbuf@.len() - pos,
        {
            match get_record(&self.inbuf, pos) {
                Ok((typ, _ver, payload, j)) => {
                    records.push((typ, payload));
                    pos = j;
                },
                Err(DecodeError::Truncated) => {
                    break ;
                },
                Err(_) => {
                    bad = true;
                    break ;
                },
            }
        }
        let ghost n0 = pos as int;
        proof {
            assert(!bad ==> crate::record::p_record(old(self).inbuf@, n0) is Short);
        }
        let rest = copy_range(&self.inbuf, pos, self.inbuf.len());
        proof {
            assert(rest@ =~= old(self).inbuf@.skip(n0));
        }
        if bad {
            self.inbuf = rest;
            let e = self.fatal(Error::PeerSentOversizedRecord);
            proof {
                assert(self.inbuf@ == old(self).inbuf@.skip(n0));
            }
            return Err(e);
        }
        // handle each record in order; the unconsumed suffix is reinstalled
        // afterwards, so record handling never observes transport bytes
        let mut ri: usize = 0;
        let mut outcome: Result<(), Error> = Ok(());
        while ri < records.len()
            invariant
                ri <= records@.len(),
                self.wf(),
                self.side == old(self).side,
                state_rank(self.state) >= state_rank(old(self).state),
                outcome is Err ==> self.state is Closed,
                rest@ == old(self).inbuf@.skip(n0),
                0 <= n0 <= old(self).inbuf@.len(),
                !bad ==> (crate::record::p_record(old(self).inbuf@, n0) is Short),
            decreases records@.len() - ri,
        {
            let typ = records[ri].0;
            let payload = copy_range(&records[ri].1, 0, records[ri].1.len());
            match self.process_record(typ, payload) {
                Ok(_) => {},
                Err(e) => {
                    outcome = Err(e);
                    break ;
                },
            }
            ri = ri + 1;
        }
        self.inbuf = rest;
        proof {
            assert(self.inbuf@ == old(self).inbuf@.skip(n0));
        }
        outcome
    }

    /// Handles one deframed record.
    #[verifier::rlimit(100)]
    #[verifier::spinoff_prover]
    fn process_record(&mut self, typ: u8, payload: Vec<u8>) -> (r: Result<(), Error>)
        requires
            old(self).wf(),
        ensures
            final(self).wf(),
            final(self).side == old(self).side,
            state_rank(final(self).state) >= state_rank(old(self).state),
            r is Err ==> final(self).state is Closed,
    {
        if matches!(self.state, HandshakeState::Closed) {
            return Ok(());
        }
        // compatibility change-cipher-spec records are tolerated unchanged
        if typ == CT_CHANGE_CIPHER_SPEC {
            if payload.len() == 1 && payload[0] == 1 {
                return Ok(());
            }
            return Err(self.fatal(Error::InvalidMessage(InvalidMessage::InvalidCcs)));
        }
        let (real_typ, content) = match self.rec.open(&self.provider, typ, payload) {
            Ok(p) => p,
            Err(e) => {
                return Err(self.fatal(e));
            },
        };
        if real_typ == CT_ALERT {
            if content.len() != 2 {
                return Err(self.fatal(Error::InvalidMessage(InvalidMessage::MessageTooShort)));
            }
            let level = content[0];
            let desc = content[1];
            if desc == ALERT_CLOSE_NOTIFY {
                self.received_close_notify = true;
                return Ok(());
            }
            if level == 1 {
                if self.warning_alerts >= MAX_WARNING_ALERTS {
                    return Err(
                        self.fatal(
                            Error::PeerMisbehaved(PeerMisbehaved::TooManyWarningAlertsReceived),
                        ),
                    );
                }
                self.warning_alerts = self.warning_alerts + 1;
                return Ok(());
            }
            return Err(self.fatal(Error::AlertReceived(desc)));
        }
        if real_typ == CT_HANDSHAKE {
            if content.len() == 0 {
                return Err(self.fatal(Error::InvalidMessage(InvalidMessage::InvalidEmptyPayload)));
            }
            crate::codec::put_bytes(&mut self.hsbuf, &content);
            return self.process_handshake_buffer();
        }
        if real_typ == CT_APPLICATION_DATA {
            match self.rec.note_fragment(content.len()) {
                Ok(_) => {},
                Err(e) => {
                    return Err(self.fatal(e));
                },
            }
            let established = matches!(self.state, HandshakeState::Established) || matches!(
                self.state,
                HandshakeState::KeyUpdateInFlight,
            );
            let early = matches!(self.side, Side::Server) && matches!(
                self.rec.read.epoch,
                Epoch::EarlyData,
            );
            if early {
                // the admission gate guards the budget byte for byte
                match self.early.accept(content.len()) {
                    Ok(_) => {},
                    Err(e) => {
                        return Err(self.fatal(e));
                    },
                }
                crate::codec::put_bytes(&mut self.plaintext_in, &content);
                return Ok(());
            }
            if !established {
                return Err(
                    self.fatal(
                        Error::PeerMisbehaved(
                            PeerMisbehaved::MessageInterleavedWithHandshakeMessage,
                        ),
                    ),
                );
            }
            crate::codec::put_bytes(&mut self.plaintext_in, &content);
            return Ok(());
        }
        Err(self.fatal(Error::InvalidMessage(InvalidMessage::InvalidContentType)))
    }

    /// Decodes and routes every complete handshake message in the joined
    /// handshake stream; a trailing partial message waits for more input.
    fn process_handshake_buffer(&mut self) -> (r: Result<(), Error>)
        requires
            old(self).wf(),
        ensures
            final(self).wf(),
            final(self).side == old(self).side,
            state_rank(final(self).state) >= state_rank(old(self).state),
            r is Err ==> final(self).state is Closed,
    {
        // extract complete messages first
        let mut msgs: Vec<(Msg, Vec<u8>)> = Vec::new();
        let mut pos: usize = 0;
        let mut bad = false;
        loop
            invariant
                pos <= self.hsbuf@.len(),
                self.wf(),
                *self == *old(self),
            decreases self.hsbuf@.len() - pos,
        {
            match decode_msg_at(&self.hsbuf, pos) {
                Ok((m, j)) => {
                    let raw = copy_range(&self.hsbuf, pos, j);
                    msgs.push((m, raw));
                    pos = j;
                },
                Err(DecodeError::Truncated) => {
                    break ;
                },
                Err(_) => {
                    bad = true;
                    break ;
                },
            }
        }
        let rest = copy_range(&self.hsbuf, pos, self.hsbuf.len());
        self.hsbuf = rest;
        if bad {
            return Err(self.fatal(Error::InvalidMessage(InvalidMessage::MissingData)));
        }
        let mut mi: usize = 0;
        while mi < msgs.len()
            invariant
                mi <= msgs@.len(),
                self.wf(),
                self.side == old(self).side,
                state_rank(self.state) >= state_rank(old(self).state),
            decreases msgs@.len() - mi,
        {
            let mut pair = (Msg::ServerHelloDone, Vec::new());
            core::mem::swap(&mut pair, &mut msgs[mi]);
            let (m, raw) = pair;
            self.handle_msg(m, raw)?;
            mi = mi + 1;
        }
        Ok(())
    }
}

} // verus!
