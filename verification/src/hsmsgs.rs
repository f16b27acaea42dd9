//! TLS handshake messages: typed representation, wire codec, and the
//! round-trip law `decode(encode(m)) == m` for every well-formed message.
//!
//! A message is framed as a one-byte type code and a three-byte body length.
//! Bodies are parsed strictly: any leftover byte inside a declared length is
//! malformed, while running out of input at the outer frame is truncation.

use vstd::prelude::*;

use crate::codec::{
    DecodeError, SpecParse, enc_u8, enc_u16, enc_u24, enc_u32, enc_vec8, enc_vec16, enc_vec24,
    p_u8, p_u16, p_u24, p_u32, p_vec8, p_vec16, p_vec24, lemma_split_concat, lemma_p_u8,
    lemma_p_u16, lemma_p_u24, lemma_p_u32, lemma_p_vec8, lemma_p_vec16, lemma_p_vec24, put_u8,
    put_u16, put_u24, put_u32, put_bytes, put_vec8, put_vec16, put_vec24, get_u8, get_u16,
    get_u24, get_u32, get_vec8, get_vec16, get_vec24, copy_range,
};
use crate::msgs::{
    Ext, ExtV, wf_ext, wf_exts, enc_u16s, enc_exts, p_u16s, p_exts, lemma_p_u16s, lemma_p_exts,
    lemma_len_enc_u16s, lemma_len_enc_exts, put_u16s, put_exts, d_u16s, d_exts,
    lemma_exts_deep_view,
};

verus! {

pub const HT_CLIENT_HELLO: u8 = 1;
pub const HT_SERVER_HELLO: u8 = 2;
pub const HT_NEW_SESSION_TICKET: u8 = 4;
pub const HT_ENCRYPTED_EXTENSIONS: u8 = 8;
pub const HT_CERTIFICATE: u8 = 11;
pub const HT_SERVER_KEY_EXCHANGE: u8 = 12;
pub const HT_CERTIFICATE_REQUEST: u8 = 13;
pub const HT_SERVER_HELLO_DONE: u8 = 14;
pub const HT_CERTIFICATE_VERIFY: u8 = 15;
pub const HT_CLIENT_KEY_EXCHANGE: u8 = 16;
pub const HT_FINISHED: u8 = 20;
pub const HT_KEY_UPDATE: u8 = 24;
pub const HT_COMPRESSED_CERTIFICATE: u8 = 25;

// ---------------------------------------------------------------------------
// Message structures and views
// ---------------------------------------------------------------------------

#[derive(Debug, Clone)]
pub struct ClientHello {
    pub legacy_version: u16,
    pub random: Vec<u8>,
    pub session_id: Vec<u8>,
    pub cipher_suites: Vec<u16>,
    pub compression: Vec<u8>,
    pub extensions: Vec<Ext>,
}

#[verifier::ext_equal]
pub struct ClientHelloV {
    pub legacy_version: u16,
    pub random: Seq<u8>,
    pub session_id: Seq<u8>,
    pub cipher_suites: Seq<u16>,
    pub compression: Seq<u8>,
    pub extensions: Seq<ExtV>,
}

impl View for ClientHello {
    type V = ClientHelloV;

    open spec fn view(&self) -> ClientHelloV {
        ClientHelloV {
            legacy_version: self.legacy_version,
            random: self.random@,
            session_id: self.session_id@,
            cipher_suites: self.cipher_suites@,
            compression: self.compression@,
            extensions: self.extensions.deep_view(),
        }
    }
}

#[derive(Debug, Clone)]
pub struct ServerHello {
    pub legacy_version: u16,
    pub random: Vec<u8>,
    pub session_id: Vec<u8>,
    pub cipher_suite: u16,
    pub compression: u8,
    pub extensions: Vec<Ext>,
}

#[verifier::ext_equal]
pub struct ServerHelloV {
    pub legacy_version: u16,
    pub random: Seq<u8>,
    pub session_id: Seq<u8>,
    pub cipher_suite: u16,
    pub compression: u8,
    pub extensions: Seq<ExtV>,
}

impl View for ServerHello {
    type V = ServerHelloV;

    open spec fn view(&self) -> ServerHelloV {
        ServerHelloV {
            legacy_version: self.legacy_version,
            random: self.random@,
            session_id: self.session_id@,
            cipher_suite: self.cipher_suite,
            compression: self.compression,
            extensions: self.extensions.deep_view(),
        }
    }
}

#[derive(Debug, Clone)]
pub struct NewSessionTicket {
    pub lifetime: u32,
    pub age_add: u32,
    pub nonce: Vec<u8>,
    pub ticket: Vec<u8>,
    pub max_early_data: u32,
}

#[verifier::ext_equal]
pub struct NewSessionTicketV {
    pub lifetime: u32,
    pub age_add: u32,
    pub nonce: Seq<u8>,
    pub ticket: Seq<u8>,
    pub max_early_data: u32,
}

impl View for NewSessionTicket {
    type V = NewSessionTicketV;

    open spec fn view(&self) -> NewSessionTicketV {
        NewSessionTicketV {
            lifetime: self.lifetime,
            age_add: self.age_add,
            nonce: self.nonce@,
            ticket: self.ticket@,
            max_early_data: self.max_early_data,
        }
    }
}

#[derive(Debug, Clone)]
pub struct CertificatePayload {
    pub context: Vec<u8>,
    pub chain: Vec<Vec<u8>>,
}

#[verifier::ext_equal]
pub struct CertificatePayloadV {
    pub context: Seq<u8>,
    pub chain: Seq<Seq<u8>>,
}

impl View for CertificatePayload {
    type V = CertificatePayloadV;

    open spec fn view(&self) -> CertificatePayloadV {
        CertificatePayloadV { context: self.context@, chain: self.chain.deep_view() }
    }
}

#[derive(Debug, Clone)]
pub struct ServerKeyExchange {
    pub group: u16,
    pub pubkey: Vec<u8>,
    pub scheme: u16,
    pub sig: Vec<u8>,
}

#[verifier::ext_equal]
pub struct ServerKeyExchangeV {
    pub group: u16,
    pub pubkey: Seq<u8>,
    pub scheme: u16,
    pub sig: Seq<u8>,
}

impl View for ServerKeyExchange {
    type V = ServerKeyExchangeV;

    open spec fn view(&self) -> ServerKeyExchangeV {
        ServerKeyExchangeV {
            group: self.group,
            pubkey: self.pubkey@,
            scheme: self.scheme,
            sig: self.sig@,
        }
    }
}

#[derive(Debug, Clone)]
pub struct CertificateRequest {
    pub context: Vec<u8>,
    pub schemes: Vec<u16>,
    pub authorities: Vec<Vec<u8>>,
}

#[verifier::ext_equal]
pub struct CertificateRequestV {
    pub context: Seq<u8>,
    pub schemes: Seq<u16>,
    pub authorities: Seq<Seq<u8>>,
}

impl View for CertificateRequest {
    type V = CertificateRequestV;

    open spec fn view(&self) -> CertificateRequestV {
        CertificateRequestV {
            context: self.context@,
            schemes: self.schemes@,
            authorities: self.authorities.deep_view(),
        }
    }
}

#[derive(Debug, Clone)]
pub struct CertificateVerify {
    pub scheme: u16,
    pub sig: Vec<u8>,
}

#[verifier::ext_equal]
pub struct CertificateVerifyV {
    pub scheme: u16,
    pub sig: Seq<u8>,
}

impl View for CertificateVerify {
    type V = CertificateVerifyV;

    open spec fn view(&self) -> CertificateVerifyV {
        CertificateVerifyV { scheme: self.scheme, sig: self.sig@ }
    }
}

#[derive(Debug, Clone)]
pub struct CompressedCertificate {
    pub alg: u16,
    pub uncompressed_len: u32,
    pub payload: Vec<u8>,
}

#[verifier::ext_equal]
pub struct CompressedCertificateV {
    pub alg: u16,
    pub uncompressed_len: u32,
    pub payload: Seq<u8>,
}

impl View for CompressedCertificate {
    type V = CompressedCertificateV;

    open spec fn view(&self) -> CompressedCertificateV {
        CompressedCertificateV {
            alg: self.alg,
            uncompressed_len: self.uncompressed_len,
            payload: self.payload@,
        }
    }
}

/// A handshake message.
#[derive(Debug, Clone)]
pub enum Msg {
    ClientHello(ClientHello),
    ServerHello(ServerHello),
    NewSessionTicket(NewSessionTicket),
    EncryptedExtensions(Vec<Ext>),
    Certificate(CertificatePayload),
    ServerKeyExchange(ServerKeyExchange),
    CertificateRequest(CertificateRequest),
    ServerHelloDone,
    CertificateVerify(CertificateVerify),
    ClientKeyExchange(Vec<u8>),
    Finished(Vec<u8>),
    KeyUpdate(bool),
    CompressedCertificate(CompressedCertificate),
}

#[verifier::ext_equal]
pub enum MsgV {
    ClientHello(ClientHelloV),
    ServerHello(ServerHelloV),
    NewSessionTicket(NewSessionTicketV),
    EncryptedExtensions(Seq<ExtV>),
    Certificate(CertificatePayloadV),
    ServerKeyExchange(ServerKeyExchangeV),
    CertificateRequest(CertificateRequestV),
    ServerHelloDone,
    CertificateVerify(CertificateVerifyV),
    ClientKeyExchange(Seq<u8>),
    Finished(Seq<u8>),
    KeyUpdate(bool),
    CompressedCertificate(CompressedCertificateV),
}

impl View for Msg {
    type V = MsgV;

    open spec fn view(&self) -> MsgV {
        match self {
            Msg::ClientHello(x) => MsgV::ClientHello(x@),
            Msg::ServerHello(x) => MsgV::ServerHello(x@),
            Msg::NewSessionTicket(x) => MsgV::NewSessionTicket(x@),
            Msg::EncryptedExtensions(x) => MsgV::EncryptedExtensions(x.deep_view()),
            Msg::Certificate(x) => MsgV::Certificate(x@),
            Msg::ServerKeyExchange(x) => MsgV::ServerKeyExchange(x@),
            Msg::CertificateRequest(x) => MsgV::CertificateRequest(x@),
            Msg::ServerHelloDone => MsgV::ServerHelloDone,
            Msg::CertificateVerify(x) => MsgV::CertificateVerify(x@),
            Msg::ClientKeyExchange(x) => MsgV::ClientKeyExchange(x@),
            Msg::Finished(x) => MsgV::Finished(x@),
            Msg::KeyUpdate(x) => MsgV::KeyUpdate(*x),
            Msg::CompressedCertificate(x) => MsgV::CompressedCertificate(x@),
        }
    }
}

// ---------------------------------------------------------------------------
// Well-formedness
// ---------------------------------------------------------------------------

pub open spec fn wf_ch(x: ClientHelloV) -> bool {
    &&& x.random.len() == 32
    &&& x.session_id.len() <= 32
    &&& 1 <= x.cipher_suites.len() <= 64
    &&& 1 <= x.compression.len() <= 8
    &&& wf_exts(x.extensions)
}

pub open spec fn wf_sh(x: ServerHelloV) -> bool {
    &&& x.random.len() == 32
    &&& x.session_id.len() <= 32
    &&& wf_exts(x.extensions)
}

pub open spec fn wf_nst(x: NewSessionTicketV) -> bool {
    x.nonce.len() < 256 && x.ticket.len() < 2048
}

pub open spec fn wf_cert(x: CertificatePayloadV) -> bool {
    &&& x.context.len() < 256
    &&& x.chain.len() <= 8
    &&& forall|k: int| 0 <= k < x.chain.len() ==> #[trigger] x.chain[k].len() < 16384
}

pub open spec fn wf_ske(x: ServerKeyExchangeV) -> bool {
    x.pubkey.len() < 2048 && x.sig.len() < 2048
}

pub open spec fn wf_cr(x: CertificateRequestV) -> bool {
    &&& x.context.len() < 256
    &&& x.schemes.len() <= 32
    &&& x.authorities.len() <= 8
    &&& forall|k: int| 0 <= k < x.authorities.len() ==> #[trigger] x.authorities[k].len() < 512
}

pub open spec fn wf_msg(m: MsgV) -> bool {
    match m {
        MsgV::ClientHello(x) => wf_ch(x),
        MsgV::ServerHello(x) => wf_sh(x),
        MsgV::NewSessionTicket(x) => wf_nst(x),
        MsgV::EncryptedExtensions(x) => wf_exts(x),
        MsgV::Certificate(x) => wf_cert(x),
        MsgV::ServerKeyExchange(x) => wf_ske(x),
        MsgV::CertificateRequest(x) => wf_cr(x),
        MsgV::ServerHelloDone => true,
        MsgV::CertificateVerify(x) => x.sig.len() < 2048,
        MsgV::ClientKeyExchange(x) => x.len() < 2048,
        MsgV::Finished(x) => x.len() < 256,
        MsgV::KeyUpdate(_) => true,
        MsgV::CompressedCertificate(x) => x.payload.len() < 262144 && x.uncompressed_len
            < 16777216,
    }
}

// ---------------------------------------------------------------------------
// List encodings used inside message bodies
// ---------------------------------------------------------------------------

/// Certificate-chain entries, each with a three-byte length prefix.
pub open spec fn enc_certs(l: Seq<Seq<u8>>) -> Seq<u8>
    decreases l.len(),
{
    if l.len() == 0 {
        Seq::empty()
    } else {
        enc_vec24(l[0]) + enc_certs(l.skip(1))
    }
}

/// Authority names, each with a two-byte length prefix.
pub open spec fn enc_auths(l: Seq<Seq<u8>>) -> Seq<u8>
    decreases l.len(),
{
    if l.len() == 0 {
        Seq::empty()
    } else {
        enc_vec16(l[0]) + enc_auths(l.skip(1))
    }
}

pub open spec fn p_certs(b: Seq<u8>, i: int) -> Option<Seq<Seq<u8>>>
    decreases b.len() - i,
{
    if i == b.len() {
        Some(Seq::empty())
    } else if 0 <= i && i + 3 <= b.len() && i + 3 + ((b[i] as int) * 65536 + (b[i + 1] as int)
        * 256 + (b[i + 2] as int)) <= b.len() {
        let n = (b[i] as int) * 65536 + (b[i + 1] as int) * 256 + (b[i + 2] as int);
        match p_certs(b, i + 3 + n) {
            Some(r) => Some(seq![b.subrange(i + 3, i + 3 + n)] + r),
            None => None,
        }
    } else {
        None
    }
}

pub open spec fn p_auths(b: Seq<u8>, i: int) -> Option<Seq<Seq<u8>>>
    decreases b.len() - i,
{
    if i == b.len() {
        Some(Seq::empty())
    } else if 0 <= i && i + 2 <= b.len() && i + 2 + ((b[i] as int) * 256 + (b[i + 1] as int))
        <= b.len() {
        let n = (b[i] as int) * 256 + (b[i + 1] as int);
        match p_auths(b, i + 2 + n) {
            Some(r) => Some(seq![b.subrange(i + 2, i + 2 + n)] + r),
            None => None,
        }
    } else {
        None
    }
}

pub proof fn lemma_len_enc_certs(l: Seq<Seq<u8>>)
    requires
        forall|k: int| 0 <= k < l.len() ==> #[trigger] l[k].len() < 16384,
    ensures
        enc_certs(l).len() <= 16387 * l.len(),
    decreases l.len(),
{
    if l.len() > 0 {
        assert(l[0].len() < 16384);
        assert(forall|k: int| 0 <= k < l.skip(1).len() ==> #[trigger] l.skip(1)[k].len() < 16384);
        lemma_len_enc_certs(l.skip(1));
    }
}

pub proof fn lemma_len_enc_auths(l: Seq<Seq<u8>>)
    requires
        forall|k: int| 0 <= k < l.len() ==> #[trigger] l[k].len() < 512,
    ensures
        enc_auths(l).len() <= 514 * l.len(),
    decreases l.len(),
{
    if l.len() > 0 {
        assert(l[0].len() < 512);
        assert(forall|k: int| 0 <= k < l.skip(1).len() ==> #[trigger] l.skip(1)[k].len() < 512);
        lemma_len_enc_auths(l.skip(1));
    }
}

pub proof fn lemma_p_certs(b: Seq<u8>, i: int, l: Seq<Seq<u8>>)
    requires
        0 <= i <= b.len(),
        forall|k: int| 0 <= k < l.len() ==> #[trigger] l[k].len() < 16384,
        b.subrange(i, b.len() as int) == enc_certs(l),
    ensures
        p_certs(b, i) == Some(l),
    decreases l.len(),
{
    if l.len() == 0 {
        assert(enc_certs(l).len() == 0);
        assert(l =~= Seq::<Seq<u8>>::empty());
    } else {
        let head = enc_vec24(l[0]);
        let tail = enc_certs(l.skip(1));
        assert(enc_certs(l) == head + tail);
        lemma_split_concat(b, i, head, tail);
        lemma_p_vec24(b, i, l[0]);
        let n = (b[i] as int) * 65536 + (b[i + 1] as int) * 256 + (b[i + 2] as int);
        assert(p_vec24(b, i) == SpecParse::Val(l[0], i + 3 + l[0].len()));
        assert(n == l[0].len());
        assert(b.subrange(i + 3, i + 3 + n) == l[0]);
        assert(b.subrange(i + 3 + n, b.len() as int) == tail);
        assert(forall|k: int| 0 <= k < l.skip(1).len() ==> #[trigger] l.skip(1)[k].len() < 16384);
        lemma_p_certs(b, i + 3 + n, l.skip(1));
        assert(seq![l[0]] + l.skip(1) =~= l);
    }
}

pub proof fn lemma_p_auths(b: Seq<u8>, i: int, l: Seq<Seq<u8>>)
    requires
        0 <= i <= b.len(),
        forall|k: int| 0 <= k < l.len() ==> #[trigger] l[k].len() < 512,
        b.subrange(i, b.len() as int) == enc_auths(l),
    ensures
        p_auths(b, i) == Some(l),
    decreases l.len(),
{
    if l.len() == 0 {
        assert(enc_auths(l).len() == 0);
        assert(l =~= Seq::<Seq<u8>>::empty());
    } else {
        let head = enc_vec16(l[0]);
        let tail = enc_auths(l.skip(1));
        assert(enc_auths(l) == head + tail);
        lemma_split_concat(b, i, head, tail);
        lemma_p_vec16(b, i, l[0]);
        let n = (b[i] as int) * 256 + (b[i + 1] as int);
        assert(p_vec16(b, i) == SpecParse::Val(l[0], i + 2 + l[0].len()));
        assert(n == l[0].len());
        assert(b.subrange(i + 2, i + 2 + n) == l[0]);
        assert(b.subrange(i + 2 + n, b.len() as int) == tail);
        assert(forall|k: int| 0 <= k < l.skip(1).len() ==> #[trigger] l.skip(1)[k].len() < 512);
        lemma_p_auths(b, i + 2 + n, l.skip(1));
        assert(seq![l[0]] + l.skip(1) =~= l);
    }
}

// ---------------------------------------------------------------------------
// Body encodings (written right-associated so each field splits off cleanly)
// ---------------------------------------------------------------------------

pub open spec fn ch_body(x: ClientHelloV) -> Seq<u8> {
    enc_u16(x.legacy_version) + (x.random + (enc_vec8(x.session_id) + (enc_vec16(
        enc_u16s(x.cipher_suites),
    ) + (enc_vec8(x.compression) + enc_vec16(enc_exts(x.extensions))))))
}

pub open spec fn sh_body(x: ServerHelloV) -> Seq<u8> {
    enc_u16(x.legacy_version) + (x.random + (enc_vec8(x.session_id) + (enc_u16(x.cipher_suite)
        + (enc_u8(x.compression) + enc_vec16(enc_exts(x.extensions))))))
}

pub open spec fn nst_body(x: NewSessionTicketV) -> Seq<u8> {
    enc_u32(x.lifetime) + (enc_u32(x.age_add) + (enc_vec8(x.nonce) + (enc_vec16(x.ticket)
        + enc_u32(x.max_early_data))))
}

pub open spec fn cert_body(x: CertificatePayloadV) -> Seq<u8> {
    enc_vec8(x.context) + enc_vec24(enc_certs(x.chain))
}

pub open spec fn ske_body(x: ServerKeyExchangeV) -> Seq<u8> {
    enc_u16(x.group) + (enc_vec16(x.pubkey) + (enc_u16(x.scheme) + enc_vec16(x.sig)))
}

pub open spec fn cr_body(x: CertificateRequestV) -> Seq<u8> {
    enc_vec8(x.context) + (enc_vec16(enc_u16s(x.schemes)) + enc_vec16(enc_auths(x.authorities)))
}

pub open spec fn cv_body(x: CertificateVerifyV) -> Seq<u8> {
    enc_u16(x.scheme) + enc_vec16(x.sig)
}

pub open spec fn cc_body(x: CompressedCertificateV) -> Seq<u8> {
    enc_u16(x.alg) + (enc_u24(x.uncompressed_len) + enc_vec24(x.payload))
}

pub open spec fn msg_code(m: MsgV) -> u8 {
    match m {
        MsgV::ClientHello(_) => HT_CLIENT_HELLO,
        MsgV::ServerHello(_) => HT_SERVER_HELLO,
        MsgV::NewSessionTicket(_) => HT_NEW_SESSION_TICKET,
        MsgV::EncryptedExtensions(_) => HT_ENCRYPTED_EXTENSIONS,
        MsgV::Certificate(_) => HT_CERTIFICATE,
        MsgV::ServerKeyExchange(_) => HT_SERVER_KEY_EXCHANGE,
        MsgV::CertificateRequest(_) => HT_CERTIFICATE_REQUEST,
        MsgV::ServerHelloDone => HT_SERVER_HELLO_DONE,
        MsgV::CertificateVerify(_) => HT_CERTIFICATE_VERIFY,
        MsgV::ClientKeyExchange(_) => HT_CLIENT_KEY_EXCHANGE,
        MsgV::Finished(_) => HT_FINISHED,
        MsgV::KeyUpdate(_) => HT_KEY_UPDATE,
        MsgV::CompressedCertificate(_) => HT_COMPRESSED_CERTIFICATE,
    }
}

pub open spec fn msg_body(m: MsgV) -> Seq<u8> {
    match m {
        MsgV::ClientHello(x) => ch_body(x),
        MsgV::ServerHello(x) => sh_body(x),
        MsgV::NewSessionTicket(x) => nst_body(x),
        MsgV::EncryptedExtensions(x) => enc_vec16(enc_exts(x)),
        MsgV::Certificate(x) => cert_body(x),
        MsgV::ServerKeyExchange(x) => ske_body(x),
        MsgV::CertificateRequest(x) => cr_body(x),
        MsgV::ServerHelloDone => Seq::empty(),
        MsgV::CertificateVerify(x) => cv_body(x),
        MsgV::ClientKeyExchange(x) => enc_vec16(x),
        MsgV::Finished(x) => enc_vec8(x),
        MsgV::KeyUpdate(r) => enc_u8(if r { 1u8 } else { 0u8 }),
        MsgV::CompressedCertificate(x) => cc_body(x),
    }
}

/// A handshake message on the wire: type code, then length-prefixed body.
pub open spec fn enc_msg(m: MsgV) -> Seq<u8> {
    enc_u8(msg_code(m)) + enc_vec24(msg_body(m))
}

pub proof fn lemma_len_msg_body(m: MsgV)
    requires
        wf_msg(m),
    ensures
        msg_body(m).len() < 16777216,
{
    match m {
        MsgV::ClientHello(x) => {
            lemma_len_enc_u16s(x.cipher_suites);
            lemma_len_enc_exts(x.extensions);
        },
        MsgV::ServerHello(x) => {
            lemma_len_enc_exts(x.extensions);
        },
        MsgV::EncryptedExtensions(x) => {
            lemma_len_enc_exts(x);
        },
        MsgV::Certificate(x) => {
            lemma_len_enc_certs(x.chain);
        },
        MsgV::CertificateRequest(x) => {
            lemma_len_enc_u16s(x.schemes);
            lemma_len_enc_auths(x.authorities);
        },
        _ => {},
    }
}

// ---------------------------------------------------------------------------
// Body parsers
// ---------------------------------------------------------------------------

pub open spec fn parse_ch(b: Seq<u8>) -> Option<ClientHelloV> {
    match p_u16(b, 0) {
        SpecParse::Val(lv, i1) => if i1 + 32 <= b.len() {
            let random = b.subrange(i1, i1 + 32);
            match p_vec8(b, i1 + 32) {
                SpecParse::Val(sid, i2) => match p_vec16(b, i2) {
                    SpecParse::Val(sb, i3) => match p_u16s(sb, 0) {
                        Some(suites) => match p_vec8(b, i3) {
                            SpecParse::Val(comp, i4) => match p_vec16(b, i4) {
                                SpecParse::Val(eb, i5) => match p_exts(eb, 0) {
                                    Some(exts) => if i5 == b.len() {
                                        Some(
                                            ClientHelloV {
                                                legacy_version: lv,
                                                random,
                                                session_id: sid,
                                                cipher_suites: suites,
                                                compression: comp,
                                                extensions: exts,
                                            },
                                        )
                                    } else {
                                        None
                                    },
                                    None => None,
                                },
                                _ => None,
                            },
                            _ => None,
                        },
                        None => None,
                    },
                    _ => None,
                },
                _ => None,
            }
        } else {
            None
        },
        _ => None,
    }
}

pub open spec fn parse_sh(b: Seq<u8>) -> Option<ServerHelloV> {
    match p_u16(b, 0) {
        SpecParse::Val(lv, i1) => if i1 + 32 <= b.len() {
            let random = b.subrange(i1, i1 + 32);
            match p_vec8(b, i1 + 32) {
                SpecParse::Val(sid, i2) => match p_u16(b, i2) {
                    SpecParse::Val(suite, i3) => match p_u8(b, i3) {
                        SpecParse::Val(comp, i4) => match p_vec16(b, i4) {
                            SpecParse::Val(eb, i5) => match p_exts(eb, 0) {
                                Some(exts) => if i5 == b.len() {
                                    Some(
                                        ServerHelloV {
                                            legacy_version: lv,
                                            random,
                                            session_id: sid,
                                            cipher_suite: suite,
                                            compression: comp,
                                            extensions: exts,
                                        },
                                    )
                                } else {
                                    None
                                },
                                None => None,
                            },
                            _ => None,
                        },
                        _ => None,
                    },
                    _ => None,
                },
                _ => None,
            }
        } else {
            None
        },
        _ => None,
    }
}

pub open spec fn parse_nst(b: Seq<u8>) -> Option<NewSessionTicketV> {
    match p_u32(b, 0) {
        SpecParse::Val(lifetime, i1) => match p_u32(b, i1) {
            SpecParse::Val(age_add, i2) => match p_vec8(b, i2) {
                SpecParse::Val(nonce, i3) => match p_vec16(b, i3) {
                    SpecParse::Val(ticket, i4) => match p_u32(b, i4) {
                        SpecParse::Val(med, i5) => if i5 == b.len() && ticket.len() < 2048
                            && nonce.len() < 256 {
                            Some(
                                NewSessionTicketV {
                                    lifetime,
                                    age_add,
                                    nonce,
                                    ticket,
                                    max_early_data: med,
                                },
                            )
                        } else {
                            None
                        },
                        _ => None,
                    },
                    _ => None,
                },
                _ => None,
            },
            _ => None,
        },
        _ => None,
    }
}

pub open spec fn parse_cert(b: Seq<u8>) -> Option<CertificatePayloadV> {
    match p_vec8(b, 0) {
        SpecParse::Val(ctx, i1) => match p_vec24(b, i1) {
            SpecParse::Val(cb, i2) => match p_certs(cb, 0) {
                Some(chain) => if i2 == b.len() {
                    Some(CertificatePayloadV { context: ctx, chain })
                } else {
                    None
                },
                None => None,
            },
            _ => None,
        },
        _ => None,
    }
}

pub open spec fn parse_ske(b: Seq<u8>) -> Option<ServerKeyExchangeV> {
    match p_u16(b, 0) {
        SpecParse::Val(group, i1) => match p_vec16(b, i1) {
            SpecParse::Val(pubkey, i2) => match p_u16(b, i2) {
                SpecParse::Val(scheme, i3) => match p_vec16(b, i3) {
                    SpecParse::Val(sig, i4) => if i4 == b.len() {
                        Some(ServerKeyExchangeV { group, pubkey, scheme, sig })
                    } else {
                        None
                    },
                    _ => None,
                },
                _ => None,
            },
            _ => None,
        },
        _ => None,
    }
}

pub open spec fn parse_cr(b: Seq<u8>) -> Option<CertificateRequestV> {
    match p_vec8(b, 0) {
        SpecParse::Val(ctx, i1) => match p_vec16(b, i1) {
            SpecParse::Val(sb, i2) => match p_u16s(sb, 0) {
                Some(schemes) => match p_vec16(b, i2) {
                    SpecParse::Val(ab, i3) => match p_auths(ab, 0) {
                        Some(auths) => if i3 == b.len() {
                            Some(
                                CertificateRequestV {
                                    context: ctx,
                                    schemes,
                                    authorities: auths,
                                },
                            )
                        } else {
                            None
                        },
                        None => None,
                    },
                    _ => None,
                },
                None => None,
            },
            _ => None,
        },
        _ => None,
    }
}

pub open spec fn parse_cv(b: Seq<u8>) -> Option<CertificateVerifyV> {
    match p_u16(b, 0) {
        SpecParse::Val(scheme, i1) => match p_vec16(b, i1) {
            SpecParse::Val(sig, i2) => if i2 == b.len() {
                Some(CertificateVerifyV { scheme, sig })
            } else {
                None
            },
            _ => None,
        },
        _ => None,
    }
}

pub open spec fn parse_cke(b: Seq<u8>) -> Option<Seq<u8>> {
    match p_vec16(b, 0) {
        SpecParse::Val(pk, i1) => if i1 == b.len() {
            Some(pk)
        } else {
            None
        },
        _ => None,
    }
}

pub open spec fn parse_fin(b: Seq<u8>) -> Option<Seq<u8>> {
    match p_vec8(b, 0) {
        SpecParse::Val(mac, i1) => if i1 == b.len() {
            Some(mac)
        } else {
            None
        },
        _ => None,
    }
}

pub open spec fn parse_ku(b: Seq<u8>) -> Option<bool> {
    if b.len() == 1 && b[0] == 1 {
        Some(true)
    } else if b.len() == 1 && b[0] == 0 {
        Some(false)
    } else {
        None
    }
}

pub open spec fn parse_cc(b: Seq<u8>) -> Option<CompressedCertificateV> {
    match p_u16(b, 0) {
        SpecParse::Val(alg, i1) => match p_u24(b, i1) {
            SpecParse::Val(ulen, i2) => match p_vec24(b, i2) {
                SpecParse::Val(payload, i3) => if i3 == b.len() && payload.len() < 262144 {
                    Some(CompressedCertificateV { alg, uncompressed_len: ulen, payload })
                } else {
                    None
                },
                _ => None,
            },
            _ => None,
        },
        _ => None,
    }
}

pub open spec fn parse_msg_body(code: u8, b: Seq<u8>) -> Option<MsgV> {
    if code == HT_CLIENT_HELLO {
        match parse_ch(b) {
            Some(x) => Some(MsgV::ClientHello(x)),
            None => None,
        }
    } else if code == HT_SERVER_HELLO {
        match parse_sh(b) {
            Some(x) => Some(MsgV::ServerHello(x)),
            None => None,
        }
    } else if code == HT_NEW_SESSION_TICKET {
        match parse_nst(b) {
            Some(x) => Some(MsgV::NewSessionTicket(x)),
            None => None,
        }
    } else if code == HT_ENCRYPTED_EXTENSIONS {
        match p_vec16(b, 0) {
            SpecParse::Val(eb, i1) => match p_exts(eb, 0) {
                Some(exts) => if i1 == b.len() {
                    Some(MsgV::EncryptedExtensions(exts))
                } else {
                    None
                },
                None => None,
            },
            _ => None,
        }
    } else if code == HT_CERTIFICATE {
        match parse_cert(b) {
            Some(x) => Some(MsgV::Certificate(x)),
            None => None,
        }
    } else if code == HT_SERVER_KEY_EXCHANGE {
        match parse_ske(b) {
            Some(x) => Some(MsgV::ServerKeyExchange(x)),
            None => None,
        }
    } else if code == HT_CERTIFICATE_REQUEST {
        match parse_cr(b) {
            Some(x) => Some(MsgV::CertificateRequest(x)),
            None => None,
        }
    } else if code == HT_SERVER_HELLO_DONE {
        if b.len() == 0 {
            Some(MsgV::ServerHelloDone)
        } else {
            None
        }
    } else if code == HT_CERTIFICATE_VERIFY {
        match parse_cv(b) {
            Some(x) => Some(MsgV::CertificateVerify(x)),
            None => None,
        }
    } else if code == HT_CLIENT_KEY_EXCHANGE {
        match parse_cke(b) {
            Some(x) => if x.len() < 2048 {
                Some(MsgV::ClientKeyExchange(x))
            } else {
                None
            },
            None => None,
        }
    } else if code == HT_FINISHED {
        match parse_fin(b) {
            Some(x) => Some(MsgV::Finished(x)),
            None => None,
        }
    } else if code == HT_KEY_UPDATE {
        match parse_ku(b) {
            Some(x) => Some(MsgV::KeyUpdate(x)),
            None => None,
        }
    } else if code == HT_COMPRESSED_CERTIFICATE {
        match parse_cc(b) {
            Some(x) => Some(MsgV::CompressedCertificate(x)),
            None => None,
        }
    } else {
        None
    }
}

/// Parses one framed handshake message starting at `i`.
pub open spec fn p_msg(s: Seq<u8>, i: int) -> SpecParse<MsgV> {
    match p_u8(s, i) {
        SpecParse::Val(code, j) => match p_vec24(s, j) {
            SpecParse::Val(body, k) => match parse_msg_body(code, body) {
                Some(m) => SpecParse::Val(m, k),
                None => SpecParse::Bad,
            },
            SpecParse::Short => SpecParse::Short,
            SpecParse::Bad => SpecParse::Bad,
        },
        SpecParse::Short => SpecParse::Short,
        SpecParse::Bad => SpecParse::Bad,
    }
}

// ---------------------------------------------------------------------------
// Round-trip lemmas, one per body
// ---------------------------------------------------------------------------

#[verifier::rlimit(100)]
#[verifier::spinoff_prover]
proof fn lemma_parse_ch_enc(x: ClientHelloV)
    requires
        wf_ch(x),
    ensures
        parse_ch(ch_body(x)) == Some(x),
{
    let b = ch_body(x);
    let sb = enc_u16s(x.cipher_suites);
    let eb = enc_exts(x.extensions);
    lemma_len_enc_u16s(x.cipher_suites);
    lemma_len_enc_exts(x.extensions);
    let e1 = enc_u16(x.legacy_version);
    let r2 = enc_vec8(x.session_id) + (enc_vec16(sb) + (enc_vec8(x.compression) + enc_vec16(eb)));
    let r3 = enc_vec16(sb) + (enc_vec8(x.compression) + enc_vec16(eb));
    let r4 = enc_vec8(x.compression) + enc_vec16(eb);
    assert(b.subrange(0, b.len() as int) =~= b);
    lemma_split_concat(b, 0, e1, x.random + r2);
    lemma_p_u16(b, 0, x.legacy_version);
    lemma_split_concat(b, 2, x.random, r2);
    assert(b.subrange(2, 34) == x.random);
    lemma_split_concat(b, 34, enc_vec8(x.session_id), r3);
    lemma_p_vec8(b, 34, x.session_id);
    let i2 = 34 + 1 + x.session_id.len() as int;
    lemma_split_concat(b, i2, enc_vec16(sb), r4);
    lemma_p_vec16(b, i2, sb);
    assert(sb.subrange(0, sb.len() as int) =~= sb);
    lemma_p_u16s(sb, 0, x.cipher_suites);
    let i3 = i2 + 2 + sb.len();
    lemma_split_concat(b, i3, enc_vec8(x.compression), enc_vec16(eb));
    lemma_p_vec8(b, i3, x.compression);
    let i4 = i3 + 1 + x.compression.len();
    lemma_p_vec16(b, i4, eb);
    assert(eb.subrange(0, eb.len() as int) =~= eb);
    lemma_p_exts(eb, 0, x.extensions);
    let i5 = i4 + 2 + eb.len();
    assert(i5 == b.len());
    assert(p_u16(b, 0) == SpecParse::<u16>::Val(x.legacy_version, 2));
    assert(b.subrange(2, 34) == x.random);
    assert(p_vec8(b, 34) == SpecParse::<Seq<u8>>::Val(x.session_id, i2));
    assert(p_vec16(b, i2) == SpecParse::<Seq<u8>>::Val(sb, i3));
    assert(p_u16s(sb, 0) == Some(x.cipher_suites));
    assert(p_vec8(b, i3) == SpecParse::<Seq<u8>>::Val(x.compression, i4));
    assert(p_vec16(b, i4) == SpecParse::<Seq<u8>>::Val(eb, i5));
    assert(p_exts(eb, 0) == Some(x.extensions));
    let expect = ClientHelloV {
        legacy_version: x.legacy_version,
        random: b.subrange(2, 34),
        session_id: x.session_id,
        cipher_suites: x.cipher_suites,
        compression: x.compression,
        extensions: x.extensions,
    };
    assert(expect =~= x);
    assert(parse_ch(b) == Some(expect));
}

#[verifier::rlimit(100)]
#[verifier::spinoff_prover]
proof fn lemma_parse_sh_enc(x: ServerHelloV)
    requires
        wf_sh(x),
    ensures
        parse_sh(sh_body(x)) == Some(x),
{
    let b = sh_body(x);
    let eb = enc_exts(x.extensions);
    lemma_len_enc_exts(x.extensions);
    let e1 = enc_u16(x.legacy_version);
    let r2 = enc_vec8(x.session_id) + (enc_u16(x.cipher_suite) + (enc_u8(x.compression)
        + enc_vec16(eb)));
    let r3 = enc_u16(x.cipher_suite) + (enc_u8(x.compression) + enc_vec16(eb));
    let r4 = enc_u8(x.compression) + enc_vec16(eb);
    assert(b.subrange(0, b.len() as int) =~= b);
    lemma_split_concat(b, 0, e1, x.random + r2);
    lemma_p_u16(b, 0, x.legacy_version);
    lemma_split_concat(b, 2, x.random, r2);
    assert(b.subrange(2, 34) == x.random);
    lemma_split_concat(b, 34, enc_vec8(x.session_id), r3);
    lemma_p_vec8(b, 34, x.session_id);
    let i2 = 34 + 1 + x.session_id.len() as int;
    lemma_split_concat(b, i2, enc_u16(x.cipher_suite), r4);
    lemma_p_u16(b, i2, x.cipher_suite);
    let i3 = i2 + 2;
    lemma_split_concat(b, i3, enc_u8(x.compression), enc_vec16(eb));
    lemma_p_u8(b, i3, x.compression);
    let i4 = i3 + 1;
    lemma_p_vec16(b, i4, eb);
    assert(eb.subrange(0, eb.len() as int) =~= eb);
    lemma_p_exts(eb, 0, x.extensions);
    let i5 = i4 + 2 + eb.len();
    assert(i5 == b.len());
    assert(p_u16(b, 0) == SpecParse::<u16>::Val(x.legacy_version, 2));
    assert(b.subrange(2, 34) == x.random);
    assert(p_vec8(b, 34) == SpecParse::<Seq<u8>>::Val(x.session_id, i2));
    assert(p_u16(b, i2) == SpecParse::<u16>::Val(x.cipher_suite, i3));
    assert(p_u8(b, i3) == SpecParse::<u8>::Val(x.compression, i4));
    assert(p_vec16(b, i4) == SpecParse::<Seq<u8>>::Val(eb, i5));
    assert(p_exts(eb, 0) == Some(x.extensions));
    let expect = ServerHelloV {
        legacy_version: x.legacy_version,
        random: b.subrange(2, 34),
        session_id: x.session_id,
        cipher_suite: x.cipher_suite,
        compression: x.compression,
        extensions: x.extensions,
    };
    assert(expect =~= x);
    assert(parse_sh(b) == Some(expect));
}

#[verifier::rlimit(100)]
#[verifier::spinoff_prover]
proof fn lemma_parse_nst_steps(x: NewSessionTicketV)
    requires
        wf_nst(x),
    ensures
        ({
            let b = nst_body(x);
            let i3 = 9 + x.nonce.len() as int;
            let i4 = i3 + 2 + x.ticket.len();
            &&& p_u32(b, 0) == SpecParse::<u32>::Val(x.lifetime, 4)
            &&& p_u32(b, 4) == SpecParse::<u32>::Val(x.age_add, 8)
            &&& p_vec8(b, 8) == SpecParse::<Seq<u8>>::Val(x.nonce, i3)
            &&& p_vec16(b, i3) == SpecParse::<Seq<u8>>::Val(x.ticket, i4)
            &&& p_u32(b, i4) == SpecParse::<u32>::Val(x.max_early_data, i4 + 4)
            &&& i4 + 4 == b.len()
        }),
{
    let b = nst_body(x);
    let r2 = enc_u32(x.age_add) + (enc_vec8(x.nonce) + (enc_vec16(x.ticket) + enc_u32(
        x.max_early_data,
    )));
    let r3 = enc_vec8(x.nonce) + (enc_vec16(x.ticket) + enc_u32(x.max_early_data));
    let r4 = enc_vec16(x.ticket) + enc_u32(x.max_early_data);
    assert(b.subrange(0, b.len() as int) =~= b);
    lemma_split_concat(b, 0, enc_u32(x.lifetime), r2);
    lemma_p_u32(b, 0, x.lifetime);
    lemma_split_concat(b, 4, enc_u32(x.age_add), r3);
    lemma_p_u32(b, 4, x.age_add);
    lemma_split_concat(b, 8, enc_vec8(x.nonce), r4);
    lemma_p_vec8(b, 8, x.nonce);
    let i3 = 8 + 1 + x.nonce.len() as int;
    lemma_split_concat(b, i3, enc_vec16(x.ticket), enc_u32(x.max_early_data));
    lemma_p_vec16(b, i3, x.ticket);
    let i4 = i3 + 2 + x.ticket.len();
    lemma_p_u32(b, i4, x.max_early_data);
}

#[verifier::rlimit(100)]
#[verifier::spinoff_prover]
proof fn lemma_parse_nst_enc(x: NewSessionTicketV)
    requires
        wf_nst(x),
    ensures
        parse_nst(nst_body(x)) == Some(x),
{
    lemma_parse_nst_steps(x);
    let b = nst_body(x);
    let expect = NewSessionTicketV {
        lifetime: x.lifetime,
        age_add: x.age_add,
        nonce: x.nonce,
        ticket: x.ticket,
        max_early_data: x.max_early_data,
    };
    assert(expect =~= x);
    assert(parse_nst(b) == Some(expect));
}

#[verifier::rlimit(100)]
#[verifier::spinoff_prover]
proof fn lemma_parse_cert_enc(x: CertificatePayloadV)
    requires
        wf_cert(x),
    ensures
        parse_cert(cert_body(x)) == Some(x),
{
    let b = cert_body(x);
    let cb = enc_certs(x.chain);
    lemma_len_enc_certs(x.chain);
    assert(b.subrange(0, b.len() as int) =~= b);
    lemma_split_concat(b, 0, enc_vec8(x.context), enc_vec24(cb));
    lemma_p_vec8(b, 0, x.context);
    let i1 = 1 + x.context.len() as int;
    lemma_p_vec24(b, i1, cb);
    assert(cb.subrange(0, cb.len() as int) =~= cb);
    lemma_p_certs(cb, 0, x.chain);
    let i2 = i1 + 3 + cb.len();
    assert(i2 == b.len());
    assert(p_vec8(b, 0) == SpecParse::<Seq<u8>>::Val(x.context, i1));
    assert(p_vec24(b, i1) == SpecParse::<Seq<u8>>::Val(cb, i2));
    assert(p_certs(cb, 0) == Some(x.chain));
    let expect = CertificatePayloadV { context: x.context, chain: x.chain };
    assert(expect =~= x);
    assert(parse_cert(b) == Some(expect));
}

#[verifier::rlimit(100)]
#[verifier::spinoff_prover]
proof fn lemma_parse_ske_enc(x: ServerKeyExchangeV)
    requires
        wf_ske(x),
    ensures
        parse_ske(ske_body(x)) == Some(x),
{
    let b = ske_body(x);
    let r2 = enc_vec16(x.pubkey) + (enc_u16(x.scheme) + enc_vec16(x.sig));
    let r3 = enc_u16(x.scheme) + enc_vec16(x.sig);
    assert(b.subrange(0, b.len() as int) =~= b);
    lemma_split_concat(b, 0, enc_u16(x.group), r2);
    lemma_p_u16(b, 0, x.group);
    lemma_split_concat(b, 2, enc_vec16(x.pubkey), r3);
    lemma_p_vec16(b, 2, x.pubkey);
    let i2 = 2 + 2 + x.pubkey.len() as int;
    lemma_split_concat(b, i2, enc_u16(x.scheme), enc_vec16(x.sig));
    lemma_p_u16(b, i2, x.scheme);
    lemma_p_vec16(b, i2 + 2, x.sig);
    let i4 = i2 + 2 + 2 + x.sig.len();
    assert(i4 == b.len());
    assert(p_u16(b, 0) == SpecParse::<u16>::Val(x.group, 2));
    assert(p_vec16(b, 2) == SpecParse::<Seq<u8>>::Val(x.pubkey, i2));
    assert(p_u16(b, i2) == SpecParse::<u16>::Val(x.scheme, i2 + 2));
    assert(p_vec16(b, i2 + 2) == SpecParse::<Seq<u8>>::Val(x.sig, i4));
    let expect = ServerKeyExchangeV {
        group: x.group,
        pubkey: x.pubkey,
        scheme: x.scheme,
        sig: x.sig,
    };
    assert(expect =~= x);
    assert(parse_ske(b) == Some(expect));
}

#[verifier::rlimit(100)]
#[verifier::spinoff_prover]
proof fn lemma_parse_cr_enc(x: CertificateRequestV)
    requires
        wf_cr(x),
    ensures
        parse_cr(cr_body(x)) == Some(x),
{
    let b = cr_body(x);
    let sb = enc_u16s(x.schemes);
    let ab = enc_auths(x.authorities);
    lemma_len_enc_u16s(x.schemes);
    lemma_len_enc_auths(x.authorities);
    let r2 = enc_vec16(sb) + enc_vec16(ab);
    assert(b.subrange(0, b.len() as int) =~= b);
    lemma_split_concat(b, 0, enc_vec8(x.context), r2);
    lemma_p_vec8(b, 0, x.context);
    let i1 = 1 + x.context.len() as int;
    lemma_split_concat(b, i1, enc_vec16(sb), enc_vec16(ab));
    lemma_p_vec16(b, i1, sb);
    assert(sb.subrange(0, sb.len() as int) =~= sb);
    lemma_p_u16s(sb, 0, x.schemes);
    let i2 = i1 + 2 + sb.len();
    lemma_p_vec16(b, i2, ab);
    assert(ab.subrange(0, ab.len() as int) =~= ab);
    lemma_p_auths(ab, 0, x.authorities);
    let i3 = i2 + 2 + ab.len();
    assert(i3 == b.len());
    assert(p_vec8(b, 0) == SpecParse::<Seq<u8>>::Val(x.context, i1));
    assert(p_vec16(b, i1) == SpecParse::<Seq<u8>>::Val(sb, i2));
    assert(p_u16s(sb, 0) == Some(x.schemes));
    assert(p_vec16(b, i2) == SpecParse::<Seq<u8>>::Val(ab, i3));
    assert(p_auths(ab, 0) == Some(x.authorities));
    let expect = CertificateRequestV {
        context: x.context,
        schemes: x.schemes,
        authorities: x.authorities,
    };
    assert(expect =~= x);
    assert(parse_cr(b) == Some(expect));
}

#[verifier::rlimit(100)]
#[verifier::spinoff_prover]
proof fn lemma_parse_cv_enc(x: CertificateVerifyV)
    requires
        x.sig.len() < 2048,
    ensures
        parse_cv(cv_body(x)) == Some(x),
{
    let b = cv_body(x);
    assert(b.subrange(0, b.len() as int) =~= b);
    lemma_split_concat(b, 0, enc_u16(x.scheme), enc_vec16(x.sig));
    lemma_p_u16(b, 0, x.scheme);
    lemma_p_vec16(b, 2, x.sig);
    let i2 = 2 + 2 + x.sig.len() as int;
    assert(i2 == b.len());
    assert(p_u16(b, 0) == SpecParse::<u16>::Val(x.scheme, 2));
    assert(p_vec16(b, 2) == SpecParse::<Seq<u8>>::Val(x.sig, i2));
    let expect = CertificateVerifyV { scheme: x.scheme, sig: x.sig };
    assert(expect =~= x);
    assert(parse_cv(b) == Some(expect));
}

#[verifier::rlimit(100)]
#[verifier::spinoff_prover]
proof fn lemma_parse_cc_enc(x: CompressedCertificateV)
    requires
        x.payload.len() < 262144,
        x.uncompressed_len < 16777216,
    ensures
        parse_cc(cc_body(x)) == Some(x),
{
    let b = cc_body(x);
    let r2 = enc_u24(x.uncompressed_len) + enc_vec24(x.payload);
    assert(b.subrange(0, b.len() as int) =~= b);
    lemma_split_concat(b, 0, enc_u16(x.alg), r2);
    lemma_p_u16(b, 0, x.alg);
    lemma_split_concat(b, 2, enc_u24(x.uncompressed_len), enc_vec24(x.payload));
    lemma_p_u24(b, 2, x.uncompressed_len);
    lemma_p_vec24(b, 5, x.payload);
    let i3 = 5 + 3 + x.payload.len() as int;
    assert(i3 == b.len());
    assert(p_u16(b, 0) == SpecParse::<u16>::Val(x.alg, 2));
    assert(p_u24(b, 2) == SpecParse::<u32>::Val(x.uncompressed_len, 5));
    assert(p_vec24(b, 5) == SpecParse::<Seq<u8>>::Val(x.payload, i3));
    let expect = CompressedCertificateV {
        alg: x.alg,
        uncompressed_len: x.uncompressed_len,
        payload: x.payload,
    };
    assert(expect =~= x);
    assert(parse_cc(b) == Some(expect));
}

proof fn lemma_parse_ee_enc(x: Seq<ExtV>)
    requires
        wf_exts(x),
    ensures
        parse_msg_body(HT_ENCRYPTED_EXTENSIONS, enc_vec16(enc_exts(x)))
            == Some(MsgV::EncryptedExtensions(x)),
{
    let b = enc_vec16(enc_exts(x));
    let eb = enc_exts(x);
    lemma_len_enc_exts(x);
    assert(b.subrange(0, b.len() as int) =~= b);
    lemma_p_vec16(b, 0, eb);
    assert(eb.subrange(0, eb.len() as int) =~= eb);
    lemma_p_exts(eb, 0, x);
}

proof fn lemma_parse_cke_enc(x: Seq<u8>)
    requires
        x.len() < 2048,
    ensures
        parse_msg_body(HT_CLIENT_KEY_EXCHANGE, enc_vec16(x)) == Some(MsgV::ClientKeyExchange(x)),
{
    let b = enc_vec16(x);
    assert(b.subrange(0, b.len() as int) =~= b);
    lemma_p_vec16(b, 0, x);
}

proof fn lemma_parse_fin_enc(x: Seq<u8>)
    requires
        x.len() < 256,
    ensures
        parse_msg_body(HT_FINISHED, enc_vec8(x)) == Some(MsgV::Finished(x)),
{
    let b = enc_vec8(x);
    assert(b.subrange(0, b.len() as int) =~= b);
    lemma_p_vec8(b, 0, x);
}

#[verifier::rlimit(80)]
proof fn lemma_parse_body_enc(m: MsgV)
    requires
        wf_msg(m),
    ensures
        parse_msg_body(msg_code(m), msg_body(m)) == Some(m),
{
    match m {
        MsgV::ClientHello(x) => lemma_parse_ch_enc(x),
        MsgV::ServerHello(x) => lemma_parse_sh_enc(x),
        MsgV::NewSessionTicket(x) => lemma_parse_nst_enc(x),
        MsgV::EncryptedExtensions(x) => lemma_parse_ee_enc(x),
        MsgV::Certificate(x) => lemma_parse_cert_enc(x),
        MsgV::ServerKeyExchange(x) => lemma_parse_ske_enc(x),
        MsgV::CertificateRequest(x) => lemma_parse_cr_enc(x),
        MsgV::ServerHelloDone => {},
        MsgV::CertificateVerify(x) => lemma_parse_cv_enc(x),
        MsgV::ClientKeyExchange(x) => lemma_parse_cke_enc(x),
        MsgV::Finished(x) => lemma_parse_fin_enc(x),
        MsgV::KeyUpdate(r) => {
            let b = msg_body(m);
            assert(b.len() == 1 && b[0] == (if r { 1u8 } else { 0u8 }));
        },
        MsgV::CompressedCertificate(x) => lemma_parse_cc_enc(x),
    }
}

/// Round-trip law: parsing the encoding of any well-formed handshake message
/// yields exactly that message, consuming every byte.
pub proof fn lemma_msg_round_trip(m: MsgV)
    requires
        wf_msg(m),
    ensures
        p_msg(enc_msg(m), 0) == SpecParse::Val(m, enc_msg(m).len() as int),
{
    let s = enc_msg(m);
    let body = msg_body(m);
    lemma_len_msg_body(m);
    assert(s.subrange(0, s.len() as int) =~= s);
    lemma_split_concat(s, 0, enc_u8(msg_code(m)), enc_vec24(body));
    lemma_p_u8(s, 0, msg_code(m));
    lemma_p_vec24(s, 1, body);
    lemma_parse_body_enc(m);
}

// ---------------------------------------------------------------------------
// Executable encoders
// ---------------------------------------------------------------------------

proof fn lemma_enc_certs_push(l: Seq<Seq<u8>>, x: Seq<u8>)
    ensures
        enc_certs(l.push(x)) == enc_certs(l) + enc_vec24(x),
    decreases l.len(),
{
    if l.len() == 0 {
        assert(l.push(x)[0] == x);
        assert(l.push(x).skip(1) =~= Seq::<Seq<u8>>::empty());
        assert(enc_certs(l.push(x)) == enc_vec24(x) + enc_certs(Seq::<Seq<u8>>::empty()));
        assert(enc_vec24(x) + Seq::<u8>::empty() =~= enc_certs(l) + enc_vec24(x));
    } else {
        assert(l.push(x)[0] == l[0]);
        assert(l.push(x).skip(1) =~= l.skip(1).push(x));
        lemma_enc_certs_push(l.skip(1), x);
        assert(enc_certs(l.push(x)) == enc_vec24(l[0]) + (enc_certs(l.skip(1)) + enc_vec24(x)));
        assert(enc_vec24(l[0]) + (enc_certs(l.skip(1)) + enc_vec24(x)) =~= (enc_vec24(l[0])
            + enc_certs(l.skip(1))) + enc_vec24(x));
    }
}

proof fn lemma_enc_auths_push(l: Seq<Seq<u8>>, x: Seq<u8>)
    ensures
        enc_auths(l.push(x)) == enc_auths(l) + enc_vec16(x),
    decreases l.len(),
{
    if l.len() == 0 {
        assert(l.push(x)[0] == x);
        assert(l.push(x).skip(1) =~= Seq::<Seq<u8>>::empty());
        assert(enc_auths(l.push(x)) == enc_vec16(x) + enc_auths(Seq::<Seq<u8>>::empty()));
        assert(enc_vec16(x) + Seq::<u8>::empty() =~= enc_auths(l) + enc_vec16(x));
    } else {
        assert(l.push(x)[0] == l[0]);
        assert(l.push(x).skip(1) =~= l.skip(1).push(x));
        lemma_enc_auths_push(l.skip(1), x);
        assert(enc_auths(l.push(x)) == enc_vec16(l[0]) + (enc_auths(l.skip(1)) + enc_vec16(x)));
        assert(enc_vec16(l[0]) + (enc_auths(l.skip(1)) + enc_vec16(x)) =~= (enc_vec16(l[0])
            + enc_auths(l.skip(1))) + enc_vec16(x));
    }
}

fn put_certs(out: &mut Vec<u8>, v: &Vec<Vec<u8>>)
    requires
        forall|k: int| 0 <= k < v@.len() ==> #[trigger] v@[k]@.len() < 16777216,
    ensures
        final(out)@ == old(out)@ + enc_certs(v.deep_view()),
{
    let mut k: usize = 0;
    while k < v.len()
        invariant
            k <= v.len(),
            forall|j: int| 0 <= j < v@.len() ==> #[trigger] v@[j]@.len() < 16777216,
            out@ == old(out)@ + enc_certs(v.deep_view().subrange(0, k as int)),
        decreases v.len() - k,
    {
        proof {
            assert(v.deep_view()[k as int] == v@[k as int]@);
            lemma_enc_certs_push(v.deep_view().subrange(0, k as int), v.deep_view()[k as int]);
            assert(v.deep_view().subrange(0, k as int).push(v.deep_view()[k as int])
                =~= v.deep_view().subrange(0, k as int + 1));
        }
        put_vec24(out, &v[k]);
        k = k + 1;
    }
    assert(v.deep_view().subrange(0, v.deep_view().len() as int) =~= v.deep_view());
}

fn put_auths(out: &mut Vec<u8>, v: &Vec<Vec<u8>>)
    requires
        forall|k: int| 0 <= k < v@.len() ==> #[trigger] v@[k]@.len() < 65536,
    ensures
        final(out)@ == old(out)@ + enc_auths(v.deep_view()),
{
    let mut k: usize = 0;
    while k < v.len()
        invariant
            k <= v.len(),
            forall|j: int| 0 <= j < v@.len() ==> #[trigger] v@[j]@.len() < 65536,
            out@ == old(out)@ + enc_auths(v.deep_view().subrange(0, k as int)),
        decreases v.len() - k,
    {
        proof {
            assert(v.deep_view()[k as int] == v@[k as int]@);
            lemma_enc_auths_push(v.deep_view().subrange(0, k as int), v.deep_view()[k as int]);
            assert(v.deep_view().subrange(0, k as int).push(v.deep_view()[k as int])
                =~= v.deep_view().subrange(0, k as int + 1));
        }
        put_vec16(out, &v[k]);
        k = k + 1;
    }
    assert(v.deep_view().subrange(0, v.deep_view().len() as int) =~= v.deep_view());
}

/// Bridges the deep view of a vector of byte vectors to per-element views.
proof fn lemma_chain_deep_view(v: &Vec<Vec<u8>>)
    ensures
        v.deep_view().len() == v@.len(),
        forall|k: int| 0 <= k < v@.len() ==> #[trigger] v.deep_view()[k] == v@[k]@,
{
    assert forall|k: int| 0 <= k < v@.len() implies #[trigger] v.deep_view()[k] == v@[k]@ by {
        assert(v.deep_view()[k] == v@[k].deep_view());
        assert(v@[k].deep_view() =~= v@[k]@);
    }
}

fn exts_block(v: &Vec<Ext>) -> (out: Vec<u8>)
    requires
        wf_exts(v.deep_view()),
    ensures
        out@ == enc_vec16(enc_exts(v.deep_view())),
{
    proof {
        lemma_exts_deep_view(v);
        lemma_len_enc_exts(v.deep_view());
    }
    let mut eb: Vec<u8> = Vec::new();
    put_exts(&mut eb, v);
    let mut out: Vec<u8> = Vec::new();
    put_vec16(&mut out, &eb);
    assert(out@ =~= enc_vec16(enc_exts(v.deep_view())));
    out
}

fn ch_bytes(x: &ClientHello) -> (out: Vec<u8>)
    requires
        wf_ch(x@),
    ensures
        out@ == ch_body(x@),
{
    proof {
        lemma_len_enc_u16s(x.cipher_suites@);
    }
    let mut body: Vec<u8> = Vec::new();
    put_u16(&mut body, x.legacy_version);
    put_bytes(&mut body, &x.random);
    put_vec8(&mut body, &x.session_id);
    let mut sb: Vec<u8> = Vec::new();
    put_u16s(&mut sb, &x.cipher_suites);
    put_vec16(&mut body, &sb);
    put_vec8(&mut body, &x.compression);
    let eb = exts_block(&x.extensions);
    put_bytes(&mut body, &eb);
    assert(body@ =~= ch_body(x@));
    body
}

fn sh_bytes(x: &ServerHello) -> (out: Vec<u8>)
    requires
        wf_sh(x@),
    ensures
        out@ == sh_body(x@),
{
    let mut body: Vec<u8> = Vec::new();
    put_u16(&mut body, x.legacy_version);
    put_bytes(&mut body, &x.random);
    put_vec8(&mut body, &x.session_id);
    put_u16(&mut body, x.cipher_suite);
    put_u8(&mut body, x.compression);
    let eb = exts_block(&x.extensions);
    put_bytes(&mut body, &eb);
    assert(body@ =~= sh_body(x@));
    body
}

fn nst_bytes(x: &NewSessionTicket) -> (out: Vec<u8>)
    requires
        wf_nst(x@),
    ensures
        out@ == nst_body(x@),
{
    let mut body: Vec<u8> = Vec::new();
    put_u32(&mut body, x.lifetime);
    put_u32(&mut body, x.age_add);
    put_vec8(&mut body, &x.nonce);
    put_vec16(&mut body, &x.ticket);
    put_u32(&mut body, x.max_early_data);
    assert(body@ =~= nst_body(x@));
    body
}

fn cert_bytes(x: &CertificatePayload) -> (out: Vec<u8>)
    requires
        wf_cert(x@),
    ensures
        out@ == cert_body(x@),
{
    proof {
        lemma_chain_deep_view(&x.chain);
        assert forall|k: int| 0 <= k < x.chain@.len() implies (#[trigger] x.chain@[k]@).len()
            < 16777216 by {
            assert(x.chain.deep_view()[k].len() < 16384);
        }
        lemma_len_enc_certs(x.chain.deep_view());
    }
    let mut body: Vec<u8> = Vec::new();
    put_vec8(&mut body, &x.context);
    let mut cb: Vec<u8> = Vec::new();
    put_certs(&mut cb, &x.chain);
    put_vec24(&mut body, &cb);
    assert(body@ =~= cert_body(x@));
    body
}

fn ske_bytes(x: &ServerKeyExchange) -> (out: Vec<u8>)
    requires
        wf_ske(x@),
    ensures
        out@ == ske_body(x@),
{
    let mut body: Vec<u8> = Vec::new();
    put_u16(&mut body, x.group);
    put_vec16(&mut body, &x.pubkey);
    put_u16(&mut body, x.scheme);
    put_vec16(&mut body, &x.sig);
    assert(body@ =~= ske_body(x@));
    body
}

fn cr_bytes(x: &CertificateRequest) -> (out: Vec<u8>)
    requires
        wf_cr(x@),
    ensures
        out@ == cr_body(x@),
{
    proof {
        lemma_len_enc_u16s(x.schemes@);
        lemma_chain_deep_view(&x.authorities);
        assert forall|k: int| 0 <= k < x.authorities@.len() implies (
        #[trigger] x.authorities@[k]@).len() < 65536 by {
            assert(x.authorities.deep_view()[k].len() < 512);
        }
        lemma_len_enc_auths(x.authorities.deep_view());
    }
    let mut body: Vec<u8> = Vec::new();
    put_vec8(&mut body, &x.context);
    let mut sb: Vec<u8> = Vec::new();
    put_u16s(&mut sb, &x.schemes);
    put_vec16(&mut body, &sb);
    let mut ab: Vec<u8> = Vec::new();
    put_auths(&mut ab, &x.authorities);
    put_vec16(&mut body, &ab);
    assert(body@ =~= cr_body(x@));
    body
}

fn cc_bytes(x: &CompressedCertificate) -> (out: Vec<u8>)
    requires
        x.payload@.len() < 262144,
        x.uncompressed_len < 16777216,
    ensures
        out@ == cc_body(x@),
{
    let mut body: Vec<u8> = Vec::new();
    put_u16(&mut body, x.alg);
    put_u24(&mut body, x.uncompressed_len);
    put_vec24(&mut body, &x.payload);
    assert(body@ =~= cc_body(x@));
    body
}

/// Encodes a handshake message with its type code and length-prefixed body.
pub fn encode_msg(m: &Msg) -> (out: Vec<u8>)
    requires
        wf_msg(m@),
    ensures
        out@ == enc_msg(m@),
{
    proof {
        lemma_len_msg_body(m@);
    }
    let (code, body): (u8, Vec<u8>) = match m {
        Msg::ClientHello(x) => (HT_CLIENT_HELLO, ch_bytes(x)),
        Msg::ServerHello(x) => (HT_SERVER_HELLO, sh_bytes(x)),
        Msg::NewSessionTicket(x) => (HT_NEW_SESSION_TICKET, nst_bytes(x)),
        Msg::EncryptedExtensions(x) => (HT_ENCRYPTED_EXTENSIONS, exts_block(x)),
        Msg::Certificate(x) => (HT_CERTIFICATE, cert_bytes(x)),
        Msg::ServerKeyExchange(x) => (HT_SERVER_KEY_EXCHANGE, ske_bytes(x)),
        Msg::CertificateRequest(x) => (HT_CERTIFICATE_REQUEST, cr_bytes(x)),
        Msg::ServerHelloDone => (HT_SERVER_HELLO_DONE, Vec::new()),
        Msg::CertificateVerify(x) => {
            let mut body: Vec<u8> = Vec::new();
            put_u16(&mut body, x.scheme);
            put_vec16(&mut body, &x.sig);
            assert(body@ =~= cv_body(x@));
            (HT_CERTIFICATE_VERIFY, body)
        },
        Msg::ClientKeyExchange(x) => {
            let mut body: Vec<u8> = Vec::new();
            put_vec16(&mut body, x);
            assert(body@ =~= enc_vec16(x@));
            (HT_CLIENT_KEY_EXCHANGE, body)
        },
        Msg::Finished(x) => {
            let mut body: Vec<u8> = Vec::new();
            put_vec8(&mut body, x);
            assert(body@ =~= enc_vec8(x@));
            (HT_FINISHED, body)
        },
        Msg::KeyUpdate(r) => {
            let mut body: Vec<u8> = Vec::new();
            if *r {
                put_u8(&mut body, 1);
            } else {
                put_u8(&mut body, 0);
            }
            (HT_KEY_UPDATE, body)
        },
        Msg::CompressedCertificate(x) => (HT_COMPRESSED_CERTIFICATE, cc_bytes(x)),
    };
    let mut out: Vec<u8> = Vec::new();
    put_u8(&mut out, code);
    put_vec24(&mut out, &body);
    assert(out@ =~= enc_msg(m@));
    out
}

// ---------------------------------------------------------------------------
// Executable decoders
// ---------------------------------------------------------------------------

fn d_certs(b: &Vec<u8>) -> (r: Option<Vec<Vec<u8>>>)
    ensures
        match p_certs(b@, 0) {
            Some(l) => r matches Some(v) && v.deep_view() == l,
            None => r is None,
        },
{
    let mut acc: Vec<Vec<u8>> = Vec::new();
    let mut i: usize = 0;
    loop
        invariant
            i <= b.len(),
            match p_certs(b@, i as int) {
                Some(rest) => p_certs(b@, 0) == Some(acc.deep_view() + rest),
                None => p_certs(b@, 0) is None,
            },
        decreases b.len() - i,
    {
        if i == b.len() {
            assert(acc.deep_view() + Seq::<Seq<u8>>::empty() =~= acc.deep_view());
            return Some(acc);
        }
        if b.len() - i < 3 {
            return None;
        }
        let n = (b[i] as usize) * 65536 + (b[i + 1] as usize) * 256 + (b[i + 2] as usize);
        if b.len() - i - 3 < n {
            return None;
        }
        let item = copy_range(b, i + 3, i + 3 + n);
        proof {
            let ghost rest2 = p_certs(b@, i as int + 3 + n as int);
            let ghost dv = acc.deep_view();
            if rest2 is Some {
                lemma_push_concat_bytes(dv, item@, rest2->Some_0);
            }
        }
        let ghost pre = acc.deep_view();
        acc.push(item);
        proof {
            assert(acc.deep_view() =~~= pre.push(item@));
        }
        i = i + 3 + n;
    }
}

fn d_auths(b: &Vec<u8>) -> (r: Option<Vec<Vec<u8>>>)
    ensures
        match p_auths(b@, 0) {
            Some(l) => r matches Some(v) && v.deep_view() == l,
            None => r is None,
        },
{
    let mut acc: Vec<Vec<u8>> = Vec::new();
    let mut i: usize = 0;
    loop
        invariant
            i <= b.len(),
            match p_auths(b@, i as int) {
                Some(rest) => p_auths(b@, 0) == Some(acc.deep_view() + rest),
                None => p_auths(b@, 0) is None,
            },
        decreases b.len() - i,
    {
        if i == b.len() {
            assert(acc.deep_view() + Seq::<Seq<u8>>::empty() =~= acc.deep_view());
            return Some(acc);
        }
        if b.len() - i < 2 {
            return None;
        }
        let n = (b[i] as usize) * 256 + (b[i + 1] as usize);
        if b.len() - i - 2 < n {
            return None;
        }
        let item = copy_range(b, i + 2, i + 2 + n);
        proof {
            let ghost rest2 = p_auths(b@, i as int + 2 + n as int);
            let ghost dv = acc.deep_view();
            if rest2 is Some {
                lemma_push_concat_bytes(dv, item@, rest2->Some_0);
            }
        }
        let ghost pre = acc.deep_view();
        acc.push(item);
        proof {
            assert(acc.deep_view() =~~= pre.push(item@));
        }
        i = i + 2 + n;
    }
}

proof fn lemma_push_concat_bytes(a: Seq<Seq<u8>>, v: Seq<u8>, r: Seq<Seq<u8>>)
    ensures
        a.push(v) + r == a + (seq![v] + r),
{
    assert(a.push(v) + r =~= a + (seq![v] + r));
}

fn decode_ch(b: &Vec<u8>) -> (r: Option<ClientHello>)
    ensures
        match parse_ch(b@) {
            Some(x) => r matches Some(c) && c@ == x,
            None => r is None,
        },
{
    let (lv, i1) = match get_u16(b, 0) {
        Ok(p) => p,
        Err(_) => {
            return None;
        },
    };
    if b.len() - i1 < 32 {
        return None;
    }
    let random = copy_range(b, i1, i1 + 32);
    let (sid, i2) = match get_vec8(b, i1 + 32) {
        Ok(p) => p,
        Err(_) => {
            return None;
        },
    };
    let (sb, i3) = match get_vec16(b, i2) {
        Ok(p) => p,
        Err(_) => {
            return None;
        },
    };
    let suites = match d_u16s(&sb) {
        Some(v) => v,
        None => {
            return None;
        },
    };
    let (comp, i4) = match get_vec8(b, i3) {
        Ok(p) => p,
        Err(_) => {
            return None;
        },
    };
    let (eb, i5) = match get_vec16(b, i4) {
        Ok(p) => p,
        Err(_) => {
            return None;
        },
    };
    let exts = match d_exts(&eb) {
        Some(v) => v,
        None => {
            return None;
        },
    };
    if i5 != b.len() {
        return None;
    }
    let c = ClientHello {
        legacy_version: lv,
        random,
        session_id: sid,
        cipher_suites: suites,
        compression: comp,
        extensions: exts,
    };
    proof {
        assert(c@ =~= parse_ch(b@)->Some_0);
    }
    Some(c)
}

fn decode_sh(b: &Vec<u8>) -> (r: Option<ServerHello>)
    ensures
        match parse_sh(b@) {
            Some(x) => r matches Some(c) && c@ == x,
            None => r is None,
        },
{
    let (lv, i1) = match get_u16(b, 0) {
        Ok(p) => p,
        Err(_) => {
            return None;
        },
    };
    if b.len() - i1 < 32 {
        return None;
    }
    let random = copy_range(b, i1, i1 + 32);
    let (sid, i2) = match get_vec8(b, i1 + 32) {
        Ok(p) => p,
        Err(_) => {
            return None;
        },
    };
    let (suite, i3) = match get_u16(b, i2) {
        Ok(p) => p,
        Err(_) => {
            return None;
        },
    };
    let (comp, i4) = match get_u8(b, i3) {
        Ok(p) => p,
        Err(_) => {
            return None;
        },
    };
    let (eb, i5) = match get_vec16(b, i4) {
        Ok(p) => p,
        Err(_) => {
            return None;
        },
    };
    let exts = match d_exts(&eb) {
        Some(v) => v,
        None => {
            return None;
        },
    };
    if i5 != b.len() {
        return None;
    }
    let c = ServerHello {
        legacy_version: lv,
        random,
        session_id: sid,
        cipher_suite: suite,
        compression: comp,
        extensions: exts,
    };
    proof {
        assert(c@ =~= parse_sh(b@)->Some_0);
    }
    Some(c)
}

fn decode_nst(b: &Vec<u8>) -> (r: Option<NewSessionTicket>)
    ensures
        match parse_nst(b@) {
            Some(x) => r matches Some(c) && c@ == x,
            None => r is None,
        },
{
    let (lifetime, i1) = match get_u32(b, 0) {
        Ok(p) => p,
        Err(_) => {
            return None;
        },
    };
    let (age_add, i2) = match get_u32(b, i1) {
        Ok(p) => p,
        Err(_) => {
            return None;
        },
    };
    let (nonce, i3) = match get_vec8(b, i2) {
        Ok(p) => p,
        Err(_) => {
            return None;
        },
    };
    let (ticket, i4) = match get_vec16(b, i3) {
        Ok(p) => p,
        Err(_) => {
            return None;
        },
    };
    let (med, i5) = match get_u32(b, i4) {
        Ok(p) => p,
        Err(_) => {
            return None;
        },
    };
    if i5 != b.len() || ticket.len() >= 2048 || nonce.len() >= 256 {
        return None;
    }
    let c = NewSessionTicket { lifetime, age_add, nonce, ticket, max_early_data: med };
    proof {
        assert(c@ =~= parse_nst(b@)->Some_0);
    }
    Some(c)
}

fn decode_cert(b: &Vec<u8>) -> (r: Option<CertificatePayload>)
    ensures
        match parse_cert(b@) {
            Some(x) => r matches Some(c) && c@ == x,
            None => r is None,
        },
{
    let (ctx, i1) = match get_vec8(b, 0) {
        Ok(p) => p,
        Err(_) => {
            return None;
        },
    };
    let (cb, i2) = match get_vec24(b, i1) {
        Ok(p) => p,
        Err(_) => {
            return None;
        },
    };
    let chain = match d_certs(&cb) {
        Some(v) => v,
        None => {
            return None;
        },
    };
    if i2 != b.len() {
        return None;
    }
    let c = CertificatePayload { context: ctx, chain };
    proof {
        assert(c@ =~= parse_cert(b@)->Some_0);
    }
    Some(c)
}

fn decode_ske(b: &Vec<u8>) -> (r: Option<ServerKeyExchange>)
    ensures
        match parse_ske(b@) {
            Some(x) => r matches Some(c) && c@ == x,
            None => r is None,
        },
{
    let (group, i1) = match get_u16(b, 0) {
        Ok(p) => p,
        Err(_) => {
            return None;
        },
    };
    let (pubkey, i2) = match get_vec16(b, i1) {
        Ok(p) => p,
        Err(_) => {
            return None;
        },
    };
    let (scheme, i3) = match get_u16(b, i2) {
        Ok(p) => p,
        Err(_) => {
            return None;
        },
    };
    let (sig, i4) = match get_vec16(b, i3) {
        Ok(p) => p,
        Err(_) => {
            return None;
        },
    };
    if i4 != b.len() {
        return None;
    }
    let c = ServerKeyExchange { group, pubkey, scheme, sig };
    proof {
        assert(c@ =~= parse_ske(b@)->Some_0);
    }
    Some(c)
}

fn decode_cr(b: &Vec<u8>) -> (r: Option<CertificateRequest>)
    ensures
        match parse_cr(b@) {
            Some(x) => r matches Some(c) && c@ == x,
            None => r is None,
        },
{
    let (ctx, i1) = match get_vec8(b, 0) {
        Ok(p) => p,
        Err(_) => {
            return None;
        },
    };
    let (sb, i2) = match get_vec16(b, i1) {
        Ok(p) => p,
        Err(_) => {
            return None;
        },
    };
    let schemes = match d_u16s(&sb) {
        Some(v) => v,
        None => {
            return None;
        },
    };
    let (ab, i3) = match get_vec16(b, i2) {
        Ok(p) => p,
        Err(_) => {
            return None;
        },
    };
    let auths = match d_auths(&ab) {
        Some(v) => v,
        None => {
            return None;
        },
    };
    if i3 != b.len() {
        return None;
    }
    let c = CertificateRequest { context: ctx, schemes, authorities: auths };
    proof {
        assert(c@ =~= parse_cr(b@)->Some_0);
    }
    Some(c)
}

fn decode_cc(b: &Vec<u8>) -> (r: Option<CompressedCertificate>)
    ensures
        match parse_cc(b@) {
            Some(x) => r matches Some(c) && c@ == x,
            None => r is None,
        },
{
    let (alg, i1) = match get_u16(b, 0) {
        Ok(p) => p,
        Err(_) => {
            return None;
        },
    };
    let (ulen, i2) = match get_u24(b, i1) {
        Ok(p) => p,
        Err(_) => {
            return None;
        },
    };
    let (payload, i3) = match get_vec24(b, i2) {
        Ok(p) => p,
        Err(_) => {
            return None;
        },
    };
    if i3 != b.len() || payload.len() >= 262144 {
        return None;
    }
    let c = CompressedCertificate { alg, uncompressed_len: ulen, payload };
    proof {
        assert(c@ =~= parse_cc(b@)->Some_0);
    }
    Some(c)
}

fn decode_msg_body(code: u8, b: Vec<u8>) -> (r: Option<Msg>)
    ensures
        match parse_msg_body(code, b@) {
            Some(m) => r matches Some(x) && x@ == m,
            None => r is None,
        },
{
    if code == HT_CLIENT_HELLO {
        match decode_ch(&b) {
            Some(x) => Some(Msg::ClientHello(x)),
            None => None,
        }
    } else if code == HT_SERVER_HELLO {
        match decode_sh(&b) {
            Some(x) => Some(Msg::ServerHello(x)),
            None => None,
        }
    } else if code == HT_NEW_SESSION_TICKET {
        match decode_nst(&b) {
            Some(x) => Some(Msg::NewSessionTicket(x)),
            None => None,
        }
    } else if code == HT_ENCRYPTED_EXTENSIONS {
        let (eb, i1) = match get_vec16(&b, 0) {
            Ok(p) => p,
            Err(_) => {
                return None;
            },
        };
        let exts = match d_exts(&eb) {
            Some(v) => v,
            None => {
                return None;
            },
        };
        if i1 != b.len() {
            return None;
        }
        Some(Msg::EncryptedExtensions(exts))
    } else if code == HT_CERTIFICATE {
        match decode_cert(&b) {
            Some(x) => Some(Msg::Certificate(x)),
            None => None,
        }
    } else if code == HT_SERVER_KEY_EXCHANGE {
        match decode_ske(&b) {
            Some(x) => Some(Msg::ServerKeyExchange(x)),
            None => None,
        }
    } else if code == HT_CERTIFICATE_REQUEST {
        match decode_cr(&b) {
            Some(x) => Some(Msg::CertificateRequest(x)),
            None => None,
        }
    } else if code == HT_SERVER_HELLO_DONE {
        if b.len() == 0 {
            Some(Msg::ServerHelloDone)
        } else {
            None
        }
    } else if code == HT_CERTIFICATE_VERIFY {
        let (scheme, i1) = match get_u16(&b, 0) {
            Ok(p) => p,
            Err(_) => {
                return None;
            },
        };
        let (sig, i2) = match get_vec16(&b, i1) {
            Ok(p) => p,
            Err(_) => {
                return None;
            },
        };
        if i2 != b.len() {
            return None;
        }
        Some(Msg::CertificateVerify(CertificateVerify { scheme, sig }))
    } else if code == HT_CLIENT_KEY_EXCHANGE {
        let (pk, i1) = match get_vec16(&b, 0) {
            Ok(p) => p,
            Err(_) => {
                return None;
            },
        };
        if i1 != b.len() || pk.len() >= 2048 {
            return None;
        }
        Some(Msg::ClientKeyExchange(pk))
    } else if code == HT_FINISHED {
        let (mac, i1) = match get_vec8(&b, 0) {
            Ok(p) => p,
            Err(_) => {
                return None;
            },
        };
        if i1 != b.len() {
            return None;
        }
        Some(Msg::Finished(mac))
    } else if code == HT_KEY_UPDATE {
        if b.len() == 1 && b[0] == 1 {
            Some(Msg::KeyUpdate(true))
        } else if b.len() == 1 && b[0] == 0 {
            Some(Msg::KeyUpdate(false))
        } else {
            None
        }
    } else if code == HT_COMPRESSED_CERTIFICATE {
        match decode_cc(&b) {
            Some(x) => Some(Msg::CompressedCertificate(x)),
            None => None,
        }
    } else {
        None
    }
}

/// Decodes one framed handshake message starting at `i`.
pub fn decode_msg_at(s: &Vec<u8>, i: usize) -> (r: Result<(Msg, usize), DecodeError>)
    ensures
        match p_msg(s@, i as int) {
            SpecParse::Val(m, j) => r matches Ok(p) && p.0@ == m && p.1 as int == j,
            SpecParse::Short => r == Err::<(Msg, usize), DecodeError>(DecodeError::Truncated),
            SpecParse::Bad => r == Err::<(Msg, usize), DecodeError>(DecodeError::Malformed),
        },
        r matches Ok(p) ==> i < p.1 <= s@.len(),
{
    let (code, j) = get_u8(s, i)?;
    let (body, k) = get_vec24(s, j)?;
    match decode_msg_body(code, body) {
        Some(m) => Ok((m, k)),
        None => Err(DecodeError::Malformed),
    }
}

/// Decodes a buffer that must hold exactly one handshake message.
///
/// Truncation ("feed me more bytes") is distinguished from malformed input
/// and from trailing bytes after a complete message.
pub fn decode_msg(s: &Vec<u8>) -> (r: Result<Msg, DecodeError>)
    ensures
        match p_msg(s@, 0) {
            SpecParse::Val(m, j) => if j == s@.len() {
                r matches Ok(x) && x@ == m
            } else {
                r == Err::<Msg, DecodeError>(DecodeError::TrailingData)
            },
            SpecParse::Short => r == Err::<Msg, DecodeError>(DecodeError::Truncated),
            SpecParse::Bad => r == Err::<Msg, DecodeError>(DecodeError::Malformed),
        },
{
    let (m, j) = decode_msg_at(s, 0)?;
    if j != s.len() {
        return Err(DecodeError::TrailingData);
    }
    Ok(m)
}

} // verus!
