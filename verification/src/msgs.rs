//! TLS handshake extensions: typed representation and wire codec.
//!
//! Each extension is encoded as a two-byte type code followed by a
//! length-prefixed body.  The parser is strict: an unknown type code or a
//! body with leftover bytes is malformed.

use vstd::prelude::*;

use crate::codec::{
    DecodeError, SpecParse, enc_u8, enc_u16, enc_u24, enc_u32, enc_vec8, enc_vec16, enc_vec24,
    p_u8, p_u16, p_u24, p_u32, p_vec8, p_vec16, p_vec24, parse_matches, lemma_split_concat,
    lemma_p_u8, lemma_p_u16, lemma_p_u24, lemma_p_u32, lemma_p_vec8, lemma_p_vec16,
    lemma_p_vec24, put_u8, put_u16, put_u24, put_u32, put_bytes, put_vec8, put_vec16, put_vec24,
    get_u8, get_u16, get_u24, get_u32, get_vec8, get_vec16, get_vec24, copy_range,
};

verus! {

pub const EXT_SERVER_NAME: u16 = 0;
pub const EXT_SUPPORTED_GROUPS: u16 = 10;
pub const EXT_ALPN: u16 = 16;
pub const EXT_EXTENDED_MASTER_SECRET: u16 = 23;
pub const EXT_COMPRESS_CERT: u16 = 27;
pub const EXT_SESSION_TICKET: u16 = 35;
pub const EXT_PRE_SHARED_KEY: u16 = 41;
pub const EXT_EARLY_DATA: u16 = 42;
pub const EXT_SUPPORTED_VERSIONS: u16 = 43;
pub const EXT_KEY_SHARE: u16 = 51;
pub const EXT_ECH: u16 = 0xfe0d;

/// One entry of a key-share extension: a named group plus the public value.
#[derive(Debug, Clone)]
pub struct KeyShareEntry {
    pub group: u16,
    pub data: Vec<u8>,
}

#[verifier::ext_equal]
pub struct KeyShareEntryV {
    pub group: u16,
    pub data: Seq<u8>,
}

impl View for KeyShareEntry {
    type V = KeyShareEntryV;

    open spec fn view(&self) -> KeyShareEntryV {
        KeyShareEntryV { group: self.group, data: self.data@ }
    }
}

impl DeepView for KeyShareEntry {
    type V = KeyShareEntryV;

    open spec fn deep_view(&self) -> KeyShareEntryV {
        self.view()
    }
}

/// A handshake extension, in typed form.
#[derive(Debug, Clone)]
pub enum Ext {
    /// Server name indication: the host name bytes.
    ServerName(Vec<u8>),
    /// Named groups the sender supports, in preference order.
    SupportedGroups(Vec<u16>),
    /// Application protocols (ALPN), in preference order.
    Protocols(Vec<Vec<u8>>),
    /// Extended master secret marker (empty body).
    ExtendedMasterSecret,
    /// Certificate-compression algorithm codes the sender can decompress.
    CompressCertAlgs(Vec<u16>),
    /// Legacy session-ticket extension: opaque ticket bytes.
    SessionTicket(Vec<u8>),
    /// Pre-shared-key: an opaque identity from the client, or the selection
    /// from the server.
    PreSharedKey(Vec<u8>),
    /// Early-data marker (empty body).
    EarlyData,
    /// Protocol versions the sender supports, in preference order.
    SupportedVersions(Vec<u16>),
    /// Key shares offered or selected.
    KeyShare(Vec<KeyShareEntry>),
    /// Encrypted client hello payload (or retry configurations, from a
    /// server).
    Ech(Vec<u8>),
}

#[verifier::ext_equal]
pub enum ExtV {
    ServerName(Seq<u8>),
    SupportedGroups(Seq<u16>),
    Protocols(Seq<Seq<u8>>),
    ExtendedMasterSecret,
    CompressCertAlgs(Seq<u16>),
    SessionTicket(Seq<u8>),
    PreSharedKey(Seq<u8>),
    EarlyData,
    SupportedVersions(Seq<u16>),
    KeyShare(Seq<KeyShareEntryV>),
    Ech(Seq<u8>),
}

impl View for Ext {
    type V = ExtV;

    open spec fn view(&self) -> ExtV {
        match self {
            Ext::ServerName(v) => ExtV::ServerName(v@),
            Ext::SupportedGroups(v) => ExtV::SupportedGroups(v@),
            Ext::Protocols(v) => ExtV::Protocols(v.deep_view()),
            Ext::ExtendedMasterSecret => ExtV::ExtendedMasterSecret,
            Ext::CompressCertAlgs(v) => ExtV::CompressCertAlgs(v@),
            Ext::SessionTicket(v) => ExtV::SessionTicket(v@),
            Ext::PreSharedKey(v) => ExtV::PreSharedKey(v@),
            Ext::EarlyData => ExtV::EarlyData,
            Ext::SupportedVersions(v) => ExtV::SupportedVersions(v@),
            Ext::KeyShare(v) => ExtV::KeyShare(v.deep_view()),
            Ext::Ech(v) => ExtV::Ech(v@),
        }
    }
}

impl DeepView for Ext {
    type V = ExtV;

    open spec fn deep_view(&self) -> ExtV {
        self.view()
    }
}

// ---------------------------------------------------------------------------
// Well-formedness: bounds that keep every length prefix in range.
// ---------------------------------------------------------------------------

pub open spec fn wf_ext(e: ExtV) -> bool {
    match e {
        ExtV::ServerName(v) => v.len() < 2048,
        ExtV::SupportedGroups(v) => v.len() <= 64,
        ExtV::Protocols(v) => v.len() <= 16 && forall|k: int|
            0 <= k < v.len() ==> 1 <= #[trigger] v[k].len() < 256,
        ExtV::ExtendedMasterSecret => true,
        ExtV::CompressCertAlgs(v) => v.len() <= 16,
        ExtV::SessionTicket(v) => v.len() < 2048,
        ExtV::PreSharedKey(v) => v.len() < 2048,
        ExtV::EarlyData => true,
        ExtV::SupportedVersions(v) => v.len() <= 8,
        ExtV::KeyShare(v) => v.len() <= 8 && forall|k: int|
            0 <= k < v.len() ==> #[trigger] v[k].data.len() < 512,
        ExtV::Ech(v) => v.len() < 2048,
    }
}

pub open spec fn wf_exts(l: Seq<ExtV>) -> bool {
    l.len() <= 12 && forall|k: int| 0 <= k < l.len() ==> wf_ext(#[trigger] l[k])
}

// ---------------------------------------------------------------------------
// Specification encoders
// ---------------------------------------------------------------------------

pub open spec fn enc_u16s(l: Seq<u16>) -> Seq<u8>
    decreases l.len(),
{
    if l.len() == 0 {
        Seq::empty()
    } else {
        enc_u16(l[0]) + enc_u16s(l.skip(1))
    }
}

pub open spec fn enc_protos(l: Seq<Seq<u8>>) -> Seq<u8>
    decreases l.len(),
{
    if l.len() == 0 {
        Seq::empty()
    } else {
        enc_vec8(l[0]) + enc_protos(l.skip(1))
    }
}

pub open spec fn enc_share(e: KeyShareEntryV) -> Seq<u8> {
    enc_u16(e.group) + enc_vec16(e.data)
}

pub open spec fn enc_shares(l: Seq<KeyShareEntryV>) -> Seq<u8>
    decreases l.len(),
{
    if l.len() == 0 {
        Seq::empty()
    } else {
        enc_share(l[0]) + enc_shares(l.skip(1))
    }
}

pub open spec fn ext_code(e: ExtV) -> u16 {
    match e {
        ExtV::ServerName(_) => EXT_SERVER_NAME,
        ExtV::SupportedGroups(_) => EXT_SUPPORTED_GROUPS,
        ExtV::Protocols(_) => EXT_ALPN,
        ExtV::ExtendedMasterSecret => EXT_EXTENDED_MASTER_SECRET,
        ExtV::CompressCertAlgs(_) => EXT_COMPRESS_CERT,
        ExtV::SessionTicket(_) => EXT_SESSION_TICKET,
        ExtV::PreSharedKey(_) => EXT_PRE_SHARED_KEY,
        ExtV::EarlyData => EXT_EARLY_DATA,
        ExtV::SupportedVersions(_) => EXT_SUPPORTED_VERSIONS,
        ExtV::KeyShare(_) => EXT_KEY_SHARE,
        ExtV::Ech(_) => EXT_ECH,
    }
}

pub open spec fn ext_body(e: ExtV) -> Seq<u8> {
    match e {
        ExtV::ServerName(v) => v,
        ExtV::SupportedGroups(v) => enc_u16s(v),
        ExtV::Protocols(v) => enc_protos(v),
        ExtV::ExtendedMasterSecret => Seq::empty(),
        ExtV::CompressCertAlgs(v) => enc_u16s(v),
        ExtV::SessionTicket(v) => v,
        ExtV::PreSharedKey(v) => v,
        ExtV::EarlyData => Seq::empty(),
        ExtV::SupportedVersions(v) => enc_u16s(v),
        ExtV::KeyShare(v) => enc_shares(v),
        ExtV::Ech(v) => v,
    }
}

pub open spec fn enc_ext(e: ExtV) -> Seq<u8> {
    enc_u16(ext_code(e)) + enc_vec16(ext_body(e))
}

pub open spec fn enc_exts(l: Seq<ExtV>) -> Seq<u8>
    decreases l.len(),
{
    if l.len() == 0 {
        Seq::empty()
    } else {
        enc_ext(l[0]) + enc_exts(l.skip(1))
    }
}

// ---------------------------------------------------------------------------
// Length bounds
// ---------------------------------------------------------------------------

pub proof fn lemma_len_enc_u16s(l: Seq<u16>)
    ensures
        enc_u16s(l).len() == 2 * l.len(),
    decreases l.len(),
{
    if l.len() > 0 {
        lemma_len_enc_u16s(l.skip(1));
    }
}

pub proof fn lemma_len_enc_protos(l: Seq<Seq<u8>>)
    requires
        forall|k: int| 0 <= k < l.len() ==> 1 <= #[trigger] l[k].len() < 256,
    ensures
        enc_protos(l).len() <= 256 * l.len(),
    decreases l.len(),
{
    if l.len() > 0 {
        assert(l[0].len() < 256);
        assert(forall|k: int|
            0 <= k < l.skip(1).len() ==> 1 <= #[trigger] l.skip(1)[k].len() < 256);
        lemma_len_enc_protos(l.skip(1));
    }
}

pub proof fn lemma_len_enc_shares(l: Seq<KeyShareEntryV>)
    requires
        forall|k: int| 0 <= k < l.len() ==> #[trigger] l[k].data.len() < 512,
    ensures
        enc_shares(l).len() <= 516 * l.len(),
    decreases l.len(),
{
    if l.len() > 0 {
        assert(l[0].data.len() < 512);
        assert(forall|k: int|
            0 <= k < l.skip(1).len() ==> #[trigger] l.skip(1)[k].data.len() < 512);
        lemma_len_enc_shares(l.skip(1));
    }
}

pub proof fn lemma_len_ext_body(e: ExtV)
    requires
        wf_ext(e),
    ensures
        ext_body(e).len() <= 4500,
{
    match e {
        ExtV::SupportedGroups(v) => lemma_len_enc_u16s(v),
        ExtV::Protocols(v) => lemma_len_enc_protos(v),
        ExtV::CompressCertAlgs(v) => lemma_len_enc_u16s(v),
        ExtV::SupportedVersions(v) => lemma_len_enc_u16s(v),
        ExtV::KeyShare(v) => lemma_len_enc_shares(v),
        _ => {},
    }
}

pub proof fn lemma_len_enc_ext(e: ExtV)
    requires
        wf_ext(e),
    ensures
        enc_ext(e).len() <= 4504,
{
    lemma_len_ext_body(e);
}

pub proof fn lemma_len_enc_exts(l: Seq<ExtV>)
    requires
        forall|k: int| 0 <= k < l.len() ==> wf_ext(#[trigger] l[k]),
    ensures
        enc_exts(l).len() <= 4504 * l.len(),
    decreases l.len(),
{
    if l.len() > 0 {
        lemma_len_enc_ext(l[0]);
        assert(forall|k: int| 0 <= k < l.skip(1).len() ==> wf_ext(#[trigger] l.skip(1)[k]));
        lemma_len_enc_exts(l.skip(1));
    }
}

// ---------------------------------------------------------------------------
// Specification parsers
// ---------------------------------------------------------------------------

/// Parses consecutive two-byte values until the end of the buffer.
pub open spec fn p_u16s(b: Seq<u8>, i: int) -> Option<Seq<u16>>
    decreases b.len() - i,
{
    if i == b.len() {
        Some(Seq::empty())
    } else if 0 <= i && i + 2 <= b.len() {
        match p_u16s(b, i + 2) {
            Some(r) => Some(seq![((b[i] as int) * 256 + (b[i + 1] as int)) as u16] + r),
            None => None,
        }
    } else {
        None
    }
}

/// Parses consecutive one-byte-length-prefixed items until the end.
pub open spec fn p_protos(b: Seq<u8>, i: int) -> Option<Seq<Seq<u8>>>
    decreases b.len() - i,
{
    if i == b.len() {
        Some(Seq::empty())
    } else if 0 <= i && i + 1 <= b.len() && i + 1 + b[i] <= b.len() {
        match p_protos(b, i + 1 + b[i]) {
            Some(r) => Some(seq![b.subrange(i + 1, i + 1 + b[i])] + r),
            None => None,
        }
    } else {
        None
    }
}

/// Parses consecutive key-share entries until the end.
pub open spec fn p_shares(b: Seq<u8>, i: int) -> Option<Seq<KeyShareEntryV>>
    decreases b.len() - i,
{
    if i == b.len() {
        Some(Seq::empty())
    } else if 0 <= i && i + 4 <= b.len() && i + 4 + ((b[i + 2] as int) * 256 + (b[i + 3] as int))
        <= b.len() {
        let group = ((b[i] as int) * 256 + (b[i + 1] as int)) as u16;
        let n = (b[i + 2] as int) * 256 + (b[i + 3] as int);
        match p_shares(b, i + 4 + n) {
            Some(r) => Some(
                seq![KeyShareEntryV { group, data: b.subrange(i + 4, i + 4 + n) }] + r,
            ),
            None => None,
        }
    } else {
        None
    }
}

/// Interprets a full extension body according to its type code.
pub open spec fn parse_ext_body(code: u16, b: Seq<u8>) -> Option<ExtV> {
    if code == EXT_SERVER_NAME {
        if b.len() < 2048 {
            Some(ExtV::ServerName(b))
        } else {
            None
        }
    } else if code == EXT_SUPPORTED_GROUPS {
        match p_u16s(b, 0) {
            Some(v) => Some(ExtV::SupportedGroups(v)),
            None => None,
        }
    } else if code == EXT_ALPN {
        match p_protos(b, 0) {
            Some(v) => Some(ExtV::Protocols(v)),
            None => None,
        }
    } else if code == EXT_EXTENDED_MASTER_SECRET {
        if b.len() == 0 {
            Some(ExtV::ExtendedMasterSecret)
        } else {
            None
        }
    } else if code == EXT_COMPRESS_CERT {
        match p_u16s(b, 0) {
            Some(v) => Some(ExtV::CompressCertAlgs(v)),
            None => None,
        }
    } else if code == EXT_SESSION_TICKET {
        if b.len() < 2048 {
            Some(ExtV::SessionTicket(b))
        } else {
            None
        }
    } else if code == EXT_PRE_SHARED_KEY {
        if b.len() < 2048 {
            Some(ExtV::PreSharedKey(b))
        } else {
            None
        }
    } else if code == EXT_EARLY_DATA {
        if b.len() == 0 {
            Some(ExtV::EarlyData)
        } else {
            None
        }
    } else if code == EXT_SUPPORTED_VERSIONS {
        match p_u16s(b, 0) {
            Some(v) => Some(ExtV::SupportedVersions(v)),
            None => None,
        }
    } else if code == EXT_KEY_SHARE {
        match p_shares(b, 0) {
            Some(v) => Some(ExtV::KeyShare(v)),
            None => None,
        }
    } else if code == EXT_ECH {
        if b.len() < 2048 {
            Some(ExtV::Ech(b))
        } else {
            None
        }
    } else {
        None
    }
}

pub open spec fn p_ext(s: Seq<u8>, i: int) -> SpecParse<ExtV> {
    match p_u16(s, i) {
        SpecParse::Val(code, j) => match p_vec16(s, j) {
            SpecParse::Val(body, k) => match parse_ext_body(code, body) {
                Some(e) => SpecParse::Val(e, k),
                None => SpecParse::Bad,
            },
            SpecParse::Short => SpecParse::Short,
            SpecParse::Bad => SpecParse::Bad,
        },
        SpecParse::Short => SpecParse::Short,
        SpecParse::Bad => SpecParse::Bad,
    }
}

/// Parses consecutive extensions until the end of the buffer.  Inside a block
/// whose length is already known, running short is malformed rather than
/// truncated.
pub open spec fn p_exts(b: Seq<u8>, i: int) -> Option<Seq<ExtV>>
    decreases b.len() - i,
{
    if i == b.len() {
        Some(Seq::empty())
    } else if 0 <= i && i < b.len() {
        match p_ext(b, i) {
            SpecParse::Val(e, j) => if i < j <= b.len() {
                match p_exts(b, j) {
                    Some(r) => Some(seq![e] + r),
                    None => None,
                }
            } else {
                None
            },
            _ => None,
        }
    } else {
        None
    }
}

// ---------------------------------------------------------------------------
// Round-trip lemmas: parsing an encoding yields the original value.
// ---------------------------------------------------------------------------

proof fn lemma_push_concat<T>(a: Seq<T>, v: T, r: Seq<T>)
    ensures
        a.push(v) + r == a + (seq![v] + r),
{
    assert(a.push(v) + r =~= a + (seq![v] + r));
}

pub proof fn lemma_p_u16s(b: Seq<u8>, i: int, l: Seq<u16>)
    requires
        0 <= i <= b.len(),
        b.subrange(i, b.len() as int) == enc_u16s(l),
    ensures
        p_u16s(b, i) == Some(l),
    decreases l.len(),
{
    lemma_len_enc_u16s(l);
    if l.len() == 0 {
        assert(l =~= Seq::<u16>::empty());
    } else {
        let head = enc_u16(l[0]);
        let tail = enc_u16s(l.skip(1));
        assert(enc_u16s(l) == head + tail);
        lemma_split_concat(b, i, head, tail);
        lemma_p_u16(b, i, l[0]);
        assert(b.subrange(i + 2, b.len() as int) == tail);
        lemma_p_u16s(b, i + 2, l.skip(1));
        assert(seq![l[0]] + l.skip(1) =~= l);
    }
}

pub proof fn lemma_p_protos(b: Seq<u8>, i: int, l: Seq<Seq<u8>>)
    requires
        0 <= i <= b.len(),
        forall|k: int| 0 <= k < l.len() ==> 1 <= #[trigger] l[k].len() < 256,
        b.subrange(i, b.len() as int) == enc_protos(l),
    ensures
        p_protos(b, i) == Some(l),
    decreases l.len(),
{
    if l.len() == 0 {
        assert(enc_protos(l).len() == 0);
        assert(l =~= Seq::<Seq<u8>>::empty());
    } else {
        let head = enc_vec8(l[0]);
        let tail = enc_protos(l.skip(1));
        assert(enc_protos(l) == head + tail);
        assert(i + head.len() + tail.len() == b.len());
        lemma_split_concat(b, i, head, tail);
        lemma_p_vec8(b, i, l[0]);
        // The inline arithmetic in `p_protos` agrees with `p_vec8`.
        assert(b[i] == l[0].len());
        assert(b.subrange(i + 1, i + 1 + b[i]) == l[0]);
        assert(b.subrange(i + 1 + b[i], b.len() as int) == tail);
        assert(forall|k: int|
            0 <= k < l.skip(1).len() ==> 1 <= #[trigger] l.skip(1)[k].len() < 256);
        lemma_p_protos(b, i + 1 + b[i], l.skip(1));
        assert(seq![l[0]] + l.skip(1) =~= l);
    }
}

pub proof fn lemma_p_shares(b: Seq<u8>, i: int, l: Seq<KeyShareEntryV>)
    requires
        0 <= i <= b.len(),
        forall|k: int| 0 <= k < l.len() ==> #[trigger] l[k].data.len() < 512,
        b.subrange(i, b.len() as int) == enc_shares(l),
    ensures
        p_shares(b, i) == Some(l),
    decreases l.len(),
{
    if l.len() == 0 {
        assert(enc_shares(l).len() == 0);
        assert(l =~= Seq::<KeyShareEntryV>::empty());
    } else {
        let e = l[0];
        let head = enc_share(e);
        let tail = enc_shares(l.skip(1));
        assert(enc_shares(l) == head + tail);
        lemma_split_concat(b, i, head, tail);
        // head splits into the group and the length-prefixed data
        lemma_split_concat(b, i, enc_u16(e.group), enc_vec16(e.data));
        lemma_p_u16(b, i, e.group);
        lemma_p_vec16(b, i + 2, e.data);
        let n = (b[i + 2] as int) * 256 + (b[i + 3] as int);
        assert(p_u16(b, i + 2) == SpecParse::<u16>::Val((n as u16), i + 4));
        assert(n < 65536);
        assert(n == e.data.len());
        assert(((b[i] as int) * 256 + (b[i + 1] as int)) as u16 == e.group);
        assert(b.subrange(i + 4, i + 4 + n) == e.data);
        assert(b.subrange(i + 4 + n, b.len() as int) == tail);
        assert(forall|k: int|
            0 <= k < l.skip(1).len() ==> #[trigger] l.skip(1)[k].data.len() < 512);
        lemma_p_shares(b, i + 4 + n, l.skip(1));
        assert(seq![KeyShareEntryV { group: e.group, data: b.subrange(i + 4, i + 4 + n) }]
            + l.skip(1) =~= l);
    }
}

pub proof fn lemma_parse_ext_body(e: ExtV)
    requires
        wf_ext(e),
    ensures
        parse_ext_body(ext_code(e), ext_body(e)) == Some(e),
{
    let b = ext_body(e);
    assert(b.subrange(0, b.len() as int) =~= b);
    match e {
        ExtV::SupportedGroups(v) => lemma_p_u16s(b, 0, v),
        ExtV::Protocols(v) => lemma_p_protos(b, 0, v),
        ExtV::CompressCertAlgs(v) => lemma_p_u16s(b, 0, v),
        ExtV::SupportedVersions(v) => lemma_p_u16s(b, 0, v),
        ExtV::KeyShare(v) => lemma_p_shares(b, 0, v),
        _ => {},
    }
}

pub proof fn lemma_p_ext(s: Seq<u8>, i: int, e: ExtV)
    requires
        wf_ext(e),
        0 <= i,
        i + enc_ext(e).len() <= s.len(),
        s.subrange(i, i + enc_ext(e).len()) == enc_ext(e),
    ensures
        p_ext(s, i) == SpecParse::Val(e, i + enc_ext(e).len()),
{
    let code = ext_code(e);
    let body = ext_body(e);
    lemma_len_ext_body(e);
    lemma_split_concat(s, i, enc_u16(code), enc_vec16(body));
    lemma_p_u16(s, i, code);
    lemma_p_vec16(s, i + 2, body);
    lemma_parse_ext_body(e);
}

pub proof fn lemma_p_exts(b: Seq<u8>, i: int, l: Seq<ExtV>)
    requires
        0 <= i <= b.len(),
        forall|k: int| 0 <= k < l.len() ==> wf_ext(#[trigger] l[k]),
        b.subrange(i, b.len() as int) == enc_exts(l),
    ensures
        p_exts(b, i) == Some(l),
    decreases l.len(),
{
    if l.len() == 0 {
        assert(enc_exts(l).len() == 0);
        assert(l =~= Seq::<ExtV>::empty());
    } else {
        let head = enc_ext(l[0]);
        let tail = enc_exts(l.skip(1));
        assert(enc_exts(l) == head + tail);
        lemma_split_concat(b, i, head, tail);
        lemma_p_ext(b, i, l[0]);
        assert(b.subrange(i + head.len(), b.len() as int) == tail);
        assert(forall|k: int| 0 <= k < l.skip(1).len() ==> wf_ext(#[trigger] l.skip(1)[k]));
        lemma_p_exts(b, i + head.len(), l.skip(1));
        assert(seq![l[0]] + l.skip(1) =~= l);
    }
}

// ---------------------------------------------------------------------------
// Append lemmas used by the executable encoders.
// ---------------------------------------------------------------------------

proof fn lemma_enc_u16s_push(l: Seq<u16>, x: u16)
    ensures
        enc_u16s(l.push(x)) == enc_u16s(l) + enc_u16(x),
    decreases l.len(),
{
    if l.len() == 0 {
        assert(l.push(x)[0] == x);
        assert(l.push(x).skip(1) =~= Seq::<u16>::empty());
        assert(enc_u16s(l.push(x)) == enc_u16(x) + enc_u16s(Seq::<u16>::empty()));
        assert(enc_u16(x) + Seq::<u8>::empty() =~= enc_u16s(l) + enc_u16(x));
    } else {
        assert(l.push(x)[0] == l[0]);
        assert(l.push(x).skip(1) =~= l.skip(1).push(x));
        lemma_enc_u16s_push(l.skip(1), x);
        assert(enc_u16s(l.push(x)) == enc_u16(l[0]) + (enc_u16s(l.skip(1)) + enc_u16(x)));
        assert(enc_u16(l[0]) + (enc_u16s(l.skip(1)) + enc_u16(x)) =~= (enc_u16(l[0])
            + enc_u16s(l.skip(1))) + enc_u16(x));
    }
}

proof fn lemma_enc_protos_push(l: Seq<Seq<u8>>, x: Seq<u8>)
    ensures
        enc_protos(l.push(x)) == enc_protos(l) + enc_vec8(x),
    decreases l.len(),
{
    if l.len() == 0 {
        assert(l.push(x)[0] == x);
        assert(l.push(x).skip(1) =~= Seq::<Seq<u8>>::empty());
        assert(enc_protos(l.push(x)) == enc_vec8(x) + enc_protos(Seq::<Seq<u8>>::empty()));
        assert(enc_vec8(x) + Seq::<u8>::empty() =~= enc_protos(l) + enc_vec8(x));
    } else {
        assert(l.push(x)[0] == l[0]);
        assert(l.push(x).skip(1) =~= l.skip(1).push(x));
        lemma_enc_protos_push(l.skip(1), x);
        assert(enc_protos(l.push(x)) == enc_vec8(l[0]) + (enc_protos(l.skip(1)) + enc_vec8(x)));
        assert(enc_vec8(l[0]) + (enc_protos(l.skip(1)) + enc_vec8(x)) =~= (enc_vec8(l[0])
            + enc_protos(l.skip(1))) + enc_vec8(x));
    }
}

proof fn lemma_enc_shares_push(l: Seq<KeyShareEntryV>, x: KeyShareEntryV)
    ensures
        enc_shares(l.push(x)) == enc_shares(l) + enc_share(x),
    decreases l.len(),
{
    if l.len() == 0 {
        assert(l.push(x)[0] == x);
        assert(l.push(x).skip(1) =~= Seq::<KeyShareEntryV>::empty());
        assert(enc_shares(l.push(x)) == enc_share(x) + enc_shares(Seq::<KeyShareEntryV>::empty()));
        assert(enc_share(x) + Seq::<u8>::empty() =~= enc_shares(l) + enc_share(x));
    } else {
        assert(l.push(x)[0] == l[0]);
        assert(l.push(x).skip(1) =~= l.skip(1).push(x));
        lemma_enc_shares_push(l.skip(1), x);
        assert(enc_shares(l.push(x)) == enc_share(l[0]) + (enc_shares(l.skip(1)) + enc_share(x)));
        assert(enc_share(l[0]) + (enc_shares(l.skip(1)) + enc_share(x)) =~= (enc_share(l[0])
            + enc_shares(l.skip(1))) + enc_share(x));
    }
}

proof fn lemma_enc_exts_push(l: Seq<ExtV>, x: ExtV)
    ensures
        enc_exts(l.push(x)) == enc_exts(l) + enc_ext(x),
    decreases l.len(),
{
    if l.len() == 0 {
        assert(l.push(x)[0] == x);
        assert(l.push(x).skip(1) =~= Seq::<ExtV>::empty());
        assert(enc_exts(l.push(x)) == enc_ext(x) + enc_exts(Seq::<ExtV>::empty()));
        assert(enc_ext(x) + Seq::<u8>::empty() =~= enc_exts(l) + enc_ext(x));
    } else {
        assert(l.push(x)[0] == l[0]);
        assert(l.push(x).skip(1) =~= l.skip(1).push(x));
        lemma_enc_exts_push(l.skip(1), x);
        assert(enc_exts(l.push(x)) == enc_ext(l[0]) + (enc_exts(l.skip(1)) + enc_ext(x)));
        assert(enc_ext(l[0]) + (enc_exts(l.skip(1)) + enc_ext(x)) =~= (enc_ext(l[0])
            + enc_exts(l.skip(1))) + enc_ext(x));
    }
}

/// Bridges the deep view of a vector of byte vectors to the per-element views.
pub proof fn lemma_bytes_deep_view(v: &Vec<Vec<u8>>)
    ensures
        v.deep_view().len() == v@.len(),
        forall|k: int| 0 <= k < v@.len() ==> #[trigger] v.deep_view()[k] == v@[k]@,
{
    assert forall|k: int| 0 <= k < v@.len() implies #[trigger] v.deep_view()[k] == v@[k]@ by {
        assert(v.deep_view()[k] == v@[k].deep_view());
        assert(v@[k].deep_view() =~= v@[k]@);
    }
}

/// Bridges the deep view of a vector of key-share entries.
pub proof fn lemma_shares_deep_view(v: &Vec<KeyShareEntry>)
    ensures
        v.deep_view().len() == v@.len(),
        forall|k: int| 0 <= k < v@.len() ==> #[trigger] v.deep_view()[k] == v@[k]@,
{
    assert forall|k: int| 0 <= k < v@.len() implies #[trigger] v.deep_view()[k] == v@[k]@ by {
        assert(v.deep_view()[k] == v@[k].deep_view());
    }
}

/// Bridges the deep view of a vector of extensions.
pub proof fn lemma_exts_deep_view(v: &Vec<Ext>)
    ensures
        v.deep_view().len() == v@.len(),
        forall|k: int| 0 <= k < v@.len() ==> #[trigger] v.deep_view()[k] == v@[k]@,
{
    assert forall|k: int| 0 <= k < v@.len() implies #[trigger] v.deep_view()[k] == v@[k]@ by {
        assert(v.deep_view()[k] == v@[k].deep_view());
    }
}

// ---------------------------------------------------------------------------
// Executable encoders
// ---------------------------------------------------------------------------

pub fn put_u16s(out: &mut Vec<u8>, v: &Vec<u16>)
    ensures
        final(out)@ == old(out)@ + enc_u16s(v@),
{
    let mut k: usize = 0;
    while k < v.len()
        invariant
            k <= v.len(),
            out@ == old(out)@ + enc_u16s(v@.subrange(0, k as int)),
        decreases v.len() - k,
    {
        proof {
            lemma_enc_u16s_push(v@.subrange(0, k as int), v@[k as int]);
            assert(v@.subrange(0, k as int).push(v@[k as int]) =~= v@.subrange(0, k as int + 1));
        }
        put_u16(out, v[k]);
        k = k + 1;
    }
    assert(v@.subrange(0, v@.len() as int) =~= v@);
}

pub fn put_protos(out: &mut Vec<u8>, v: &Vec<Vec<u8>>)
    requires
        forall|k: int| 0 <= k < v@.len() ==> #[trigger] v@[k]@.len() < 256,
    ensures
        final(out)@ == old(out)@ + enc_protos(v.deep_view()),
{
    let mut k: usize = 0;
    while k < v.len()
        invariant
            k <= v.len(),
            forall|j: int| 0 <= j < v@.len() ==> #[trigger] v@[j]@.len() < 256,
            out@ == old(out)@ + enc_protos(v.deep_view().subrange(0, k as int)),
        decreases v.len() - k,
    {
        proof {
            assert(v.deep_view()[k as int] == v@[k as int]@);
            lemma_enc_protos_push(v.deep_view().subrange(0, k as int), v.deep_view()[k as int]);
            assert(v.deep_view().subrange(0, k as int).push(v.deep_view()[k as int])
                =~= v.deep_view().subrange(0, k as int + 1));
        }
        put_vec8(out, &v[k]);
        k = k + 1;
    }
    assert(v.deep_view().subrange(0, v.deep_view().len() as int) =~= v.deep_view());
}

pub fn put_shares(out: &mut Vec<u8>, v: &Vec<KeyShareEntry>)
    requires
        forall|k: int| 0 <= k < v@.len() ==> #[trigger] v@[k].data@.len() < 65536,
    ensures
        final(out)@ == old(out)@ + enc_shares(v.deep_view()),
{
    let mut k: usize = 0;
    while k < v.len()
        invariant
            k <= v.len(),
            forall|j: int| 0 <= j < v@.len() ==> #[trigger] v@[j].data@.len() < 65536,
            out@ == old(out)@ + enc_shares(v.deep_view().subrange(0, k as int)),
        decreases v.len() - k,
    {
        proof {
            assert(v.deep_view()[k as int] == v@[k as int]@);
            lemma_enc_shares_push(v.deep_view().subrange(0, k as int), v.deep_view()[k as int]);
            assert(v.deep_view().subrange(0, k as int).push(v.deep_view()[k as int])
                =~= v.deep_view().subrange(0, k as int + 1));
        }
        put_u16(out, v[k].group);
        put_vec16(out, &v[k].data);
        k = k + 1;
    }
    assert(v.deep_view().subrange(0, v.deep_view().len() as int) =~= v.deep_view());
}

/// Encodes one extension: type code, then length-prefixed body.
pub fn put_ext(out: &mut Vec<u8>, e: &Ext)
    requires
        wf_ext(e@),
    ensures
        final(out)@ == old(out)@ + enc_ext(e@),
{
    proof {
        lemma_len_ext_body(e@);
    }
    match e {
        Ext::ServerName(v) => {
            put_u16(out, EXT_SERVER_NAME);
            put_vec16(out, v);
        },
        Ext::SupportedGroups(v) => {
            let mut body: Vec<u8> = Vec::new();
            put_u16s(&mut body, v);
            put_u16(out, EXT_SUPPORTED_GROUPS);
            put_vec16(out, &body);
        },
        Ext::Protocols(v) => {
            proof {
                lemma_bytes_deep_view(v);
                assert forall|k: int| 0 <= k < v@.len() implies (#[trigger] v@[k]@).len()
                    < 256 by {
                    assert(v.deep_view()[k].len() < 256);
                }
            }
            let mut body: Vec<u8> = Vec::new();
            put_protos(&mut body, v);
            put_u16(out, EXT_ALPN);
            put_vec16(out, &body);
        },
        Ext::ExtendedMasterSecret => {
            put_u16(out, EXT_EXTENDED_MASTER_SECRET);
            put_u16(out, 0);
            assert(out@ =~= old(out)@ + enc_ext(e@));
        },
        Ext::CompressCertAlgs(v) => {
            let mut body: Vec<u8> = Vec::new();
            put_u16s(&mut body, v);
            put_u16(out, EXT_COMPRESS_CERT);
            put_vec16(out, &body);
        },
        Ext::SessionTicket(v) => {
            put_u16(out, EXT_SESSION_TICKET);
            put_vec16(out, v);
        },
        Ext::PreSharedKey(v) => {
            put_u16(out, EXT_PRE_SHARED_KEY);
            put_vec16(out, v);
        },
        Ext::EarlyData => {
            put_u16(out, EXT_EARLY_DATA);
            put_u16(out, 0);
            assert(out@ =~= old(out)@ + enc_ext(e@));
        },
        Ext::SupportedVersions(v) => {
            let mut body: Vec<u8> = Vec::new();
            put_u16s(&mut body, v);
            put_u16(out, EXT_SUPPORTED_VERSIONS);
            put_vec16(out, &body);
        },
        Ext::KeyShare(v) => {
            proof {
                lemma_shares_deep_view(v);
                assert forall|k: int| 0 <= k < v@.len() implies (#[trigger] v@[k].data@).len()
                    < 65536 by {
                    assert(v.deep_view()[k].data.len() < 512);
                }
            }
            let mut body: Vec<u8> = Vec::new();
            put_shares(&mut body, v);
            put_u16(out, EXT_KEY_SHARE);
            put_vec16(out, &body);
        },
        Ext::Ech(v) => {
            put_u16(out, EXT_ECH);
            put_vec16(out, v);
        },
    }
}

/// Encodes a list of extensions back to back (no outer length prefix).
pub fn put_exts(out: &mut Vec<u8>, v: &Vec<Ext>)
    requires
        forall|k: int| 0 <= k < v@.len() ==> wf_ext(#[trigger] v.deep_view()[k]),
    ensures
        final(out)@ == old(out)@ + enc_exts(v.deep_view()),
{
    let mut k: usize = 0;
    while k < v.len()
        invariant
            k <= v.len(),
            forall|j: int| 0 <= j < v@.len() ==> wf_ext(#[trigger] v.deep_view()[j]),
            out@ == old(out)@ + enc_exts(v.deep_view().subrange(0, k as int)),
        decreases v.len() - k,
    {
        proof {
            assert(v.deep_view()[k as int] == v@[k as int]@);
            lemma_enc_exts_push(v.deep_view().subrange(0, k as int), v.deep_view()[k as int]);
            assert(v.deep_view().subrange(0, k as int).push(v.deep_view()[k as int])
                =~= v.deep_view().subrange(0, k as int + 1));
        }
        put_ext(out, &v[k]);
        k = k + 1;
    }
    assert(v.deep_view().subrange(0, v.deep_view().len() as int) =~= v.deep_view());
}

// ---------------------------------------------------------------------------
// Executable parsers
// ---------------------------------------------------------------------------

/// Parses consecutive two-byte values occupying the whole buffer.
pub fn d_u16s(b: &Vec<u8>) -> (r: Option<Vec<u16>>)
    ensures
        match p_u16s(b@, 0) {
            Some(l) => r matches Some(v) && v@ == l,
            None => r is None,
        },
{
    let mut acc: Vec<u16> = Vec::new();
    let mut i: usize = 0;
    loop
        invariant
            i <= b.len(),
            match p_u16s(b@, i as int) {
                Some(rest) => p_u16s(b@, 0) == Some(acc@ + rest),
                None => p_u16s(b@, 0) is None,
            },
        decreases b.len() - i,
    {
        if i == b.len() {
            assert(acc@ + Seq::<u16>::empty() =~= acc@);
            return Some(acc);
        }
        if b.len() - i < 2 {
            return None;
        }
        let v: u16 = (b[i] as u16) * 256 + (b[i + 1] as u16);
        proof {
            let ghost rest0 = p_u16s(b@, i as int);
            let ghost rest2 = p_u16s(b@, i as int + 2);
            if rest2 is Some {
                lemma_push_concat(acc@, v, rest2->Some_0);
                assert(acc@.push(v) + rest2->Some_0 == acc@ + (seq![v] + rest2->Some_0));
            }
        }
        acc.push(v);
        i = i + 2;
    }
}

/// Parses consecutive one-byte-length-prefixed items occupying the buffer.
pub fn d_protos(b: &Vec<u8>) -> (r: Option<Vec<Vec<u8>>>)
    ensures
        match p_protos(b@, 0) {
            Some(l) => r matches Some(v) && v.deep_view() == l,
            None => r is None,
        },
{
    let mut acc: Vec<Vec<u8>> = Vec::new();
    let mut i: usize = 0;
    loop
        invariant
            i <= b.len(),
            match p_protos(b@, i as int) {
                Some(rest) => p_protos(b@, 0) == Some(acc.deep_view() + rest),
                None => p_protos(b@, 0) is None,
            },
        decreases b.len() - i,
    {
        if i == b.len() {
            assert(acc.deep_view() + Seq::<Seq<u8>>::empty() =~= acc.deep_view());
            return Some(acc);
        }
        let n = b[i] as usize;
        if b.len() - i - 1 < n {
            return None;
        }
        let item = copy_range(b, i + 1, i + 1 + n);
        proof {
            let ghost rest2 = p_protos(b@, i as int + 1 + n as int);
            let ghost dv = acc.deep_view();
            if rest2 is Some {
                lemma_push_concat(dv, item@, rest2->Some_0);
            }
        }
        let ghost pre = acc.deep_view();
        acc.push(item);
        proof {
            assert(acc.deep_view() =~~= pre.push(item@));
        }
        i = i + 1 + n;
    }
}

/// Parses consecutive key-share entries occupying the buffer.
pub fn d_shares(b: &Vec<u8>) -> (r: Option<Vec<KeyShareEntry>>)
    ensures
        match p_shares(b@, 0) {
            Some(l) => r matches Some(v) && v.deep_view() == l,
            None => r is None,
        },
{
    let mut acc: Vec<KeyShareEntry> = Vec::new();
    let mut i: usize = 0;
    loop
        invariant
            i <= b.len(),
            match p_shares(b@, i as int) {
                Some(rest) => p_shares(b@, 0) == Some(acc.deep_view() + rest),
                None => p_shares(b@, 0) is None,
            },
        decreases b.len() - i,
    {
        if i == b.len() {
            assert(acc.deep_view() + Seq::<KeyShareEntryV>::empty() =~= acc.deep_view());
            return Some(acc);
        }
        if b.len() - i < 4 {
            return None;
        }
        let group: u16 = (b[i] as u16) * 256 + (b[i + 1] as u16);
        let n = (b[i + 2] as usize) * 256 + (b[i + 3] as usize);
        if b.len() - i - 4 < n {
            return None;
        }
        let data = copy_range(b, i + 4, i + 4 + n);
        let entry = KeyShareEntry { group, data };
        proof {
            let ghost rest2 = p_shares(b@, i as int + 4 + n as int);
            let ghost dv = acc.deep_view();
            if rest2 is Some {
                lemma_push_concat(dv, entry@, rest2->Some_0);
            }
        }
        let ghost pre = acc.deep_view();
        acc.push(entry);
        proof {
            assert(acc.deep_view() =~~= pre.push(entry@));
        }
        i = i + 4 + n;
    }
}

/// Interprets a complete extension body according to its type code.
fn decode_ext_body(code: u16, b: Vec<u8>) -> (r: Option<Ext>)
    ensures
        match parse_ext_body(code, b@) {
            Some(e) => r matches Some(x) && x@ == e,
            None => r is None,
        },
{
    if code == EXT_SERVER_NAME {
        if b.len() < 2048 {
            Some(Ext::ServerName(b))
        } else {
            None
        }
    } else if code == EXT_SUPPORTED_GROUPS {
        match d_u16s(&b) {
            Some(v) => Some(Ext::SupportedGroups(v)),
            None => None,
        }
    } else if code == EXT_ALPN {
        match d_protos(&b) {
            Some(v) => Some(Ext::Protocols(v)),
            None => None,
        }
    } else if code == EXT_EXTENDED_MASTER_SECRET {
        if b.len() == 0 {
            Some(Ext::ExtendedMasterSecret)
        } else {
            None
        }
    } else if code == EXT_COMPRESS_CERT {
        match d_u16s(&b) {
            Some(v) => Some(Ext::CompressCertAlgs(v)),
            None => None,
        }
    } else if code == EXT_SESSION_TICKET {
        if b.len() < 2048 {
            Some(Ext::SessionTicket(b))
        } else {
            None
        }
    } else if code == EXT_PRE_SHARED_KEY {
        if b.len() < 2048 {
            Some(Ext::PreSharedKey(b))
        } else {
            None
        }
    } else if code == EXT_EARLY_DATA {
        if b.len() == 0 {
            Some(Ext::EarlyData)
        } else {
            None
        }
    } else if code == EXT_SUPPORTED_VERSIONS {
        match d_u16s(&b) {
            Some(v) => Some(Ext::SupportedVersions(v)),
            None => None,
        }
    } else if code == EXT_KEY_SHARE {
        match d_shares(&b) {
            Some(v) => Some(Ext::KeyShare(v)),
            None => None,
        }
    } else if code == EXT_ECH {
        if b.len() < 2048 {
            Some(Ext::Ech(b))
        } else {
            None
        }
    } else {
        None
    }
}

/// Parses one extension starting at `i`.
pub fn d_ext(s: &Vec<u8>, i: usize) -> (r: Result<(Ext, usize), DecodeError>)
    ensures
        match p_ext(s@, i as int) {
            SpecParse::Val(e, j) => r matches Ok(p) && p.0@ == e && p.1 as int == j,
            SpecParse::Short => r == Err::<(Ext, usize), DecodeError>(DecodeError::Truncated),
            SpecParse::Bad => r == Err::<(Ext, usize), DecodeError>(DecodeError::Malformed),
        },
        r matches Ok(p) ==> i < p.1 <= s@.len(),
{
    let (code, j) = get_u16(s, i)?;
    let (body, k) = get_vec16(s, j)?;
    match decode_ext_body(code, body) {
        Some(e) => Ok((e, k)),
        None => Err(DecodeError::Malformed),
    }
}

/// Parses consecutive extensions occupying the whole buffer.
pub fn d_exts(b: &Vec<u8>) -> (r: Option<Vec<Ext>>)
    ensures
        match p_exts(b@, 0) {
            Some(l) => r matches Some(v) && v.deep_view() == l,
            None => r is None,
        },
{
    let mut acc: Vec<Ext> = Vec::new();
    let mut i: usize = 0;
    loop
        invariant
            i <= b.len(),
            match p_exts(b@, i as int) {
                Some(rest) => p_exts(b@, 0) == Some(acc.deep_view() + rest),
                None => p_exts(b@, 0) is None,
            },
        decreases b.len() - i,
    {
        if i == b.len() {
            assert(acc.deep_view() + Seq::<ExtV>::empty() =~= acc.deep_view());
            return Some(acc);
        }
        let (e, j) = match d_ext(b, i) {
            Ok(p) => p,
            Err(_) => {
                return None;
            },
        };
        proof {
            let ghost rest2 = p_exts(b@, j as int);
            let ghost dv = acc.deep_view();
            if rest2 is Some {
                lemma_push_concat(dv, e@, rest2->Some_0);
            }
        }
        let ghost pre = acc.deep_view();
        acc.push(e);
        proof {
            assert(acc.deep_view() =~~= pre.push(e@));
        }
        i = j;
    }
}

/// The wire type code of an extension.
pub fn ext_code_of(e: &Ext) -> (r: u16)
    ensures
        r == ext_code(e@),
{
    match e {
        Ext::ServerName(_) => EXT_SERVER_NAME,
        Ext::SupportedGroups(_) => EXT_SUPPORTED_GROUPS,
        Ext::Protocols(_) => EXT_ALPN,
        Ext::ExtendedMasterSecret => EXT_EXTENDED_MASTER_SECRET,
        Ext::CompressCertAlgs(_) => EXT_COMPRESS_CERT,
        Ext::SessionTicket(_) => EXT_SESSION_TICKET,
        Ext::PreSharedKey(_) => EXT_PRE_SHARED_KEY,
        Ext::EarlyData => EXT_EARLY_DATA,
        Ext::SupportedVersions(_) => EXT_SUPPORTED_VERSIONS,
        Ext::KeyShare(_) => EXT_KEY_SHARE,
        Ext::Ech(_) => EXT_ECH,
    }
}

} // verus!
