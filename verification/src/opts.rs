//! The conformance driver's options and the construction of client and
//! server configurations from them, together with the pure parsing helpers
//! (decimal, hexadecimal, protocol lists) the driver uses on its argument
//! values.

use vstd::prelude::*;

use crate::codec::bytes_eq;
use crate::compress::CompressionAlg;
use crate::conn::{ClientConfig, ServerConfig, ServerStorage, Side, HandshakeKind};
use crate::negotiation::{TLS12, TLS13};
use crate::provider::SelectedProvider;
use crate::resolver::{ClientCert, CertifiedKey, SigningKey, MultipleClientCredentialResolver,
    lookup_scheme, spec_scheme_supported};
use crate::session::{ClientCacheWithoutKxHints, ServerCacheWithResumptionDelay,
    NoServerSessionStorage};
use crate::outside::{issuer_of, cert_issuer};

verus! {

/// Whether a string equals an expected literal.
pub fn str_is(a: &String, b: &str) -> (r: bool)
    ensures
        r == (a@ == b@),
{
    let owned: String = b.to_owned();
    *a == owned
}

// ---------------------------------------------------------------------------
// Decimal and hexadecimal parsing
// ---------------------------------------------------------------------------

pub open spec fn is_digit(b: u8) -> bool {
    48 <= b <= 57
}

pub open spec fn all_digits(s: Seq<u8>) -> bool {
    forall|j: int| 0 <= j < s.len() ==> is_digit(#[trigger] s[j])
}

/// The value of a decimal digit string.
pub open spec fn dec_val(s: Seq<u8>) -> int
    decreases s.len(),
{
    if s.len() == 0 {
        0
    } else {
        dec_val(s.drop_last()) * 10 + (s.last() - 48)
    }
}

spec fn pow10(n: nat) -> int
    decreases n,
{
    if n == 0 {
        1
    } else {
        10 * pow10((n - 1) as nat)
    }
}

proof fn lemma_dec_val_bound(s: Seq<u8>)
    requires
        all_digits(s),
    ensures
        0 <= dec_val(s) < pow10(s.len()),
    decreases s.len(),
{
    if s.len() > 0 {
        assert(all_digits(s.drop_last())) by {
            assert(forall|j: int| 0 <= j < s.drop_last().len() ==> s.drop_last()[j] == s[j]);
        }
        lemma_dec_val_bound(s.drop_last());
        assert(is_digit(s.last()));
        assert(dec_val(s.drop_last()) * 10 + (s.last() - 48) < pow10(s.drop_last().len()) * 10)
            by (nonlinear_arith)
            requires
                dec_val(s.drop_last()) < pow10(s.drop_last().len()),
                is_digit(s.last()),
                dec_val(s.drop_last()) >= 0,
                pow10(s.drop_last().len()) >= 1,
        ;
        assert(pow10(s.len()) == 10 * pow10(s.drop_last().len()));
        assert(dec_val(s.drop_last()) * 10 >= 0) by (nonlinear_arith)
            requires
                dec_val(s.drop_last()) >= 0,
        ;
    }
}

/// Parses a decimal number of at most eighteen digits.
pub fn parse_u64_bytes(b: &Vec<u8>) -> (r: Option<u64>)
    ensures
        r matches Some(n) ==> b@.len() > 0 && all_digits(b@) && n == dec_val(b@),
        (1 <= b@.len() <= 18 && all_digits(b@)) ==> r is Some,
{
    if b.len() == 0 || b.len() > 18 {
        proof {
            if b@.len() > 18 {
            }
        }
        return None;
    }
    proof {
        reveal_with_fuel(pow10, 19);
    }
    let mut acc: u64 = 0;
    let mut k: usize = 0;
    while k < b.len()
        invariant
            k <= b@.len(),
            b@.len() <= 18,
            forall|j: int| 0 <= j < k ==> is_digit(#[trigger] b@[j]),
            acc == dec_val(b@.subrange(0, k as int)),
            acc < 1000000000000000000,
        decreases b@.len() - k,
    {
        let c = b[k];
        if c < 48 || c > 57 {
            return None;
        }
        proof {
            reveal_with_fuel(pow10, 19);
            let pre = b@.subrange(0, k as int);
            let cur = b@.subrange(0, k as int + 1);
            assert(cur.drop_last() =~= pre);
            assert(cur.last() == b@[k as int]);
            assert(forall|j: int| 0 <= j < cur.len() ==> is_digit(#[trigger] cur[j]));
            lemma_dec_val_bound(cur);
            assert(cur.len() <= 18);
            lemma_pow10_step(cur.len(), 18);
            assert(pow10(18) == 1000000000000000000);
            assert(dec_val(cur) < 1000000000000000000);
        }
        acc = acc * 10 + ((c - 48) as u64);
        k = k + 1;
    }
    proof {
        assert(b@.subrange(0, b@.len() as int) =~= b@);
    }
    Some(acc)
}

proof fn lemma_pow10_step(a: nat, b: nat)
    requires
        a <= b,
    ensures
        pow10(a) <= pow10(b),
        pow10(a) >= 1,
    decreases b,
{
    if a < b {
        lemma_pow10_step(a, (b - 1) as nat);
        assert(pow10(b) == 10 * pow10((b - 1) as nat));
    } else {
        if a > 0 {
            lemma_pow10_step((a - 1) as nat, (a - 1) as nat);
            assert(pow10(a) == 10 * pow10((a - 1) as nat));
        }
    }
}

/// Parses a decimal string.
pub fn parse_u64(s: &String) -> (r: Option<u64>) {
    let b = s.as_str().as_bytes_vec();
    parse_u64_bytes(&b)
}

pub fn parse_u16(s: &String) -> (r: Option<u16>) {
    match parse_u64(s) {
        Some(n) => {
            if n <= 65535 {
                Some(n as u16)
            } else {
                None
            }
        },
        None => None,
    }
}

pub fn parse_u32(s: &String) -> (r: Option<u32>) {
    match parse_u64(s) {
        Some(n) => {
            if n <= 0xffff_ffff {
                Some(n as u32)
            } else {
                None
            }
        },
        None => None,
    }
}

pub fn parse_usize(s: &String) -> (r: Option<usize>) {
    match parse_u64(s) {
        Some(n) => {
            if n <= usize::MAX as u64 {
                Some(n as usize)
            } else {
                None
            }
        },
        None => None,
    }
}

pub open spec fn hexval(b: u8) -> int {
    if 48 <= b <= 57 {
        b - 48
    } else if 97 <= b <= 102 {
        b - 87
    } else if 65 <= b <= 70 {
        b - 55
    } else {
        -1
    }
}

/// Decodes a hexadecimal string into bytes.
pub fn decode_hex_bytes(b: &Vec<u8>) -> (r: Option<Vec<u8>>)
    ensures
        r matches Some(v) ==> b@.len() % 2 == 0 && v@.len() * 2 == b@.len() && forall|j: int|
            0 <= j < v@.len() ==> #[trigger] v@[j] == hexval(b@[2 * j]) * 16 + hexval(
                b@[2 * j + 1],
            ),
{
    if b.len() % 2 != 0 {
        return None;
    }
    let mut out: Vec<u8> = Vec::new();
    let mut k: usize = 0;
    while k + 1 < b.len() || (k < b.len() && k + 1 == b.len())
        invariant
            k <= b@.len(),
            k % 2 == 0,
            b@.len() % 2 == 0,
            out@.len() * 2 == k,
            forall|j: int| 0 <= j < out@.len() ==> #[trigger] out@[j] == hexval(b@[2 * j]) * 16
                + hexval(b@[2 * j + 1]),
        decreases b@.len() - k,
    {
        let hi = b[k];
        let lo = b[k + 1];
        let hv: u8 = if 48 <= hi && hi <= 57 {
            hi - 48
        } else if 97 <= hi && hi <= 102 {
            hi - 87
        } else if 65 <= hi && hi <= 70 {
            hi - 55
        } else {
            return None;
        };
        let lv: u8 = if 48 <= lo && lo <= 57 {
            lo - 48
        } else if 97 <= lo && lo <= 102 {
            lo - 87
        } else if 65 <= lo && lo <= 70 {
            lo - 55
        } else {
            return None;
        };
        out.push(hv * 16 + lv);
        k = k + 2;
    }
    Some(out)
}

pub fn decode_hex(s: &String) -> (r: Option<Vec<u8>>) {
    let b = s.as_str().as_bytes_vec();
    decode_hex_bytes(&b)
}

/// Splits a length-prefixed protocol list, as the harness supplies it.
pub fn split_protocols(b: &Vec<u8>) -> (r: Option<Vec<Vec<u8>>>)
    ensures
        match crate::msgs::p_protos(b@, 0) {
            Some(l) => r matches Some(v) && v.deep_view() == l,
            None => r is None,
        },
{
    crate::msgs::d_protos(b)
}

// ---------------------------------------------------------------------------
// Options
// ---------------------------------------------------------------------------

/// One configured credential: where its material lives and how it may be
/// selected.
#[derive(Debug)]
pub struct Credential {
    pub key_file: String,
    pub cert_file: String,
    pub use_signing_scheme: Option<u16>,
    pub must_match_issuer: bool,
}

impl Credential {
    pub fn new() -> (r: Self)
        ensures
            r.use_signing_scheme is None,
            !r.must_match_issuer,
            r.key_file@.len() == 0,
            r.cert_file@.len() == 0,
    {
        Credential {
            key_file: String::new(),
            cert_file: String::new(),
            use_signing_scheme: None,
            must_match_issuer: false,
        }
    }

    /// Whether both halves of the credential were named.
    pub fn configured(&self) -> (r: bool)
        ensures
            r == (self.cert_file@.len() > 0 && self.key_file@.len() > 0),
    {
        self.cert_file.as_str().unicode_len() > 0 && self.key_file.as_str().unicode_len() > 0
    }
}

/// The default credential plus any extras, and which one a test expects to
/// be selected.
#[derive(Debug)]
pub struct Credentials {
    pub default: Credential,
    pub additional: Vec<Credential>,
    pub expect_selected: Option<i64>,
}

impl Credentials {
    pub fn new() -> (r: Self)
        ensures
            r.additional@.len() == 0,
            r.expect_selected is None,
    {
        Credentials { default: Credential::new(), additional: Vec::new(), expect_selected: None }
    }

    /// The credential that later options refer to: the newest extra, or the
    /// default when none was added.
    pub fn last_mut(&mut self) -> (r: &mut Credential)
        ensures
            old(self).additional@.len() == 0 ==> *r == old(self).default && final(self).default
                == *final(r) && final(self).additional == old(self).additional,
            old(self).additional@.len() > 0 ==> *r == old(self).additional@.last() && final(self).additional@ == old(self).additional@.update(
                old(self).additional@.len() - 1,
                *final(r),
            ) && final(self).default == old(self).default,
            final(self).expect_selected == old(self).expect_selected,
    {
        let n = self.additional.len();
        if n > 0 {
            &mut self.additional[n - 1]
        } else {
            &mut self.default
        }
    }

    /// Whether any credential is fully configured.
    pub fn configured(&self) -> (r: bool)
        ensures
            r == (self.default.cert_file@.len() > 0 && self.default.key_file@.len() > 0 || exists|
                j: int,
            |
                0 <= j < self.additional@.len() && (#[trigger] self.additional@[j]).cert_file@.len()
                    > 0 && self.additional@[j].key_file@.len() > 0),
    {
        if self.default.configured() {
            return true;
        }
        let mut k: usize = 0;
        while k < self.additional.len()
            invariant
                k <= self.additional@.len(),
                forall|j: int| 0 <= j < k ==> !((#[trigger] self.additional@[j]).cert_file@.len()
                    > 0 && self.additional@[j].key_file@.len() > 0),
            decreases self.additional@.len() - k,
        {
            if self.additional[k].configured() {
                return true;
            }
            k = k + 1;
        }
        false
    }
}

/// Which certificate-compression algorithms a test installs.
#[derive(Clone, Copy, Debug, PartialEq, Eq, Structural)]
pub enum CompressionAlgsChoice {
    Nothing,
    All,
    One(u16),
}

/// Whether stapled-response checking is exercised.
#[derive(Clone, Copy, Debug, PartialEq, Eq, Structural)]
pub enum OcspValidation {
    Ignore,
    Reject,
}

/// The host name a run starts with.
pub open spec fn spec_default_host() -> Seq<u8> {
    seq![101u8, 120u8, 97u8, 109u8, 112u8, 108u8, 101u8, 46u8, 99u8, 111u8, 109u8]
}

fn default_host() -> (r: Vec<u8>)
    ensures
        r@ == spec_default_host(),
{
    let mut v: Vec<u8> = Vec::new();
    v.push(101);
    v.push(120);
    v.push(97);
    v.push(109);
    v.push(112);
    v.push(108);
    v.push(101);
    v.push(46);
    v.push(99);
    v.push(111);
    v.push(109);
    assert(v@ =~= spec_default_host());
    v
}

/// Everything the conformance harness can ask of one run.
#[derive(Debug)]
pub struct Options {
    pub port: u16,
    pub shim_id: u64,
    pub side: Side,
    pub max_fragment: Option<usize>,
    pub resumes: usize,
    pub verify_peer: bool,
    pub require_any_client_cert: bool,
    pub server_preference: bool,
    pub root_hint_subjects: Vec<Vec<u8>>,
    pub offer_no_client_cas: bool,
    pub tickets: bool,
    pub resume_with_tickets_disabled: bool,
    pub queue_data: bool,
    pub queue_data_on_resume: bool,
    pub only_write_one_byte_after_handshake: bool,
    pub only_write_one_byte_after_handshake_on_resume: bool,
    pub shut_down_after_handshake: bool,
    pub check_close_notify: bool,
    pub host_name: Vec<u8>,
    pub use_sni: bool,
    pub trusted_cert_file: String,
    pub credentials: Credentials,
    pub protocols: Vec<Vec<u8>>,
    pub reject_alpn: bool,
    pub support_tls13: bool,
    pub support_tls12: bool,
    pub min_version: Option<u16>,
    pub max_version: Option<u16>,
    pub server_ocsp_response: Vec<u8>,
    pub groups: Option<Vec<u16>>,
    pub export_keying_material: usize,
    pub export_keying_material_label: String,
    pub export_keying_material_context: String,
    pub export_keying_material_context_used: bool,
    pub export_traffic_secrets: bool,
    pub read_size: usize,
    pub enable_early_data: bool,
    pub expect_ticket_supports_early_data: bool,
    pub expect_accept_early_data: bool,
    pub expect_reject_early_data: bool,
    pub expect_version: u16,
    pub resumption_delay: u32,
    pub queue_early_data_after_received_messages: Vec<usize>,
    pub require_ems: bool,
    pub expect_handshake_kind: Option<Vec<HandshakeKind>>,
    pub expect_handshake_kind_resumed: Option<Vec<HandshakeKind>>,
    pub install_cert_compression_algs: CompressionAlgsChoice,
    pub selected_provider: SelectedProvider,
    pub ech_config_list: Option<Vec<u8>>,
    pub expect_ech_accept: bool,
    pub expect_ech_retry_configs: Option<Vec<u8>>,
    pub on_resume_ech_config_list: Option<Vec<u8>>,
    pub on_resume_expect_ech_accept: bool,
    pub on_initial_expect_ech_accept: bool,
    pub enable_ech_grease: bool,
    pub send_key_update: bool,
    pub expect_curve_id: Option<u16>,
    pub on_initial_expect_curve_id: Option<u16>,
    pub on_resume_expect_curve_id: Option<u16>,
    pub wait_for_debugger: bool,
    pub ocsp: OcspValidation,
}

impl Options {
    /// The defaults a run starts from.
    pub fn new(selected_provider: SelectedProvider) -> (r: Options)
        ensures
            r.port == 0,
            r.shim_id == 0,
            r.side == Side::Client,
            r.max_fragment is None,
            r.resumes == 0,
            !r.verify_peer,
            r.tickets,
            !r.resume_with_tickets_disabled,
            r.host_name@ == spec_default_host(),
            (r.expect_handshake_kind_resumed matches Some(v) && v@ == seq![
                HandshakeKind::Resumed,
            ]),
            !r.use_sni,
            !r.queue_data,
            !r.shut_down_after_handshake,
            !r.check_close_notify,
            !r.require_any_client_cert,
            !r.server_preference,
            r.root_hint_subjects@.len() == 0,
            r.protocols@.len() == 0,
            !r.reject_alpn,
            r.support_tls13,
            r.support_tls12,
            r.min_version is None,
            r.max_version is None,
            r.groups is None,
            r.export_keying_material == 0,
            r.read_size == 512,
            !r.enable_early_data,
            r.expect_version == 0,
            r.resumption_delay == 0,
            !r.require_ems,
            r.expect_handshake_kind is None,
            r.install_cert_compression_algs == CompressionAlgsChoice::Nothing,
            r.server_ocsp_response@.len() == 0,
            r.on_resume_ech_config_list is None,
            r.selected_provider == selected_provider,
            r.ech_config_list is None,
            !r.enable_ech_grease,
            !r.send_key_update,
            r.ocsp == OcspValidation::Ignore,
    {
        Options {
            port: 0,
            shim_id: 0,
            side: Side::Client,
            max_fragment: None,
            resumes: 0,
            verify_peer: false,
            require_any_client_cert: false,
            server_preference: false,
            root_hint_subjects: Vec::new(),
            offer_no_client_cas: false,
            tickets: true,
            resume_with_tickets_disabled: false,
            queue_data: false,
            queue_data_on_resume: false,
            only_write_one_byte_after_handshake: false,
            only_write_one_byte_after_handshake_on_resume: false,
            shut_down_after_handshake: false,
            check_close_notify: false,
            host_name: default_host(),
            use_sni: false,
            trusted_cert_file: String::new(),
            credentials: Credentials::new(),
            protocols: Vec::new(),
            reject_alpn: false,
            support_tls13: true,
            support_tls12: true,
            min_version: None,
            max_version: None,
            server_ocsp_response: Vec::new(),
            groups: None,
            export_keying_material: 0,
            export_keying_material_label: String::new(),
            export_keying_material_context: String::new(),
            export_keying_material_context_used: false,
            export_traffic_secrets: false,
            read_size: 512,
            enable_early_data: false,
            expect_ticket_supports_early_data: false,
            expect_accept_early_data: false,
            expect_reject_early_data: false,
            expect_version: 0,
            resumption_delay: 0,
            queue_early_data_after_received_messages: Vec::new(),
            require_ems: false,
            expect_handshake_kind: None,
            expect_handshake_kind_resumed: Some(vec![HandshakeKind::Resumed]),
            install_cert_compression_algs: CompressionAlgsChoice::Nothing,
            selected_provider,
            ech_config_list: None,
            expect_ech_accept: false,
            expect_ech_retry_configs: None,
            on_resume_ech_config_list: None,
            on_resume_expect_ech_accept: false,
            on_initial_expect_ech_accept: false,
            enable_ech_grease: false,
            send_key_update: false,
            expect_curve_id: None,
            on_initial_expect_curve_id: None,
            on_resume_expect_curve_id: None,
            wait_for_debugger: false,
            ocsp: OcspValidation::Ignore,
        }
    }

    /// Whether a protocol version lies inside the configured bounds.
    pub fn version_allowed(&self, vers: u16) -> (r: bool)
        ensures
            r == ((self.min_version matches Some(mn) ==> vers >= mn) && (self.max_version
                matches Some(mx) ==> vers <= mx)),
    {
        let min_ok = match self.min_version {
            Some(mn) => vers >= mn,
            None => true,
        };
        let max_ok = match self.max_version {
            Some(mx) => vers <= mx,
            None => true,
        };
        min_ok && max_ok
    }

    pub fn tls13_supported(&self) -> (r: bool)
        ensures
            r == (self.support_tls13 && (self.min_version matches Some(mn) ==> TLS13 >= mn) && (
            self.max_version matches Some(mx) ==> TLS13 <= mx)),
    {
        self.support_tls13 && self.version_allowed(TLS13)
    }

    pub fn tls12_supported(&self) -> (r: bool)
        ensures
            r == (self.support_tls12 && (self.min_version matches Some(mn) ==> TLS12 >= mn) && (
            self.max_version matches Some(mx) ==> TLS12 <= mx)),
    {
        self.support_tls12 && self.version_allowed(TLS12)
    }

    /// The protocol versions this option set enables, oldest first.
    pub open spec fn spec_supported_versions(self) -> Seq<u16> {
        let has12 = self.support_tls12 && (self.min_version matches Some(mn) ==> TLS12 >= mn) && (
        self.max_version matches Some(mx) ==> TLS12 <= mx);
        let has13 = self.support_tls13 && (self.min_version matches Some(mn) ==> TLS13 >= mn) && (
        self.max_version matches Some(mx) ==> TLS13 <= mx);
        if has12 && has13 {
            seq![TLS12, TLS13]
        } else if has12 {
            seq![TLS12]
        } else if has13 {
            seq![TLS13]
        } else {
            Seq::empty()
        }
    }

    /// The enabled protocol versions, oldest first.
    pub fn supported_versions(&self) -> (r: Vec<u16>)
        ensures
            r@ == self.spec_supported_versions(),
            r@.contains(TLS12) == (self.support_tls12 && (self.min_version matches Some(mn)
                ==> TLS12 >= mn) && (self.max_version matches Some(mx) ==> TLS12 <= mx)),
            r@.contains(TLS13) == (self.support_tls13 && (self.min_version matches Some(mn)
                ==> TLS13 >= mn) && (self.max_version matches Some(mx) ==> TLS13 <= mx)),
            r@.len() <= 2,
    {
        let has12 = self.tls12_supported();
        let has13 = self.tls13_supported();
        let mut versions: Vec<u16> = Vec::new();
        if has12 {
            versions.push(TLS12);
        }
        if has13 {
            versions.push(TLS13);
        }
        proof {
            if has12 && has13 {
                assert(versions@ =~= seq![TLS12, TLS13]);
                assert(versions@[0] == TLS12 && versions@[1] == TLS13);
            } else if has12 {
                assert(versions@ =~= seq![TLS12]);
                assert(versions@[0] == TLS12);
                assert(forall|j: int| 0 <= j < versions@.len() ==> versions@[j] != TLS13);
            } else if has13 {
                assert(versions@ =~= seq![TLS13]);
                assert(versions@[0] == TLS13);
                assert(forall|j: int| 0 <= j < versions@.len() ==> versions@[j] != TLS12);
            } else {
                assert(versions@ =~= Seq::<u16>::empty());
            }
        }
        versions
    }
}

/// Size bounds the configuration builders rely on.  The counts are forced
/// by the wire format, not chosen freely: every extension body must fit its
/// two-byte length prefix, and the hello's whole extension block shares one
/// two-byte prefix across at most a dozen extensions, which caps the
/// protocol list and the name lists it carries; the driver rejects inputs
/// beyond them rather than build a hello that cannot be encoded.
pub open spec fn wf_opts(o: Options) -> bool {
    &&& o.protocols@.len() <= 16
    &&& (forall|j: int| 0 <= j < o.protocols@.len() ==> 1 <= (#[trigger] o.protocols@[j])@.len()
        < 256)
    &&& o.root_hint_subjects@.len() <= 8
    &&& (forall|j: int| 0 <= j < o.root_hint_subjects@.len() ==> (
    #[trigger] o.root_hint_subjects@[j])@.len() < 512)
    &&& o.server_ocsp_response@.len() < 2048
    &&& (o.groups matches Some(g) ==> 1 <= g@.len() <= 8)
    &&& (o.ech_config_list matches Some(e) ==> e@.len() < 512)
    &&& (o.on_resume_ech_config_list matches Some(e) ==> e@.len() < 512)
    &&& o.host_name@.len() < 256
}

// ---------------------------------------------------------------------------
// Configuration construction
// ---------------------------------------------------------------------------

/// Credential material already loaded from disk by the caller.
#[derive(Debug)]
pub struct LoadedKey {
    pub chain: Vec<Vec<u8>>,
    pub schemes: Vec<u16>,
    pub algorithm: u16,
}

/// Why a configuration could not be built.
#[derive(Clone, Copy, Debug, PartialEq, Eq, Structural)]
pub enum CfgError {
    /// A value was out of the supported range.
    BadValue,
    /// The encrypted-hello configuration list is not well formed.
    InvalidEchConfigList,
}

pub open spec fn spec_default_suites() -> Seq<u16> {
    seq![0x1301u16, 0x1302u16, 0x1303u16, 0xc02bu16, 0xc02fu16]
}

pub open spec fn spec_default_groups() -> Seq<u16> {
    seq![0x001du16, 0x0017u16, 0x0018u16]
}

/// Which compression algorithms a choice installs.
pub open spec fn spec_compressors(choice: CompressionAlgsChoice) -> Seq<CompressionAlg> {
    match choice {
        CompressionAlgsChoice::Nothing => Seq::empty(),
        CompressionAlgsChoice::All => seq![
            CompressionAlg::Expanding,
            CompressionAlg::Shrinking,
            CompressionAlg::Random,
        ],
        CompressionAlgsChoice::One(_) => seq![CompressionAlg::Shrinking],
    }
}

/// Whether the choice names algorithms this crate provides.
pub open spec fn spec_compressors_ok(choice: CompressionAlgsChoice) -> bool {
    match choice {
        CompressionAlgsChoice::One(code) => code == crate::compress::ALG_SHRINKING,
        _ => true,
    }
}

/// The record-fragment bound a run uses.
pub open spec fn spec_fragment_ok(o: Option<usize>) -> bool {
    match o {
        Some(m) => 1 <= m <= 16384,
        None => true,
    }
}

/// A structurally valid encrypted-hello configuration list: one
/// length-prefixed block covering the whole input.
pub open spec fn spec_ech_list_ok(b: Seq<u8>) -> bool {
    crate::codec::p_vec16(b, 0) matches crate::codec::SpecParse::Val(body, j) && j == b.len()
}

/// Whether a configured encrypted-hello list, if it will be used, is well
/// formed.
pub open spec fn spec_ech_cfg_ok(opts: Options) -> bool {
    match opts.ech_config_list {
        Some(e) => crate::provider::spec_supports_ech(opts.selected_provider)
            ==> spec_ech_list_ok(e@),
        None => true,
    }
}

/// Whether a configured encrypted-hello list is in use and malformed.
pub open spec fn spec_ech_cfg_bad(opts: Options) -> bool {
    match opts.ech_config_list {
        Some(e) => crate::provider::spec_supports_ech(opts.selected_provider)
            && !spec_ech_list_ok(e@),
        None => false,
    }
}

fn ech_list_ok(b: &Vec<u8>) -> (r: bool)
    ensures
        r == spec_ech_list_ok(b@),
{
    match crate::codec::get_vec16(b, 0) {
        Ok((_, j)) => j == b.len(),
        Err(_) => false,
    }
}

/// Whether loaded credential material can become a client credential: the
/// chain is non-empty, its end-entity certificate has a parseable issuer,
/// and any requested pinned scheme is one the engine recognises.
pub open spec fn spec_key_ok(chain: Seq<Vec<u8>>, scheme: Option<u16>) -> bool {
    &&& chain.len() > 0
    &&& issuer_of(chain.last()@) is Some
    &&& (scheme matches Some(s) ==> spec_scheme_supported(s))
}

/// The pinned scheme configured for the extra credential at `i`, if any.
pub open spec fn spec_add_scheme(creds: Credentials, i: int) -> Option<u16> {
    if 0 <= i < creds.additional@.len() {
        creds.additional@[i].use_signing_scheme
    } else {
        None
    }
}

pub open spec fn spec_add_must_match(creds: Credentials, i: int) -> bool {
    if 0 <= i < creds.additional@.len() {
        creds.additional@[i].must_match_issuer
    } else {
        false
    }
}

fn compressors_for(choice: CompressionAlgsChoice) -> (r: Option<Vec<CompressionAlg>>)
    ensures
        (r is Some) == spec_compressors_ok(choice),
        r matches Some(v) ==> v@ == spec_compressors(choice),
{
    match choice {
        CompressionAlgsChoice::Nothing => {
            let v: Vec<CompressionAlg> = Vec::new();
            assert(v@ =~= spec_compressors(choice));
            Some(v)
        },
        CompressionAlgsChoice::All => {
            let mut v: Vec<CompressionAlg> = Vec::new();
            v.push(CompressionAlg::Expanding);
            v.push(CompressionAlg::Shrinking);
            v.push(CompressionAlg::Random);
            assert(v@ =~= spec_compressors(choice));
            Some(v)
        },
        CompressionAlgsChoice::One(code) => {
            if code == crate::compress::ALG_SHRINKING {
                let mut v: Vec<CompressionAlg> = Vec::new();
                v.push(CompressionAlg::Shrinking);
                assert(v@ =~= spec_compressors(choice));
                Some(v)
            } else {
                None
            }
        },
    }
}

fn default_suites() -> (r: Vec<u16>)
    ensures
        r@ == spec_default_suites(),
{
    let mut v: Vec<u16> = Vec::new();
    v.push(0x1301);
    v.push(0x1302);
    v.push(0x1303);
    v.push(0xc02b);
    v.push(0xc02f);
    assert(v@ =~= spec_default_suites());
    v
}

fn default_groups() -> (r: Vec<u16>)
    ensures
        r@ == spec_default_groups(),
{
    let mut v: Vec<u16> = Vec::new();
    v.push(0x001d);
    v.push(0x0017);
    v.push(0x0018);
    assert(v@ =~= spec_default_groups());
    v
}

/// Builds the client credential resolver from the loaded material: it
/// succeeds exactly when every loaded credential can become a client
/// certificate.
#[verifier::rlimit(100)]
#[verifier::spinoff_prover]
fn build_resolver(
    opts: &Options,
    default_key: &Option<LoadedKey>,
    additional_keys: &Vec<LoadedKey>,
) -> (r: Result<Option<MultipleClientCredentialResolver>, CfgError>)
    ensures
        (r is Ok) <==> ((default_key matches Some(k) ==> spec_key_ok(
            k.chain@,
            opts.credentials.default.use_signing_scheme,
        )) && (forall|i: int|
            0 <= i < additional_keys@.len() ==> spec_key_ok(
                (#[trigger] additional_keys@[i]).chain@,
                spec_add_scheme(opts.credentials, i),
            ))),
        r matches Ok(ro) ==> {
            &&& ((ro is Some) <==> (default_key is Some || additional_keys@.len() > 0))
            &&& (ro matches Some(res) ==> res.expect_selected == opts.credentials.expect_selected
                && ((res.default is Some) <==> (default_key is Some)) && res.additional@.len()
                == additional_keys@.len())
        },
        r matches Err(e) ==> e == CfgError::BadValue,
{
    let has_default = default_key.is_some();
    if !has_default && additional_keys.len() == 0 {
        return Ok(None);
    }
    let mut res = MultipleClientCredentialResolver::new();
    res.expect_selected = opts.credentials.expect_selected;
    match default_key {
        Some(k) => {
            let chain = copy_protocols(&k.chain);
            let certkey = CertifiedKey {
                cert_chain: chain,
                key: SigningKey { schemes: copy_u16s(&k.schemes), algorithm: k.algorithm },
            };
            let ghost ck = certkey;
            match ClientCert::new(
                certkey,
                opts.credentials.default.use_signing_scheme,
                opts.credentials.default.must_match_issuer,
            ) {
                Some(c) => {
                    res.set_default(c);
                    proof {
                        lemma_key_ok_views(
                            ck.cert_chain@,
                            k.chain@,
                            opts.credentials.default.use_signing_scheme,
                        );
                    }
                },
                None => {
                    proof {
                        lemma_key_ok_views(
                            ck.cert_chain@,
                            k.chain@,
                            opts.credentials.default.use_signing_scheme,
                        );
                    }
                    return Err(CfgError::BadValue);
                },
            }
        },
        None => {},
    }
    let mut idx: usize = 0;
    while idx < additional_keys.len()
        invariant
            idx <= additional_keys@.len(),
            res.additional@.len() == idx,
            res.expect_selected == opts.credentials.expect_selected,
            (res.default is Some) <==> has_default,
            has_default == (default_key is Some),
            (default_key matches Some(k) ==> spec_key_ok(
                k.chain@,
                opts.credentials.default.use_signing_scheme,
            )),
            forall|i: int|
                0 <= i < idx ==> spec_key_ok(
                    (#[trigger] additional_keys@[i]).chain@,
                    spec_add_scheme(opts.credentials, i),
                ),
        decreases additional_keys@.len() - idx,
    {
        let (scheme, must_match) = if idx < opts.credentials.additional.len() {
            (
                opts.credentials.additional[idx].use_signing_scheme,
                opts.credentials.additional[idx].must_match_issuer,
            )
        } else {
            (None, false)
        };
        proof {
            assert(scheme == spec_add_scheme(opts.credentials, idx as int));
        }
        let chain = copy_protocols(&additional_keys[idx].chain);
        let certkey = CertifiedKey {
            cert_chain: chain,
            key: SigningKey {
                schemes: copy_u16s(&additional_keys[idx].schemes),
                algorithm: additional_keys[idx].algorithm,
            },
        };
        let ghost ck = certkey;
        match ClientCert::new(certkey, scheme, must_match) {
            Some(c) => {
                res.add(c);
                proof {
                    lemma_key_ok_views(ck.cert_chain@, additional_keys@[idx as int].chain@, scheme);
                }
            },
            None => {
                proof {
                    lemma_key_ok_views(ck.cert_chain@, additional_keys@[idx as int].chain@, scheme);
                    assert(!spec_key_ok(
                        (additional_keys@[idx as int]).chain@,
                        spec_add_scheme(opts.credentials, idx as int),
                    ));
                }
                return Err(CfgError::BadValue);
            },
        }
        idx = idx + 1;
    }
    Ok(Some(res))
}

/// Two chains whose certificates agree byte for byte can build a credential
/// under exactly the same conditions.
proof fn lemma_key_ok_views(a: Seq<Vec<u8>>, b: Seq<Vec<u8>>, scheme: Option<u16>)
    requires
        a.len() == b.len(),
        forall|j: int| 0 <= j < b.len() ==> (#[trigger] a[j])@ == b[j]@,
    ensures
        spec_key_ok(a, scheme) == spec_key_ok(b, scheme),
{
    if a.len() > 0 {
        assert(a[a.len() - 1]@ == b[b.len() - 1]@);
        assert(a.last()@ == b.last()@);
    }
}

/// Builds the client configuration from the options and the credential/// Builds the client configuration from the options and the credential
/// material the caller loaded: it succeeds exactly when every value is in
/// range, the compression selection is one the crate provides, a configured
/// encrypted-hello list is well formed, and every loaded credential can be
/// turned into a client certificate.
#[verifier::rlimit(100)]
#[verifier::spinoff_prover]
pub fn make_client_cfg(
    opts: &Options,
    default_key: Option<LoadedKey>,
    additional_keys: Vec<LoadedKey>,
) -> (r: Result<ClientConfig, CfgError>)
    requires
        wf_opts(*opts),
    ensures
        (r is Ok) <==> (spec_fragment_ok(opts.max_fragment) && spec_compressors_ok(
            opts.install_cert_compression_algs,
        ) && spec_ech_cfg_ok(*opts) && (
        default_key matches Some(k) ==> spec_key_ok(
            k.chain@,
            opts.credentials.default.use_signing_scheme,
        )) && (forall|i: int|
            0 <= i < additional_keys@.len() ==> spec_key_ok(
                (#[trigger] additional_keys@[i]).chain@,
                spec_add_scheme(opts.credentials, i),
            ))),
        r == Err::<ClientConfig, CfgError>(CfgError::InvalidEchConfigList) ==> spec_ech_cfg_bad(
            *opts,
        ),
        r matches Ok(c) ==> {
            &&& crate::conn::wf_client_config(c)
            &&& c.versions@ == opts.spec_supported_versions()
            &&& c.suites@ == spec_default_suites()
            &&& (match opts.groups {
                Some(g) => c.groups@ == g@,
                None => c.groups@ == spec_default_groups(),
            })
            &&& c.alpn@.len() == opts.protocols@.len()
            &&& (forall|j: int| 0 <= j < c.alpn@.len() ==> (#[trigger] c.alpn@[j])@
                == opts.protocols@[j]@)
            &&& c.enable_sni == opts.use_sni
            &&& c.hostname@ == opts.host_name@
            &&& c.resumption.spec_delay() == opts.resumption_delay
            &&& c.resumption.spec_tls12().len() == 0
            &&& c.resumption.spec_tickets().len() == 0
            &&& c.tickets_enabled == opts.tickets
            &&& c.enable_early_data == opts.enable_early_data
            &&& (match opts.max_fragment {
                Some(m) => c.max_fragment == m,
                None => c.max_fragment == 16384,
            })
            &&& c.require_ems == opts.require_ems
            &&& c.key_log_enabled == opts.export_traffic_secrets
            &&& c.compressors@ == spec_compressors(opts.install_cert_compression_algs)
            &&& ((c.ech_config is Some) <==> (crate::provider::spec_supports_ech(
                opts.selected_provider,
            ) && opts.ech_config_list is Some))
            &&& (match (c.ech_config, opts.ech_config_list) {
                (Some(a), Some(b)) => a@ == b@,
                _ => true,
            })
            &&& c.ech_grease == (opts.enable_ech_grease && crate::provider::spec_supports_ech(
                opts.selected_provider,
            ))
            &&& ((c.resolver is Some) <==> (default_key is Some || additional_keys@.len() > 0))
            &&& (c.resolver matches Some(res) ==> res.expect_selected
                == opts.credentials.expect_selected && ((res.default is Some) <==> (default_key
                is Some)) && res.additional@.len() == additional_keys@.len())
            &&& c.reject_ocsp == (opts.ocsp == OcspValidation::Reject)
        },
{
    let versions = opts.supported_versions();
    let suites = default_suites();
    let groups = match &opts.groups {
        Some(g) => copy_u16s(g),
        None => default_groups(),
    };
    let alpn = copy_protocols(&opts.protocols);
    let hostname = crate::codec::copy_range(&opts.host_name, 0, opts.host_name.len());
    proof {
        assert(hostname@ =~= opts.host_name@);
    }
    let max_fragment = match opts.max_fragment {
        Some(m) => {
            if 1 <= m && m <= 16384 {
                m
            } else {
                return Err(CfgError::BadValue);
            }
        },
        None => 16384,
    };
    proof {
        assert(spec_fragment_ok(opts.max_fragment));
    }
    let compressors = match compressors_for(opts.install_cert_compression_algs) {
        Some(v) => v,
        None => {
            return Err(CfgError::BadValue);
        },
    };
    proof {
        assert(spec_compressors_ok(opts.install_cert_compression_algs));
    }
    let supports_ech = opts.selected_provider.supports_ech();
    let ech_config = if supports_ech {
        match &opts.ech_config_list {
            Some(e) => {
                if !ech_list_ok(e) {
                    return Err(CfgError::InvalidEchConfigList);
                }
                Some(crate::codec::copy_range(e, 0, e.len()))
            },
            None => None,
        }
    } else {
        None
    };
    proof {
        assert(spec_ech_cfg_ok(*opts));
    }
    let resolver = match build_resolver(opts, &default_key, &additional_keys) {
        Ok(v) => v,
        Err(e) => {
            return Err(e);
        },
    };
    Ok(
        ClientConfig {
            versions,
            suites,
            groups,
            alpn,
            enable_sni: opts.use_sni,
            hostname,
            resumption: ClientCacheWithoutKxHints::new(opts.resumption_delay),
            tickets_enabled: opts.tickets,
            enable_early_data: opts.enable_early_data,
            max_fragment,
            require_ems: opts.require_ems,
            key_log_enabled: opts.export_traffic_secrets,
            compressors,
            ech_config,
            ech_grease: opts.enable_ech_grease && supports_ech,
            resolver,
            reject_ocsp: matches!(opts.ocsp, OcspValidation::Reject),
        },
    )
}

/// Whether a certificate chain fits the server message bounds.
fn chain_in_bounds(chain: &Vec<Vec<u8>>) -> (r: bool)
    ensures
        r == (1 <= chain@.len() <= 8 && forall|j: int|
            0 <= j < chain@.len() ==> (#[trigger] chain@[j])@.len() < 16384),
{
    if chain.len() == 0 || chain.len() > 8 {
        return false;
    }
    let mut k: usize = 0;
    while k < chain.len()
        invariant
            k <= chain@.len(),
            1 <= chain@.len() <= 8,
            forall|j: int| 0 <= j < k ==> (#[trigger] chain@[j])@.len() < 16384,
        decreases chain@.len() - k,
    {
        if chain[k].len() >= 16384 {
            return false;
        }
        k = k + 1;
    }
    true
}

/// The substitute protocol a rejecting server advertises, which no real
/// client names.
pub open spec fn spec_reject_alpn_entry() -> Seq<u8> {
    seq![105u8, 110u8, 118u8, 97u8, 108u8, 105u8, 100u8]
}

/// Builds the server configuration from the options and the loaded server
/// credential: it succeeds exactly when every value is in range, the
/// compression selection is provided, the chain fits the wire bounds, and
/// any pinned signature scheme is recognised.
#[verifier::rlimit(100)]
#[verifier::spinoff_prover]
pub fn make_server_cfg(opts: &Options, key: LoadedKey) -> (r: Result<ServerConfig, CfgError>)
    requires
        wf_opts(*opts),
    ensures
        (r is Ok) <==> (spec_fragment_ok(opts.max_fragment) && spec_compressors_ok(
            opts.install_cert_compression_algs,
        ) && 1 <= key.chain@.len() <= 8 && (forall|j: int|
            0 <= j < key.chain@.len() ==> (#[trigger] key.chain@[j])@.len() < 16384) && (
        opts.credentials.default.use_signing_scheme matches Some(s) ==> spec_scheme_supported(
            s,
        ))),
        r matches Ok(c) ==> {
            &&& crate::conn::wf_server_config(c)
            &&& c.versions@ == opts.spec_supported_versions()
            &&& c.suites@ == spec_default_suites()
            &&& (match opts.groups {
                Some(g) => c.groups@ == g@,
                None => c.groups@ == spec_default_groups(),
            })
            &&& (opts.reject_alpn ==> c.alpn@.len() == 1 && c.alpn@[0]@
                == spec_reject_alpn_entry())
            &&& (!opts.reject_alpn ==> c.alpn@.len() == opts.protocols@.len() && (forall|j: int|
                0 <= j < c.alpn@.len() ==> (#[trigger] c.alpn@[j])@ == opts.protocols@[j]@))
            &&& ((c.ticketer is Some) == opts.tickets)
            &&& ((opts.tickets || opts.resumes > 0) <==> (c.session_storage
                matches ServerStorage::Memory(m)))
            &&& (c.session_storage matches ServerStorage::Memory(m) ==> m.spec_delay()
                == opts.resumption_delay && m.contents().len() == 0)
            &&& (match opts.max_fragment {
                Some(m) => c.max_fragment == m,
                None => c.max_fragment == 16384,
            })
            &&& c.require_ems == opts.require_ems
            &&& c.ignore_client_order == opts.server_preference
            &&& c.max_early_data == (if opts.enable_early_data {
                14336u32
            } else {
                0u32
            })
            &&& c.send_half_rtt_data == opts.enable_early_data
            &&& c.ticket_lifetime == 7200
            &&& c.send_tls13_tickets == 1
            &&& c.compressors@ == spec_compressors(opts.install_cert_compression_algs)
            &&& c.offer_client_auth == (opts.verify_peer || opts.offer_no_client_cas
                || opts.require_any_client_cert)
            &&& c.require_client_auth == opts.require_any_client_cert
            &&& c.root_hint_subjects@.len() == opts.root_hint_subjects@.len()
            &&& (forall|j: int| 0 <= j < c.root_hint_subjects@.len() ==> (
            #[trigger] c.root_hint_subjects@[j])@ == opts.root_hint_subjects@[j]@)
            &&& c.key_log_enabled == opts.export_traffic_secrets
            &&& c.ocsp_response@ == opts.server_ocsp_response@
            &&& c.cert_chain == key.chain
            &&& (match opts.credentials.default.use_signing_scheme {
                Some(s) => ((c.key_schemes@.contains(s) <==> key.schemes@.contains(s)) && (forall|
                    x: u16,
                | x != s ==> !c.key_schemes@.contains(x))),
                None => c.key_schemes@ == (if key.schemes@.len() <= 32 {
                    key.schemes@
                } else {
                    key.schemes@.subrange(0, 32)
                }),
            })
            &&& c.ech_config is None
        },
{
    let versions = opts.supported_versions();
    let suites = default_suites();
    let groups = match &opts.groups {
        Some(g) => copy_u16s(g),
        None => default_groups(),
    };
    let mut alpn = copy_protocols(&opts.protocols);
    if opts.reject_alpn {
        let mut inval: Vec<u8> = Vec::new();
        inval.push(105);
        inval.push(110);
        inval.push(118);
        inval.push(97);
        inval.push(108);
        inval.push(105);
        inval.push(100);
        assert(inval@ =~= spec_reject_alpn_entry());
        let mut only: Vec<Vec<u8>> = Vec::new();
        only.push(inval);
        alpn = only;
    }
    let max_fragment = match opts.max_fragment {
        Some(m) => {
            if 1 <= m && m <= 16384 {
                m
            } else {
                return Err(CfgError::BadValue);
            }
        },
        None => 16384,
    };
    let compressors = match compressors_for(opts.install_cert_compression_algs) {
        Some(v) => v,
        None => {
            return Err(CfgError::BadValue);
        },
    };
    if !chain_in_bounds(&key.chain) {
        return Err(CfgError::BadValue);
    }
    // pinning: a configured signing preference restricts the key to that
    // scheme, as the original's fixed-scheme resolver wrapper does
    let schemes = match opts.credentials.default.use_signing_scheme {
        Some(code) => {
            let pinned = match lookup_scheme(code) {
                Some(sch) => sch,
                None => {
                    return Err(CfgError::BadValue);
                },
            };
            let sk = SigningKey { schemes: key.schemes, algorithm: key.algorithm };
            let sk2 = sk.fix_scheme(pinned);
            sk2.schemes
        },
        None => {
            if key.schemes.len() > 32 {
                crate::codec::copy_range_u16_prefix(&key.schemes, 32)
            } else {
                key.schemes
            }
        },
    };
    let ticketer = if opts.tickets {
        Some(opts.selected_provider.ticketer())
    } else {
        None
    };
    let session_storage = if !opts.tickets && opts.resumes == 0 {
        ServerStorage::Nothing(NoServerSessionStorage)
    } else {
        ServerStorage::Memory(ServerCacheWithResumptionDelay::new(opts.resumption_delay))
    };
    Ok(
        ServerConfig {
            versions,
            suites,
            groups,
            alpn,
            session_storage,
            ticketer,
            max_fragment,
            require_ems: opts.require_ems,
            ignore_client_order: opts.server_preference,
            max_early_data: if opts.enable_early_data {
                14336
            } else {
                0
            },
            send_half_rtt_data: opts.enable_early_data,
            ticket_lifetime: 7200,
            send_tls13_tickets: 1,
            compressors,
            offer_client_auth: opts.verify_peer || opts.offer_no_client_cas
                || opts.require_any_client_cert,
            require_client_auth: opts.require_any_client_cert,
            root_hint_subjects: copy_hints(&opts.root_hint_subjects),
            key_log_enabled: opts.export_traffic_secrets,
            ocsp_response: crate::codec::copy_range(
                &opts.server_ocsp_response,
                0,
                opts.server_ocsp_response.len(),
            ),
            cert_chain: key.chain,
            key_schemes: schemes,
            ech_config: None,
        },
    )
}

fn copy_u16s(v: &Vec<u16>) -> (r: Vec<u16>)
    ensures
        r@ == v@,
{
    let mut out: Vec<u16> = Vec::new();
    crate::codec::append_u16s(&mut out, v);
    out
}

fn copy_protocols(v: &Vec<Vec<u8>>) -> (r: Vec<Vec<u8>>)
    ensures
        r@.len() == v@.len(),
        forall|j: int| 0 <= j < v@.len() ==> (#[trigger] r@[j])@ == v@[j]@,
{
    let mut out: Vec<Vec<u8>> = Vec::new();
    let mut k: usize = 0;
    while k < v.len()
        invariant
            k <= v@.len(),
            out@.len() == k,
            forall|j: int| 0 <= j < k ==> (#[trigger] out@[j])@ == v@[j]@,
        decreases v@.len() - k,
    {
        out.push(crate::codec::copy_range(&v[k], 0, v[k].len()));
        k = k + 1;
    }
    out
}

fn copy_hints(v: &Vec<Vec<u8>>) -> (r: Vec<Vec<u8>>)
    ensures
        r@.len() == v@.len(),
        forall|j: int| 0 <= j < v@.len() ==> (#[trigger] r@[j])@ == v@[j]@,
{
    copy_protocols(v)
}

} // verus!
