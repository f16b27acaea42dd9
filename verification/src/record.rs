//! The record layer: framing, per-direction key epochs and sequence
//! numbers, record protection, and fragmentation.
//!
//! Each direction moves through key epochs (plaintext, early data,
//! handshake, application generations).  A sequence number never repeats
//! under a live key: on exhaustion the layer fails closed rather than wrap.

use vstd::prelude::*;

use crate::codec::{
    DecodeError, SpecParse, enc_u8, enc_u16, enc_vec16, p_u8, p_u16, p_vec16, lemma_split_concat,
    lemma_p_u8, lemma_p_u16, lemma_p_vec16, put_u8, put_u16, put_vec16, get_u8, get_u16,
    get_vec16, copy_range,
};
use crate::errs::{Error, PeerMisbehaved};
use crate::provider::CryptoProvider;

verus! {

pub const CT_CHANGE_CIPHER_SPEC: u8 = 20;
pub const CT_ALERT: u8 = 21;
pub const CT_HANDSHAKE: u8 = 22;
pub const CT_APPLICATION_DATA: u8 = 23;

/// Largest plaintext fragment a record may carry.
pub const MAX_PLAIN_LEN: usize = 16384;

/// Largest ciphertext a record may carry (plaintext bound plus expansion).
pub const MAX_CIPHER_LEN: usize = 16640;

/// Sequence numbers stop one short of the top to leave the final value as a
/// poisoned sentinel.
pub const SEQ_LIMIT: u64 = 0xffff_ffff_ffff_fffe;

/// How many consecutive empty application-data records are tolerated.
pub const MAX_EMPTY_RECORDS: u32 = 32;

// ---------------------------------------------------------------------------
// Record framing
// ---------------------------------------------------------------------------

pub open spec fn enc_record(typ: u8, ver: u16, payload: Seq<u8>) -> Seq<u8> {
    enc_u8(typ) + (enc_u16(ver) + enc_vec16(payload))
}

/// Parses one record frame; a declared length over the ciphertext bound is
/// malformed, and insufficient input is truncation.
pub open spec fn p_record(s: Seq<u8>, i: int) -> SpecParse<(u8, u16, Seq<u8>)> {
    match p_u8(s, i) {
        SpecParse::Val(typ, j) => match p_u16(s, j) {
            SpecParse::Val(ver, k) => match p_vec16(s, k) {
                SpecParse::Val(payload, m) => if payload.len() <= MAX_CIPHER_LEN {
                    SpecParse::Val((typ, ver, payload), m)
                } else {
                    SpecParse::Bad
                },
                SpecParse::Short => SpecParse::Short,
                SpecParse::Bad => SpecParse::Bad,
            },
            SpecParse::Short => SpecParse::Short,
            SpecParse::Bad => SpecParse::Bad,
        },
        SpecParse::Short => SpecParse::Short,
        SpecParse::Bad => SpecParse::Bad,
    }
}

/// Round trip for record framing.
pub proof fn lemma_record_round_trip(typ: u8, ver: u16, payload: Seq<u8>)
    requires
        payload.len() <= MAX_CIPHER_LEN,
    ensures
        p_record(enc_record(typ, ver, payload), 0) == SpecParse::Val(
            (typ, ver, payload),
            enc_record(typ, ver, payload).len() as int,
        ),
{
    let s = enc_record(typ, ver, payload);
    assert(s.subrange(0, s.len() as int) =~= s);
    lemma_split_concat(s, 0, enc_u8(typ), enc_u16(ver) + enc_vec16(payload));
    lemma_p_u8(s, 0, typ);
    lemma_split_concat(s, 1, enc_u16(ver), enc_vec16(payload));
    lemma_p_u16(s, 1, ver);
    lemma_p_vec16(s, 3, payload);
}

/// Appends one framed record.
pub fn put_record(out: &mut Vec<u8>, typ: u8, ver: u16, payload: &Vec<u8>)
    requires
        payload@.len() <= MAX_CIPHER_LEN,
    ensures
        final(out)@ == old(out)@ + enc_record(typ, ver, payload@),
{
    put_u8(out, typ);
    put_u16(out, ver);
    put_vec16(out, payload);
    assert(out@ =~= old(out)@ + enc_record(typ, ver, payload@));
}

/// Reads one framed record starting at `i`.
pub fn get_record(s: &Vec<u8>, i: usize) -> (r: Result<(u8, u16, Vec<u8>, usize), DecodeError>)
    ensures
        match p_record(s@, i as int) {
            SpecParse::Val(v, j) => r matches Ok(p) && p.0 == v.0 && p.1 == v.1 && p.2@ == v.2
                && p.3 as int == j && i < p.3 <= s@.len(),
            SpecParse::Short => r == Err::<(u8, u16, Vec<u8>, usize), DecodeError>(
                DecodeError::Truncated,
            ),
            SpecParse::Bad => r == Err::<(u8, u16, Vec<u8>, usize), DecodeError>(
                DecodeError::Malformed,
            ),
        },
{
    let (typ, j) = get_u8(s, i)?;
    let (ver, k) = get_u16(s, j)?;
    let (payload, m) = get_vec16(s, k)?;
    if payload.len() > MAX_CIPHER_LEN {
        return Err(DecodeError::Malformed);
    }
    Ok((typ, ver, payload, m))
}

// ---------------------------------------------------------------------------
// Fragmentation
// ---------------------------------------------------------------------------

pub open spec fn spec_concat(l: Seq<Seq<u8>>) -> Seq<u8>
    decreases l.len(),
{
    if l.len() == 0 {
        Seq::empty()
    } else {
        l[0] + spec_concat(l.skip(1))
    }
}

proof fn lemma_spec_concat_push(l: Seq<Seq<u8>>, x: Seq<u8>)
    ensures
        spec_concat(l.push(x)) == spec_concat(l) + x,
    decreases l.len(),
{
    if l.len() == 0 {
        assert(l.push(x)[0] == x);
        assert(l.push(x).skip(1) =~= Seq::<Seq<u8>>::empty());
        assert(spec_concat(l.push(x)) == x + spec_concat(Seq::<Seq<u8>>::empty()));
        assert(x + Seq::<u8>::empty() =~= spec_concat(l) + x);
    } else {
        assert(l.push(x)[0] == l[0]);
        assert(l.push(x).skip(1) =~= l.skip(1).push(x));
        lemma_spec_concat_push(l.skip(1), x);
        assert(spec_concat(l.push(x)) == l[0] + (spec_concat(l.skip(1)) + x));
        assert(l[0] + (spec_concat(l.skip(1)) + x) =~= (l[0] + spec_concat(l.skip(1))) + x);
    }
}

/// Splits plaintext into fragments no longer than `max`; the concatenation
/// of the fragments is exactly the input, and no fragment is empty.
pub fn fragment(payload: &Vec<u8>, max: usize) -> (r: Vec<Vec<u8>>)
    requires
        max >= 1,
    ensures
        spec_concat(r.deep_view()) == payload@,
        forall|j: int| 0 <= j < r.deep_view().len() ==> 1 <= (#[trigger] r.deep_view()[j]).len()
            <= max,
        r.deep_view().len() <= payload@.len(),
{
    let mut out: Vec<Vec<u8>> = Vec::new();
    let mut pos: usize = 0;
    while pos < payload.len()
        invariant
            pos <= payload@.len(),
            max >= 1,
            out.deep_view().len() <= pos,
            spec_concat(out.deep_view()) == payload@.subrange(0, pos as int),
            forall|j: int| 0 <= j < out.deep_view().len() ==> 1 <= (
            #[trigger] out.deep_view()[j]).len() <= max,
        decreases payload@.len() - pos,
    {
        let take = if payload.len() - pos < max {
            payload.len() - pos
        } else {
            max
        };
        let chunk = copy_range(payload, pos, pos + take);
        let ghost pre = out.deep_view();
        proof {
            lemma_spec_concat_push(pre, chunk@);
        }
        out.push(chunk);
        proof {
            assert(out.deep_view() =~~= pre.push(payload@.subrange(pos as int, pos as int
                + take as int)));
            assert(payload@.subrange(0, pos as int) + payload@.subrange(
                pos as int,
                pos as int + take as int,
            ) =~= payload@.subrange(0, pos as int + take as int));
        }
        pos = pos + take;
    }
    assert(payload@.subrange(0, payload@.len() as int) =~= payload@);
    out
}

// ---------------------------------------------------------------------------
// Directional key epochs
// ---------------------------------------------------------------------------

/// Which kind of key material protects a direction.
#[derive(Clone, Copy, Debug, PartialEq, Eq, Structural)]
pub enum Epoch {
    /// No protection yet.
    Plaintext,
    /// The early-data keys of a resuming client.
    EarlyData,
    /// Handshake traffic keys.
    Handshake,
    /// Application traffic keys of some generation.
    Application,
}

/// One direction's protection state.
#[derive(Debug)]
pub struct DirState {
    pub epoch: Epoch,
    pub key: Vec<u8>,
    pub seq: u64,
    pub generation: u32,
}

/// Both directions plus the record-size policy.
#[derive(Debug)]
pub struct RecordLayer {
    pub read: DirState,
    pub write: DirState,
    pub max_fragment: usize,
    pub empty_count: u32,
}

impl RecordLayer {
    pub open spec fn wf(self) -> bool {
        1 <= self.max_fragment <= MAX_PLAIN_LEN
    }

    pub fn new(max_fragment: usize) -> (r: Self)
        requires
            1 <= max_fragment <= MAX_PLAIN_LEN,
        ensures
            r.wf(),
            r.read.epoch == Epoch::Plaintext,
            r.write.epoch == Epoch::Plaintext,
            r.read.seq == 0,
            r.write.seq == 0,
            r.max_fragment == max_fragment,
            r.empty_count == 0,
    {
        RecordLayer {
            read: DirState { epoch: Epoch::Plaintext, key: Vec::new(), seq: 0, generation: 0 },
            write: DirState { epoch: Epoch::Plaintext, key: Vec::new(), seq: 0, generation: 0 },
            max_fragment,
            empty_count: 0,
        }
    }

    /// Installs new write keys: the sequence space restarts at zero for the
    /// new epoch.
    pub fn set_write_key(&mut self, epoch: Epoch, key: Vec<u8>, generation: u32)
        ensures
            final(self).write.epoch == epoch,
            final(self).write.key == key,
            final(self).write.seq == 0,
            final(self).write.generation == generation,
            final(self).read == old(self).read,
            final(self).max_fragment == old(self).max_fragment,
            final(self).empty_count == old(self).empty_count,
            final(self).wf() == old(self).wf(),
    {
        self.write = DirState { epoch, key, seq: 0, generation };
    }

    /// Installs new read keys.
    pub fn set_read_key(&mut self, epoch: Epoch, key: Vec<u8>, generation: u32)
        ensures
            final(self).read.epoch == epoch,
            final(self).read.key == key,
            final(self).read.seq == 0,
            final(self).read.generation == generation,
            final(self).write == old(self).write,
            final(self).max_fragment == old(self).max_fragment,
            final(self).empty_count == old(self).empty_count,
            final(self).wf() == old(self).wf(),
    {
        self.read = DirState { epoch, key, seq: 0, generation };
    }

    /// Protects one outbound fragment and frames it.  Under a live key the
    /// sequence number advances by exactly one; when the space is exhausted
    /// the layer fails closed instead of wrapping.
    pub fn seal<P: CryptoProvider>(&mut self, p: &P, typ: u8, payload: &Vec<u8>) -> (r: Result<
        Vec<u8>,
        Error,
    >)
        requires
            old(self).wf(),
            payload@.len() <= MAX_PLAIN_LEN,
        ensures
            final(self).wf(),
            final(self).read == old(self).read,
            final(self).max_fragment == old(self).max_fragment,
            final(self).empty_count == old(self).empty_count,
            old(self).write.epoch == Epoch::Plaintext ==> (*final(self) == *old(self) && (r
                matches Ok(out) && out@ == enc_record(typ, 0x0303, payload@))),
            old(self).write.epoch != Epoch::Plaintext && old(self).write.seq >= SEQ_LIMIT ==> r
                is Err && *final(self) == *old(self),
            old(self).write.epoch != Epoch::Plaintext && old(self).write.seq < SEQ_LIMIT ==> (r
                is Ok && final(self).write.seq == old(self).write.seq + 1 && final(self).write.epoch == old(self).write.epoch && final(self).write.key == old(
                self,
            ).write.key && final(self).write.generation == old(self).write.generation),
            old(self).write.epoch != Epoch::Plaintext && old(self).write.seq < SEQ_LIMIT ==> (r
                matches Ok(out) && (exists|sealed: Seq<u8>|
                out@ == enc_record(CT_APPLICATION_DATA, 0x0303, sealed) && #[trigger] p.spec_opens(
                    old(self).write.key@,
                    old(self).write.seq,
                    sealed,
                ) == Some(payload@ + seq![typ]))),
            r matches Ok(out) ==> out@.len() >= 5,
    {
        if matches!(self.write.epoch, Epoch::Plaintext) {
            let mut out: Vec<u8> = Vec::new();
            put_record(&mut out, typ, 0x0303, payload);
            return Ok(out);
        }
        if self.write.seq >= SEQ_LIMIT {
            return Err(Error::PeerSentOversizedRecord);
        }
        let mut inner = copy_range(payload, 0, payload.len());
        inner.push(typ);
        proof {
            assert(inner@ =~= payload@ + seq![typ]);
        }
        let sealed = p.seal(&self.write.key, self.write.seq, &inner);
        let mut out: Vec<u8> = Vec::new();
        put_record(&mut out, CT_APPLICATION_DATA, 0x0303, &sealed);
        self.write.seq = self.write.seq + 1;
        proof {
            assert(out@ == enc_record(CT_APPLICATION_DATA, 0x0303, sealed@) && p.spec_opens(
                old(self).write.key@,
                old(self).write.seq,
                sealed@,
            ) == Some(payload@ + seq![typ]));
        }
        Ok(out)
    }

    /// Unprotects one inbound record payload, recovering the inner content
    /// type.  A failed open is reported without detail; the read sequence
    /// number advances by exactly one on success.
    pub fn open<P: CryptoProvider>(&mut self, p: &P, typ: u8, payload: Vec<u8>) -> (r: Result<
        (u8, Vec<u8>),
        Error,
    >)
        requires
            old(self).wf(),
        ensures
            final(self).wf(),
            final(self).write == old(self).write,
            final(self).max_fragment == old(self).max_fragment,
            old(self).read.epoch == Epoch::Plaintext ==> (*final(self) == *old(self) && (r
                matches Ok(pr) && pr.0 == typ && pr.1 == payload)),
            old(self).read.epoch != Epoch::Plaintext && old(self).read.seq >= SEQ_LIMIT ==> r
                is Err && *final(self) == *old(self),
            old(self).read.epoch != Epoch::Plaintext && (r matches Ok(pr)) ==> final(self).read.seq == old(self).read.seq + 1 && final(self).read.epoch == old(
                self,
            ).read.epoch && final(self).read.key == old(self).read.key,
            old(self).read.epoch != Epoch::Plaintext && old(self).read.seq < SEQ_LIMIT && (
            p.spec_opens(old(self).read.key@, old(self).read.seq, payload@) is None) ==> (r
                matches Err(e) && e matches Error::DecryptError),
    {
        if matches!(self.read.epoch, Epoch::Plaintext) {
            return Ok((typ, payload));
        }
        if self.read.seq >= SEQ_LIMIT {
            return Err(Error::DecryptError);
        }
        let inner = match p.open(&self.read.key, self.read.seq, &payload) {
            Some(v) => v,
            None => {
                return Err(Error::DecryptError);
            },
        };
        if inner.len() == 0 {
            return Err(Error::PeerSentOversizedRecord);
        }
        let real_typ = inner[inner.len() - 1];
        let content = copy_range(&inner, 0, inner.len() - 1);
        self.read.seq = self.read.seq + 1;
        Ok((real_typ, content))
    }

    /// Tracks empty application-data records: a bounded number in a row is
    /// tolerated, beyond that the peer is judged abusive.
    pub fn note_fragment(&mut self, len: usize) -> (r: Result<(), Error>)
        ensures
            final(self).read == old(self).read,
            final(self).write == old(self).write,
            final(self).max_fragment == old(self).max_fragment,
            len > 0 ==> r is Ok && final(self).empty_count == 0,
            len == 0 && old(self).empty_count < MAX_EMPTY_RECORDS ==> r is Ok && final(self).empty_count == old(self).empty_count + 1,
            len == 0 && old(self).empty_count >= MAX_EMPTY_RECORDS ==> (r matches Err(e)
                && e matches Error::PeerMisbehaved(pm) && pm
                == PeerMisbehaved::TooManyEmptyFragments),
    {
        if len > 0 {
            self.empty_count = 0;
            Ok(())
        } else if self.empty_count < MAX_EMPTY_RECORDS {
            self.empty_count = self.empty_count + 1;
            Ok(())
        } else {
            Err(Error::PeerMisbehaved(PeerMisbehaved::TooManyEmptyFragments))
        }
    }
}

} // verus!
