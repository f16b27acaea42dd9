//! Session resumption state: stored session values, server and client
//! caches, and the freshness rule that rejects stale tickets.
//!
//! A stored entry carries its creation time in seconds; an entry whose age
//! exceeds the server's configured lifetime must never be used to resume.

use vstd::prelude::*;

use crate::codec::{
    DecodeError, SpecParse, enc_u8, enc_u16, enc_u32, enc_u64, enc_vec8, p_u8, p_u16, p_u32,
    p_u64, p_vec8, lemma_split_concat, lemma_p_u8, lemma_p_u16, lemma_p_u32, lemma_p_u64,
    lemma_p_vec8, put_u8, put_u16, put_u32, put_u64, put_vec8, get_u8, get_u16, get_u32, get_u64,
    get_vec8, bytes_eq, copy_range,
};

verus! {

// ---------------------------------------------------------------------------
// Ticket freshness
// ---------------------------------------------------------------------------

/// A stored entry is fresh when it was created no later than `now` and its
/// age does not exceed `max_age` seconds.
pub open spec fn spec_ticket_fresh(creation: u64, now: u64, max_age: u64) -> bool {
    creation <= now && now - creation <= max_age
}

pub fn ticket_fresh(creation: u64, now: u64, max_age: u64) -> (r: bool)
    ensures
        r == spec_ticket_fresh(creation, now, max_age),
{
    creation <= now && now - creation <= max_age
}

// ---------------------------------------------------------------------------
// The server's stored session value and its byte encoding
// ---------------------------------------------------------------------------

/// What a server remembers about one session, serialized into the cache.
#[derive(Debug)]
pub struct ServerSessionValue {
    pub version: u16,
    pub cipher_suite: u16,
    pub ems: bool,
    pub creation_time_sec: u64,
    pub master_secret: Vec<u8>,
    pub alpn: Vec<u8>,
    pub max_early_data: u32,
}

#[verifier::ext_equal]
pub struct ServerSessionValueV {
    pub version: u16,
    pub cipher_suite: u16,
    pub ems: bool,
    pub creation_time_sec: u64,
    pub master_secret: Seq<u8>,
    pub alpn: Seq<u8>,
    pub max_early_data: u32,
}

impl View for ServerSessionValue {
    type V = ServerSessionValueV;

    open spec fn view(&self) -> ServerSessionValueV {
        ServerSessionValueV {
            version: self.version,
            cipher_suite: self.cipher_suite,
            ems: self.ems,
            creation_time_sec: self.creation_time_sec,
            master_secret: self.master_secret@,
            alpn: self.alpn@,
            max_early_data: self.max_early_data,
        }
    }
}

pub open spec fn wf_ssv(x: ServerSessionValueV) -> bool {
    x.master_secret.len() < 256 && x.alpn.len() < 256
}

pub open spec fn enc_ssv(x: ServerSessionValueV) -> Seq<u8> {
    enc_u16(x.version) + (enc_u16(x.cipher_suite) + (enc_u8(if x.ems { 1u8 } else { 0u8 }) + (
    enc_u64(x.creation_time_sec) + (enc_vec8(x.master_secret) + (enc_vec8(x.alpn) + enc_u32(
        x.max_early_data,
    ))))))
}

pub open spec fn parse_ssv(b: Seq<u8>) -> Option<ServerSessionValueV> {
    match p_u16(b, 0) {
        SpecParse::Val(version, i1) => match p_u16(b, i1) {
            SpecParse::Val(suite, i2) => match p_u8(b, i2) {
                SpecParse::Val(emsb, i3) => match p_u64(b, i3) {
                    SpecParse::Val(creation, i4) => match p_vec8(b, i4) {
                        SpecParse::Val(secret, i5) => match p_vec8(b, i5) {
                            SpecParse::Val(alpn, i6) => match p_u32(b, i6) {
                                SpecParse::Val(med, i7) => if i7 == b.len() && (emsb == 0 || emsb
                                    == 1) {
                                    Some(
                                        ServerSessionValueV {
                                            version,
                                            cipher_suite: suite,
                                            ems: emsb == 1,
                                            creation_time_sec: creation,
                                            master_secret: secret,
                                            alpn,
                                            max_early_data: med,
                                        },
                                    )
                                } else {
                                    None
                                },
                                _ => None,
                            },
                            _ => None,
                        },
                        _ => None,
                    },
                    _ => None,
                },
                _ => None,
            },
            _ => None,
        },
        _ => None,
    }
}

#[verifier::rlimit(100)]
#[verifier::spinoff_prover]
proof fn lemma_ssv_steps_head(x: ServerSessionValueV)
    requires
        wf_ssv(x),
    ensures
        ({
            let b = enc_ssv(x);
            let emsb = if x.ems { 1u8 } else { 0u8 };
            let r5 = enc_vec8(x.master_secret) + (enc_vec8(x.alpn) + enc_u32(x.max_early_data));
            &&& p_u16(b, 0) == SpecParse::<u16>::Val(x.version, 2)
            &&& p_u16(b, 2) == SpecParse::<u16>::Val(x.cipher_suite, 4)
            &&& p_u8(b, 4) == SpecParse::<u8>::Val(emsb, 5)
            &&& p_u64(b, 5) == SpecParse::<u64>::Val(x.creation_time_sec, 13)
            &&& 13 + r5.len() == b.len()
            &&& b.subrange(13, b.len() as int) == r5
        }),
{
    let b = enc_ssv(x);
    let emsb = if x.ems { 1u8 } else { 0u8 };
    let r2 = enc_u16(x.cipher_suite) + (enc_u8(emsb) + (enc_u64(x.creation_time_sec) + (enc_vec8(
        x.master_secret,
    ) + (enc_vec8(x.alpn) + enc_u32(x.max_early_data)))));
    let r3 = enc_u8(emsb) + (enc_u64(x.creation_time_sec) + (enc_vec8(x.master_secret) + (
    enc_vec8(x.alpn) + enc_u32(x.max_early_data))));
    let r4 = enc_u64(x.creation_time_sec) + (enc_vec8(x.master_secret) + (enc_vec8(x.alpn)
        + enc_u32(x.max_early_data)));
    let r5 = enc_vec8(x.master_secret) + (enc_vec8(x.alpn) + enc_u32(x.max_early_data));
    assert(b.subrange(0, b.len() as int) =~= b);
    lemma_split_concat(b, 0, enc_u16(x.version), r2);
    lemma_p_u16(b, 0, x.version);
    lemma_split_concat(b, 2, enc_u16(x.cipher_suite), r3);
    lemma_p_u16(b, 2, x.cipher_suite);
    lemma_split_concat(b, 4, enc_u8(emsb), r4);
    lemma_p_u8(b, 4, emsb);
    lemma_split_concat(b, 5, enc_u64(x.creation_time_sec), r5);
    lemma_p_u64(b, 5, x.creation_time_sec);
}

#[verifier::rlimit(100)]
#[verifier::spinoff_prover]
proof fn lemma_ssv_steps_tail(x: ServerSessionValueV)
    requires
        wf_ssv(x),
    ensures
        ({
            let b = enc_ssv(x);
            let i5 = 14 + x.master_secret.len() as int;
            let i6 = i5 + 1 + x.alpn.len();
            &&& p_vec8(b, 13) == SpecParse::<Seq<u8>>::Val(x.master_secret, i5)
            &&& p_vec8(b, i5) == SpecParse::<Seq<u8>>::Val(x.alpn, i6)
            &&& p_u32(b, i6) == SpecParse::<u32>::Val(x.max_early_data, i6 + 4)
            &&& i6 + 4 == b.len()
        }),
{
    lemma_ssv_steps_head(x);
    let b = enc_ssv(x);
    let r6 = enc_vec8(x.alpn) + enc_u32(x.max_early_data);
    lemma_split_concat(b, 13, enc_vec8(x.master_secret), r6);
    lemma_p_vec8(b, 13, x.master_secret);
    let i5 = 13 + 1 + x.master_secret.len() as int;
    lemma_split_concat(b, i5, enc_vec8(x.alpn), enc_u32(x.max_early_data));
    lemma_p_vec8(b, i5, x.alpn);
    let i6 = i5 + 1 + x.alpn.len();
    lemma_p_u32(b, i6, x.max_early_data);
}

#[verifier::rlimit(100)]
#[verifier::spinoff_prover]
pub proof fn lemma_ssv_round_trip(x: ServerSessionValueV)
    requires
        wf_ssv(x),
    ensures
        parse_ssv(enc_ssv(x)) == Some(x),
{
    lemma_ssv_steps_head(x);
    lemma_ssv_steps_tail(x);
    let b = enc_ssv(x);
    let emsb = if x.ems { 1u8 } else { 0u8 };
    let expect = ServerSessionValueV {
        version: x.version,
        cipher_suite: x.cipher_suite,
        ems: emsb == 1,
        creation_time_sec: x.creation_time_sec,
        master_secret: x.master_secret,
        alpn: x.alpn,
        max_early_data: x.max_early_data,
    };
    assert(expect =~= x);
    assert(parse_ssv(b) == Some(expect));
}

impl ServerSessionValue {
    /// Serializes the value for storage.
    pub fn get_encoding(&self) -> (out: Vec<u8>)
        requires
            wf_ssv(self@),
        ensures
            out@ == enc_ssv(self@),
    {
        let mut out: Vec<u8> = Vec::new();
        put_u16(&mut out, self.version);
        put_u16(&mut out, self.cipher_suite);
        if self.ems {
            put_u8(&mut out, 1);
        } else {
            put_u8(&mut out, 0);
        }
        put_u64(&mut out, self.creation_time_sec);
        put_vec8(&mut out, &self.master_secret);
        put_vec8(&mut out, &self.alpn);
        put_u32(&mut out, self.max_early_data);
        assert(out@ =~= enc_ssv(self@));
        out
    }

    /// Deserializes a stored value.
    pub fn read_bytes(b: &Vec<u8>) -> (r: Option<ServerSessionValue>)
        ensures
            match parse_ssv(b@) {
                Some(x) => r matches Some(v) && v@ == x,
                None => r is None,
            },
    {
        let (version, i1) = match get_u16(b, 0) {
            Ok(p) => p,
            Err(_) => {
                return None;
            },
        };
        let (suite, i2) = match get_u16(b, i1) {
            Ok(p) => p,
            Err(_) => {
                return None;
            },
        };
        let (emsb, i3) = match get_u8(b, i2) {
            Ok(p) => p,
            Err(_) => {
                return None;
            },
        };
        let (creation, i4) = match get_u64(b, i3) {
            Ok(p) => p,
            Err(_) => {
                return None;
            },
        };
        let (secret, i5) = match get_vec8(b, i4) {
            Ok(p) => p,
            Err(_) => {
                return None;
            },
        };
        let (alpn, i6) = match get_vec8(b, i5) {
            Ok(p) => p,
            Err(_) => {
                return None;
            },
        };
        let (med, i7) = match get_u32(b, i6) {
            Ok(p) => p,
            Err(_) => {
                return None;
            },
        };
        if i7 != b.len() || emsb > 1 {
            return None;
        }
        let v = ServerSessionValue {
            version,
            cipher_suite: suite,
            ems: emsb == 1,
            creation_time_sec: creation,
            master_secret: secret,
            alpn,
            max_early_data: med,
        };
        proof {
            assert(v@ =~= parse_ssv(b@)->Some_0);
        }
        Some(v)
    }
}

// ---------------------------------------------------------------------------
// Association-list lookup with first-match semantics
// ---------------------------------------------------------------------------

/// Looks a key up in an association list; the first match wins.
pub open spec fn assoc_lookup<V>(es: Seq<(Vec<u8>, V)>, k: Seq<u8>) -> Option<V>
    decreases es.len(),
{
    if es.len() == 0 {
        None
    } else if es[0].0@ == k {
        Some(es[0].1)
    } else {
        assoc_lookup(es.skip(1), k)
    }
}

/// Keys appear at most once.
pub open spec fn assoc_unique<V>(es: Seq<(Vec<u8>, V)>) -> bool {
    forall|i: int, j: int| 0 <= i < j < es.len() ==> (#[trigger] es[i]).0@ != (#[trigger] es[j]).0@
}

pub proof fn lemma_assoc_none<V>(es: Seq<(Vec<u8>, V)>, k: Seq<u8>)
    ensures
        (assoc_lookup(es, k) is None) <==> (forall|j: int|
            0 <= j < es.len() ==> (#[trigger] es[j]).0@ != k),
    decreases es.len(),
{
    if es.len() > 0 {
        lemma_assoc_none(es.skip(1), k);
        if assoc_lookup(es, k) is None {
            assert forall|j: int| 0 <= j < es.len() implies (#[trigger] es[j]).0@ != k by {
                if j > 0 {
                    assert(es.skip(1)[j - 1] == es[j]);
                }
            }
        }
        if forall|j: int| 0 <= j < es.len() ==> (#[trigger] es[j]).0@ != k {
            assert forall|j: int| 0 <= j < es.skip(1).len() implies (#[trigger] es.skip(1)[j]).0@
                != k by {
                assert(es.skip(1)[j] == es[j + 1]);
            }
        }
    }
}

pub proof fn lemma_assoc_first<V>(es: Seq<(Vec<u8>, V)>, k: Seq<u8>, i: int)
    requires
        0 <= i < es.len(),
        es[i].0@ == k,
        forall|j: int| 0 <= j < i ==> (#[trigger] es[j]).0@ != k,
    ensures
        assoc_lookup(es, k) == Some(es[i].1),
    decreases i,
{
    if i > 0 {
        assert(forall|j: int|
            0 <= j < i - 1 ==> (#[trigger] es.skip(1)[j]).0@ == es[j + 1].0@ && es[j + 1].0@ != k);
        lemma_assoc_first(es.skip(1), k, i - 1);
    }
}

pub proof fn lemma_assoc_push<V>(es: Seq<(Vec<u8>, V)>, p: (Vec<u8>, V), k2: Seq<u8>)
    requires
        assoc_lookup(es, p.0@) is None,
    ensures
        assoc_lookup(es.push(p), p.0@) == Some(p.1),
        k2 != p.0@ ==> assoc_lookup(es.push(p), k2) == assoc_lookup(es, k2),
    decreases es.len(),
{
    if es.len() == 0 {
        assert(es.push(p)[0] == p);
        assert(es.push(p).skip(1) =~= Seq::<(Vec<u8>, V)>::empty());
        assert(assoc_lookup(es.push(p), p.0@) == Some(p.1));
        if k2 != p.0@ {
            assert(assoc_lookup(es.push(p), k2) == assoc_lookup(
                Seq::<(Vec<u8>, V)>::empty(),
                k2,
            ));
        }
    } else {
        assert(es.push(p).skip(1) =~= es.skip(1).push(p));
        lemma_assoc_push(es.skip(1), p, k2);
        assert(es.push(p)[0] == es[0]);
    }
}

pub proof fn lemma_assoc_update<V>(es: Seq<(Vec<u8>, V)>, i: int, p: (Vec<u8>, V), k2: Seq<u8>)
    requires
        0 <= i < es.len(),
        es[i].0@ == p.0@,
        forall|j: int| 0 <= j < i ==> (#[trigger] es[j]).0@ != p.0@,
    ensures
        assoc_lookup(es.update(i, p), p.0@) == Some(p.1),
        k2 != p.0@ ==> assoc_lookup(es.update(i, p), k2) == assoc_lookup(es, k2),
    decreases i,
{
    if i == 0 {
        assert(es.update(0, p)[0] == p);
        assert(es.update(0, p).skip(1) =~= es.skip(1));
    } else {
        assert(es.update(i, p)[0] == es[0]);
        assert(es.update(i, p).skip(1) =~= es.skip(1).update(i - 1, p));
        assert(forall|j: int|
            0 <= j < i - 1 ==> (#[trigger] es.skip(1)[j]).0@ == es[j + 1].0@ && es[j + 1].0@
                != p.0@);
        lemma_assoc_update(es.skip(1), i - 1, p, k2);
    }
}

pub proof fn lemma_assoc_remove<V>(es: Seq<(Vec<u8>, V)>, i: int, k: Seq<u8>, k2: Seq<u8>)
    requires
        0 <= i < es.len(),
        es[i].0@ == k,
        forall|j: int| 0 <= j < es.len() && j != i ==> (#[trigger] es[j]).0@ != k,
    ensures
        assoc_lookup(es.remove(i), k) is None,
        k2 != k ==> assoc_lookup(es.remove(i), k2) == assoc_lookup(es, k2),
    decreases i,
{
    if i == 0 {
        assert(es.remove(0) =~= es.skip(1));
        lemma_assoc_none(es.skip(1), k);
        assert(forall|j: int| 0 <= j < es.skip(1).len() ==> #[trigger] es.skip(1)[j] == es[j + 1]);
    } else {
        assert(es.remove(i)[0] == es[0]);
        assert(es.remove(i).skip(1) =~= es.skip(1).remove(i - 1));
        assert(forall|j: int|
            0 <= j < es.skip(1).len() ==> #[trigger] es.skip(1)[j] == es[j + 1]);
        lemma_assoc_remove(es.skip(1), i - 1, k, k2);
    }
}

pub proof fn lemma_unique_remove<V>(es: Seq<(Vec<u8>, V)>, i: int)
    requires
        0 <= i < es.len(),
        assoc_unique(es),
    ensures
        assoc_unique(es.remove(i)),
{
    assert forall|a: int, b: int|
        0 <= a < b < es.remove(i).len() implies (#[trigger] es.remove(i)[a]).0@ != (
    #[trigger] es.remove(i)[b]).0@ by {
        let a2 = if a < i {
            a
        } else {
            a + 1
        };
        let b2 = if b < i {
            b
        } else {
            b + 1
        };
        assert(es.remove(i)[a] == es[a2]);
        assert(es.remove(i)[b] == es[b2]);
    }
}

// ---------------------------------------------------------------------------
// Server-side session cache
// ---------------------------------------------------------------------------

/// A bounded in-memory store of serialized session values, keyed by opaque
/// labels.  When full, the oldest entry is evicted.
#[derive(Debug)]
pub struct ServerSessionMemoryCache {
    entries: Vec<(Vec<u8>, Vec<u8>)>,
    cap: usize,
}

impl ServerSessionMemoryCache {
    pub closed spec fn wf(self) -> bool {
        &&& assoc_unique(self.entries@)
        &&& self.entries@.len() <= self.cap
        &&& self.cap >= 1
    }

    pub closed spec fn contents(self) -> Seq<(Vec<u8>, Vec<u8>)> {
        self.entries@
    }

    pub closed spec fn capacity(self) -> usize {
        self.cap
    }

    pub fn new(cap: usize) -> (r: Self)
        requires
            cap >= 1,
        ensures
            r.wf(),
            r.contents().len() == 0,
    {
        ServerSessionMemoryCache { entries: Vec::new(), cap }
    }

    /// Finds the index of a key, if present.
    fn find(&self, key: &Vec<u8>) -> (r: Option<usize>)
        ensures
            match r {
                Some(i) => i < self.entries@.len() && self.entries@[i as int].0@ == key@
                    && forall|j: int| 0 <= j < i ==> (#[trigger] self.entries@[j]).0@ != key@,
                None => forall|j: int|
                    0 <= j < self.entries@.len() ==> (#[trigger] self.entries@[j]).0@ != key@,
            },
    {
        let mut i: usize = 0;
        while i < self.entries.len()
            invariant
                i <= self.entries@.len(),
                forall|j: int| 0 <= j < i ==> (#[trigger] self.entries@[j]).0@ != key@,
            decreases self.entries@.len() - i,
        {
            if bytes_eq(&self.entries[i].0, key) {
                return Some(i);
            }
            i = i + 1;
        }
        None
    }

    /// Stores a value under a key, replacing any existing entry; evicts the
    /// oldest entry when full.
    pub fn put(&mut self, key: Vec<u8>, value: Vec<u8>) -> (r: bool)
        requires
            old(self).wf(),
        ensures
            final(self).wf(),
            r == true,
            final(self).capacity() == old(self).capacity(),
            assoc_lookup(final(self).contents(), key@) matches Some(v) && v@ == value@,
            (assoc_lookup(old(self).contents(), key@) is Some || old(self).contents().len() < old(
                self,
            ).capacity()) ==> forall|k2: Seq<u8>| k2 != key@ ==> #[trigger] assoc_lookup(
                final(self).contents(),
                k2,
            ) == assoc_lookup(old(self).contents(), k2),
    {
        let ghost key_view = key@;
        match self.find(&key) {
            Some(i) => {
                let ghost es = self.entries@;
                let p = (key, value);
                self.entries.set(i, p);
                proof {
                    assert forall|k2: Seq<u8>| k2 != key_view implies #[trigger] assoc_lookup(
                        self.entries@,
                        k2,
                    ) == assoc_lookup(es, k2) by {
                        lemma_assoc_update(es, i as int, p, k2);
                    }
                    lemma_assoc_update(es, i as int, p, key_view);
                    assert forall|a: int, b: int|
                        0 <= a < b < self.entries@.len() implies (
                    #[trigger] self.entries@[a]).0@ != (#[trigger] self.entries@[b]).0@ by {
                        assert(self.entries@[a].0@ == es[a].0@);
                        assert(self.entries@[b].0@ == es[b].0@);
                    }
                }
                true
            },
            None => {
                if self.entries.len() >= self.cap {
                    let ghost es0 = self.entries@;
                    proof {
                        lemma_unique_remove(es0, 0);
                    }
                    let _ = self.entries.remove(0);
                    proof {
                        assert forall|j: int|
                            0 <= j < self.entries@.len() implies (
                        #[trigger] self.entries@[j]).0@ != key_view by {
                            assert(self.entries@[j] == es0[j + 1]);
                        }
                    }
                }
                let ghost es = self.entries@;
                proof {
                    lemma_assoc_none(es, key_view);
                }
                let p = (key, value);
                self.entries.push(p);
                proof {
                    assert forall|k2: Seq<u8>| k2 != key_view implies #[trigger] assoc_lookup(
                        self.entries@,
                        k2,
                    ) == assoc_lookup(es, k2) by {
                        lemma_assoc_push(es, p, k2);
                    }
                    lemma_assoc_push(es, p, key_view);
                    assert forall|a: int, b: int|
                        0 <= a < b < self.entries@.len() implies (
                    #[trigger] self.entries@[a]).0@ != (#[trigger] self.entries@[b]).0@ by {
                        if b < es.len() {
                            assert(self.entries@[a] == es[a]);
                            assert(self.entries@[b] == es[b]);
                        } else {
                            assert(self.entries@[a] == es[a]);
                            assert(self.entries@[b] == p);
                        }
                    }
                }
                true
            },
        }
    }

    /// Returns a copy of the value stored under `key`, if any.
    pub fn get(&self, key: &Vec<u8>) -> (r: Option<Vec<u8>>)
        ensures
            match assoc_lookup(self.contents(), key@) {
                Some(v) => r matches Some(o) && o@ == v@,
                None => r is None,
            },
    {
        match self.find(key) {
            Some(i) => {
                proof {
                    lemma_assoc_first(self.entries@, key@, i as int);
                }
                let v = copy_range(&self.entries[i].1, 0, self.entries[i].1.len());
                proof {
                    assert(v@ =~= self.entries@[i as int].1@);
                }
                Some(v)
            },
            None => {
                proof {
                    lemma_assoc_none(self.entries@, key@);
                }
                None
            },
        }
    }

    /// Removes and returns the value stored under `key`: a taken entry can
    /// never be taken again.
    pub fn take(&mut self, key: &Vec<u8>) -> (r: Option<Vec<u8>>)
        requires
            old(self).wf(),
        ensures
            final(self).wf(),
            final(self).capacity() == old(self).capacity(),
            match assoc_lookup(old(self).contents(), key@) {
                Some(v) => r == Some(v) && (assoc_lookup(final(self).contents(), key@) is None)
                    && forall|k2: Seq<u8>| k2 != key@ ==> #[trigger] assoc_lookup(
                    final(self).contents(),
                    k2,
                ) == assoc_lookup(old(self).contents(), k2),
                None => r is None && final(self).contents() == old(self).contents(),
            },
    {
        match self.find(key) {
            Some(i) => {
                let ghost es = self.entries@;
                proof {
                    lemma_assoc_first(es, key@, i as int);
                    lemma_unique_remove(es, i as int);
                }
                let p = self.entries.remove(i);
                proof {
                    assert forall|k2: Seq<u8>| k2 != key@ implies #[trigger] assoc_lookup(
                        self.entries@,
                        k2,
                    ) == assoc_lookup(es, k2) by {
                        lemma_assoc_remove(es, i as int, key@, k2);
                    }
                    lemma_assoc_remove(es, i as int, key@, key@);
                }
                Some(p.1)
            },
            None => {
                proof {
                    lemma_assoc_none(self.entries@, key@);
                }
                None
            },
        }
    }

    pub fn can_cache(&self) -> (r: bool)
        ensures
            r == true,
    {
        true
    }
}

/// A server store that retains nothing, for configurations without
/// resumption.
#[derive(Debug)]
pub struct NoServerSessionStorage;

impl NoServerSessionStorage {
    pub fn put(&self, _key: Vec<u8>, _value: Vec<u8>) -> (r: bool)
        ensures
            r == false,
    {
        false
    }

    pub fn get(&self, _key: &Vec<u8>) -> (r: Option<Vec<u8>>)
        ensures
            r is None,
    {
        None
    }

    pub fn take(&self, _key: &Vec<u8>) -> (r: Option<Vec<u8>>)
        ensures
            r is None,
    {
        None
    }

    pub fn can_cache(&self) -> (r: bool)
        ensures
            r == false,
    {
        false
    }
}

/// Wraps the memory cache and ages each stored entry by a fixed delay, so
/// that resumption-lifetime behaviour can be exercised without waiting.
#[derive(Debug)]
pub struct ServerCacheWithResumptionDelay {
    pub delay: u32,
    storage: ServerSessionMemoryCache,
}

impl ServerCacheWithResumptionDelay {
    pub closed spec fn wf(self) -> bool {
        self.storage.wf()
    }

    pub closed spec fn contents(self) -> Seq<(Vec<u8>, Vec<u8>)> {
        self.storage.contents()
    }

    pub closed spec fn spec_delay(self) -> u32 {
        self.delay
    }

    pub fn new(delay: u32) -> (r: Self)
        ensures
            r.wf(),
            r.spec_delay() == delay,
            r.contents().len() == 0,
    {
        ServerCacheWithResumptionDelay { delay, storage: ServerSessionMemoryCache::new(32) }
    }

    /// Stores a serialized session value after moving its creation time
    /// `delay` seconds into the past.
    pub fn put(&mut self, key: Vec<u8>, value: Vec<u8>) -> (r: bool)
        requires
            old(self).wf(),
        ensures
            final(self).wf(),
            final(self).spec_delay() == old(self).spec_delay(),
            match parse_ssv(value@) {
                Some(x) => r == true && (assoc_lookup(final(self).contents(), key@) matches Some(
                    stored,
                ) && parse_ssv(stored@) matches Some(y) && y.creation_time_sec == (
                if x.creation_time_sec >= old(self).spec_delay() {
                    (x.creation_time_sec - old(self).spec_delay()) as u64
                } else {
                    0u64
                }) && y.version == x.version && y.cipher_suite == x.cipher_suite && y.ems == x.ems
                    && y.master_secret == x.master_secret && y.alpn == x.alpn
                    && y.max_early_data == x.max_early_data),
                None => r == false && final(self).contents() == old(self).contents(),
            },
    {
        let mut ssv = match ServerSessionValue::read_bytes(&value) {
            Some(v) => v,
            None => {
                return false;
            },
        };
        if ssv.creation_time_sec >= self.delay as u64 {
            ssv.creation_time_sec = ssv.creation_time_sec - self.delay as u64;
        } else {
            ssv.creation_time_sec = 0;
        }
        proof {
            assert(wf_ssv(ssv@));
            lemma_ssv_round_trip(ssv@);
        }
        let enc = ssv.get_encoding();
        self.storage.put(key, enc)
    }

    pub fn get(&self, key: &Vec<u8>) -> (r: Option<Vec<u8>>)
        ensures
            match assoc_lookup(self.contents(), key@) {
                Some(v) => r matches Some(o) && o@ == v@,
                None => r is None,
            },
    {
        self.storage.get(key)
    }

    pub fn take(&mut self, key: &Vec<u8>) -> (r: Option<Vec<u8>>)
        requires
            old(self).wf(),
        ensures
            final(self).wf(),
            final(self).spec_delay() == old(self).spec_delay(),
            match assoc_lookup(old(self).contents(), key@) {
                Some(v) => r == Some(v) && (assoc_lookup(final(self).contents(), key@) is None),
                None => r is None && final(self).contents() == old(self).contents(),
            },
    {
        self.storage.take(key)
    }

    pub fn can_cache(&self) -> (r: bool)
        ensures
            r == true,
    {
        self.storage.can_cache()
    }
}

// ---------------------------------------------------------------------------
// Generic association-list operations
// ---------------------------------------------------------------------------

/// Finds the index of the first entry with the given key.
pub fn assoc_find_idx<V>(es: &Vec<(Vec<u8>, V)>, key: &Vec<u8>) -> (r: Option<usize>)
    ensures
        match r {
            Some(i) => i < es@.len() && es@[i as int].0@ == key@ && forall|j: int|
                0 <= j < i ==> (#[trigger] es@[j]).0@ != key@,
            None => forall|j: int| 0 <= j < es@.len() ==> (#[trigger] es@[j]).0@ != key@,
        },
{
    let mut i: usize = 0;
    while i < es.len()
        invariant
            i <= es@.len(),
            forall|j: int| 0 <= j < i ==> (#[trigger] es@[j]).0@ != key@,
        decreases es@.len() - i,
    {
        if bytes_eq(&es[i].0, key) {
            return Some(i);
        }
        i = i + 1;
    }
    None
}

/// Stores a value under a key, replacing any existing entry.
pub fn assoc_put<V>(es: &mut Vec<(Vec<u8>, V)>, key: Vec<u8>, value: V)
    requires
        assoc_unique(old(es)@),
    ensures
        assoc_unique(final(es)@),
        assoc_lookup(final(es)@, key@) == Some(value),
        forall|k2: Seq<u8>| k2 != key@ ==> #[trigger] assoc_lookup(final(es)@, k2)
            == assoc_lookup(old(es)@, k2),
{
    let ghost key_view = key@;
    match assoc_find_idx(es, &key) {
        Some(i) => {
            let ghost es0 = es@;
            let p = (key, value);
            es.set(i, p);
            proof {
                assert forall|k2: Seq<u8>| k2 != key_view implies #[trigger] assoc_lookup(
                    es@,
                    k2,
                ) == assoc_lookup(es0, k2) by {
                    lemma_assoc_update(es0, i as int, p, k2);
                }
                lemma_assoc_update(es0, i as int, p, key_view);
                assert forall|a: int, b: int| 0 <= a < b < es@.len() implies (
                #[trigger] es@[a]).0@ != (#[trigger] es@[b]).0@ by {
                    assert(es@[a].0@ == es0[a].0@);
                    assert(es@[b].0@ == es0[b].0@);
                }
            }
        },
        None => {
            let ghost es0 = es@;
            proof {
                lemma_assoc_none(es0, key_view);
            }
            let p = (key, value);
            es.push(p);
            proof {
                assert forall|k2: Seq<u8>| k2 != key_view implies #[trigger] assoc_lookup(
                    es@,
                    k2,
                ) == assoc_lookup(es0, k2) by {
                    lemma_assoc_push(es0, p, k2);
                }
                lemma_assoc_push(es0, p, key_view);
                assert forall|a: int, b: int| 0 <= a < b < es@.len() implies (
                #[trigger] es@[a]).0@ != (#[trigger] es@[b]).0@ by {
                    if b < es0.len() {
                        assert(es@[a] == es0[a]);
                        assert(es@[b] == es0[b]);
                    } else {
                        assert(es@[a] == es0[a]);
                        assert(es@[b] == p);
                    }
                }
            }
        },
    }
}

/// Removes and returns the value stored under a key.
pub fn assoc_take<V>(es: &mut Vec<(Vec<u8>, V)>, key: &Vec<u8>) -> (r: Option<V>)
    requires
        assoc_unique(old(es)@),
    ensures
        assoc_unique(final(es)@),
        match assoc_lookup(old(es)@, key@) {
            Some(v) => r == Some(v) && (assoc_lookup(final(es)@, key@) is None) && forall|
                k2: Seq<u8>,
            | k2 != key@ ==> #[trigger] assoc_lookup(final(es)@, k2) == assoc_lookup(
                old(es)@,
                k2,
            ),
            None => r is None && final(es)@ == old(es)@,
        },
{
    match assoc_find_idx(es, key) {
        Some(i) => {
            let ghost es0 = es@;
            proof {
                lemma_assoc_first(es0, key@, i as int);
                lemma_unique_remove(es0, i as int);
            }
            let p = es.remove(i);
            proof {
                assert forall|k2: Seq<u8>| k2 != key@ implies #[trigger] assoc_lookup(
                    es@,
                    k2,
                ) == assoc_lookup(es0, k2) by {
                    lemma_assoc_remove(es0, i as int, key@, k2);
                }
                lemma_assoc_remove(es0, i as int, key@, key@);
            }
            Some(p.1)
        },
        None => {
            proof {
                lemma_assoc_none(es@, key@);
            }
            None
        },
    }
}

// ---------------------------------------------------------------------------
// Client-side resumption state
// ---------------------------------------------------------------------------

/// What a client remembers to resume a legacy (session-identifier) session.
#[derive(Debug)]
pub struct Tls12ClientSessionValue {
    pub cipher_suite: u16,
    pub session_id: Vec<u8>,
    pub master_secret: Vec<u8>,
    pub ems: bool,
    pub creation_time_sec: u64,
    pub lifetime: u32,
}

#[verifier::ext_equal]
pub struct Tls12ClientSessionValueV {
    pub cipher_suite: u16,
    pub session_id: Seq<u8>,
    pub master_secret: Seq<u8>,
    pub ems: bool,
    pub creation_time_sec: u64,
    pub lifetime: u32,
}

impl View for Tls12ClientSessionValue {
    type V = Tls12ClientSessionValueV;

    open spec fn view(&self) -> Tls12ClientSessionValueV {
        Tls12ClientSessionValueV {
            cipher_suite: self.cipher_suite,
            session_id: self.session_id@,
            master_secret: self.master_secret@,
            ems: self.ems,
            creation_time_sec: self.creation_time_sec,
            lifetime: self.lifetime,
        }
    }
}

impl Tls12ClientSessionValue {
    /// Moves the creation time into the past, flooring at zero.
    pub fn rewind_epoch(&mut self, delay: u32)
        ensures
            final(self)@ == (Tls12ClientSessionValueV {
                creation_time_sec: if old(self).creation_time_sec >= delay {
                    (old(self).creation_time_sec - delay) as u64
                } else {
                    0u64
                },
                ..old(self)@
            }),
    {
        if self.creation_time_sec >= delay as u64 {
            self.creation_time_sec = self.creation_time_sec - delay as u64;
        } else {
            self.creation_time_sec = 0;
        }
    }

    /// A field-for-field copy.
    pub fn duplicate(&self) -> (r: Self)
        ensures
            r@ == self@,
    {
        let r = Tls12ClientSessionValue {
            cipher_suite: self.cipher_suite,
            session_id: copy_range(&self.session_id, 0, self.session_id.len()),
            master_secret: copy_range(&self.master_secret, 0, self.master_secret.len()),
            ems: self.ems,
            creation_time_sec: self.creation_time_sec,
            lifetime: self.lifetime,
        };
        proof {
            assert(r.session_id@ =~= self.session_id@);
            assert(r.master_secret@ =~= self.master_secret@);
            assert(r@ =~= self@);
        }
        r
    }
}

/// What a client remembers to redeem one TLS 1.3 ticket.
#[derive(Debug)]
pub struct Tls13ClientSessionValue {
    pub cipher_suite: u16,
    pub ticket: Vec<u8>,
    pub secret: Vec<u8>,
    pub creation_time_sec: u64,
    pub age_add: u32,
    pub lifetime: u32,
    pub max_early_data: u32,
}

#[verifier::ext_equal]
pub struct Tls13ClientSessionValueV {
    pub cipher_suite: u16,
    pub ticket: Seq<u8>,
    pub secret: Seq<u8>,
    pub creation_time_sec: u64,
    pub age_add: u32,
    pub lifetime: u32,
    pub max_early_data: u32,
}

impl View for Tls13ClientSessionValue {
    type V = Tls13ClientSessionValueV;

    open spec fn view(&self) -> Tls13ClientSessionValueV {
        Tls13ClientSessionValueV {
            cipher_suite: self.cipher_suite,
            ticket: self.ticket@,
            secret: self.secret@,
            creation_time_sec: self.creation_time_sec,
            age_add: self.age_add,
            lifetime: self.lifetime,
            max_early_data: self.max_early_data,
        }
    }
}

impl Tls13ClientSessionValue {
    /// Moves the creation time into the past, flooring at zero.
    pub fn rewind_epoch(&mut self, delay: u32)
        ensures
            final(self)@ == (Tls13ClientSessionValueV {
                creation_time_sec: if old(self).creation_time_sec >= delay {
                    (old(self).creation_time_sec - delay) as u64
                } else {
                    0u64
                },
                ..old(self)@
            }),
    {
        if self.creation_time_sec >= delay as u64 {
            self.creation_time_sec = self.creation_time_sec - delay as u64;
        } else {
            self.creation_time_sec = 0;
        }
    }
}

/// Client-side store: one legacy session per server, a queue of tickets per
/// server, and a key-exchange-group hint per server.
#[derive(Debug)]
pub struct ClientSessionMemoryCache {
    tls12: Vec<(Vec<u8>, Tls12ClientSessionValue)>,
    tickets: Vec<(Vec<u8>, Tls13ClientSessionValue)>,
    kx_hints: Vec<(Vec<u8>, u16)>,
}

impl ClientSessionMemoryCache {
    pub closed spec fn wf(self) -> bool {
        assoc_unique(self.tls12@) && assoc_unique(self.kx_hints@)
    }

    pub closed spec fn tls12_contents(self) -> Seq<(Vec<u8>, Tls12ClientSessionValue)> {
        self.tls12@
    }

    pub closed spec fn ticket_contents(self) -> Seq<(Vec<u8>, Tls13ClientSessionValue)> {
        self.tickets@
    }

    pub closed spec fn hint_contents(self) -> Seq<(Vec<u8>, u16)> {
        self.kx_hints@
    }

    pub fn new() -> (r: Self)
        ensures
            r.wf(),
            r.tls12_contents().len() == 0,
            r.ticket_contents().len() == 0,
            r.hint_contents().len() == 0,
    {
        ClientSessionMemoryCache { tls12: Vec::new(), tickets: Vec::new(), kx_hints: Vec::new() }
    }

    pub fn set_kx_hint(&mut self, server: Vec<u8>, group: u16)
        requires
            old(self).wf(),
        ensures
            final(self).wf(),
            assoc_lookup(final(self).hint_contents(), server@) == Some(group),
            final(self).tls12_contents() == old(self).tls12_contents(),
            final(self).ticket_contents() == old(self).ticket_contents(),
    {
        assoc_put(&mut self.kx_hints, server, group);
    }

    pub fn kx_hint(&self, server: &Vec<u8>) -> (r: Option<u16>)
        ensures
            r == assoc_lookup(self.hint_contents(), server@),
    {
        match assoc_find_idx(&self.kx_hints, server) {
            Some(i) => {
                proof {
                    lemma_assoc_first(self.kx_hints@, server@, i as int);
                }
                Some(self.kx_hints[i].1)
            },
            None => {
                proof {
                    lemma_assoc_none(self.kx_hints@, server@);
                }
                None
            },
        }
    }

    pub fn set_tls12_session(&mut self, server: Vec<u8>, value: Tls12ClientSessionValue)
        requires
            old(self).wf(),
        ensures
            final(self).wf(),
            assoc_lookup(final(self).tls12_contents(), server@) == Some(value),
            final(self).ticket_contents() == old(self).ticket_contents(),
            final(self).hint_contents() == old(self).hint_contents(),
    {
        assoc_put(&mut self.tls12, server, value);
    }

    pub fn tls12_session(&self, server: &Vec<u8>) -> (r: Option<Tls12ClientSessionValue>)
        ensures
            match assoc_lookup(self.tls12_contents(), server@) {
                Some(v) => r matches Some(o) && o@ == v@,
                None => r is None,
            },
    {
        match assoc_find_idx(&self.tls12, server) {
            Some(i) => {
                proof {
                    lemma_assoc_first(self.tls12@, server@, i as int);
                }
                Some(self.tls12[i].1.duplicate())
            },
            None => {
                proof {
                    lemma_assoc_none(self.tls12@, server@);
                }
                None
            },
        }
    }

    pub fn remove_tls12_session(&mut self, server: &Vec<u8>)
        requires
            old(self).wf(),
        ensures
            final(self).wf(),
            assoc_lookup(final(self).tls12_contents(), server@) is None,
            final(self).ticket_contents() == old(self).ticket_contents(),
            final(self).hint_contents() == old(self).hint_contents(),
    {
        let _ = assoc_take(&mut self.tls12, server);
        proof {
            if assoc_lookup(old(self).tls12@, server@) is None {
                lemma_assoc_none(old(self).tls12@, server@);
                lemma_assoc_none(self.tls12@, server@);
            }
        }
    }

    /// Appends one ticket for the server; tickets queue up in order.
    pub fn insert_tls13_ticket(&mut self, server: Vec<u8>, value: Tls13ClientSessionValue)
        requires
            old(self).wf(),
        ensures
            final(self).wf(),
            final(self).ticket_contents() == old(self).ticket_contents().push((server, value)),
            final(self).tls12_contents() == old(self).tls12_contents(),
            final(self).hint_contents() == old(self).hint_contents(),
    {
        self.tickets.push((server, value));
    }

    /// Removes and returns the oldest ticket stored for the server: each
    /// ticket is redeemed at most once.
    pub fn take_tls13_ticket(&mut self, server: &Vec<u8>) -> (r: Option<Tls13ClientSessionValue>)
        requires
            old(self).wf(),
        ensures
            final(self).wf(),
            final(self).tls12_contents() == old(self).tls12_contents(),
            final(self).hint_contents() == old(self).hint_contents(),
            r == assoc_lookup(old(self).ticket_contents(), server@),
            match r {
                Some(_) => exists|i: int|
                    0 <= i < old(self).ticket_contents().len() && final(self).ticket_contents()
                        == old(self).ticket_contents().remove(i),
                None => final(self).ticket_contents() == old(self).ticket_contents(),
            },
    {
        match assoc_find_idx(&self.tickets, server) {
            Some(i) => {
                proof {
                    lemma_assoc_first(self.tickets@, server@, i as int);
                }
                let p = self.tickets.remove(i);
                Some(p.1)
            },
            None => {
                proof {
                    lemma_assoc_none(self.tickets@, server@);
                }
                None
            },
        }
    }
}

/// A client store that ages entries on insertion and never remembers
/// key-exchange hints, so every connection guesses the group afresh.
#[derive(Debug)]
pub struct ClientCacheWithoutKxHints {
    pub delay: u32,
    storage: ClientSessionMemoryCache,
}

impl ClientCacheWithoutKxHints {
    pub closed spec fn wf(self) -> bool {
        self.storage.wf()
    }

    pub closed spec fn spec_delay(self) -> u32 {
        self.delay
    }

    pub closed spec fn spec_tls12(self) -> Seq<(Vec<u8>, Tls12ClientSessionValue)> {
        self.storage.tls12_contents()
    }

    pub closed spec fn spec_tickets(self) -> Seq<(Vec<u8>, Tls13ClientSessionValue)> {
        self.storage.ticket_contents()
    }

    pub fn new(delay: u32) -> (r: Self)
        ensures
            r.wf(),
            r.spec_delay() == delay,
            r.spec_tls12().len() == 0,
            r.spec_tickets().len() == 0,
    {
        ClientCacheWithoutKxHints { delay, storage: ClientSessionMemoryCache::new() }
    }

    /// Hints are deliberately forgotten.
    pub fn set_kx_hint(&mut self, _server: Vec<u8>, _group: u16)
        requires
            old(self).wf(),
        ensures
            *final(self) == *old(self),
    {
    }

    pub fn kx_hint(&self, _server: &Vec<u8>) -> (r: Option<u16>)
        ensures
            r is None,
    {
        None
    }

    pub fn set_tls12_session(&mut self, server: Vec<u8>, value: Tls12ClientSessionValue)
        requires
            old(self).wf(),
        ensures
            final(self).wf(),
            final(self).spec_delay() == old(self).spec_delay(),
            (assoc_lookup(final(self).spec_tls12(), server@) matches Some(v) && v@
                == (Tls12ClientSessionValueV {
                creation_time_sec: if value.creation_time_sec >= old(self).spec_delay() {
                    (value.creation_time_sec - old(self).spec_delay()) as u64
                } else {
                    0u64
                },
                ..value@
            })),
    {
        let mut value = value;
        value.rewind_epoch(self.delay);
        self.storage.set_tls12_session(server, value);
    }

    pub fn tls12_session(&self, server: &Vec<u8>) -> (r: Option<Tls12ClientSessionValue>)
        ensures
            match assoc_lookup(self.spec_tls12(), server@) {
                Some(v) => r matches Some(o) && o@ == v@,
                None => r is None,
            },
    {
        self.storage.tls12_session(server)
    }

    pub fn remove_tls12_session(&mut self, server: &Vec<u8>)
        requires
            old(self).wf(),
        ensures
            final(self).wf(),
            final(self).spec_delay() == old(self).spec_delay(),
            (assoc_lookup(final(self).spec_tls12(), server@) is None),
    {
        self.storage.remove_tls12_session(server);
    }

    pub fn insert_tls13_ticket(&mut self, server: Vec<u8>, value: Tls13ClientSessionValue)
        requires
            old(self).wf(),
        ensures
            final(self).wf(),
            final(self).spec_delay() == old(self).spec_delay(),
            final(self).spec_tickets().len() == old(self).spec_tickets().len() + 1,
            final(self).spec_tickets().last().0 == server,
            final(self).spec_tickets().last().1@ == (Tls13ClientSessionValueV {
                creation_time_sec: if value.creation_time_sec >= old(self).spec_delay() {
                    (value.creation_time_sec - old(self).spec_delay()) as u64
                } else {
                    0u64
                },
                ..value@
            }),
    {
        let mut value = value;
        value.rewind_epoch(self.delay);
        self.storage.insert_tls13_ticket(server, value);
    }

    pub fn take_tls13_ticket(&mut self, server: &Vec<u8>) -> (r: Option<Tls13ClientSessionValue>)
        requires
            old(self).wf(),
        ensures
            final(self).wf(),
            final(self).spec_delay() == old(self).spec_delay(),
            r == assoc_lookup(old(self).spec_tickets(), server@),
    {
        self.storage.take_tls13_ticket(server)
    }
}

} // verus!
