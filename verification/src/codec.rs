//! Byte-level codec primitives for TLS wire structures.
//!
//! Every variable-length field carries an explicit length prefix.  Parsing
//! distinguishes "the bytes so far are a proper prefix of a valid encoding"
//! (`Truncated`, the caller may retry after more input arrives) from "these
//! bytes can never begin a valid encoding" (`Malformed`).

use vstd::prelude::*;

verus! {

/// Why a decode failed.
#[derive(Clone, Copy, Debug, PartialEq, Eq, Structural)]
pub enum DecodeError {
    /// More input is needed; the bytes seen so far are a prefix of a valid
    /// encoding.
    Truncated,
    /// The input can never be completed into a valid encoding.
    Malformed,
    /// A complete structure was decoded but input bytes remain.
    TrailingData,
}

/// Result of a specification-level parse: a value and the position just past
/// it, or one of the two failure classes.
pub enum SpecParse<T> {
    Val(T, int),
    Short,
    Bad,
}

/// Relates a specification-level parse outcome to an executable decode result.
pub open spec fn parse_matches<T>(sp: SpecParse<T>, r: Result<(T, usize), DecodeError>) -> bool {
    match sp {
        SpecParse::Val(v, j) => r matches Ok(p) && p.0 == v && p.1 as int == j,
        SpecParse::Short => r == Err::<(T, usize), DecodeError>(DecodeError::Truncated),
        SpecParse::Bad => r == Err::<(T, usize), DecodeError>(DecodeError::Malformed),
    }
}

// ---------------------------------------------------------------------------
// Specification encoders
// ---------------------------------------------------------------------------

pub open spec fn enc_u8(x: u8) -> Seq<u8> {
    seq![x]
}

pub open spec fn enc_u16(x: u16) -> Seq<u8> {
    seq![(x / 256) as u8, (x % 256) as u8]
}

pub open spec fn enc_u24(x: u32) -> Seq<u8> {
    seq![(x / 65536) as u8, ((x / 256) % 256) as u8, (x % 256) as u8]
}

pub open spec fn enc_u32(x: u32) -> Seq<u8> {
    seq![
        (x / 16777216) as u8,
        ((x / 65536) % 256) as u8,
        ((x / 256) % 256) as u8,
        (x % 256) as u8,
    ]
}

/// Bytes with a one-byte length prefix; well-formed when the length fits.
pub open spec fn enc_vec8(v: Seq<u8>) -> Seq<u8> {
    enc_u8(v.len() as u8) + v
}

/// Bytes with a two-byte length prefix.
pub open spec fn enc_vec16(v: Seq<u8>) -> Seq<u8> {
    enc_u16(v.len() as u16) + v
}

/// Bytes with a three-byte length prefix.
pub open spec fn enc_vec24(v: Seq<u8>) -> Seq<u8> {
    enc_u24(v.len() as u32) + v
}

// ---------------------------------------------------------------------------
// Specification parsers
// ---------------------------------------------------------------------------

pub open spec fn p_u8(s: Seq<u8>, i: int) -> SpecParse<u8> {
    if 0 <= i && i + 1 <= s.len() {
        SpecParse::Val(s[i], i + 1)
    } else {
        SpecParse::Short
    }
}

pub open spec fn p_u16(s: Seq<u8>, i: int) -> SpecParse<u16> {
    if 0 <= i && i + 2 <= s.len() {
        SpecParse::Val(((s[i] as int) * 256 + (s[i + 1] as int)) as u16, i + 2)
    } else {
        SpecParse::Short
    }
}

pub open spec fn p_u24(s: Seq<u8>, i: int) -> SpecParse<u32> {
    if 0 <= i && i + 3 <= s.len() {
        SpecParse::Val(
            ((s[i] as int) * 65536 + (s[i + 1] as int) * 256 + (s[i + 2] as int)) as u32,
            i + 3,
        )
    } else {
        SpecParse::Short
    }
}

pub open spec fn p_u32(s: Seq<u8>, i: int) -> SpecParse<u32> {
    if 0 <= i && i + 4 <= s.len() {
        SpecParse::Val(
            ((s[i] as int) * 16777216 + (s[i + 1] as int) * 65536 + (s[i + 2] as int) * 256 + (
            s[i + 3] as int)) as u32,
            i + 4,
        )
    } else {
        SpecParse::Short
    }
}

pub open spec fn p_vec8(s: Seq<u8>, i: int) -> SpecParse<Seq<u8>> {
    match p_u8(s, i) {
        SpecParse::Val(n, j) => if j + n <= s.len() {
            SpecParse::Val(s.subrange(j, j + n), j + n)
        } else {
            SpecParse::Short
        },
        SpecParse::Short => SpecParse::Short,
        SpecParse::Bad => SpecParse::Bad,
    }
}

pub open spec fn p_vec16(s: Seq<u8>, i: int) -> SpecParse<Seq<u8>> {
    match p_u16(s, i) {
        SpecParse::Val(n, j) => if j + n <= s.len() {
            SpecParse::Val(s.subrange(j, j + n), j + n)
        } else {
            SpecParse::Short
        },
        SpecParse::Short => SpecParse::Short,
        SpecParse::Bad => SpecParse::Bad,
    }
}

pub open spec fn p_vec24(s: Seq<u8>, i: int) -> SpecParse<Seq<u8>> {
    match p_u24(s, i) {
        SpecParse::Val(n, j) => if j + n <= s.len() {
            SpecParse::Val(s.subrange(j, j + n), j + n)
        } else {
            SpecParse::Short
        },
        SpecParse::Short => SpecParse::Short,
        SpecParse::Bad => SpecParse::Bad,
    }
}

/// An eight-byte value, encoded as two four-byte halves.
pub open spec fn enc_u64(x: u64) -> Seq<u8> {
    enc_u32((x / 4294967296) as u32) + enc_u32((x % 4294967296) as u32)
}

pub open spec fn p_u64(s: Seq<u8>, i: int) -> SpecParse<u64> {
    match p_u32(s, i) {
        SpecParse::Val(hi, j) => match p_u32(s, j) {
            SpecParse::Val(lo, k) => SpecParse::Val(
                ((hi as int) * 4294967296 + (lo as int)) as u64,
                k,
            ),
            SpecParse::Short => SpecParse::Short,
            SpecParse::Bad => SpecParse::Bad,
        },
        SpecParse::Short => SpecParse::Short,
        SpecParse::Bad => SpecParse::Bad,
    }
}

// ---------------------------------------------------------------------------
// Splitting lemmas
// ---------------------------------------------------------------------------

/// A subrange equal to a concatenation splits at the boundary.
pub proof fn lemma_split_concat(s: Seq<u8>, i: int, a: Seq<u8>, b: Seq<u8>)
    requires
        0 <= i,
        i + a.len() + b.len() <= s.len(),
        s.subrange(i, i + a.len() + b.len()) == a + b,
    ensures
        s.subrange(i, i + a.len() as int) == a,
        s.subrange(i + a.len(), i + a.len() + b.len()) == b,
{
    let whole = s.subrange(i, i + a.len() + b.len());
    assert forall|k: int| 0 <= k < a.len() implies s.subrange(i, i + a.len() as int)[k] == a[k] by {
        assert(whole[k] == (a + b)[k]);
    }
    assert(s.subrange(i, i + a.len() as int) =~= a);
    assert forall|k: int| 0 <= k < b.len() implies s.subrange(
        i + a.len(),
        i + a.len() + b.len(),
    )[k] == b[k] by {
        assert(whole[a.len() + k] == (a + b)[a.len() + k]);
    }
    assert(s.subrange(i + a.len(), i + a.len() + b.len()) =~= b);
}

// ---------------------------------------------------------------------------
// Parse-of-encode lemmas
// ---------------------------------------------------------------------------

pub proof fn lemma_p_u8(s: Seq<u8>, i: int, x: u8)
    requires
        0 <= i,
        i + 1 <= s.len(),
        s.subrange(i, i + 1) == enc_u8(x),
    ensures
        p_u8(s, i) == SpecParse::Val(x, i + 1),
{
    assert(s[i] == s.subrange(i, i + 1)[0]);
}

pub proof fn lemma_p_u16(s: Seq<u8>, i: int, x: u16)
    requires
        0 <= i,
        i + 2 <= s.len(),
        s.subrange(i, i + 2) == enc_u16(x),
    ensures
        p_u16(s, i) == SpecParse::Val(x, i + 2),
{
    assert(s[i] == s.subrange(i, i + 2)[0]);
    assert(s[i + 1] == s.subrange(i, i + 2)[1]);
    assert((x / 256) * 256 + x % 256 == x) by (nonlinear_arith);
}

pub proof fn lemma_p_u24(s: Seq<u8>, i: int, x: u32)
    requires
        0 <= i,
        i + 3 <= s.len(),
        x < 16777216,
        s.subrange(i, i + 3) == enc_u24(x),
    ensures
        p_u24(s, i) == SpecParse::Val(x, i + 3),
{
    assert(s[i] == s.subrange(i, i + 3)[0]);
    assert(s[i + 1] == s.subrange(i, i + 3)[1]);
    assert(s[i + 2] == s.subrange(i, i + 3)[2]);
    assert((x / 65536) * 65536 + ((x / 256) % 256) * 256 + x % 256 == x) by (nonlinear_arith);
}

pub proof fn lemma_p_u32(s: Seq<u8>, i: int, x: u32)
    requires
        0 <= i,
        i + 4 <= s.len(),
        s.subrange(i, i + 4) == enc_u32(x),
    ensures
        p_u32(s, i) == SpecParse::Val(x, i + 4),
{
    assert(s[i] == s.subrange(i, i + 4)[0]);
    assert(s[i + 1] == s.subrange(i, i + 4)[1]);
    assert(s[i + 2] == s.subrange(i, i + 4)[2]);
    assert(s[i + 3] == s.subrange(i, i + 4)[3]);
    assert((x / 16777216) * 16777216 + ((x / 65536) % 256) * 65536 + ((x / 256) % 256) * 256 + x
        % 256 == x) by (nonlinear_arith);
}

pub proof fn lemma_p_u64(s: Seq<u8>, i: int, x: u64)
    requires
        0 <= i,
        i + 8 <= s.len(),
        s.subrange(i, i + 8) == enc_u64(x),
    ensures
        p_u64(s, i) == SpecParse::Val(x, i + 8),
{
    let hi = (x / 4294967296) as u32;
    let lo = (x % 4294967296) as u32;
    lemma_split_concat(s, i, enc_u32(hi), enc_u32(lo));
    lemma_p_u32(s, i, hi);
    lemma_p_u32(s, i + 4, lo);
    assert((x / 4294967296) * 4294967296 + x % 4294967296 == x) by (nonlinear_arith);
}

pub proof fn lemma_p_vec8(s: Seq<u8>, i: int, v: Seq<u8>)
    requires
        0 <= i,
        v.len() < 256,
        i + enc_vec8(v).len() <= s.len(),
        s.subrange(i, i + enc_vec8(v).len()) == enc_vec8(v),
    ensures
        p_vec8(s, i) == SpecParse::Val(v, i + enc_vec8(v).len()),
{
    lemma_split_concat(s, i, enc_u8(v.len() as u8), v);
    lemma_p_u8(s, i, v.len() as u8);
}

pub proof fn lemma_p_vec16(s: Seq<u8>, i: int, v: Seq<u8>)
    requires
        0 <= i,
        v.len() < 65536,
        i + enc_vec16(v).len() <= s.len(),
        s.subrange(i, i + enc_vec16(v).len()) == enc_vec16(v),
    ensures
        p_vec16(s, i) == SpecParse::Val(v, i + enc_vec16(v).len()),
{
    lemma_split_concat(s, i, enc_u16(v.len() as u16), v);
    lemma_p_u16(s, i, v.len() as u16);
}

pub proof fn lemma_p_vec24(s: Seq<u8>, i: int, v: Seq<u8>)
    requires
        0 <= i,
        v.len() < 16777216,
        i + enc_vec24(v).len() <= s.len(),
        s.subrange(i, i + enc_vec24(v).len()) == enc_vec24(v),
    ensures
        p_vec24(s, i) == SpecParse::Val(v, i + enc_vec24(v).len()),
{
    lemma_split_concat(s, i, enc_u24(v.len() as u32), v);
    lemma_p_u24(s, i, v.len() as u32);
}

// ---------------------------------------------------------------------------
// Executable encoders
// ---------------------------------------------------------------------------

pub fn put_u8(out: &mut Vec<u8>, x: u8)
    ensures
        final(out)@ == old(out)@ + enc_u8(x),
{
    out.push(x);
    assert(out@ =~= old(out)@ + enc_u8(x));
}

pub fn put_u16(out: &mut Vec<u8>, x: u16)
    ensures
        final(out)@ == old(out)@ + enc_u16(x),
{
    out.push((x / 256) as u8);
    out.push((x % 256) as u8);
    assert(out@ =~= old(out)@ + enc_u16(x));
}

pub fn put_u24(out: &mut Vec<u8>, x: u32)
    requires
        x < 16777216,
    ensures
        final(out)@ == old(out)@ + enc_u24(x),
{
    out.push((x / 65536) as u8);
    out.push(((x / 256) % 256) as u8);
    out.push((x % 256) as u8);
    assert(out@ =~= old(out)@ + enc_u24(x));
}

pub fn put_u32(out: &mut Vec<u8>, x: u32)
    ensures
        final(out)@ == old(out)@ + enc_u32(x),
{
    out.push((x / 16777216) as u8);
    out.push(((x / 65536) % 256) as u8);
    out.push(((x / 256) % 256) as u8);
    out.push((x % 256) as u8);
    assert(out@ =~= old(out)@ + enc_u32(x));
}

pub fn put_u64(out: &mut Vec<u8>, x: u64)
    ensures
        final(out)@ == old(out)@ + enc_u64(x),
{
    put_u32(out, (x / 4294967296) as u32);
    put_u32(out, (x % 4294967296) as u32);
    assert(out@ =~= old(out)@ + enc_u64(x));
}

pub fn put_bytes(out: &mut Vec<u8>, v: &Vec<u8>)
    ensures
        final(out)@ == old(out)@ + v@,
{
    let mut k: usize = 0;
    while k < v.len()
        invariant
            k <= v.len(),
            out@ == old(out)@ + v@.subrange(0, k as int),
        decreases v.len() - k,
    {
        out.push(v[k]);
        k = k + 1;
        assert(out@ =~= old(out)@ + v@.subrange(0, k as int));
    }
    assert(v@.subrange(0, v@.len() as int) =~= v@);
}

pub fn put_vec8(out: &mut Vec<u8>, v: &Vec<u8>)
    requires
        v@.len() < 256,
    ensures
        final(out)@ == old(out)@ + enc_vec8(v@),
{
    put_u8(out, v.len() as u8);
    put_bytes(out, v);
    assert(out@ =~= old(out)@ + enc_vec8(v@));
}

pub fn put_vec16(out: &mut Vec<u8>, v: &Vec<u8>)
    requires
        v@.len() < 65536,
    ensures
        final(out)@ == old(out)@ + enc_vec16(v@),
{
    put_u16(out, v.len() as u16);
    put_bytes(out, v);
    assert(out@ =~= old(out)@ + enc_vec16(v@));
}

pub fn put_vec24(out: &mut Vec<u8>, v: &Vec<u8>)
    requires
        v@.len() < 16777216,
    ensures
        final(out)@ == old(out)@ + enc_vec24(v@),
{
    put_u24(out, v.len() as u32);
    put_bytes(out, v);
    assert(out@ =~= old(out)@ + enc_vec24(v@));
}

// ---------------------------------------------------------------------------
// Executable parsers
// ---------------------------------------------------------------------------

pub fn get_u8(s: &Vec<u8>, i: usize) -> (r: Result<(u8, usize), DecodeError>)
    ensures
        parse_matches(p_u8(s@, i as int), r),
{
    if i < s.len() {
        Ok((s[i], i + 1))
    } else {
        Err(DecodeError::Truncated)
    }
}

pub fn get_u16(s: &Vec<u8>, i: usize) -> (r: Result<(u16, usize), DecodeError>)
    ensures
        parse_matches(p_u16(s@, i as int), r),
{
    if s.len() >= 2 && i <= s.len() - 2 {
        Ok(((s[i] as u16) * 256 + (s[i + 1] as u16), i + 2))
    } else {
        Err(DecodeError::Truncated)
    }
}

pub fn get_u24(s: &Vec<u8>, i: usize) -> (r: Result<(u32, usize), DecodeError>)
    ensures
        parse_matches(p_u24(s@, i as int), r),
{
    if s.len() >= 3 && i <= s.len() - 3 {
        Ok(((s[i] as u32) * 65536 + (s[i + 1] as u32) * 256 + (s[i + 2] as u32), i + 3))
    } else {
        Err(DecodeError::Truncated)
    }
}

pub fn get_u32(s: &Vec<u8>, i: usize) -> (r: Result<(u32, usize), DecodeError>)
    ensures
        parse_matches(p_u32(s@, i as int), r),
{
    if s.len() >= 4 && i <= s.len() - 4 {
        Ok((
            (s[i] as u32) * 16777216 + (s[i + 1] as u32) * 65536 + (s[i + 2] as u32) * 256 + (s[i
                + 3] as u32),
            i + 4,
        ))
    } else {
        Err(DecodeError::Truncated)
    }
}

pub fn get_u64(s: &Vec<u8>, i: usize) -> (r: Result<(u64, usize), DecodeError>)
    ensures
        parse_matches(p_u64(s@, i as int), r),
{
    let (hi, j) = get_u32(s, i)?;
    let (lo, k) = get_u32(s, j)?;
    Ok(((hi as u64) * 4294967296 + (lo as u64), k))
}

/// Compares two byte vectors for equality.
pub fn bytes_eq(a: &Vec<u8>, b: &Vec<u8>) -> (r: bool)
    ensures
        r == (a@ == b@),
{
    if a.len() != b.len() {
        assert(a@ != b@);
        return false;
    }
    let mut k: usize = 0;
    while k < a.len()
        invariant
            k <= a@.len(),
            a@.len() == b@.len(),
            forall|j: int| 0 <= j < k ==> a@[j] == b@[j],
        decreases a@.len() - k,
    {
        if a[k] != b[k] {
            return false;
        }
        k = k + 1;
    }
    assert(a@ =~= b@);
    true
}

/// Copies `s[from..to]` into a fresh vector.
pub fn copy_range(s: &Vec<u8>, from: usize, to: usize) -> (r: Vec<u8>)
    requires
        from <= to <= s@.len(),
    ensures
        r@ == s@.subrange(from as int, to as int),
{
    let mut out: Vec<u8> = Vec::new();
    let mut k: usize = from;
    while k < to
        invariant
            from <= k <= to <= s@.len(),
            out@ == s@.subrange(from as int, k as int),
        decreases to - k,
    {
        out.push(s[k]);
        k = k + 1;
        assert(out@ =~= s@.subrange(from as int, k as int));
    }
    out
}

pub fn get_vec8(s: &Vec<u8>, i: usize) -> (r: Result<(Vec<u8>, usize), DecodeError>)
    ensures
        match p_vec8(s@, i as int) {
            SpecParse::Val(v, j) => r matches Ok(p) && p.0@ == v && p.1 as int == j,
            SpecParse::Short => r == Err::<(Vec<u8>, usize), DecodeError>(DecodeError::Truncated),
            SpecParse::Bad => r == Err::<(Vec<u8>, usize), DecodeError>(DecodeError::Malformed),
        },
{
    let (n, j) = get_u8(s, i)?;
    let n = n as usize;
    if j <= s.len() && n <= s.len() - j {
        let v = copy_range(s, j, j + n);
        Ok((v, j + n))
    } else {
        Err(DecodeError::Truncated)
    }
}

pub fn get_vec16(s: &Vec<u8>, i: usize) -> (r: Result<(Vec<u8>, usize), DecodeError>)
    ensures
        match p_vec16(s@, i as int) {
            SpecParse::Val(v, j) => r matches Ok(p) && p.0@ == v && p.1 as int == j,
            SpecParse::Short => r == Err::<(Vec<u8>, usize), DecodeError>(DecodeError::Truncated),
            SpecParse::Bad => r == Err::<(Vec<u8>, usize), DecodeError>(DecodeError::Malformed),
        },
{
    let (n, j) = get_u16(s, i)?;
    let n = n as usize;
    if j <= s.len() && n <= s.len() - j {
        let v = copy_range(s, j, j + n);
        Ok((v, j + n))
    } else {
        Err(DecodeError::Truncated)
    }
}

pub fn get_vec24(s: &Vec<u8>, i: usize) -> (r: Result<(Vec<u8>, usize), DecodeError>)
    ensures
        match p_vec24(s@, i as int) {
            SpecParse::Val(v, j) => r matches Ok(p) && p.0@ == v && p.1 as int == j,
            SpecParse::Short => r == Err::<(Vec<u8>, usize), DecodeError>(DecodeError::Truncated),
            SpecParse::Bad => r == Err::<(Vec<u8>, usize), DecodeError>(DecodeError::Malformed),
        },
{
    let (n, j) = get_u24(s, i)?;
    if (n as usize) <= s.len() && j <= s.len() - (n as usize) {
        let n = n as usize;
        let v = copy_range(s, j, j + n);
        Ok((v, j + n))
    } else {
        Err(DecodeError::Truncated)
    }
}

/// Appends a copy of one vector of two-byte values to another.
pub fn append_u16s(out: &mut Vec<u16>, v: &Vec<u16>)
    ensures
        final(out)@ == old(out)@ + v@,
{
    let mut k: usize = 0;
    while k < v.len()
        invariant
            k <= v.len(),
            out@ == old(out)@ + v@.subrange(0, k as int),
        decreases v.len() - k,
    {
        out.push(v[k]);
        k = k + 1;
        assert(out@ =~= old(out)@ + v@.subrange(0, k as int));
    }
    assert(v@.subrange(0, v@.len() as int) =~= v@);
}

/// Copies the first `n` two-byte values of a vector.
pub fn copy_range_u16_prefix(v: &Vec<u16>, n: usize) -> (r: Vec<u16>)
    requires
        n <= v@.len(),
    ensures
        r@ == v@.subrange(0, n as int),
{
    let mut out: Vec<u16> = Vec::new();
    let mut k: usize = 0;
    while k < n
        invariant
            k <= n <= v@.len(),
            out@ == v@.subrange(0, k as int),
        decreases n - k,
    {
        out.push(v[k]);
        k = k + 1;
        assert(out@ =~= v@.subrange(0, k as int));
    }
    out
}

} // verus!
