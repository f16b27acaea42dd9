//! Certificate compression algorithms.
//!
//! Each algorithm is identified by a 16-bit code.  A decompressor is handed
//! the compressed input and the output length the peer declared; when the
//! declared length does not match the input's actual expanded length it must
//! fail, and it returns no output at all in that case.

use vstd::prelude::*;

verus! {

/// Compression failed (the input was not acceptable to the compressor).
#[derive(Clone, Copy, Debug, PartialEq, Eq, Structural)]
pub struct CompressionFailed;

/// Decompression failed (wrong declared length or corrupt payload).
#[derive(Clone, Copy, Debug, PartialEq, Eq, Structural)]
pub struct DecompressionFailed;

/// A test algorithm that strips a leading two-zero-byte prefix.
#[derive(Clone, Copy, Debug, PartialEq, Eq, Structural)]
pub struct ShrinkingAlgorithm;

/// A test algorithm that prepends a fixed four-byte header.
#[derive(Clone, Copy, Debug, PartialEq, Eq, Structural)]
pub struct ExpandingAlgorithm;

/// A test algorithm that prepends one caller-supplied byte, so that two
/// compressions of the same input may differ.
#[derive(Clone, Copy, Debug, PartialEq, Eq, Structural)]
pub struct RandomAlgorithm;

pub const ALG_SHRINKING: u16 = 0xff01;
pub const ALG_EXPANDING: u16 = 0xff02;
pub const ALG_RANDOM: u16 = 0xff03;

impl ShrinkingAlgorithm {
    pub fn algorithm(&self) -> (r: u16)
        ensures
            r == ALG_SHRINKING,
    {
        ALG_SHRINKING
    }

    /// Succeeds exactly when the declared output length is two more than the
    /// input length, restoring the stripped two-zero prefix.
    pub fn decompress(&self, input: &Vec<u8>, output_len: usize) -> (r: Result<
        Vec<u8>,
        DecompressionFailed,
    >)
        ensures
            output_len == input@.len() + 2 ==> (r matches Ok(v) && v@ == seq![0u8, 0u8] + input@),
            output_len != input@.len() + 2 ==> r == Err::<Vec<u8>, DecompressionFailed>(
                DecompressionFailed,
            ),
    {
        if output_len < 2 || output_len - 2 != input.len() {
            return Err(DecompressionFailed);
        }
        let mut out: Vec<u8> = Vec::new();
        out.push(0);
        out.push(0);
        let mut k: usize = 0;
        while k < input.len()
            invariant
                k <= input@.len(),
                out@ == seq![0u8, 0u8] + input@.subrange(0, k as int),
            decreases input@.len() - k,
        {
            out.push(input[k]);
            k = k + 1;
            assert(out@ =~= seq![0u8, 0u8] + input@.subrange(0, k as int));
        }
        assert(out@ =~= seq![0u8, 0u8] + input@);
        Ok(out)
    }

    /// Succeeds exactly when the input starts with two zero bytes, which it
    /// removes.
    pub fn compress(&self, input: &Vec<u8>) -> (r: Result<Vec<u8>, CompressionFailed>)
        ensures
            input@.len() >= 2 && input@[0] == 0 && input@[1] == 0 ==> (r matches Ok(v) && v@
                == input@.skip(2)),
            !(input@.len() >= 2 && input@[0] == 0 && input@[1] == 0) ==> r == Err::<
                Vec<u8>,
                CompressionFailed,
            >(CompressionFailed),
    {
        if input.len() < 2 || input[0] != 0 || input[1] != 0 {
            return Err(CompressionFailed);
        }
        let mut out: Vec<u8> = Vec::new();
        let mut k: usize = 2;
        while k < input.len()
            invariant
                2 <= k <= input@.len(),
                out@ == input@.subrange(2, k as int),
            decreases input@.len() - k,
        {
            out.push(input[k]);
            k = k + 1;
            assert(out@ =~= input@.subrange(2, k as int));
        }
        assert(out@ =~= input@.skip(2));
        Ok(out)
    }
}

impl ExpandingAlgorithm {
    pub fn algorithm(&self) -> (r: u16)
        ensures
            r == ALG_EXPANDING,
    {
        ALG_EXPANDING
    }

    /// Succeeds exactly when the input is the fixed four-byte header followed
    /// by `output_len` bytes.
    pub fn decompress(&self, input: &Vec<u8>, output_len: usize) -> (r: Result<
        Vec<u8>,
        DecompressionFailed,
    >)
        ensures
            output_len + 4 == input@.len() && input@.len() >= 4 && input@[0] == 1 && input@[1]
                == 2 && input@[2] == 3 && input@[3] == 4 ==> (r matches Ok(v) && v@
                == input@.skip(4)),
            !(output_len + 4 == input@.len() && input@.len() >= 4 && input@[0] == 1 && input@[1]
                == 2 && input@[2] == 3 && input@[3] == 4) ==> r == Err::<
                Vec<u8>,
                DecompressionFailed,
            >(DecompressionFailed),
    {
        if input.len() < 4 || output_len != input.len() - 4 {
            return Err(DecompressionFailed);
        }
        if input[0] != 1 || input[1] != 2 || input[2] != 3 || input[3] != 4 {
            return Err(DecompressionFailed);
        }
        let mut out: Vec<u8> = Vec::new();
        let mut k: usize = 4;
        while k < input.len()
            invariant
                4 <= k <= input@.len(),
                out@ == input@.subrange(4, k as int),
            decreases input@.len() - k,
        {
            out.push(input[k]);
            k = k + 1;
            assert(out@ =~= input@.subrange(4, k as int));
        }
        assert(out@ =~= input@.skip(4));
        Ok(out)
    }

    /// Prepends the fixed four-byte header.
    pub fn compress(&self, input: &Vec<u8>) -> (r: Result<Vec<u8>, CompressionFailed>)
        ensures
            r matches Ok(v) && v@ == seq![1u8, 2u8, 3u8, 4u8] + input@,
    {
        let mut out: Vec<u8> = Vec::new();
        out.push(1);
        out.push(2);
        out.push(3);
        out.push(4);
        let mut k: usize = 0;
        while k < input.len()
            invariant
                k <= input@.len(),
                out@ == seq![1u8, 2u8, 3u8, 4u8] + input@.subrange(0, k as int),
            decreases input@.len() - k,
        {
            out.push(input[k]);
            k = k + 1;
            assert(out@ =~= seq![1u8, 2u8, 3u8, 4u8] + input@.subrange(0, k as int));
        }
        assert(out@ =~= seq![1u8, 2u8, 3u8, 4u8] + input@);
        Ok(out)
    }
}

impl RandomAlgorithm {
    pub fn algorithm(&self) -> (r: u16)
        ensures
            r == ALG_RANDOM,
    {
        ALG_RANDOM
    }

    /// Succeeds exactly when the input is one byte longer than the declared
    /// output length; the first byte is discarded.
    pub fn decompress(&self, input: &Vec<u8>, output_len: usize) -> (r: Result<
        Vec<u8>,
        DecompressionFailed,
    >)
        ensures
            output_len + 1 == input@.len() ==> (r matches Ok(v) && v@ == input@.skip(1)),
            output_len + 1 != input@.len() ==> r == Err::<Vec<u8>, DecompressionFailed>(
                DecompressionFailed,
            ),
    {
        if input.len() < 1 || output_len != input.len() - 1 {
            return Err(DecompressionFailed);
        }
        let mut out: Vec<u8> = Vec::new();
        let mut k: usize = 1;
        while k < input.len()
            invariant
                1 <= k <= input@.len(),
                out@ == input@.subrange(1, k as int),
            decreases input@.len() - k,
        {
            out.push(input[k]);
            k = k + 1;
            assert(out@ =~= input@.subrange(1, k as int));
        }
        assert(out@ =~= input@.skip(1));
        Ok(out)
    }

    /// Prepends one caller-supplied byte (drawn at random by the caller).
    pub fn compress(&self, input: &Vec<u8>, prefix: u8) -> (r: Result<Vec<u8>, CompressionFailed>)
        ensures
            r matches Ok(v) && v@ == seq![prefix] + input@,
    {
        let mut out: Vec<u8> = Vec::new();
        out.push(prefix);
        let mut k: usize = 0;
        while k < input.len()
            invariant
                k <= input@.len(),
                out@ == seq![prefix] + input@.subrange(0, k as int),
            decreases input@.len() - k,
        {
            out.push(input[k]);
            k = k + 1;
            assert(out@ =~= seq![prefix] + input@.subrange(0, k as int));
        }
        assert(out@ =~= seq![prefix] + input@);
        Ok(out)
    }
}

/// An installed certificate-compression algorithm choice.
#[derive(Clone, Copy, Debug, PartialEq, Eq, Structural)]
pub enum CompressionAlg {
    Shrinking,
    Expanding,
    Random,
}

/// What a decompressor yields for a given input and declared output length,
/// at the specification level: the expanded bytes, or nothing on failure.
pub open spec fn spec_decompress(a: CompressionAlg, input: Seq<u8>, output_len: int) -> Option<
    Seq<u8>,
> {
    match a {
        CompressionAlg::Shrinking => if output_len == input.len() + 2 {
            Some(seq![0u8, 0u8] + input)
        } else {
            None
        },
        CompressionAlg::Expanding => if output_len + 4 == input.len() && input.len() >= 4
            && input[0] == 1 && input[1] == 2 && input[2] == 3 && input[3] == 4 {
            Some(input.skip(4))
        } else {
            None
        },
        CompressionAlg::Random => if output_len + 1 == input.len() {
            Some(input.skip(1))
        } else {
            None
        },
    }
}

impl CompressionAlg {
    pub open spec fn spec_code(self) -> u16 {
        match self {
            CompressionAlg::Shrinking => ALG_SHRINKING,
            CompressionAlg::Expanding => ALG_EXPANDING,
            CompressionAlg::Random => ALG_RANDOM,
        }
    }

    pub fn code(&self) -> (r: u16)
        ensures
            r == self.spec_code(),
    {
        match self {
            CompressionAlg::Shrinking => ShrinkingAlgorithm.algorithm(),
            CompressionAlg::Expanding => ExpandingAlgorithm.algorithm(),
            CompressionAlg::Random => RandomAlgorithm.algorithm(),
        }
    }

    /// Decompresses `input` to exactly `output_len` bytes, or fails without
    /// producing any output.
    pub fn decompress(&self, input: &Vec<u8>, output_len: usize) -> (r: Result<
        Vec<u8>,
        DecompressionFailed,
    >)
        ensures
            match spec_decompress(*self, input@, output_len as int) {
                Some(v) => r matches Ok(o) && o@ == v,
                None => r == Err::<Vec<u8>, DecompressionFailed>(DecompressionFailed),
            },
    {
        match self {
            CompressionAlg::Shrinking => ShrinkingAlgorithm.decompress(input, output_len),
            CompressionAlg::Expanding => ExpandingAlgorithm.decompress(input, output_len),
            CompressionAlg::Random => RandomAlgorithm.decompress(input, output_len),
        }
    }

    /// Compresses `input`; `rand` supplies the one random byte that the
    /// random algorithm prepends and is ignored by the others.
    pub fn compress(&self, input: &Vec<u8>, rand: u8) -> (r: Result<Vec<u8>, CompressionFailed>)
        ensures
            r matches Ok(v) ==> spec_decompress(*self, v@, input@.len() as int) == Some(input@),
    {
        match self {
            CompressionAlg::Shrinking => {
                let r = ShrinkingAlgorithm.compress(input);
                proof {
                    if input@.len() >= 2 && input@[0] == 0 && input@[1] == 0 {
                        assert(seq![0u8, 0u8] + input@.skip(2) =~= input@);
                    }
                }
                r
            },
            CompressionAlg::Expanding => {
                let r = ExpandingAlgorithm.compress(input);
                proof {
                    let v = seq![1u8, 2u8, 3u8, 4u8] + input@;
                    assert(v.skip(4) =~= input@);
                }
                r
            },
            CompressionAlg::Random => {
                let r = RandomAlgorithm.compress(input, rand);
                proof {
                    let v = seq![rand] + input@;
                    assert(v.skip(1) =~= input@);
                }
                r
            },
        }
    }
}

/// Law: a decompressor never yields output of the wrong length.  Whenever
/// decompression succeeds, the output is exactly the declared length; on any
/// declared length that does not match the input's actual expanded length it
/// yields nothing at all.
pub proof fn lemma_decompression_exact(a: CompressionAlg, input: Seq<u8>, output_len: int)
    requires
        0 <= output_len,
    ensures
        spec_decompress(a, input, output_len) matches Some(v) ==> v.len() == output_len,
{
}

} // verus!
