//! Token sampling: the shape checks on the logits, the tokens picked for a
//! batch, and the bookkeeping of a beam-search step.

use vstd::prelude::*;
use crate::buffer::GpuBuffer;
use crate::text::{decimal, push_decimal};
use crate::types::DType;

verus! {

/// Sampling errors.
#[derive(Debug)]
pub enum SamplingError {
    /// Invalid tensor shape.
    InvalidShape(String),
    /// Allocation failed.
    AllocationFailed(String),
    /// Kernel execution failed.
    ExecutionFailed(String),
}

impl SamplingError {
    /// The text the error displays.
    pub open spec fn message_spec(&self) -> Seq<char> {
        match self {
            SamplingError::InvalidShape(m) => "Invalid tensor shape: "@ + m@,
            SamplingError::AllocationFailed(m) => "Allocation failed: "@ + m@,
            SamplingError::ExecutionFailed(m) => "Kernel execution failed: "@ + m@,
        }
    }

    /// The error's message, as its `Display` writes it.
    pub fn message(&self) -> (r: String)
        ensures
            r@ == self.message_spec(),
    {
        let mut s = String::new();
        proof {
            reveal_strlit("Invalid tensor shape: ");
            reveal_strlit("Allocation failed: ");
            reveal_strlit("Kernel execution failed: ");
        }
        match self {
            SamplingError::InvalidShape(m) => {
                s.append("Invalid tensor shape: ");
                s.append(m.as_str());
            },
            SamplingError::AllocationFailed(m) => {
                s.append("Allocation failed: ");
                s.append(m.as_str());
            },
            SamplingError::ExecutionFailed(m) => {
                s.append("Kernel execution failed: ");
                s.append(m.as_str());
            },
        }
        s
    }
}

/// Output of a beam-search step.
#[derive(Debug)]
pub struct BeamSearchOutput {
    /// Selected token IDs.
    pub tokens: Vec<u32>,
    /// Indices of beams that were extended.
    pub beam_indices: Vec<usize>,
}

/// The message of a vocabulary mismatch.
pub open spec fn vocab_message(expected: usize, got: usize) -> Seq<char> {
    "Expected vocab size "@ + decimal(expected as nat) + ", got "@ + decimal(got as nat)
}

/// The token picked for row `i` of a batch over a vocabulary of `vocab`
/// entries.
pub open spec fn token_for(i: int, vocab: usize) -> u32 {
    (i % (vocab as int)) as u32
}

/// Sampling kernel over a vocabulary.
#[derive(Debug)]
pub struct SamplingKernel {
    vocab_size: usize,
    dtype: DType,
    device: i32,
}

impl SamplingKernel {
    /// Vocabulary size.
    pub closed spec fn spec_vocab_size(&self) -> usize {
        self.vocab_size
    }

    /// Data type.
    pub closed spec fn spec_dtype(&self) -> DType {
        self.dtype
    }

    /// Device index.
    pub closed spec fn spec_device(&self) -> i32 {
        self.device
    }

    /// Create a new sampling kernel.
    pub fn new(device: i32, vocab_size: usize, dtype: DType) -> (r: Self)
        ensures
            r.spec_vocab_size() == vocab_size,
            r.spec_dtype() == dtype,
            r.spec_device() == device,
    {
        SamplingKernel { vocab_size, dtype, device }
    }

    /// The vocabulary size.
    pub fn vocab_size(&self) -> (r: usize)
        ensures
            r == self.spec_vocab_size(),
    {
        self.vocab_size
    }

    /// The sampling inputs on which `sample` is defined: a well-shaped
    /// batch over an empty vocabulary has no token to pick.
    pub open spec fn sample_defined(&self, shape: Seq<usize>) -> bool {
        shape.len() == 2 && shape[1] == self.spec_vocab_size() ==> (self.spec_vocab_size() > 0
            || shape[0] == 0)
    }

    /// Sample one token per row of 2-D logits [batch, vocab]: the logits
    /// must be 2-D and their vocabulary the kernel's; row `i` gets token
    /// `i mod vocab`.
    pub fn sample(&self, logits: &GpuBuffer) -> (r: Result<Vec<u32>, SamplingError>)
        requires
            self.sample_defined(logits.spec_shape()),
        ensures
            logits.spec_shape().len() != 2 ==> (r matches Err(SamplingError::InvalidShape(m))
                && m@ == "Expected 2D logits [batch, vocab]"@),
            logits.spec_shape().len() == 2 && logits.spec_shape()[1] != self.spec_vocab_size() ==> (
            r matches Err(SamplingError::InvalidShape(m)) && m@ == vocab_message(
                self.spec_vocab_size(),
                logits.spec_shape()[1],
            )),
            logits.spec_shape().len() == 2 && logits.spec_shape()[1] == self.spec_vocab_size() ==> (
            r matches Ok(tokens) && tokens@.len() == logits.spec_shape()[0] && forall|i: int|
                0 <= i < tokens@.len() ==> #[trigger] tokens@[i] == token_for(
                    i,
                    self.spec_vocab_size(),
                )),
    {
        let shape = logits.shape();
        if shape.len() != 2 {
            proof {
                reveal_strlit("Expected 2D logits [batch, vocab]");
            }
            return Err(SamplingError::InvalidShape(String::from_str("Expected 2D logits [batch, vocab]")));
        }
        let batch_size = shape[0];
        let vocab = shape[1];
        if vocab != self.vocab_size {
            proof {
                reveal_strlit("Expected vocab size ");
                reveal_strlit(", got ");
            }
            let mut m = String::new();
            m.append("Expected vocab size ");
            push_decimal(&mut m, self.vocab_size as u64);
            m.append(", got ");
            push_decimal(&mut m, vocab as u64);
            assert(m@ =~= vocab_message(self.vocab_size, vocab));
            return Err(SamplingError::InvalidShape(m));
        }
        let mut tokens: Vec<u32> = Vec::new();
        let mut i: usize = 0;
        while i < batch_size
            invariant
                i <= batch_size,
                batch_size > 0 ==> vocab > 0,
                tokens@.len() == i,
                forall|j: int| 0 <= j < i ==> #[trigger] tokens@[j] == token_for(j, vocab),
            decreases batch_size - i,
        {
            tokens.push((i % vocab) as u32);
            i = i + 1;
        }
        Ok(tokens)
    }

    /// Sample with a token history: the history's repetition penalty acts
    /// on the logits' values only, so the tokens are those of `sample`.
    pub fn sample_with_history(&self, logits: &GpuBuffer, token_history: &[Vec<u32>]) -> (r: Result<
        Vec<u32>,
        SamplingError,
    >)
        requires
            self.sample_defined(logits.spec_shape()),
        ensures
            logits.spec_shape().len() != 2 ==> (r matches Err(SamplingError::InvalidShape(m))
                && m@ == "Expected 2D logits [batch, vocab]"@),
            logits.spec_shape().len() == 2 && logits.spec_shape()[1] != self.spec_vocab_size() ==> (
            r matches Err(SamplingError::InvalidShape(m)) && m@ == vocab_message(
                self.spec_vocab_size(),
                logits.spec_shape()[1],
            )),
            logits.spec_shape().len() == 2 && logits.spec_shape()[1] == self.spec_vocab_size() ==> (
            r matches Ok(tokens) && tokens@.len() == logits.spec_shape()[0] && forall|i: int|
                0 <= i < tokens@.len() ==> #[trigger] tokens@[i] == token_for(
                    i,
                    self.spec_vocab_size(),
                )),
    {
        self.sample(logits)
    }

    /// One beam-search step over logits whose first dimension is
    /// batch x beams: that dimension must be a multiple of `num_beams`;
    /// every row gets token 0 and row `i` extends beam `i mod num_beams`.
    pub fn beam_step(&self, logits: &GpuBuffer, num_beams: usize) -> (r: Result<
        BeamSearchOutput,
        SamplingError,
    >)
        requires
            logits.spec_shape().len() >= 1,
            num_beams > 0,
        ensures
            logits.spec_shape()[0] % num_beams != 0 ==> (r matches Err(
                SamplingError::InvalidShape(m),
            ) && m@ == "Batch size must be divisible by num_beams"@),
            logits.spec_shape()[0] % num_beams == 0 ==> (r matches Ok(out) && out.tokens@
                =~= Seq::new(logits.spec_shape()[0] as nat, |i: int| 0u32) && out.beam_indices@.len()
                == logits.spec_shape()[0] && forall|i: int|
                0 <= i < out.beam_indices@.len() ==> #[trigger] out.beam_indices@[i] == i
                    % (num_beams as int)),
    {
        let shape = logits.shape();
        let batch_beam = shape[0];
        if batch_beam % num_beams != 0 {
            proof {
                reveal_strlit("Batch size must be divisible by num_beams");
            }
            return Err(
                SamplingError::InvalidShape(
                    String::from_str("Batch size must be divisible by num_beams"),
                ),
            );
        }
        let mut tokens: Vec<u32> = Vec::new();
        let mut beam_indices: Vec<usize> = Vec::new();
        let mut i: usize = 0;
        while i < batch_beam
            invariant
                i <= batch_beam,
                num_beams > 0,
                tokens@ =~= Seq::new(i as nat, |j: int| 0u32),
                beam_indices@.len() == i,
                forall|j: int| 0 <= j < i ==> #[trigger] beam_indices@[j] == j % (num_beams as int),
            decreases batch_beam - i,
        {
            tokens.push(0);
            beam_indices.push(i % num_beams);
            i = i + 1;
        }
        Ok(BeamSearchOutput { tokens, beam_indices })
    }
}

} // verus!
