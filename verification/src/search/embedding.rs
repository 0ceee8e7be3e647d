//! The deterministic test embedding: its shape and the integer stream its components are
//! drawn from. Turning the stream into normalized floats is done by the caller.
use vstd::prelude::*;

use crate::fs::projection::{default_hash, spec_default_hash};

verus! {

/// A test embedding provider: deterministic vectors of `dims` components derived from a
/// hash of the text.
#[derive(Debug, Clone, PartialEq, Eq)]
pub struct MockEmbeddingProvider {
    dims: usize,
}

/// The multiplier of the linear congruential generator.
pub open spec fn lcg_multiplier() -> u64 {
    6364136223846793005
}

/// One step of the generator: `state * 6364136223846793005 + 1`, wrapping.
pub open spec fn lcg_next(state: u64) -> u64 {
    vstd::wrapping::u64_specs::wrapping_add(
        vstd::wrapping::u64_specs::wrapping_mul(state, lcg_multiplier()),
        1,
    )
}

/// The generator state after `n` steps from `seed`.
pub open spec fn lcg_state(seed: u64, n: nat) -> u64
    decreases n,
{
    if n == 0 {
        seed
    } else {
        lcg_next(lcg_state(seed, (n - 1) as nat))
    }
}

/// The `i`-th raw component drawn from `seed`: the top 31 bits of the state after `i + 1`
/// steps.
pub open spec fn raw_component(seed: u64, i: nat) -> u32 {
    (lcg_state(seed, i + 1) >> 33u64) as u32
}

impl MockEmbeddingProvider {
    /// The number of components of the vectors.
    pub closed spec fn spec_dims(&self) -> usize {
        self.dims
    }

    /// A provider of `dims`-component vectors.
    pub fn new(dims: usize) -> (r: Self)
        ensures
            r.spec_dims() == dims,
    {
        MockEmbeddingProvider { dims }
    }

    /// The number of components of the vectors.
    pub fn dimensions(&self) -> (r: usize)
        ensures
            r == self.spec_dims(),
    {
        self.dims
    }

    /// The raw integer components for `text`: the generator is seeded with the hash of
    /// the text and each component is drawn from the next state. The caller scales each to
    /// `[-1, 1]` and normalizes the vector.
    pub fn raw_components(&self, text: &str) -> (r: Vec<u32>)
        ensures
            r.len() == self.spec_dims(),
            forall|i: int| 0 <= i < r.len() ==> #[trigger] r[i] == raw_component(spec_default_hash(text@), i as nat),
    {
        let seed = default_hash(text);
        let mut state = seed;
        let mut out: Vec<u32> = Vec::new();
        let mut i: usize = 0;
        while i < self.dims
            invariant
                i <= self.dims,
                out.len() == i,
                seed == spec_default_hash(text@),
                state == lcg_state(seed, i as nat),
                forall|j: int| 0 <= j < i ==> #[trigger] out[j] == raw_component(seed, j as nat),
            decreases self.dims - i,
        {
            state = state.wrapping_mul(6364136223846793005).wrapping_add(1);
            out.push((state >> 33u64) as u32);
            i = i + 1;
        }
        out
    }
}

} // verus!
