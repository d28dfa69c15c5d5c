//! The fixed components of the generation model and the integer stages of
//! the pipeline: the denoising schedule, the pseudo-random latent states and
//! the layout of the text embedding.
use vstd::prelude::*;
use crate::tokenizer::MAX_LENGTH;

verus! {

/// Width of the embedding block produced for each token.
pub const EMBEDDING_DIM: usize = 768;

/// Total number of timesteps that a schedule divides.
pub const TRAIN_TIMESTEPS: usize = 1000;

/// Start of the noise schedule, in units of 1e-5.
pub const BETA_START_E5: u32 = 85;

/// End of the noise schedule, in units of 1e-5.
pub const BETA_END_E5: u32 = 1200;

/// Number of latent channels.
pub const LATENT_CHANNELS: usize = 4;

/// Multiplier of the linear-congruential generator.
pub const LCG_MUL: u64 = 1664525;

/// Increment of the linear-congruential generator.
pub const LCG_INC: u64 = 1013904223;

/// Next state of the linear-congruential generator (arithmetic modulo 2^64).
pub open spec fn lcg_next(s: u64) -> u64 {
    ((s as int * LCG_MUL as int + LCG_INC as int) % 0x1_0000_0000_0000_0000int) as u64
}

/// State of the generator after `k` steps from `seed`.
pub open spec fn lcg_state(seed: u64, k: nat) -> u64
    decreases k,
{
    if k == 0 {
        seed
    } else {
        lcg_next(lcg_state(seed, (k - 1) as nat))
    }
}

/// The `size` successive generator states that follow `seed`; each one
/// yields one initial latent value.
pub open spec fn random_states_spec(seed: u64, size: nat) -> Seq<u64> {
    Seq::new(size, |k: int| lcg_state(seed, (k + 1) as nat))
}

/// Computes `random_states_spec(seed, size)`.
pub fn random_states(seed: u64, size: usize) -> (r: Vec<u64>)
    ensures
        r@ == random_states_spec(seed, size as nat),
{
    let mut out: Vec<u64> = Vec::new();
    let mut s: u64 = seed;
    let mut k: usize = 0;
    while k < size
        invariant
            0 <= k <= size,
            s == lcg_state(seed, k as nat),
            out@ =~= random_states_spec(seed, k as nat),
        decreases size - k,
    {
        assert((s as u128) * (LCG_MUL as u128) <= 0xFFFF_FFFF_FFFF_FFFFu128 * 1664525u128)
            by (nonlinear_arith)
            requires
                s <= 0xFFFF_FFFF_FFFF_FFFFu64,
        ;
        let wide: u128 = (s as u128) * (LCG_MUL as u128) + (LCG_INC as u128);
        s = (wide % 0x1_0000_0000_0000_0000u128) as u64;
        out.push(s);
        k = k + 1;
    }
    out
}

/// Timestep `i` of a schedule of `n` steps.
pub open spec fn timestep(n: nat, i: nat) -> int {
    TRAIN_TIMESTEPS as int - i * (TRAIN_TIMESTEPS as int / n as int) - 1
}

/// Argument of embedding value `k` for `tokens`: the value is the sine of
/// this number divided by 1000.
pub open spec fn embedding_phase(tokens: Seq<u32>, k: int) -> int {
    tokens[k / EMBEDDING_DIM as int] as int + k % EMBEDDING_DIM as int
}

/// Placeholder text encoder: a fixed-width block of values per token.
#[derive(Clone, Copy)]
pub struct TextEncoder {
    embedding_dim: usize,
}

impl TextEncoder {
    pub closed spec fn wf(&self) -> bool {
        self.embedding_dim == EMBEDDING_DIM
    }

    pub fn new() -> (r: Self)
        ensures
            r.wf(),
    {
        TextEncoder { embedding_dim: EMBEDDING_DIM }
    }

    /// The integer argument of each embedding value, one block of
    /// `EMBEDDING_DIM` per token, in token order.
    pub fn phases(&self, tokens: &Vec<u32>) -> (r: Vec<u64>)
        requires
            self.wf(),
            tokens@.len() <= MAX_LENGTH,
        ensures
            r@.len() == tokens@.len() * EMBEDDING_DIM,
            forall|k: int| 0 <= k < r@.len() ==> r@[k] as int == embedding_phase(tokens@, k),
    {
        let mut out: Vec<u64> = Vec::new();
        let mut t: usize = 0;
        while t < tokens.len()
            invariant
                self.wf(),
                tokens@.len() <= MAX_LENGTH,
                0 <= t <= tokens@.len(),
                out@.len() == t * EMBEDDING_DIM,
                forall|k: int| 0 <= k < out@.len() ==> out@[k] as int == embedding_phase(tokens@, k),
            decreases tokens@.len() - t,
        {
            let mut d: usize = 0;
            while d < self.embedding_dim
                invariant
                    self.wf(),
                    tokens@.len() <= MAX_LENGTH,
                    0 <= t < tokens@.len(),
                    0 <= d <= EMBEDDING_DIM,
                    out@.len() == t * EMBEDDING_DIM + d,
                    forall|k: int| 0 <= k < out@.len() ==> out@[k] as int == embedding_phase(tokens@, k),
                decreases EMBEDDING_DIM - d,
            {
                proof {
                    vstd::arithmetic::div_mod::lemma_fundamental_div_mod_converse(
                        (t * EMBEDDING_DIM + d) as int,
                        EMBEDDING_DIM as int,
                        t as int,
                        d as int,
                    );
                }
                out.push(tokens[t] as u64 + d as u64);
                d = d + 1;
            }
            t = t + 1;
        }
        out
    }
}

/// Placeholder noise predictor.
#[derive(Clone, Copy)]
pub struct UNet {
    in_channels: usize,
    out_channels: usize,
}

impl UNet {
    pub closed spec fn wf(&self) -> bool {
        self.in_channels == LATENT_CHANNELS && self.out_channels == LATENT_CHANNELS
    }

    pub fn new() -> (r: Self)
        ensures
            r.wf(),
    {
        UNet { in_channels: LATENT_CHANNELS, out_channels: LATENT_CHANNELS }
    }
}

/// Sampler that orders the refinement steps.
#[derive(Clone, Copy)]
pub struct DDIMScheduler {
    num_train_timesteps: usize,
    beta_start_e5: u32,
    beta_end_e5: u32,
}

impl DDIMScheduler {
    pub closed spec fn wf(&self) -> bool {
        &&& self.num_train_timesteps == TRAIN_TIMESTEPS
        &&& self.beta_start_e5 == BETA_START_E5
        &&& self.beta_end_e5 == BETA_END_E5
    }

    pub fn new() -> (r: Self)
        ensures
            r.wf(),
    {
        DDIMScheduler {
            num_train_timesteps: TRAIN_TIMESTEPS,
            beta_start_e5: BETA_START_E5,
            beta_end_e5: BETA_END_E5,
        }
    }

    /// Start of the noise schedule, in units of 1e-5.
    pub fn beta_start_e5(&self) -> (r: u32)
        requires
            self.wf(),
        ensures
            r == BETA_START_E5,
    {
        self.beta_start_e5
    }

    /// End of the noise schedule, in units of 1e-5.
    pub fn beta_end_e5(&self) -> (r: u32)
        requires
            self.wf(),
        ensures
            r == BETA_END_E5,
    {
        self.beta_end_e5
    }

    /// Total number of timesteps that a schedule divides.
    pub fn num_train_timesteps(&self) -> (r: usize)
        requires
            self.wf(),
        ensures
            r == TRAIN_TIMESTEPS,
    {
        self.num_train_timesteps
    }

    /// The schedule of `n` steps: `TRAIN_TIMESTEPS` divided into `n` equal
    /// intervals, descending from the largest timestep. With at most
    /// `TRAIN_TIMESTEPS` steps it is strictly decreasing.
    pub fn get_timesteps(&self, n: usize) -> (r: Vec<u32>)
        requires
            self.wf(),
            n >= 1,
        ensures
            r@.len() == n,
            forall|i: int| 0 <= i < n ==> r@[i] as int == timestep(n as nat, i as nat),
            n <= TRAIN_TIMESTEPS ==> forall|i: int, j: int|
                0 <= i < j < n ==> r@[i] > r@[j],
    {
        let step: usize = self.num_train_timesteps / n;
        proof {
            vstd::arithmetic::div_mod::lemma_fundamental_div_mod(TRAIN_TIMESTEPS as int, n as int);
        }
        let mut out: Vec<u32> = Vec::new();
        let mut i: usize = 0;
        while i < n
            invariant
                self.wf(),
                n >= 1,
                step == TRAIN_TIMESTEPS as int / n as int,
                n * step <= TRAIN_TIMESTEPS,
                0 <= i <= n,
                out@.len() == i,
                forall|k: int| 0 <= k < i ==> out@[k] as int == timestep(n as nat, k as nat),
            decreases n - i,
        {
            proof {
                vstd::arithmetic::mul::lemma_mul_inequality(i as int + 1, n as int, step as int);
                vstd::arithmetic::mul::lemma_mul_is_distributive_add_other_way(step as int, i as int, 1);
                if step == 0 {
                    vstd::arithmetic::mul::lemma_mul_by_zero_is_zero(i as int);
                }
            }
            let v: usize = self.num_train_timesteps - i * step - 1;
            out.push(v as u32);
            i = i + 1;
        }
        proof {
            if n <= TRAIN_TIMESTEPS {
                assert(step >= 1) by {
                    vstd::arithmetic::div_mod::lemma_div_is_ordered(n as int, TRAIN_TIMESTEPS as int, n as int);
                    vstd::arithmetic::div_mod::lemma_div_by_self(n as int);
                }
                assert forall|i: int, j: int| 0 <= i < j < n implies out@[i] > out@[j] by {
                    vstd::arithmetic::mul::lemma_mul_strict_inequality(i, j, step as int);
                }
            }
        }
        out
    }
}

} // verus!
