//! Token sampling: random numbers, configuration, and the choice of the greatest logit.
//!
//! Single-precision numbers are handled by their bit patterns. The softmax of sampling with a
//! temperature is left to the caller, who draws from the sampler's generator.

use vstd::prelude::*;
use vstd::string::*;

use crate::engine::{float_greater, float_is_nan, greater, is_nan, EngineError, EngineFault};

verus! {

/// State of the generator for a seed of zero, which has no successor but itself.
pub const ZERO_SEED_STATE: u64 = 0x853c_49e6_748f_ea9b;

/// Seed of a sampler that was given none.
pub const DEFAULT_SEED: u64 = 0x1234_5678_9ABC_DEF0;

/// Bit pattern of negative infinity.
pub const NEG_INFINITY_BITS: u32 = 0xFF80_0000;

/// Bit pattern of one.
pub const ONE_BITS: u32 = 0x3F80_0000;

// ---------------------------------------------------------------------------
// Random numbers
// ---------------------------------------------------------------------------

/// Deterministic 64-bit generator.
#[derive(Debug, Clone, Copy, PartialEq, Eq, Structural)]
pub struct FastRng {
    pub state: u64,
}

/// The state of a generator with the given seed.
pub open spec fn seeded(seed: u64) -> u64 {
    if seed == 0 {
        ZERO_SEED_STATE
    } else {
        seed
    }
}

/// The state after `x`.
pub open spec fn next_state(x: u64) -> u64 {
    let a = x ^ (x << 13);
    let b = a ^ (a >> 7);
    b ^ (b << 17)
}

/// The state `n` steps after `x`.
pub open spec fn state_after(x: u64, n: nat) -> u64
    decreases n,
{
    if n == 0 {
        x
    } else {
        next_state(state_after(x, (n - 1) as nat))
    }
}

impl FastRng {
    /// A generator with the given seed.
    pub fn new(seed: u64) -> (r: FastRng)
        ensures
            r.state == seeded(seed),
    {
        FastRng {
            state: if seed == 0 {
                ZERO_SEED_STATE
            } else {
                seed
            },
        }
    }

    /// The next number.
    pub fn next_u64(&mut self) -> (r: u64)
        ensures
            r == next_state(old(self).state),
            final(self).state == r,
    {
        let mut x: u64 = self.state;
        x = x ^ (x << 13);
        x = x ^ (x >> 7);
        x = x ^ (x << 17);
        self.state = x;
        x
    }

    /// The 24 high bits of the next number: the numerator of a number in `[0, 1)` over 2^24.
    pub fn next_fraction(&mut self) -> (r: u32)
        ensures
            r == next_state(old(self).state) / 0x100_0000_0000,
            r < 0x100_0000,
            final(self).state == next_state(old(self).state),
    {
        let v: u64 = self.next_u64();
        (v / 0x100_0000_0000) as u32
    }
}

/// The generator never falls into the state from which it would not get away: from a state
/// other than zero it reaches only states other than zero, and every seed starts at one.
pub proof fn law_generator_never_stalls(x: u64, seed: u64)
    ensures
        x != 0 ==> next_state(x) != 0,
        seeded(seed) != 0,
{
    let a = x ^ (x << 13);
    let b = a ^ (a >> 7);
    let c = b ^ (b << 17);
    assert(x != 0 ==> a != 0) by (bit_vector)
        requires
            a == x ^ (x << 13),
    ;
    assert(a != 0 ==> b != 0) by (bit_vector)
        requires
            b == a ^ (a >> 7),
    ;
    assert(b != 0 ==> c != 0) by (bit_vector)
        requires
            c == b ^ (b << 17),
    ;
}

/// Two different states have different successors, so no two streams run together.
pub proof fn law_generator_is_injective(x: u64, y: u64)
    requires
        next_state(x) == next_state(y),
    ensures
        x == y,
{
    let a = x ^ (x << 13);
    let b = a ^ (a >> 7);
    let a2 = y ^ (y << 13);
    let b2 = a2 ^ (a2 >> 7);
    assert(b ^ (b << 17) == b2 ^ (b2 << 17) ==> b == b2) by (bit_vector);
    assert(a ^ (a >> 7) == a2 ^ (a2 >> 7) ==> a == a2) by (bit_vector);
    assert(x ^ (x << 13) == y ^ (y << 13) ==> x == y) by (bit_vector);
}

/// Generators with the same seed give the same numbers, step for step, and never stall.
pub proof fn law_streams_follow_from_the_seed(seed: u64, n: nat)
    ensures
        state_after(seeded(seed), n) != 0,
        n > 0 ==> state_after(seeded(seed), n) == next_state(
            state_after(seeded(seed), (n - 1) as nat),
        ),
    decreases n,
{
    law_generator_never_stalls(0, seed);
    if n > 0 {
        law_streams_follow_from_the_seed(seed, (n - 1) as nat);
        law_generator_never_stalls(state_after(seeded(seed), (n - 1) as nat), seed);
    }
}

// ---------------------------------------------------------------------------
// The greatest logit
// ---------------------------------------------------------------------------

/// `i` is the first of the greatest numbers: it is greater than every number before it and no
/// number is greater than it. Where no number is greater than negative infinity it is zero.
pub open spec fn is_argmax(logits: Seq<u32>, i: int) -> bool {
    if exists|k: int| 0 <= k < logits.len() && greater(#[trigger] logits[k], NEG_INFINITY_BITS) {
        &&& 0 <= i < logits.len()
        &&& greater(logits[i], NEG_INFINITY_BITS)
        &&& forall|k: int| 0 <= k < i ==> !is_nan(#[trigger] logits[k]) ==> greater(
            logits[i],
            logits[k],
        )
        &&& forall|k: int| 0 <= k < logits.len() ==> !greater(#[trigger] logits[k], logits[i])
    } else {
        i == 0
    }
}

/// The index of the greatest number, by bit patterns; the first of several.
pub fn argmax_scalar(logits: &[u32]) -> (r: u32)
    requires
        logits@.len() <= u32::MAX,
    ensures
        is_argmax(logits@, r as int),
{
    let mut best: u32 = NEG_INFINITY_BITS;
    let mut best_at: u32 = 0;
    let mut i: usize = 0;
    while i < logits.len()
        invariant
            i <= logits@.len() <= u32::MAX,
            !is_nan(best),
            best == NEG_INFINITY_BITS ==> best_at == 0 && forall|k: int|
                0 <= k < i ==> !greater(#[trigger] logits@[k], NEG_INFINITY_BITS),
            best != NEG_INFINITY_BITS ==> {
                &&& best_at < i
                &&& logits@[best_at as int] == best
                &&& greater(best, NEG_INFINITY_BITS)
                &&& forall|k: int|
                    0 <= k < best_at ==> !is_nan(#[trigger] logits@[k]) ==> greater(
                        best,
                        logits@[k],
                    )
            },
            forall|k: int| 0 <= k < i ==> !greater(#[trigger] logits@[k], best),
        decreases logits@.len() - i,
    {
        let v: u32 = logits[i];
        if float_greater(v, best) {
            best = v;
            best_at = i as u32;
        }
        i = i + 1;
    }
    best_at
}

// ---------------------------------------------------------------------------
// The sampler
// ---------------------------------------------------------------------------

/// Sampling parameters. Numbers are given by their single-precision bit patterns.
#[derive(Debug, Clone, Copy, PartialEq, Eq, Structural)]
pub struct SamplerConfig {
    /// Temperature. At zero and below the greatest logit is taken.
    pub temperature: u32,
    /// Cumulative probability of the candidates that are kept.
    pub top_p: u32,
    /// Number of candidates that are kept; zero keeps all.
    pub top_k: usize,
    /// Seed of the generator, for reproducible results.
    pub seed: Option<u64>,
}

impl Default for SamplerConfig {
    fn default() -> (r: SamplerConfig)
        ensures
            r == (SamplerConfig { temperature: 0, top_p: ONE_BITS, top_k: 0, seed: None }),
    {
        SamplerConfig { temperature: 0, top_p: ONE_BITS, top_k: 0, seed: None }
    }
}

/// Token sampler.
#[derive(Debug, Clone, Copy, PartialEq, Eq, Structural)]
pub struct Sampler {
    pub config: SamplerConfig,
    pub rng: FastRng,
}

/// How a token is chosen.
#[derive(Debug, Clone, Copy, PartialEq, Eq, Structural)]
pub enum SampleChoice {
    /// This token.
    Token(u32),
    /// By a draw from the softmax of the logits.
    Draw,
}

/// The temperature is at most zero, or no number: the greatest logit is taken.
pub open spec fn is_greedy(temperature: u32) -> bool {
    is_nan(temperature) || !greater(temperature, 0)
}

/// What is chosen from logits at a temperature: nothing where there are none, the greatest at a
/// temperature of at most zero, the only token where there is one, and a draw otherwise.
pub open spec fn chooses(
    temperature: u32,
    logits: Seq<u32>,
    choice: Option<SampleChoice>,
) -> bool {
    match choice {
        None => logits.len() == 0,
        Some(SampleChoice::Token(t)) => {
            &&& logits.len() > 0
            &&& is_greedy(temperature) || logits.len() == 1
            &&& if is_greedy(temperature) {
                is_argmax(logits, t as int)
            } else {
                t == 0
            }
        },
        Some(SampleChoice::Draw) => !is_greedy(temperature) && logits.len() > 1,
    }
}

/// What is said of logits that hold nothing to choose from.
pub open spec fn no_logits() -> EngineFault {
    EngineFault::InvalidArgument("Logits slice cannot be empty"@)
}

/// The state that the generator of a sampler with these parameters starts in.
pub open spec fn first_state(config: SamplerConfig) -> u64 {
    seeded(
        match config.seed {
            Some(s) => s,
            None => DEFAULT_SEED,
        },
    )
}

impl Sampler {
    /// A sampler with the given parameters.
    pub fn new(config: SamplerConfig) -> (r: Sampler)
        ensures
            r.config == config,
            r.rng.state == first_state(config),
    {
        let seed: u64 = match config.seed {
            Some(s) => s,
            None => DEFAULT_SEED,
        };
        Sampler { config, rng: FastRng::new(seed) }
    }

    /// The parameters.
    pub fn config(&self) -> (r: &SamplerConfig)
        ensures
            *r == self.config,
    {
        &self.config
    }

    /// Sets the parameters. The generator is seeded anew where they hold a seed, and goes on
    /// otherwise.
    pub fn set_config(&mut self, config: SamplerConfig)
        ensures
            final(self).config == config,
            final(self).rng.state == match config.seed {
                Some(s) => seeded(s),
                None => old(self).rng.state,
            },
    {
        match config.seed {
            Some(s) => {
                self.rng = FastRng::new(s);
            },
            None => {},
        }
        self.config = config;
    }

    /// Seeds the generator anew.
    pub fn reseed(&mut self, seed: u64)
        ensures
            final(self).config == old(self).config,
            final(self).rng.state == seeded(seed),
    {
        self.rng = FastRng::new(seed);
    }

    /// The index of the greatest logit.
    pub fn sample_greedy(logits: &[u32]) -> (r: Result<u32, EngineError>)
        requires
            logits@.len() <= u32::MAX,
        ensures
            match r {
                Ok(t) => logits@.len() > 0 && is_argmax(logits@, t as int),
                Err(e) => logits@.len() == 0 && e@ == no_logits(),
            },
    {
        if logits.len() == 0 {
            return Err(EngineError::InvalidArgument("Logits slice cannot be empty".to_owned()));
        }
        Ok(argmax_scalar(logits))
    }

    /// How a token is chosen at a temperature: the greatest logit where that is at most zero or
    /// no number, the only token where there is one, else by a draw.
    pub fn sample_with_params(&self, logits: &[u32], temperature: u32) -> (r: Result<
        SampleChoice,
        EngineError,
    >)
        requires
            logits@.len() <= u32::MAX,
        ensures
            match r {
                Ok(choice) => chooses(temperature, logits@, Some(choice)),
                Err(e) => chooses(temperature, logits@, None) && e@ == no_logits(),
            },
    {
        if logits.len() == 0 {
            return Err(EngineError::InvalidArgument("Logits slice cannot be empty".to_owned()));
        }
        if float_is_nan(temperature) || !float_greater(temperature, 0) {
            return Ok(SampleChoice::Token(argmax_scalar(logits)));
        }
        if logits.len() == 1 {
            return Ok(SampleChoice::Token(0));
        }
        Ok(SampleChoice::Draw)
    }

    /// How a token is chosen by the sampler's own parameters.
    pub fn sample(&self, logits: &[u32]) -> (r: Result<SampleChoice, EngineError>)
        requires
            logits@.len() <= u32::MAX,
        ensures
            match r {
                Ok(choice) => chooses(self.config.temperature, logits@, Some(choice)),
                Err(e) => chooses(self.config.temperature, logits@, None) && e@ == no_logits(),
            },
    {
        self.sample_with_params(logits, self.config.temperature)
    }
}

/// The greatest logit is one token: no two indices are both the first of the greatest.
pub proof fn law_argmax_is_unique(logits: Seq<u32>, i: int, j: int)
    requires
        is_argmax(logits, i),
        is_argmax(logits, j),
    ensures
        i == j,
{
}

/// What is chosen is determined by the temperature and the logits.
pub proof fn law_choice_is_determined(
    temperature: u32,
    logits: Seq<u32>,
    a: Option<SampleChoice>,
    b: Option<SampleChoice>,
)
    requires
        chooses(temperature, logits, a),
        chooses(temperature, logits, b),
    ensures
        a == b,
{
    match (a, b) {
        (Some(SampleChoice::Token(t)), Some(SampleChoice::Token(u))) => {
            if is_greedy(temperature) {
                law_argmax_is_unique(logits, t as int, u as int);
            }
        },
        _ => {},
    }
}

/// One step of a sampler: what it chose, the token that came of it, and the state of its
/// generator afterwards.
pub struct Sampled {
    pub choice: Option<SampleChoice>,
    pub token: Option<u32>,
    pub state: u64,
}

/// How tokens are drawn: from the parameters, the logits and the state of the generator, a token
/// and the state of the generator afterwards.
pub type Drawing = spec_fn(SamplerConfig, Seq<u32>, u64) -> (u32, u64);

/// `out` is what sampling comes to from a state of the generator. Only a draw uses the generator.
pub open spec fn samples(
    config: SamplerConfig,
    state: u64,
    logits: Seq<u32>,
    draw: Drawing,
    out: Sampled,
) -> bool {
    &&& chooses(config.temperature, logits, out.choice)
    &&& match out.choice {
        None => out.token is None && out.state == state,
        Some(SampleChoice::Token(t)) => out.token == Some(t) && out.state == state,
        Some(SampleChoice::Draw) => {
            let drawn = draw(config, logits, state);
            out.token == Some(drawn.0) && out.state == drawn.1
        },
    }
}

/// `run` is what a sampler comes to on one set of logits after the other.
pub open spec fn is_run(
    sampler: Sampler,
    logits: Seq<Seq<u32>>,
    draw: Drawing,
    run: Seq<Sampled>,
) -> bool {
    &&& run.len() == logits.len()
    &&& forall|i: int|
        0 <= i < run.len() ==> samples(
            sampler.config,
            if i == 0 {
                sampler.rng.state
            } else {
                run[i - 1].state
            },
            logits[i],
            draw,
            #[trigger] run[i],
        )
}

/// Equal parameters give equal token streams: two samplers that were made from the same
/// parameters, a seed among them or none, are in the same state and give the same numbers, and
/// on the same logits they make the same choices and come to the same tokens, whatever the
/// drawing.
pub proof fn law_equal_seeds_give_equal_tokens(
    config: SamplerConfig,
    a: Sampler,
    b: Sampler,
    logits: Seq<Seq<u32>>,
    draw: Drawing,
    run_a: Seq<Sampled>,
    run_b: Seq<Sampled>,
)
    requires
        a.config == config,
        a.rng.state == first_state(config),
        b.config == config,
        b.rng.state == first_state(config),
        is_run(a, logits, draw, run_a),
        is_run(b, logits, draw, run_b),
    ensures
        a == b,
        forall|n: nat| #[trigger] state_after(a.rng.state, n) == state_after(b.rng.state, n),
        run_a == run_b,
{
    assert forall|i: int| 0 <= i < run_a.len() implies run_a[i] == run_b[i] by {
        lemma_runs_agree(a, logits, draw, run_a, run_b, i);
    }
    assert(run_a =~= run_b);
}

proof fn lemma_runs_agree(
    sampler: Sampler,
    logits: Seq<Seq<u32>>,
    draw: Drawing,
    run_a: Seq<Sampled>,
    run_b: Seq<Sampled>,
    i: int,
)
    requires
        is_run(sampler, logits, draw, run_a),
        is_run(sampler, logits, draw, run_b),
        0 <= i < logits.len(),
    ensures
        run_a[i] == run_b[i],
    decreases i,
{
    if i > 0 {
        lemma_runs_agree(sampler, logits, draw, run_a, run_b, i - 1);
    }
    law_choice_is_determined(
        sampler.config.temperature,
        logits[i],
        run_a[i].choice,
        run_b[i].choice,
    );
}

} // verus!
