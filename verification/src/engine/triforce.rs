//! Speculative decoding with three tiers of cache.

use vstd::prelude::*;
use vstd::string::*;

use crate::engine::oracle::reference_token;
use crate::engine::xrt_decode::{accepted_of, XrtDecodeEngine};
use crate::engine::{EngineError, EngineFault};

verus! {

/// Sizes of the cache tiers.
#[derive(Debug, Clone, Copy, PartialEq, Eq, Structural)]
pub struct TriForceCacheConfig {
    /// Tokens at the start of a sequence that are always kept.
    pub num_sink_tokens: usize,
    /// Size of the sliding window in tokens.
    pub local_window_size: usize,
    /// Number of chunks that are retrieved from the full cache.
    pub num_retrieved_chunks: usize,
    /// Number of tokens that are drafted at a time.
    pub draft_k: usize,
}

impl Default for TriForceCacheConfig {
    fn default() -> (r: TriForceCacheConfig)
        ensures
            r == (TriForceCacheConfig {
                num_sink_tokens: 4,
                local_window_size: 64,
                num_retrieved_chunks: 8,
                draft_k: 4,
            }),
    {
        TriForceCacheConfig {
            num_sink_tokens: 4,
            local_window_size: 64,
            num_retrieved_chunks: 8,
            draft_k: 4,
        }
    }
}

/// Counts over all steps.
#[derive(Debug, Clone, Copy, PartialEq, Eq, Structural)]
pub struct TriForceStats {
    pub total_drafted: usize,
    pub total_accepted: usize,
    pub total_verification_passes: usize,
    pub cache_retrievals: usize,
}

impl Default for TriForceStats {
    fn default() -> (r: TriForceStats)
        ensures
            r == (TriForceStats {
                total_drafted: 0,
                total_accepted: 0,
                total_verification_passes: 0,
                cache_retrievals: 0,
            }),
    {
        TriForceStats {
            total_drafted: 0,
            total_accepted: 0,
            total_verification_passes: 0,
            cache_retrievals: 0,
        }
    }
}

/// What a step came to.
#[derive(Debug)]
pub struct TriForceStepResult {
    pub drafted_tokens: Vec<u32>,
    pub accepted_count: usize,
    pub accepted_tokens: Vec<u32>,
    pub active_chunks_retrieved: Vec<usize>,
    pub is_eos: bool,
}

/// Speculative decoding engine.
#[derive(Debug)]
pub struct TriForceSpeculativeEngine {
    pub config: TriForceCacheConfig,
    pub stats: TriForceStats,
    pub enabled: bool,
}

/// The pages of a sequence of so many tokens.
pub open spec fn page_count(tokens: int, chunk_size: int) -> int {
    (tokens + chunk_size - 1) / (if chunk_size == 0 {
        1
    } else {
        chunk_size
    })
}

/// The pages that take part in verification: the first, and the last two.
pub open spec fn active_page_list(pages: int) -> Seq<usize> {
    if pages > 2 {
        seq![0usize, (pages - 2) as usize, (pages - 1) as usize]
    } else if pages > 1 {
        seq![0usize, (pages - 1) as usize]
    } else if pages > 0 {
        seq![0usize]
    } else {
        Seq::empty()
    }
}

/// `n`, but at least one and at most `len`.
pub open spec fn clamped(n: nat, len: nat) -> nat {
    if n == 0 {
        1
    } else if n <= len {
        n
    } else {
        len
    }
}

/// The first position of a token; the length where it does not occur.
pub open spec fn position_of(tokens: Seq<u32>, t: u32) -> nat
    decreases tokens.len(),
{
    if tokens.len() == 0 || tokens[0] == t {
        0
    } else {
        1 + position_of(tokens.skip(1), t)
    }
}

/// The tokens up to the first `eos`, that one included.
pub open spec fn through_eos(tokens: Seq<u32>, eos: u32) -> Seq<u32> {
    let p = position_of(tokens, eos);
    if p < tokens.len() {
        tokens.take((p + 1) as int)
    } else {
        tokens
    }
}

/// The accepted tokens: the first of the drafted ones, up to the end token.
pub open spec fn accepted_tokens(drafted: Seq<u32>, accepted: nat, eos: u32) -> Seq<u32> {
    through_eos(drafted.take(clamped(accepted, drafted.len()) as int), eos)
}

/// The counts can be added up.
pub open spec fn counts_fit(s: TriForceStats, drafted: nat, retrieved: nat) -> bool {
    &&& s.total_drafted + drafted <= usize::MAX
    &&& s.total_accepted + drafted <= usize::MAX
    &&& s.total_verification_passes + 1 <= usize::MAX
    &&& s.cache_retrievals + retrieved <= usize::MAX
}

proof fn lemma_position_bound(tokens: Seq<u32>, t: u32)
    ensures
        position_of(tokens, t) <= tokens.len(),
        position_of(tokens, t) < tokens.len() ==> tokens[position_of(tokens, t) as int] == t,
        forall|i: int| 0 <= i < position_of(tokens, t) ==> #[trigger] tokens[i] != t,
    decreases tokens.len(),
{
    if tokens.len() > 0 && tokens[0] != t {
        lemma_position_bound(tokens.skip(1), t);
        assert forall|i: int| 0 <= i < position_of(tokens, t) implies #[trigger] tokens[i] != t by {
            if i > 0 {
                assert(tokens.skip(1)[i - 1] == tokens[i]);
            }
        }
    }
}

/// The first position of a token; the length where it does not occur.
fn find_token(tokens: &[u32], t: u32) -> (r: usize)
    ensures
        r == position_of(tokens@, t),
        r <= tokens@.len(),
{
    let mut i: usize = 0;
    assert(tokens@.skip(0) =~= tokens@);
    while i < tokens.len() && tokens[i] != t
        invariant
            i <= tokens@.len(),
            position_of(tokens@, t) == i + position_of(tokens@.skip(i as int), t),
        ensures
            i <= tokens@.len(),
            position_of(tokens@, t) == i + position_of(tokens@.skip(i as int), t),
            i < tokens@.len() ==> tokens@[i as int] == t,
        decreases tokens@.len() - i,
    {
        proof {
            assert(tokens@.skip(i as int)[0] == tokens@[i as int]);
            assert(tokens@.skip(i as int).skip(1) =~= tokens@.skip(i + 1));
        }
        i = i + 1;
    }
    proof {
        if i < tokens@.len() {
            assert(tokens@.skip(i as int)[0] == tokens@[i as int]);
        }
    }
    i
}

impl TriForceSpeculativeEngine {
    /// An engine with the given configuration.
    pub fn new(config: TriForceCacheConfig, enabled: bool) -> (r: TriForceSpeculativeEngine)
        ensures
            r.config == config,
            r.enabled == enabled,
            r.stats == (TriForceStats {
                total_drafted: 0,
                total_accepted: 0,
                total_verification_passes: 0,
                cache_retrievals: 0,
            }),
    {
        TriForceSpeculativeEngine { config, stats: TriForceStats::default(), enabled }
    }

    /// Whether speculation is on.
    pub fn is_enabled(&self) -> (r: bool)
        ensures
            r == self.enabled,
    {
        self.enabled
    }

    /// Turns speculation on or off.
    pub fn set_enabled(&mut self, enabled: bool)
        ensures
            *final(self) == (TriForceSpeculativeEngine { enabled, ..*old(self) }),
    {
        self.enabled = enabled;
    }

    /// The configuration.
    pub fn config(&self) -> (r: &TriForceCacheConfig)
        ensures
            *r == self.config,
    {
        &self.config
    }

    /// The counts so far.
    pub fn stats(&self) -> (r: &TriForceStats)
        ensures
            *r == self.stats,
    {
        &self.stats
    }

    /// The pages of a sequence that take part in verification.
    pub fn active_pages(total_seq_tokens: usize, chunk_size: usize) -> (r: Vec<usize>)
        requires
            1 <= total_seq_tokens + chunk_size <= usize::MAX,
        ensures
            r@ == active_page_list(page_count(total_seq_tokens as int, chunk_size as int)),
    {
        let divisor: usize = if chunk_size == 0 {
            1
        } else {
            chunk_size
        };
        let total: usize = (total_seq_tokens + chunk_size - 1) / divisor;
        let mut pages: Vec<usize> = Vec::new();
        if total > 0 {
            pages.push(0);
        }
        if total > 2 {
            pages.push(total - 2);
            pages.push(total - 1);
        } else if total > 1 {
            pages.push(total - 1);
        }
        assert(pages@ =~= active_page_list(total as int));
        pages
    }

    /// The accepted tokens of a draft, and whether they end the sequence.
    pub fn accept(drafted: &[u32], accepted: usize, eos_token_id: u32) -> (r: (Vec<u32>, bool))
        requires
            drafted@.len() > 0,
        ensures
            r.0@ == accepted_tokens(drafted@, accepted as nat, eos_token_id),
            r.1 == r.0@.contains(eos_token_id),
            1 <= r.0@.len() <= drafted@.len(),
    {
        let n: usize = if accepted == 0 {
            1
        } else if accepted <= drafted.len() {
            accepted
        } else {
            drafted.len()
        };
        assert(drafted@.subrange(0, n as int) =~= drafted@.take(n as int));
        let kept: &[u32] = &drafted[0..n];
        let p: usize = find_token(kept, eos_token_id);
        proof {
            lemma_position_bound(kept@, eos_token_id);
        }
        let is_eos: bool = p < kept.len();
        let end: usize = if is_eos {
            p + 1
        } else {
            kept.len()
        };
        let mut out: Vec<u32> = Vec::new();
        let mut i: usize = 0;
        while i < end
            invariant
                i <= end <= kept@.len(),
                out@ == kept@.take(i as int),
            decreases end - i,
        {
            out.push(kept[i]);
            assert(out@ =~= kept@.take(i + 1));
            i = i + 1;
        }
        proof {
            assert(kept@.take(kept@.len() as int) =~= kept@);
            if is_eos {
                assert(out@[p as int] == eos_token_id);
            } else if out@.contains(eos_token_id) {
                let k = choose|k: int| 0 <= k < out@.len() && out@[k] == eos_token_id;
                assert(kept@[k] != eos_token_id);
            }
        }
        (out, is_eos)
    }

    /// Drafts tokens and verifies them. `retrieved` are the chunks retrieved for the active
    /// pages. Without speculation the seed token is passed through.
    pub fn step(
        &mut self,
        seed_token_id: u32,
        decode_engine: &XrtDecodeEngine,
        kv_size: usize,
        retrieved: Vec<usize>,
        eos_token_id: u32,
    ) -> (r: Result<TriForceStepResult, EngineError>)
        requires
            old(self).enabled ==> old(self).config.draft_k + 10 <= usize::MAX,
            old(self).enabled ==> counts_fit(
                old(self).stats,
                old(self).config.draft_k as nat,
                retrieved@.len(),
            ),
        ensures
            final(self).config == old(self).config,
            final(self).enabled == old(self).enabled,
            if !old(self).enabled {
                &&& final(self).stats == old(self).stats
                &&& r is Ok
                &&& r->Ok_0.drafted_tokens@ == seq![seed_token_id]
                &&& r->Ok_0.accepted_tokens@ == seq![seed_token_id]
                &&& r->Ok_0.accepted_count == 1
                &&& r->Ok_0.active_chunks_retrieved@.len() == 0
                &&& r->Ok_0.is_eos == (seed_token_id == eos_token_id)
            } else if old(self).config.draft_k == 0 {
                &&& final(self).stats == old(self).stats
                &&& r is Err
                &&& r->Err_0@ == EngineFault::InvalidArgument("Draft length cannot be 0"@)
            } else if kv_size == 0 {
                &&& final(self).stats == (TriForceStats {
                    cache_retrievals: (old(self).stats.cache_retrievals + retrieved@.len())
                        as usize,
                    ..old(self).stats
                })
                &&& r is Err
                &&& r->Err_0@ == EngineFault::InvalidArgument("Invalid KV cache buffer size 0"@)
            } else {
                let k = old(self).config.draft_k as nat;
                let drafted = Seq::new(k, |i: int| reference_token(10 + i));
                let accepted = accepted_tokens(drafted, accepted_of(k), eos_token_id);
                &&& r is Ok
                &&& r->Ok_0.drafted_tokens@ == drafted
                &&& r->Ok_0.accepted_tokens@ == accepted
                &&& r->Ok_0.accepted_count == accepted.len()
                &&& r->Ok_0.active_chunks_retrieved == retrieved
                &&& r->Ok_0.is_eos == accepted.contains(eos_token_id)
                &&& final(self).stats == (TriForceStats {
                    total_drafted: (old(self).stats.total_drafted + k) as usize,
                    total_accepted: (old(self).stats.total_accepted + accepted.len()) as usize,
                    total_verification_passes: (old(self).stats.total_verification_passes + 1)
                        as usize,
                    cache_retrievals: (old(self).stats.cache_retrievals + retrieved@.len())
                        as usize,
                })
            },
    {
        if !self.enabled {
            return Ok(
                TriForceStepResult {
                    drafted_tokens: vec![seed_token_id],
                    accepted_count: 1,
                    accepted_tokens: vec![seed_token_id],
                    active_chunks_retrieved: Vec::new(),
                    is_eos: seed_token_id == eos_token_id,
                },
            );
        }
        let drafted_tokens = match decode_engine.draft_tokens(self.config.draft_k) {
            Ok(t) => t,
            Err(e) => {
                return Err(e);
            },
        };
        self.stats.cache_retrievals = self.stats.cache_retrievals + retrieved.len();
        let accepted: usize = match decode_engine.verify_tokens(&drafted_tokens, kv_size) {
            Ok(n) => n,
            Err(e) => {
                return Err(e);
            },
        };
        let (accepted_list, is_eos) = Self::accept(&drafted_tokens, accepted, eos_token_id);
        let accepted_count: usize = accepted_list.len();
        self.stats.total_drafted = self.stats.total_drafted + drafted_tokens.len();
        self.stats.total_accepted = self.stats.total_accepted + accepted_count;
        self.stats.total_verification_passes = self.stats.total_verification_passes + 1;
        Ok(
            TriForceStepResult {
                drafted_tokens,
                accepted_count,
                accepted_tokens: accepted_list,
                active_chunks_retrieved: retrieved,
                is_eos,
            },
        )
    }
}

/// Accepted tokens are the first of the drafted ones, at least one of them, and the end token
/// occurs among them at most as the last.
pub proof fn law_accepted_tokens_are_a_prefix(drafted: Seq<u32>, accepted: nat, eos: u32)
    requires
        drafted.len() > 0,
    ensures
        ({
            let a = accepted_tokens(drafted, accepted, eos);
            &&& 1 <= a.len() <= drafted.len()
            &&& a == drafted.take(a.len() as int)
            &&& forall|i: int| 0 <= i < a.len() - 1 ==> #[trigger] a[i] != eos
        }),
{
    let kept = drafted.take(clamped(accepted, drafted.len()) as int);
    lemma_position_bound(kept, eos);
    let a = accepted_tokens(drafted, accepted, eos);
    assert(a =~= drafted.take(a.len() as int));
    assert forall|i: int| 0 <= i < a.len() - 1 implies #[trigger] a[i] != eos by {
        assert(a[i] == kept[i]);
    }
}

/// The pages that take part in verification are pages of the sequence, in order and each once;
/// the first and the last are always among them.
pub proof fn law_active_pages(tokens: int, chunk_size: int)
    requires
        0 < tokens,
        0 < chunk_size,
        tokens + chunk_size <= usize::MAX,
    ensures
        ({
            let n = page_count(tokens, chunk_size);
            let a = active_page_list(n);
            &&& (n - 1) * chunk_size < tokens <= n * chunk_size
            &&& a.len() > 0
            &&& a[0] == 0
            &&& a.last() == n - 1
            &&& forall|i: int, j: int| 0 <= i < j < a.len() ==> a[i] < a[j]
        }),
{
    let n = page_count(tokens, chunk_size);
    let x = tokens + chunk_size - 1;
    vstd::arithmetic::div_mod::lemma_fundamental_div_mod(x, chunk_size);
    assert(x == chunk_size * n + x % chunk_size);
    assert((n - 1) * chunk_size < tokens && tokens <= n * chunk_size) by (nonlinear_arith)
        requires
            x == tokens + chunk_size - 1,
            x == chunk_size * n + x % chunk_size,
            0 <= x % chunk_size < chunk_size,
    ;
    assert(n >= 1) by (nonlinear_arith)
        requires
            0 < tokens <= n * chunk_size,
            chunk_size > 0,
    ;
    assert(n <= x) by (nonlinear_arith)
        requires
            x == chunk_size * n + x % chunk_size,
            0 <= x % chunk_size,
            chunk_size >= 1,
            n >= 1,
    ;
}

} // verus!
