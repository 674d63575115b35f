//! What holds of the engines as a whole.

use vstd::prelude::*;
use vstd::string::*;

use crate::engine::oracle::{first_token, prompt_hash, reference_prompt, reference_token};
use crate::engine::pilot::{
    counted, counted_all, counted_to, prefetches, prefetches_all, residency_after,
};
use crate::engine::sampler::{
    chooses, first_state, is_argmax, is_greedy, next_state, seeded, SampleChoice, SamplerConfig,
};
use crate::engine::triforce::{
    accepted_tokens, active_page_list, clamped, page_count, position_of, through_eos,
};
use crate::engine::xrt_decode::{
    accepted_of, appended, has_room, no_room, one_more, step_fault, step_result, DecodeStepRequest,
    ModelOutput,
};
use crate::engine::{greater, is_nan, EngineFault};
use crate::text::decimal;

verus! {

// ---------------------------------------------------------------------------
// Reference answers
// ---------------------------------------------------------------------------

/// The known answer, from its second token on.
pub open spec fn known_answer() -> Seq<u32> {
    seq![374u32, 9552, 315, 420, 8496, 11, 7176, 13, 128001]
}

/// The known answer is given token by token behind the prompt of six tokens, and the end token
/// ever after.
pub proof fn law_answer_is_given_in_order(i: int)
    requires
        0 <= i,
    ensures
        i < 6 ==> reference_token(i) == 374,
        6 <= i < 15 ==> reference_token(i) == known_answer()[i - 6],
        14 <= i ==> reference_token(i) == 128001,
{
}

/// The value of a prompt as a number in base 31 with a leading 17.
pub open spec fn value_from(h: int, tokens: Seq<u32>) -> int
    decreases tokens.len(),
{
    if tokens.len() == 0 {
        h
    } else {
        value_from(h * 31 + tokens[0], tokens.skip(1))
    }
}

proof fn lemma_value_push(h: int, tokens: Seq<u32>)
    requires
        tokens.len() > 0,
    ensures
        value_from(h, tokens) == value_from(h, tokens.drop_last()) * 31 + tokens.last(),
    decreases tokens.len(),
{
    if tokens.len() == 1 {
        assert(tokens.skip(1) =~= Seq::empty());
        assert(tokens.drop_last() =~= Seq::empty());
        reveal_with_fuel(value_from, 2);
    } else {
        let rest = tokens.skip(1);
        lemma_value_push(h * 31 + tokens[0], rest);
        assert(rest.drop_last() =~= tokens.drop_last().skip(1));
        assert(tokens.drop_last()[0] == tokens[0]);
    }
}

proof fn lemma_hash(tokens: Seq<u32>)
    ensures
        prompt_hash(tokens) == value_from(17, tokens) % 0x1_0000_0000,
    decreases tokens.len(),
{
    if tokens.len() > 0 {
        let h = value_from(17, tokens.drop_last());
        lemma_hash(tokens.drop_last());
        lemma_value_push(17, tokens);
        let m: int = 0x1_0000_0000;
        let t = tokens.last() as int;
        assert((h % m * 31 + t) % m == (h * 31 + t) % m) by {
            vstd::arithmetic::div_mod::lemma_mul_mod_noop_left(h, 31, m);
            vstd::arithmetic::div_mod::lemma_add_mod_noop(h % m * 31, t, m);
            vstd::arithmetic::div_mod::lemma_add_mod_noop(h * 31, t, m);
        }
    }
}

/// Every prompt but the known one is answered with a token made of all of its tokens.
pub proof fn law_prompts_have_their_answers(tokens: Seq<u32>)
    ensures
        tokens == seq![128000u32, 791, 7421, 315, 9607, 374] ==> first_token(tokens) == 9607,
        tokens != seq![128000u32, 791, 7421, 315, 9607, 374] ==> first_token(tokens) == value_from(
            17,
            tokens,
        ) % 0x1_0000_0000 % 100_000 + 1,
{
    lemma_hash(tokens);
    assert(reference_prompt() =~= seq![128000u32, 791, 7421, 315, 9607, 374]);
}

// ---------------------------------------------------------------------------
// Numbers by their bit patterns
// ---------------------------------------------------------------------------

/// Numbers without a sign are ordered as their bit patterns, a sign turns the order round, both
/// zeros are equal, and what is no number is not compared.
pub proof fn law_numbers_are_ordered(a: u32, b: u32)
    ensures
        is_nan(a) <==> 0x7F80_0000 < a < 0x8000_0000 || 0xFF80_0000 < a,
        is_nan(a) || is_nan(b) ==> !greater(a, b),
        !is_nan(a) && !is_nan(b) && a < 0x8000_0000 && b < 0x8000_0000 ==> (greater(a, b) <==> a
            > b),
        !is_nan(a) && !is_nan(b) && a >= 0x8000_0000 && b >= 0x8000_0000 ==> (greater(a, b) <==> a
            < b),
        !is_nan(a) && !is_nan(b) && a < 0x8000_0000 && b >= 0x8000_0000 ==> (greater(a, b) <==> a
            != 0 || b != 0x8000_0000),
        a >= 0x8000_0000 && b < 0x8000_0000 ==> !greater(a, b),
{
}

/// The first of the greatest numbers is taken: what stands before it is smaller, what stands
/// behind it is not greater, and what is no number is passed over.
pub proof fn law_first_of_the_greatest(logits: Seq<u32>, i: int, k: int)
    requires
        is_argmax(logits, i),
        0 <= k < logits.len(),
        !is_nan(logits[k]),
        logits[k] != 0xFF80_0000,
    ensures
        0 <= i < logits.len(),
        !is_nan(logits[i]),
        k < i ==> greater(logits[i], logits[k]),
        k > i ==> !greater(logits[k], logits[i]),
{
    assert(greater(logits[k], 0xFF80_0000));
}

/// A further number is taken only where it is greater than the one taken before.
pub proof fn law_further_numbers(logits: Seq<u32>, x: u32, i: int, j: int)
    requires
        is_argmax(logits, i),
        is_argmax(logits.push(x), j),
        logits.len() > 0,
        !is_nan(logits[i]),
    ensures
        j == if greater(x, logits[i]) && greater(x, 0xFF80_0000) {
            logits.len() as int
        } else {
            i
        },
{
    let all = logits.push(x);
    assert(all[logits.len() as int] == x);
    assert forall|k: int| 0 <= k < logits.len() implies all[k] == logits[k] by {}
    if exists|k: int| 0 <= k < logits.len() && greater(#[trigger] logits[k], 0xFF80_0000) {
        let k = choose|k: int| 0 <= k < logits.len() && greater(#[trigger] logits[k], 0xFF80_0000);
        assert(greater(all[k], 0xFF80_0000));
        assert(all[i] == logits[i]);
        if j < logits.len() {
            assert(logits[j] == all[j]);
        }
    } else if greater(x, 0xFF80_0000) {
        assert(greater(all[logits.len() as int], 0xFF80_0000));
        if j < logits.len() {
            assert(logits[j] == all[j]);
        }
    } else {
        assert forall|k: int| 0 <= k < all.len() implies !greater(
            #[trigger] all[k],
            0xFF80_0000,
        ) by {
            if k < logits.len() {
                assert(all[k] == logits[k]);
            }
        }
    }
}

/// At a temperature of zero, below it, or at none, nothing is drawn; one token alone is taken;
/// where there is none, nothing is chosen.
pub proof fn law_when_tokens_are_drawn(t: u32, logits: Seq<u32>, token: u32)
    ensures
        is_greedy(t) <==> t == 0 || t > 0x7F80_0000,
        chooses(t, logits, None) <==> logits.len() == 0,
        chooses(t, logits, Some(SampleChoice::Draw)) <==> logits.len() > 1 && 0 < t <= 0x7F80_0000,
        logits.len() == 1 && 0 < t <= 0x7F80_0000 ==> (chooses(
            t,
            logits,
            Some(SampleChoice::Token(token)),
        ) <==> token == 0),
        logits.len() > 0 && (t == 0 || t > 0x7F80_0000) ==> (chooses(
            t,
            logits,
            Some(SampleChoice::Token(token)),
        ) <==> is_argmax(logits, token as int)),
{
}

/// The state before `c`.
pub open spec fn state_before(c: u64) -> u64 {
    let b = c ^ (c << 17) ^ (c << 34) ^ (c << 51);
    let a = b ^ (b >> 7) ^ (b >> 14) ^ (b >> 21) ^ (b >> 28) ^ (b >> 35) ^ (b >> 42) ^ (b >> 49) ^ (b
        >> 56) ^ (b >> 63);
    a ^ (a << 13) ^ (a << 26) ^ (a << 39) ^ (a << 52)
}

/// A step of the generator is undone by shifts of the same widths, the last first.
pub proof fn law_step_is_undone(x: u64)
    ensures
        state_before(next_state(x)) == x,
{
    let a = x ^ (x << 13);
    let b = a ^ (a >> 7);
    let c = b ^ (b << 17);
    assert(c ^ (c << 17) ^ (c << 34) ^ (c << 51) == b) by (bit_vector)
        requires
            c == b ^ (b << 17),
    ;
    assert(b ^ (b >> 7) ^ (b >> 14) ^ (b >> 21) ^ (b >> 28) ^ (b >> 35) ^ (b >> 42) ^ (b >> 49) ^ (b
        >> 56) ^ (b >> 63) == a) by (bit_vector)
        requires
            b == a ^ (a >> 7),
    ;
    assert(a ^ (a << 13) ^ (a << 26) ^ (a << 39) ^ (a << 52) == x) by (bit_vector)
        requires
            a == x ^ (x << 13),
    ;
}

/// Different seeds start different streams, but for zero, which has a start of its own.
pub proof fn law_seeds_start_streams(config: SamplerConfig, seed: u64)
    ensures
        seed != 0 ==> seeded(seed) == seed,
        seeded(0) == 0x853c_49e6_748f_ea9b,
        config.seed is Some ==> first_state(config) == seeded(config.seed->0),
        config.seed is None ==> first_state(config) == 0x1234_5678_9ABC_DEF0,
{
}

// ---------------------------------------------------------------------------
// Speculation
// ---------------------------------------------------------------------------

proof fn lemma_position(tokens: Seq<u32>, t: u32)
    ensures
        position_of(tokens, t) <= tokens.len(),
        position_of(tokens, t) < tokens.len() ==> tokens[position_of(tokens, t) as int] == t,
        forall|i: int| 0 <= i < position_of(tokens, t) ==> #[trigger] tokens[i] != t,
    decreases tokens.len(),
{
    if tokens.len() > 0 && tokens[0] != t {
        lemma_position(tokens.skip(1), t);
        assert forall|i: int| 0 <= i < position_of(tokens, t) implies #[trigger] tokens[i] != t by {
            if i > 0 {
                assert(tokens.skip(1)[i - 1] == tokens[i]);
            }
        }
    }
}

/// As many drafted tokens are taken as were accepted, at least one and at most all, and fewer only
/// where the end token comes sooner: it is then the last.
pub proof fn law_accepted_tokens_are_taken(drafted: Seq<u32>, accepted: nat, eos: u32)
    requires
        drafted.len() > 0,
    ensures
        ({
            let a = accepted_tokens(drafted, accepted, eos);
            &&& a == drafted.take(a.len() as int)
            &&& 1 <= a.len() <= drafted.len()
            &&& accepted > 0 ==> a.len() <= accepted
            &&& accepted == 0 ==> a.len() == 1
            &&& a.len() < accepted && a.len() < drafted.len() ==> a.last() == eos
            &&& forall|i: int| 0 <= i < a.len() - 1 ==> #[trigger] a[i] != eos
        }),
{
    let kept = drafted.take(clamped(accepted, drafted.len()) as int);
    lemma_position(kept, eos);
    let a = accepted_tokens(drafted, accepted, eos);
    assert(a == through_eos(kept, eos));
    assert(a =~= drafted.take(a.len() as int));
    assert forall|i: int| 0 <= i < a.len() - 1 implies #[trigger] a[i] != eos by {
        assert(a[i] == kept[i]);
    }
}

/// Of a draft the first three tokens are accepted, or all where there are fewer.
pub proof fn law_three_tokens_are_accepted(n: nat)
    ensures
        accepted_of(n) <= n,
        accepted_of(n) <= 3,
        accepted_of(n) == n || accepted_of(n) == 3,
{
}

/// The first page and the last two take part, and no other.
pub proof fn law_first_and_last_pages_take_part(tokens: int, chunk_size: int, p: usize)
    requires
        0 < tokens,
        0 < chunk_size,
        tokens + chunk_size <= usize::MAX,
    ensures
        ({
            let a = active_page_list(page_count(tokens, chunk_size));
            a.contains(p) <==> p * chunk_size < tokens && (p == 0 || tokens <= (p + 2)
                * chunk_size)
        }),
{
    let n = page_count(tokens, chunk_size);
    let a = active_page_list(n);
    crate::engine::triforce::law_active_pages(tokens, chunk_size);
    assert(n >= 1) by (nonlinear_arith)
        requires
            0 < tokens <= n * chunk_size,
            chunk_size > 0,
    ;
    assert(n - 1 < tokens) by (nonlinear_arith)
        requires
            (n - 1) * chunk_size < tokens,
            chunk_size >= 1,
            n >= 1,
    ;
    assert(a.contains(p) <==> p < n && (p == 0 || p >= n - 2)) by {
        if n > 2 {
            assert(a[0] == 0 && a[1] == n - 2 && a[2] == n - 1);
        } else if n > 1 {
            assert(a[0] == 0 && a[1] == n - 1);
        } else {
            assert(a[0] == 0);
        }
    }
    assert(p < n <==> p * chunk_size < tokens) by (nonlinear_arith)
        requires
            (n - 1) * chunk_size < tokens <= n * chunk_size,
            chunk_size > 0,
    ;
    assert(p >= n - 2 <==> tokens <= (p + 2) * chunk_size) by (nonlinear_arith)
        requires
            (n - 1) * chunk_size < tokens <= n * chunk_size,
            chunk_size > 0,
    ;
}

// ---------------------------------------------------------------------------
// Decoding
// ---------------------------------------------------------------------------

/// Every token has 128 bytes of the cache to itself: they hold what is left of it by 251, and all
/// others stay.
pub proof fn law_token_fills_its_bytes(kv: Seq<u8>, index: int, token: u32, i: int)
    requires
        0 <= index,
        has_room(kv.len(), index),
        0 <= i < kv.len(),
    ensures
        (index + 1) * 128 <= kv.len(),
        appended(kv, index, token).len() == kv.len(),
        i / 128 == index ==> appended(kv, index, token)[i] == token % 251,
        i / 128 != index ==> appended(kv, index, token)[i] == kv[i],
{
}

/// Room is refused only where the cache ends before the token's bytes do.
pub proof fn law_room_is_what_the_cache_has(len: nat, index: int)
    requires
        0 <= index,
    ensures
        has_room(len, index) <==> index < len / 128,
{
}

/// Tokens that are appended at different places do not depend on which comes first.
pub proof fn law_appending_commutes(kv: Seq<u8>, i: int, a: u32, j: int, b: u32)
    requires
        0 <= i,
        0 <= j,
        i != j,
        has_room(kv.len(), i),
        has_room(kv.len(), j),
    ensures
        appended(appended(kv, i, a), j, b) == appended(appended(kv, j, b), i, a),
{
    assert(appended(appended(kv, i, a), j, b) =~= appended(appended(kv, j, b), i, a));
}

/// A step returns what the model made of the token, with the time it took; it ends the sequence
/// where that is the model's own end token, or the usual one for a model without. Without a model
/// it is the known answer.
pub proof fn law_step_returns_its_token(
    eos: Option<u32>,
    request: DecodeStepRequest,
    point: u64,
    m: ModelOutput,
)
    ensures
        ({
            let r = step_result(eos, request, point, Some(m));
            &&& r.output_token_id == m.token
            &&& r.tile_latency_us == m.elapsed_us
            &&& r.step_fence_point == point
            &&& eos is Some ==> (r.is_eos <==> m.token == eos->0)
            &&& eos is None ==> (r.is_eos <==> m.token == 128001)
        }),
        ({
            let r = step_result(eos, request, point, None);
            &&& r.output_token_id == reference_token(request.sequence_index as int)
            &&& r.tile_latency_us == 28000
            &&& r.step_fence_point == point
            &&& r.is_eos <==> request.sequence_index >= 14
        }),
{
    law_answer_is_given_in_order(request.sequence_index as int);
}

/// A step is begun exactly where the engine is ready, a cache is attached, the place is below
/// 8192 and the temperature is not below zero.
pub proof fn law_when_steps_are_begun(
    initialized: bool,
    attached: bool,
    request: DecodeStepRequest,
    t: Seq<char>,
)
    ensures
        ({
            let f = step_fault(initialized, attached, request, t);
            let below = 0x8000_0000 < request.temperature <= 0xFF80_0000;
            &&& f is None <==> initialized && attached && request.sequence_index < 8192 && !below
            &&& f is Some && f->0 is InitFailed <==> !initialized
            &&& f is Some && f->0 is InvalidArgument <==> initialized && (!attached
                || request.sequence_index >= 8192 || below)
            &&& initialized && attached && request.sequence_index >= 8192 ==> f == Some(
                EngineFault::InvalidArgument(
                    "Sequence index "@ + decimal(request.sequence_index as nat)
                        + " exceeds maximum context 8192"@,
                ),
            )
            &&& initialized && attached && request.sequence_index < 8192 && below ==> f == Some(
                EngineFault::InvalidArgument("Temperature "@ + t + " cannot be negative"@),
            )
        }),
        no_room(request.sequence_index) == EngineFault::OutOfResources(
            "Sequence index "@ + decimal(request.sequence_index as nat)
                + " exceeds allocated KV cache buffer capacity"@,
        ),
{
}

/// Steps are counted one by one; the count starts anew behind the last that 64 bits can hold.
pub proof fn law_steps_are_counted(n: u64)
    ensures
        one_more(n) == (n + 1) % 0x1_0000_0000_0000_0000,
{
}

// ---------------------------------------------------------------------------
// Experts
// ---------------------------------------------------------------------------

/// How often an expert occurs.
pub open spec fn times(list: Seq<usize>, e: int) -> nat
    decreases list.len(),
{
    if list.len() == 0 {
        0
    } else {
        times(list.drop_last(), e) + if list.last() == e {
            1nat
        } else {
            0
        }
    }
}

/// A count that has grown, as far as 64 bits go.
pub open spec fn grown(n: u64, by: int) -> int {
    if n + by <= u64::MAX {
        n + by
    } else {
        u64::MAX as int
    }
}

proof fn lemma_cells(n: int, f: int, t: int, from: int, to: int)
    requires
        0 <= f < n,
        0 <= t < n,
        0 <= from < n,
        0 <= to < n,
    ensures
        0 <= f * n + t < n * n,
        f * n + t == from * n + to ==> f == from && t == to,
{
    assert(0 <= f * n + t < n * n) by (nonlinear_arith)
        requires
            0 <= f < n,
            0 <= t < n,
    ;
    if f * n + t == from * n + to {
        vstd::arithmetic::div_mod::lemma_fundamental_div_mod_converse(f * n + t, n, f, t);
        vstd::arithmetic::div_mod::lemma_fundamental_div_mod_converse(f * n + t, n, from, to);
    }
}

proof fn lemma_counted(m: Seq<u64>, n: int, from: int, to: int, f: int, t: int)
    requires
        m.len() == n * n,
        0 <= f < n,
        0 <= t < n,
        0 <= from,
        0 <= to,
    ensures
        counted(m, n, from, to).len() == n * n,
        0 <= f * n + t < n * n,
        counted(m, n, from, to)[f * n + t] == grown(
            m[f * n + t],
            if f == from && t == to {
                1
            } else {
                0
            },
        ),
{
    lemma_cells(n, f, t, f, t);
    if from < n && to < n {
        lemma_cells(n, f, t, from, to);
        lemma_cells(n, from, to, f, t);
    }
}

proof fn lemma_counted_to(
    m: Seq<u64>,
    n: int,
    from: int,
    active: Seq<usize>,
    k: nat,
    f: int,
    t: int,
)
    requires
        m.len() == n * n,
        0 <= f < n,
        0 <= t < n,
        0 <= from,
        k <= active.len(),
    ensures
        counted_to(m, n, from, active, k).len() == n * n,
        0 <= f * n + t < n * n,
        counted_to(m, n, from, active, k)[f * n + t] == grown(
            m[f * n + t],
            if f == from {
                times(active.take(k as int), t) as int
            } else {
                0
            },
        ),
    decreases k,
{
    lemma_cells(n, f, t, f, t);
    if k == 0 {
        assert(active.take(0) =~= Seq::empty());
    } else {
        let before = counted_to(m, n, from, active, (k - 1) as nat);
        lemma_counted_to(m, n, from, active, (k - 1) as nat, f, t);
        lemma_counted(before, n, from, active[k - 1] as int, f, t);
        assert(active.take(k as int).drop_last() =~= active.take(k - 1));
    }
}

proof fn lemma_counted_all(
    m: Seq<u64>,
    n: int,
    prev: Seq<usize>,
    active: Seq<usize>,
    k: nat,
    f: int,
    t: int,
)
    requires
        m.len() == n * n,
        0 <= f < n,
        0 <= t < n,
        k <= prev.len(),
    ensures
        counted_all(m, n, prev, active, k).len() == n * n,
        0 <= f * n + t < n * n,
        counted_all(m, n, prev, active, k)[f * n + t] == grown(
            m[f * n + t],
            (times(prev.take(k as int), f) * times(active, t)) as int,
        ),
    decreases k,
{
    lemma_cells(n, f, t, f, t);
    let per = times(active, t) as int;
    if k == 0 {
        assert(prev.take(0) =~= Seq::empty());
        assert(times(prev.take(0), f) * per == 0) by (nonlinear_arith)
            requires
                times(prev.take(0), f) == 0,
        ;
    } else {
        let before = counted_all(m, n, prev, active, (k - 1) as nat);
        lemma_counted_all(m, n, prev, active, (k - 1) as nat, f, t);
        lemma_counted_to(before, n, prev[k - 1] as int, active, active.len(), f, t);
        assert(active.take(active.len() as int) =~= active);
        assert(prev.take(k as int).drop_last() =~= prev.take(k - 1));
        let c = times(prev.take(k - 1), f) as int;
        assert(c * per >= 0) by (nonlinear_arith)
            requires
                c >= 0,
                per >= 0,
        ;
        assert((c + 1) * per == c * per + per) by (nonlinear_arith);
    }
}

/// Every pair of a previous expert and an active one is counted once, in the cell of the two, and
/// no other cell changes.
pub proof fn law_every_route_is_counted(
    m: Seq<u64>,
    n: int,
    prev: Seq<usize>,
    active: Seq<usize>,
    f: int,
    t: int,
)
    requires
        m.len() == n * n,
        0 <= f < n,
        0 <= t < n,
    ensures
        counted_all(m, n, prev, active, prev.len()).len() == m.len(),
        counted_all(m, n, prev, active, prev.len())[f * n + t] == grown(
            m[f * n + t],
            (times(prev, f) * times(active, t)) as int,
        ),
{
    lemma_counted_all(m, n, prev, active, prev.len(), f, t);
    assert(prev.take(prev.len() as int) =~= prev);
}

/// A resident expert stays until its score is low, any other comes when its score is high, and
/// each by its own score.
pub proof fn law_experts_come_and_go(hot: Seq<bool>, high: Seq<bool>, low: Seq<bool>, e: int)
    requires
        high.len() == hot.len(),
        low.len() == hot.len(),
        0 <= e < hot.len(),
    ensures
        residency_after(hot, high, low).len() == hot.len(),
        hot[e] && low[e] ==> !residency_after(hot, high, low)[e],
        hot[e] && !low[e] ==> residency_after(hot, high, low)[e],
        !hot[e] && high[e] ==> residency_after(hot, high, low)[e],
        !hot[e] && !high[e] ==> !residency_after(hot, high, low)[e],
{
}

/// Predictions are dealt with one after the other: each that is not resident is prefetched into
/// its layer, the others are left out.
pub proof fn law_predictions_are_prefetched_in_order(
    layer: usize,
    hot: Seq<bool>,
    a: Seq<usize>,
    b: Seq<usize>,
    e: usize,
)
    requires
        e < hot.len(),
    ensures
        prefetches(layer, hot, a + b) == prefetches(layer, hot, a) + prefetches(layer, hot, b),
        !hot[e as int] ==> prefetches(layer, hot, seq![e]) == seq![(layer, e)],
        hot[e as int] ==> prefetches(layer, hot, seq![e]).len() == 0,
{
    lemma_prefetch_adds(layer, hot, a, b);
    let one = seq![e];
    assert(one.drop_last() =~= Seq::empty());
    assert(one.last() == e);
    reveal_with_fuel(prefetches, 2);
    if !hot[e as int] {
        assert(prefetches(layer, hot, one) =~= seq![(layer, e)]);
    }
}

proof fn lemma_prefetch_adds(layer: usize, hot: Seq<bool>, a: Seq<usize>, b: Seq<usize>)
    ensures
        prefetches(layer, hot, a + b) == prefetches(layer, hot, a) + prefetches(layer, hot, b),
    decreases b.len(),
{
    if b.len() == 0 {
        assert(a + b =~= a);
        assert(prefetches(layer, hot, a) + prefetches(layer, hot, b) =~= prefetches(layer, hot, a));
    } else {
        lemma_prefetch_adds(layer, hot, a, b.drop_last());
        assert((a + b).drop_last() =~= a + b.drop_last());
        assert((a + b).last() == b.last());
        assert(prefetches(layer, hot, a + b) =~= prefetches(layer, hot, a) + prefetches(
            layer,
            hot,
            b,
        ));
    }
}

/// The predicted experts of all lists, in order.
pub open spec fn flat(predictions: Seq<Vec<usize>>) -> Seq<usize>
    decreases predictions.len(),
{
    if predictions.len() == 0 {
        Seq::empty()
    } else {
        predictions[0]@ + flat(predictions.skip(1))
    }
}

/// The lists of predictions are dealt with one after the other, none is left out.
pub proof fn law_all_predictions_are_used(
    layer: usize,
    hot: Seq<bool>,
    predictions: Seq<Vec<usize>>,
)
    ensures
        prefetches_all(layer, hot, predictions, predictions.len()) == prefetches(
            layer,
            hot,
            flat(predictions),
        ),
{
    lemma_flat(layer, hot, predictions, 0);
    assert(predictions.skip(0) =~= predictions);
    assert(prefetches_all(layer, hot, predictions, 0) + prefetches(layer, hot, flat(predictions))
        =~= prefetches(layer, hot, flat(predictions)));
}

proof fn lemma_flat(layer: usize, hot: Seq<bool>, predictions: Seq<Vec<usize>>, k: nat)
    requires
        k <= predictions.len(),
    ensures
        prefetches_all(layer, hot, predictions, predictions.len()) == prefetches_all(
            layer,
            hot,
            predictions,
            k,
        ) + prefetches(layer, hot, flat(predictions.skip(k as int))),
    decreases predictions.len() - k,
{
    let rest = predictions.skip(k as int);
    if k == predictions.len() {
        assert(flat(rest) =~= Seq::empty());
        assert(prefetches(layer, hot, flat(rest)) =~= Seq::empty());
        assert(prefetches_all(layer, hot, predictions, k) + Seq::<(usize, usize)>::empty()
            =~= prefetches_all(layer, hot, predictions, k));
    } else {
        lemma_flat(layer, hot, predictions, k + 1);
        assert(rest.skip(1) =~= predictions.skip((k + 1) as int));
        assert(rest[0] == predictions[k as int]);
        lemma_prefetch_adds(layer, hot, rest[0]@, flat(rest.skip(1)));
        assert(prefetches_all(layer, hot, predictions, k + 1) + prefetches(
            layer,
            hot,
            flat(rest.skip(1)),
        ) =~= prefetches_all(layer, hot, predictions, k) + prefetches(layer, hot, flat(rest)));
    }
}

} // verus!
