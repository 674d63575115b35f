use zero_copy_model_runner::engine::oracle::{DeterministicReferenceOracle, EOS_TOKEN_ID};
use zero_copy_model_runner::engine::pilot::PilotEngine;
use zero_copy_model_runner::engine::sampler::{argmax_scalar, FastRng, SampleChoice, Sampler, SamplerConfig};
use zero_copy_model_runner::engine::triforce::{
    TriForceCacheConfig, TriForceSpeculativeEngine,
};
use zero_copy_model_runner::engine::xrt_decode::{DecodeStepRequest, ModelOutput, XrtDecodeEngine};
use zero_copy_model_runner::engine::EngineError;

const REFERENCE_PROMPT: [u32; 6] = [128000, 791, 7421, 315, 9607, 374];
const EXPECTED_DECODE_STEPS: [u32; 10] = [9607, 374, 9552, 315, 420, 8496, 11, 7176, 13, 128001];

fn bits(v: &[f32]) -> Vec<u32> {
    v.iter().map(|f| f.to_bits()).collect()
}

fn request(token: u32, index: usize, temperature: f32) -> DecodeStepRequest {
    DecodeStepRequest { input_token_id: token, sequence_index: index, temperature: temperature.to_bits() }
}

fn ready(kv_size: usize) -> XrtDecodeEngine {
    let mut engine = XrtDecodeEngine::new();
    engine.initialize("model.xclbin", Ok(true)).expect("initialize");
    engine.attach_kv_cache(kv_size, Ok(())).expect("attach");
    engine
}

#[test]
fn test_sampler_greedy_argmax_basic() {
    let mut logits = vec![0.0f32; 1000];
    logits[777] = 42.5;
    let selected = Sampler::sample_greedy(&bits(&logits)).expect("sample_greedy failed");
    assert_eq!(selected, 777);
}

#[test]
fn test_sampler_empty_logits_rejected() {
    let res = Sampler::sample_greedy(&[]);
    assert!(res.is_err());
}

#[test]
fn test_sampler_temperature_zero_is_greedy() {
    let sampler = Sampler::new(SamplerConfig {
        temperature: 0.0f32.to_bits(),
        top_p: 1.0f32.to_bits(),
        top_k: 0,
        seed: Some(42),
    });
    let mut logits = vec![-1.0f32; 128256];
    logits[128001] = 100.0;
    let token = sampler.sample(&bits(&logits)).expect("sample failed");
    assert_eq!(token, SampleChoice::Token(128001));
}

#[test]
fn test_avx512_and_scalar_equivalence() {
    let len = 128000;
    let mut logits: Vec<f32> = (0..len).map(|i| ((i * 37) % 1000) as f32 / 100.0).collect();
    logits[98765] = 10000.0;
    assert_eq!(argmax_scalar(&bits(&logits)), 98765);
}

#[test]
fn test_sampler_avx512_and_scalar_equivalence() {
    let vocab_size = 128_256;
    let mut logits = vec![0.0f32; vocab_size];
    for (i, val) in logits.iter_mut().enumerate() {
        *val = ((i as f32) * 1.6180339).sin() * 10.0;
    }
    logits[54321] = 999.0;
    assert_eq!(argmax_scalar(&bits(&logits)), 54321);
}

#[test]
fn argmax_orders_numbers_as_floats_do() {
    assert_eq!(argmax_scalar(&bits(&[-3.0, -1.0, -2.0])), 1);
    assert_eq!(argmax_scalar(&bits(&[-0.0, 0.0])), 0);
    assert_eq!(argmax_scalar(&bits(&[f32::NAN, 1.0, f32::NAN])), 1);
    assert_eq!(argmax_scalar(&bits(&[f32::NEG_INFINITY, f32::NEG_INFINITY])), 0);
    assert_eq!(argmax_scalar(&bits(&[f32::NAN])), 0);
    assert_eq!(argmax_scalar(&bits(&[1.0, f32::INFINITY, f32::INFINITY])), 1);
}

#[test]
fn sampling_draws_only_with_a_temperature() {
    let mut s = Sampler::new(SamplerConfig::default());
    assert_eq!(s.sample(&bits(&[1.0, 2.0])).unwrap(), SampleChoice::Token(1));
    assert_eq!(s.sample_with_params(&bits(&[1.0, 2.0]), 0.7f32.to_bits()).unwrap(), SampleChoice::Draw);
    assert_eq!(s.sample_with_params(&bits(&[1.0]), 0.7f32.to_bits()).unwrap(), SampleChoice::Token(0));
    assert_eq!(
        s.sample_with_params(&bits(&[1.0, 2.0]), f32::NAN.to_bits()).unwrap(),
        SampleChoice::Token(1)
    );
    assert_eq!(
        s.sample_with_params(&bits(&[1.0, 2.0]), (-1.0f32).to_bits()).unwrap(),
        SampleChoice::Token(1)
    );
    assert!(matches!(s.sample(&[]), Err(EngineError::InvalidArgument(_))));
    let start = s.rng;
    s.rng.next_u64();
    let moved = s.rng;
    s.set_config(SamplerConfig::default());
    assert_eq!(s.rng, moved);
    s.set_config(SamplerConfig { seed: Some(0x1234_5678_9ABC_DEF0), ..SamplerConfig::default() });
    assert_eq!(s.rng, start);
    s.reseed(5);
    assert_eq!(s.rng, FastRng::new(5));
    assert_eq!(s.config().top_p, 1.0f32.to_bits());
}

#[test]
fn generators_follow_their_seed() {
    let mut a = FastRng::new(1337);
    let mut b = FastRng::new(1337);
    for _ in 0..20 {
        assert_eq!(a.next_u64(), b.next_u64());
    }
    let mut one = FastRng::new(1);
    assert_eq!(one.next_u64(), 0x40822041);
    assert_eq!(FastRng::new(0).state, 0x853c_49e6_748f_ea9b);
    let mut c = FastRng::new(99);
    let mut d = FastRng::new(99);
    for _ in 0..100 {
        let f = c.next_fraction();
        assert!(f < 1 << 24);
        assert_eq!(f as u64, d.next_u64() >> 40);
    }
}

#[test]
fn test_xrt_decode_lifecycle_and_in_place_append() {
    let mut engine = XrtDecodeEngine::new();
    engine.initialize("llama3-8b.xclbin", Ok(true)).unwrap();
    assert_eq!(engine.active_tiles(), 32);
    assert!(engine.peak_npu_tops() >= 50);
    engine.attach_kv_cache(32768, Ok(())).unwrap();
    let mut kv = vec![0u8; 32768];
    let res = engine
        .dispatch_decode_step(&request(9607, 6, 0.0), "0", 1, &mut kv, None)
        .unwrap();
    assert_eq!(res.output_token_id, 374);
    assert!(!res.is_eos);
    assert_eq!(engine.current_step(), 1);
    assert!(kv[6 * 128..7 * 128].iter().all(|&b| b == (9607 % 251) as u8));
    assert!(kv[..6 * 128].iter().all(|&b| b == 0));
    assert!(kv[7 * 128..].iter().all(|&b| b == 0));
    assert_eq!(engine.xclbin_path(), "llama3-8b.xclbin");
    assert!(engine.is_initialized());
    assert!(engine.is_mock());
}

#[test]
fn test_decode_inplace_kv_append() {
    let bo_size = 64 * 1024;
    let mut engine = ready(bo_size);
    assert_eq!(engine.attached_kv_size(), bo_size as u64);
    let mut kv = vec![0u8; bo_size];
    let test_tokens = [9607u32, 374, 9552, 315];
    let start_seq = 6;
    for (step, &token) in test_tokens.iter().enumerate() {
        let res = engine
            .dispatch_decode_step(&request(token, start_seq + step, 0.0), "0", (step + 1) as u64, &mut kv, None)
            .expect("dispatch_decode_step failed");
        assert_eq!(res.step_fence_point, (step + 1) as u64);
        assert!(!res.is_eos);
    }
    assert_eq!(engine.current_step(), test_tokens.len() as u64);
    for (step, &token) in test_tokens.iter().enumerate() {
        let offset = (start_seq + step) * 128;
        let expected = (token % 251) as u8;
        assert!(kv[offset..offset + 128].iter().all(|&b| b == expected));
    }
}

#[test]
fn test_e2e_forward_pass_prefill_and_decode() {
    let kv_size = 128 * 1024;
    let mut decode_engine = ready(kv_size);
    let mut kv = vec![0u8; kv_size];
    let initial = DeterministicReferenceOracle::next_token(&REFERENCE_PROMPT);
    assert_eq!(initial, EXPECTED_DECODE_STEPS[0]);

    let mut generated_tokens = vec![initial];
    let mut current_token = initial;
    for step in 1..10 {
        let res = decode_engine
            .dispatch_decode_step(
                &request(current_token, REFERENCE_PROMPT.len() + step - 1, 0.0),
                "0",
                (step + 1) as u64,
                &mut kv,
                None,
            )
            .expect("Decode step execution");
        generated_tokens.push(res.output_token_id);
        current_token = res.output_token_id;
        if res.is_eos {
            assert_eq!(res.output_token_id, EOS_TOKEN_ID);
            break;
        }
    }
    assert_eq!(generated_tokens.as_slice(), &EXPECTED_DECODE_STEPS[..]);
    assert_eq!(*generated_tokens.last().unwrap(), EOS_TOKEN_ID);
}

#[test]
fn test_engine_boundaries_and_error_handling() {
    let mut kv = vec![0u8; 4096];
    let mut uninitialized_decode = XrtDecodeEngine::new();
    let res = uninitialized_decode.dispatch_decode_step(&request(1, 0, 0.0), "0", 1, &mut kv, None);
    assert!(matches!(res, Err(EngineError::InitFailed(_))));

    let mut decode = XrtDecodeEngine::new();
    decode.initialize("model.xclbin", Ok(true)).unwrap();
    let res = decode.dispatch_decode_step(&request(1, 0, 0.0), "0", 1, &mut kv, None);
    assert!(matches!(res, Err(EngineError::InvalidArgument(_))));

    decode.attach_kv_cache(4096, Ok(())).unwrap();
    let res = decode.dispatch_decode_step(&request(1, 0, -0.5), "-0.5", 1, &mut kv, None);
    assert!(matches!(res, Err(EngineError::InvalidArgument(_))));

    let res = decode.dispatch_decode_step(&request(1, 8192, 0.0), "0", 1, &mut kv, None);
    assert!(matches!(res, Err(EngineError::InvalidArgument(_))));

    let res = decode.dispatch_decode_step(&request(1, 32, 0.0), "0", 1, &mut kv, None);
    match res {
        Err(EngineError::OutOfResources(s)) => {
            assert_eq!(s, "Sequence index 32 exceeds allocated KV cache buffer capacity")
        }
        other => panic!("Expected OutOfResources, got {:?}", other),
    }
    assert_eq!(decode.current_step(), 0);
    assert!(kv.iter().all(|&b| b == 0));
    assert!(decode.dispatch_decode_step(&request(1, 31, -0.0), "-0", 1, &mut kv, None).is_ok());
}

#[test]
fn engines_report_what_goes_wrong_outside() {
    let mut e = XrtDecodeEngine::new();
    assert!(matches!(e.initialize("", Ok(true)), Err(EngineError::InvalidArgument(_))));
    assert!(matches!(e.initialize("x", Err("no device".to_string())), Err(EngineError::InitFailed(_))));
    assert!(!e.is_initialized());
    e.initialize("x", Ok(false)).unwrap();
    assert!(!e.is_mock());
    assert!(matches!(e.attach_kv_cache(0, Ok(())), Err(EngineError::InvalidArgument(_))));
    assert!(matches!(
        e.attach_kv_cache(64, Err("no mapping".to_string())),
        Err(EngineError::OutOfResources(_))
    ));
    e.attach_kv_cache(256, Ok(())).unwrap();
    e.load_model(7);
    let mut kv = vec![0u8; 256];
    let out = ModelOutput { token: 7, elapsed_us: 12 };
    let r = e.dispatch_decode_step(&request(1, 0, 0.5), "0.5", 3, &mut kv, Some(Ok(out))).unwrap();
    assert_eq!((r.output_token_id, r.is_eos, r.tile_latency_us, r.step_fence_point), (7, true, 12, 3));
    let failed = Some(Err(EngineError::LaunchFailed("x".to_string())));
    let r = e.dispatch_decode_step(&request(1, 1, 0.5), "0.5", 3, &mut kv, failed);
    assert!(matches!(r, Err(EngineError::LaunchFailed(_))));
    assert_eq!(e.current_step(), 2);
    assert_eq!(e.plan_decode_step(&request(1, 0, 0.0), "0", 4, 9).unwrap(), Some(9));
    assert_eq!(e.plan_decode_step(&request(1, 0, 0.0), "0", -1, 9).unwrap(), None);
    assert_eq!(XrtDecodeEngine::signal_after_step(4, 9), Some(9));
    assert_eq!(XrtDecodeEngine::signal_after_step(4, 0), None);
    e.set_shared_transformer(None);
    assert_eq!(e.model_eos, Some(7));
    e.set_shared_transformer(Some(8));
    assert_eq!(e.model_eos, Some(8));
    let b = XrtDecodeEngine::new_with_backend(true);
    assert!(b.is_initialized());
    assert_eq!(b.xclbin_path(), "in_memory.xclbin");
}

#[test]
fn test_speculative_drafting_engine() {
    let mut decode = XrtDecodeEngine::new();
    decode.initialize("model.xclbin", Ok(true)).unwrap();
    let candidates = decode.draft_tokens(4).expect("draft_tokens failed");
    assert_eq!(candidates.len(), 4);
    assert_eq!(candidates, vec![8496, 11, 7176, 13]);
    let accepted = decode.verify_tokens(&candidates, 32768).expect("verify_tokens failed");
    assert!(accepted > 0 && accepted <= candidates.len());
    assert_eq!(accepted, 3);
    assert_eq!(decode.verify_tokens(&[], 0).unwrap(), 0);
    assert!(decode.verify_tokens(&candidates, 0).is_err());
    assert!(decode.draft_tokens(0).is_err());
}

#[test]
fn test_triforce_lifecycle_and_statistics() {
    let config = TriForceCacheConfig {
        num_sink_tokens: 4,
        local_window_size: 32,
        num_retrieved_chunks: 4,
        draft_k: 4,
    };
    let mut triforce = TriForceSpeculativeEngine::new(config, true);
    assert!(triforce.is_enabled());
    let mut decode = XrtDecodeEngine::new();
    decode.initialize("triforce_model.xclbin", Ok(true)).unwrap();

    let pages = TriForceSpeculativeEngine::active_pages(64, 16);
    assert_eq!(pages, vec![0, 2, 3]);
    let res = triforce
        .step(101, &decode, 65536, pages, 99999)
        .expect("TriForce step should succeed");

    assert_eq!(res.drafted_tokens.len(), 4);
    assert!(res.accepted_count >= 1 && res.accepted_count <= 4);
    assert!(!res.active_chunks_retrieved.is_empty());
    assert!(triforce.stats().total_accepted > 0);
    assert!(triforce.stats().total_accepted >= triforce.stats().total_verification_passes);
    assert_eq!(triforce.stats().total_drafted, 4);
    assert_eq!(triforce.stats().cache_retrievals, 3);
}

#[test]
fn test_triforce_disabled_passthrough() {
    let config = TriForceCacheConfig::default();
    let mut triforce = TriForceSpeculativeEngine::new(config, false);
    assert!(!triforce.is_enabled());
    let mut decode = XrtDecodeEngine::new();
    decode.initialize("dummy.xclbin", Ok(true)).unwrap();
    let res = triforce.step(555, &decode, 4096, Vec::new(), 99999).unwrap();
    assert_eq!(res.drafted_tokens, vec![555]);
    assert_eq!(res.accepted_tokens, vec![555]);
    assert_eq!(res.accepted_count, 1);
    assert!(res.active_chunks_retrieved.is_empty());
    assert!(!res.is_eos);
    triforce.set_enabled(true);
    assert!(triforce.is_enabled());
    assert_eq!(triforce.config().draft_k, 4);
    let res = triforce.step(1, &decode, 4096, Vec::new(), 11).unwrap();
    assert_eq!(res.accepted_tokens, vec![8496, 11]);
    assert!(res.is_eos);
    assert!(triforce.step(1, &decode, 0, vec![1, 2], 11).is_err());
    assert_eq!(triforce.stats().cache_retrievals, 2);
}

#[test]
fn drafts_are_accepted_up_to_the_end() {
    let (a, eos) = TriForceSpeculativeEngine::accept(&[1, 2, 3], 0, 9);
    assert_eq!((a, eos), (vec![1], false));
    let (a, eos) = TriForceSpeculativeEngine::accept(&[1, 2, 3], 7, 2);
    assert_eq!((a, eos), (vec![1, 2], true));
    assert!(TriForceSpeculativeEngine::active_pages(0, 16).is_empty());
    assert_eq!(TriForceSpeculativeEngine::active_pages(16, 16), vec![0]);
    assert_eq!(TriForceSpeculativeEngine::active_pages(17, 16), vec![0, 1]);
}

#[test]
fn transitions_lead_to_prefetches() {
    let mut engine = PilotEngine::new();
    engine.register_layer(0, 4);
    engine.register_layer(1, 4);
    let low = [false; 4];
    for _ in 0..10 {
        engine.on_layer_routed(0, &[1], None, &[false, true, false, false], &low);
        engine.on_layer_routed(1, &[2], Some(&[1]), &low, &low);
    }
    let t0 = engine.layer_trackers.get(&0).unwrap();
    assert!(t0.is_hot_resident[1]);
    assert!(!t0.is_hot_resident[0]);
    let t1 = engine.layer_trackers.get(&1).unwrap();
    assert_eq!(t1.transition_row(1).unwrap(), &[0, 0, 10, 0]);
    assert!(t1.transition_row(4).is_none());
    assert_eq!(engine.predict_prefetch_targets(0, &[vec![2, 3]]), vec![(1, 2), (1, 3)]);
    engine.on_layer_routed(1, &[2], None, &[false, false, true, false], &low);
    assert_eq!(engine.predict_prefetch_targets(0, &[vec![2, 3]]), vec![(1, 3)]);
    engine.on_layer_routed(1, &[2], None, &low, &[true; 4]);
    assert_eq!(engine.predict_prefetch_targets(0, &[vec![2]]), vec![(1, 2)]);
    assert!(engine.predict_prefetch_targets(5, &[vec![2]]).is_empty());
    engine.on_layer_routed(9, &[0], None, &[], &[]);
}

#[test]
fn the_oracle_is_deterministic() {
    let a = DeterministicReferenceOracle::next_token(&[1000, 2000, 3000]);
    let b = DeterministicReferenceOracle::next_token(&[1000, 2000, 3001]);
    assert_ne!(a, b);
    assert!((1..=100_000).contains(&a));
    let mut hash = 17u32;
    for t in [1000u32, 2000, 3000] {
        hash = hash.wrapping_mul(31).wrapping_add(t);
    }
    assert_eq!(a, hash % 100_000 + 1);
    assert_eq!(DeterministicReferenceOracle::next_decode_step_token(0), 374);
    assert_eq!(DeterministicReferenceOracle::next_decode_step_token(usize::MAX), EOS_TOKEN_ID);
}

/// Samples a token, drawing from the softmax of the logits where the sampler asks for it.
fn sample(sampler: &mut Sampler, logits: &[f32]) -> u32 {
    let best = match sampler.sample(&bits(logits)).unwrap() {
        SampleChoice::Token(t) => return t,
        SampleChoice::Draw => Sampler::sample_greedy(&bits(logits)).unwrap(),
    };
    let temperature = f32::from_bits(sampler.config().temperature);
    let weights: Vec<f32> =
        logits.iter().map(|l| ((l - logits[best as usize]) / temperature).exp()).collect();
    let sum: f32 = weights.iter().sum();
    let mut probs: Vec<(u32, f32)> =
        weights.iter().enumerate().map(|(i, w)| (i as u32, w / sum)).collect();
    probs.sort_by(|a, b| b.1.total_cmp(&a.1));
    if sampler.config().top_k > 0 {
        probs.truncate(sampler.config().top_k);
    }
    let top_p = f32::from_bits(sampler.config().top_p);
    let mut mass = 0.0f32;
    let kept = probs.iter().take_while(|&&(_, p)| {
        let wanted = mass < top_p;
        mass += p;
        wanted
    });
    let kept: Vec<(u32, f32)> = kept.copied().collect();
    let nucleus: f32 = kept.iter().map(|&(_, p)| p).sum();
    let mut r = sampler.rng.next_fraction() as f32 / (1u32 << 24) as f32 * nucleus;
    for &(token, p) in &kept {
        r -= p;
        if r <= 0.0 {
            return token;
        }
    }
    kept[kept.len() - 1].0
}

fn drawing(temperature: f32, top_p: f32, top_k: usize, seed: u64) -> Sampler {
    Sampler::new(SamplerConfig {
        temperature: temperature.to_bits(),
        top_p: top_p.to_bits(),
        top_k,
        seed: Some(seed),
    })
}

#[test]
fn test_sampler_multinomial_distribution_and_seed_determinism() {
    let mut sampler1 = drawing(0.8, 0.9, 10, 1337);
    let mut sampler2 = drawing(0.8, 0.9, 10, 1337);
    assert_eq!(sampler1, sampler2);

    let logits: Vec<f32> = (0..100).map(|i| (i as f32).sin() * 5.0).collect();

    let s1_tokens: Vec<u32> = (0..20).map(|_| sample(&mut sampler1, &logits)).collect();
    let s2_tokens: Vec<u32> = (0..20).map(|_| sample(&mut sampler2, &logits)).collect();

    assert_eq!(s1_tokens, s2_tokens, "Deterministic seeds must generate identical token streams");
    assert_eq!(sampler1, sampler2);
    assert!(s1_tokens.iter().any(|t| *t != s1_tokens[0]));
}

#[test]
fn test_sampler_temperature_and_top_p() {
    let mut sampler = drawing(0.7, 0.9, 5, 42);
    let mut logits = vec![-5.0f32; 1000];
    logits[10] = 5.0;
    logits[20] = 4.5;
    logits[30] = 4.0;

    for _ in 0..50 {
        let tok = sample(&mut sampler, &logits);
        assert!(
            tok == 10 || tok == 20 || tok == 30,
            "Sampled token {} was outside nucleus set",
            tok
        );
    }
}

#[test]
fn tokens_pass_through_without_speculation() {
    let config = TriForceCacheConfig { draft_k: usize::MAX, ..TriForceCacheConfig::default() };
    let mut triforce = TriForceSpeculativeEngine::new(config, false);
    triforce.stats.total_verification_passes = usize::MAX;
    let res = triforce.step(7, &XrtDecodeEngine::new(), 0, vec![1, 2], 7).unwrap();
    assert_eq!(res.accepted_tokens, vec![7]);
    assert!(res.is_eos);
    assert_eq!(triforce.stats().total_verification_passes, usize::MAX);
}
