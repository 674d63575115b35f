use zero_copy_model_runner::container::hardware::TargetHardware;
use zero_copy_model_runner::container::topology::ModelGraphTopology;
use zero_copy_model_runner::container::xclbin_builder::XclbinBuilder;
use zero_copy_model_runner::container::{
    ConfigFile, FileContext, ModelHyperparameters, Q4nxModel,
};
use zero_copy_model_runner::doctor::{doctor_report, run_diagnostics, SystemProbe};
use zero_copy_model_runner::model_cli::{
    container_info, convert_banner, convert_source, convert_target, is_bare_format, model_line,
    quantizer_arguments, router_info, router_sram_limit, ConvertSource,
};
use zero_copy_model_runner::session::{
    chat_prompt, default_max_tokens, read_command, required_kv_bytes, ChatMessage, Generation,
    NextStep, ReplCommand, StepOutcome,
};
use zero_copy_model_runner::string_map::StringMap;
use zero_copy_model_runner::text::{
    contains, decimal_text, ends_with, eq_ignore_case, starts_with, trim,
};

fn message(role: &str, content: &str) -> ChatMessage {
    ChatMessage { role: role.to_string(), content: content.to_string() }
}

#[test]
fn prompts_are_laid_out() {
    assert_eq!(chat_prompt(&[]), "<|im_start|>assistant\n");
    assert_eq!(
        chat_prompt(&[message("system", "Be brief."), message("user", "Hi")]),
        "<|im_start|>system\nBe brief.<|im_end|>\n<|im_start|>user\nHi<|im_end|>\n<|im_start|>assistant\n"
    );
    match read_command("  Hi there \n") {
        ReplCommand::Prompt(p) => {
            assert_eq!(p, "<|im_start|>user\nHi there<|im_end|>\n<|im_start|>assistant\n")
        }
        other => panic!("expected a prompt, got {:?}", other),
    }
    assert!(matches!(read_command(" \n"), ReplCommand::Skip));
    assert!(matches!(read_command("/exit\n"), ReplCommand::Exit));
    assert!(matches!(read_command("/quit"), ReplCommand::Exit));
    assert!(matches!(read_command(" /reset"), ReplCommand::Reset));
}

#[test]
fn generation_stops_where_it_should() {
    assert_eq!(default_max_tokens(), 256);
    assert_eq!(required_kv_bytes(10, 20), 94 * 128);
    let mut g = Generation::start(5, 3, 100);
    assert_eq!(g.next_step(), Some(NextStep { input_token_id: 100, sequence_index: 5 }));
    g.take(StepOutcome::Token(101));
    assert_eq!(g.next_step(), Some(NextStep { input_token_id: 101, sequence_index: 6 }));
    g.take(StepOutcome::Token(102));
    assert_eq!(g.next_step(), None);
    assert_eq!(g.tokens, vec![100, 101, 102]);
    let mut g = Generation::start(5, 30, 100);
    g.take(StepOutcome::EndOfSequence);
    assert_eq!(g.next_step(), None);
    assert_eq!(g.tokens, vec![100]);
    let mut g = Generation::start(5, 30, 100);
    g.take(StepOutcome::Failed);
    assert_eq!(g.next_step(), None);
    assert_eq!(Generation::start(5, 0, 1).next_step(), None);
}

fn probe() -> SystemProbe {
    SystemProbe {
        cpu_info: "vendor: x\nmodel name\t: AMD Ryzen AI 9 HX 370: extra\nflags : avx512f\n".to_string(),
        has_render_node: true,
        has_kfd: true,
        has_accel: true,
        has_rocm: true,
        groups: "users render video".to_string(),
    }
}

#[test]
fn diagnosis_passes_and_fails() {
    let checks = run_diagnostics(&probe());
    assert_eq!(checks.len(), 6);
    assert!(checks.iter().all(|c| c.status && c.recommendation.is_none()));
    assert_eq!(checks[0].details, "AMD Ryzen AI 9 HX 370 (AVX-512: Supported)");
    assert_eq!(checks[5].details, "render: OK, video: OK");
    let report = doctor_report(&checks);
    assert!(report.contains("\x1b[32m[ PASS ]\x1b[0m AMDGPU KFD Compute Node (/dev/kfd): Present"));
    assert!(report.contains("All checks passed"));

    let mut bad = probe();
    bad.cpu_info = "model name without colon".to_string();
    bad.groups = "render".to_string();
    bad.has_accel = false;
    let checks = run_diagnostics(&bad);
    assert_eq!(checks[0].details, " (AVX-512: Missing)");
    assert!(!checks[5].status);
    assert_eq!(checks[5].details, "render: OK, video: Missing");
    assert!(checks[3].recommendation.is_some());
    let report = doctor_report(&checks);
    assert!(report.contains("\x1b[31m[ FAIL ]\x1b[0m User Hardware Permissions"));
    assert!(report.contains("         \x1b[33mRecommendation: NPU requires amdxdna driver."));
    assert!(report.contains("Some checks failed"));
    bad.cpu_info = String::new();
    assert_eq!(run_diagnostics(&bad)[0].details, "Unknown CPU (AVX-512: Missing)");
}

#[test]
fn models_are_described() {
    let hp = ModelHyperparameters { hidden_dim: 64, num_heads: 4, ..ModelHyperparameters::default() };
    let ctx = FileContext {
        path: "m".to_string(),
        stem: "m".to_string(),
        config: ConfigFile::Absent,
        layer_xclbin: None,
    };
    let image = Q4nxModel::create_container("phi3", hp, Some(&[1u8; 10]), &[]);
    let text = container_info(&Q4nxModel::open(&ctx, &image).unwrap());
    assert!(text.starts_with(" Format            : .q4nx Unified APU Container\n Architecture      : phi3\n Hidden Dimension  : 64\n"));
    assert!(text.ends_with(" Embedded XCLBIN   : YES (Turnkey APU deployment)\n XCLBIN Size       : 10 bytes\n"));
    let bare = Q4nxModel::create_container("phi3", hp, None, &[]);
    let text = container_info(&Q4nxModel::open(&ctx, &bare).unwrap());
    assert!(text.ends_with(" Embedded XCLBIN   : NO (Bare container)\n"));

    let topology = ModelGraphTopology {
        arch_name: "m".to_string(),
        hidden_dim: 4096,
        num_heads: 32,
        num_kv_heads: 8,
        num_layers: 32,
        vocab_size: 1,
        context_length: 1,
        head_dim: 128,
        ffn_dim: 1,
        num_experts: 8,
    };
    let b = XclbinBuilder::new(TargetHardware::Npu2Aie2p, topology.clone());
    let text = router_info(&topology, &b.plan_router_sram());
    assert_eq!(
        text,
        " MoE Architecture  : Active (8 total experts)\n Router Matrix SRAM: 2048 KB pinned of 2048 KB total (32/32 layers in on-chip SRAM)\n   Safety Ceiling  : Within 32 MB limit (100% router matrices pinned)\n"
    );
    let dense = ModelGraphTopology { num_experts: 0, ..topology };
    assert_eq!(
        router_info(&dense, &b.plan_router_sram()),
        " MoE Architecture  : Dense (No routing matrices to pin)\n"
    );
}

#[test]
fn conversions_are_decided() {
    assert_eq!(convert_target("NPU2-AIE2P"), (TargetHardware::Npu2Aie2p, true));
    assert_eq!(convert_target("xdna2"), (TargetHardware::Npu2Aie2p, true));
    assert_eq!(convert_target("npu1"), (TargetHardware::Npu2Aie2p, false));
    assert_eq!(convert_source(true, "gguf"), ConvertSource::SafetensorsDirectory);
    assert_eq!(convert_source(false, "SafeTensors"), ConvertSource::SafetensorsFile);
    assert_eq!(convert_source(false, "gguf"), ConvertSource::Gguf);
    assert!(is_bare_format("Bare"));
    assert!(!is_bare_format("embedded"));
    assert_eq!(router_sram_limit(0), 1048576);
    assert_eq!(router_sram_limit(32), 33554432);
    assert_eq!(
        quantizer_arguments("d", "o", true, "billm", "0.015", true, Some("x.xclbin")),
        vec![
            "old/converter/convert_to_billm.py", "--model-id", "d", "--output", "o", "--format",
            "bare", "--quant", "billm", "--salient-ratio", "0.015", "--no-rotation", "--xclbin",
            "x.xclbin"
        ]
    );
    let banner = convert_banner("in", "npu2", false, "billm", false, "1.5");
    assert!(banner.contains(" Quantization: BILLM\n Orthogonal Rot. : ENABLED (Block-RHT Walsh-Hadamard 128)\n Saliency Ratio  : 1.5% isolated for scale factor\n"));
    assert!(!convert_banner("in", "npu2", true, "q8_0", false, "1.5").contains("Saliency"));
    assert_eq!(
        model_line("m.gguf", "GGUF", 3 * 1048576 + 5, "/opt").unwrap(),
        format!(" - {:<45} ({:>5} MB) [{}]\n", "m.gguf", 3, "/opt")
    );
    assert_eq!(model_line("readme.md", "md", 1, "/opt"), None);
}

#[test]
fn texts_are_searched_and_trimmed() {
    assert!(contains("hello", "ell"));
    assert!(contains("hello", ""));
    assert!(!contains("hello", "elo"));
    assert!(starts_with("<0x20>", "<0x"));
    assert!(!starts_with("<0", "<0x"));
    assert!(ends_with("a.block_count", ".block_count"));
    assert!(!ends_with("block_count", ".block_count"));
    assert!(eq_ignore_case("Q4nX", "q4Nx"));
    assert!(!eq_ignore_case("é", "É"));
    assert_eq!(trim(" \u{2003}a b\r\n"), "a b");
    assert_eq!(trim("\u{200b}"), "\u{200b}");
    assert_eq!(decimal_text(0), "0");
    assert_eq!(decimal_text(u64::MAX), u64::MAX.to_string());
}

#[test]
fn string_maps_find_what_was_put_in() {
    let mut m = StringMap::new();
    for i in 0..1000u64 {
        m.insert(&format!("key{}", i), i);
    }
    m.insert("key7", 70);
    assert_eq!(m.len(), 1000);
    for i in 0..1000u64 {
        let key: Vec<char> = format!("key{}", i).chars().collect();
        assert_eq!(m.get(&key), Some(if i == 7 { 70 } else { i }));
    }
    assert!(!m.contains("key1000"));
    assert!(m.contains("key999"));
}
