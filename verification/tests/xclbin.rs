use zero_copy_model_runner::container::hardware::{TargetHardware, XclbinFormat};
use zero_copy_model_runner::container::topology::ModelGraphTopology;
use zero_copy_model_runner::container::xclbin_builder::XclbinBuilder;
use zero_copy_model_runner::container::{
    ConfigFile, ContainerError, FileContext, IoFault, ModelHyperparameters, Q4nxModel,
};
use zero_copy_model_runner::synth_cli::{parse_synth_args, read_topology};

fn at(path: &str, stem: &str) -> FileContext {
    FileContext {
        path: path.to_string(),
        stem: stem.to_string(),
        config: ConfigFile::Absent,
        layer_xclbin: None,
    }
}

fn topology(arch: &str, hidden: u32, layers: u32, experts: u32) -> ModelGraphTopology {
    ModelGraphTopology {
        arch_name: arch.to_string(),
        hidden_dim: hidden,
        num_heads: 32,
        num_kv_heads: 8,
        num_layers: layers,
        vocab_size: 128000,
        context_length: 8192,
        head_dim: 128,
        ffn_dim: 11008,
        num_experts: experts,
    }
}

#[test]
fn test_target_hardware_parsing() {
    assert_eq!(TargetHardware::from_str_loose("npu1"), Some(TargetHardware::Npu1Aie2));
    assert_eq!(TargetHardware::from_str_loose("phoenix"), Some(TargetHardware::Npu1Aie2));
    assert_eq!(TargetHardware::from_str_loose("hawkpoint"), Some(TargetHardware::Npu1Aie2));
    assert_eq!(TargetHardware::from_str_loose("7040"), Some(TargetHardware::Npu1Aie2));

    assert_eq!(TargetHardware::from_str_loose("npu2"), Some(TargetHardware::Npu2Aie2p));
    assert_eq!(TargetHardware::from_str_loose("strix"), Some(TargetHardware::Npu2Aie2p));
    assert_eq!(TargetHardware::from_str_loose("gorgon"), Some(TargetHardware::Npu2Aie2p));
    assert_eq!(TargetHardware::from_str_loose("krackan"), Some(TargetHardware::Npu2Aie2p));

    assert_eq!(TargetHardware::Npu1Aie2.column_width(), 5);
    assert_eq!(TargetHardware::Npu2Aie2p.column_width(), 8);
}

#[test]
fn names_are_read_loosely() {
    assert_eq!(TargetHardware::from_str_loose(" \tStrix\n"), Some(TargetHardware::Npu2Aie2p));
    assert_eq!(TargetHardware::from_str_loose("\u{3000}AIE2\u{a0}"), Some(TargetHardware::Npu1Aie2));
    assert_eq!(TargetHardware::from_str_loose("npu3"), None);
    for t in [TargetHardware::Npu1Aie2, TargetHardware::Npu2Aie2p] {
        assert_eq!(TargetHardware::from_str_loose(t.as_str()), Some(t));
        assert!(t.description().starts_with("AMD XDNA "));
    }
    assert_eq!(XclbinFormat::from_str_loose(" Mimic-Builtin"), Some(XclbinFormat::MimicBuiltin));
    assert_eq!(XclbinFormat::from_str_loose("LEGACY"), Some(XclbinFormat::MimicBuiltin));
    assert_eq!(XclbinFormat::from_str_loose("default"), Some(XclbinFormat::Enhanced));
    assert_eq!(XclbinFormat::from_str_loose("other"), None);
    for f in [XclbinFormat::Enhanced, XclbinFormat::MimicBuiltin] {
        assert_eq!(XclbinFormat::from_str_loose(f.as_str()), Some(f));
    }
    assert_eq!(XclbinFormat::default(), XclbinFormat::Enhanced);
}

#[test]
fn test_router_sram_pinning_calculation() {
    let dense_topo = ModelGraphTopology {
        arch_name: "llama3".to_string(),
        hidden_dim: 4096,
        num_heads: 32,
        num_kv_heads: 8,
        num_layers: 32,
        vocab_size: 128000,
        context_length: 8192,
        head_dim: 128,
        ffn_dim: 11008,
        num_experts: 0,
    };
    let dense_builder = XclbinBuilder::new(TargetHardware::Npu2Aie2p, dense_topo);
    let plan = dense_builder.plan_router_sram();
    assert_eq!(plan.pinned_sram_bytes, 0);
    assert_eq!(plan.pinned_layer_count, 0);
    assert!(!plan.sram_exhaustion_prevented);

    let moe_topo = ModelGraphTopology {
        arch_name: "mixtral".to_string(),
        hidden_dim: 4096,
        num_heads: 32,
        num_kv_heads: 8,
        num_layers: 32,
        vocab_size: 32000,
        context_length: 32768,
        head_dim: 128,
        ffn_dim: 14336,
        num_experts: 8,
    };
    let moe_builder = XclbinBuilder::new(TargetHardware::Npu2Aie2p, moe_topo);
    let plan = moe_builder.plan_router_sram();
    assert_eq!(plan.total_router_bytes, 2 * 1024 * 1024);
    assert_eq!(plan.pinned_sram_bytes, 2 * 1024 * 1024);
    assert_eq!(plan.pinned_layer_count, 32);
    assert!(!plan.sram_exhaustion_prevented);

    let massive_topo = ModelGraphTopology {
        arch_name: "deepseek_v3".to_string(),
        hidden_dim: 7168,
        num_heads: 64,
        num_kv_heads: 64,
        num_layers: 61,
        vocab_size: 128000,
        context_length: 65536,
        head_dim: 128,
        ffn_dim: 18432,
        num_experts: 256,
    };
    let massive_builder = XclbinBuilder::new(TargetHardware::Npu2Aie2p, massive_topo);
    let plan = massive_builder.plan_router_sram();
    assert!(plan.total_router_bytes > 200 * 1024 * 1024);
    assert!(plan.pinned_sram_bytes <= 32 * 1024 * 1024);
    assert!(plan.pinned_layer_count < 61);
    assert!(plan.pinned_layer_count >= 8);
    assert!(plan.sram_exhaustion_prevented);
    assert_eq!(plan.pinned_layer_count, 9);
    assert_eq!(plan.pinned_sram_bytes, 9 * 3_670_016);
}

#[test]
fn pinning_can_be_limited_and_turned_off() {
    let b = XclbinBuilder::new(TargetHardware::Npu2Aie2p, topology("m", 4096, 32, 8));
    let b = b.with_router_sram(true, Some(200_000));
    let plan = b.plan_router_sram();
    assert_eq!(plan.pinned_layer_count, 3);
    assert_eq!(plan.pinned_sram_bytes, 3 * 65536);
    let b = b.with_router_sram(false, None);
    assert_eq!(b.max_router_sram_bytes, 200_000);
    let plan = b.plan_router_sram();
    assert_eq!(plan.total_router_bytes, 0);
    assert_eq!(plan.total_layers, 32);
}

#[test]
fn test_custom_xclbin_generation_and_saving() {
    let topology = ModelGraphTopology {
        arch_name: "spark2_5".to_string(),
        hidden_dim: 2048,
        num_heads: 8,
        num_kv_heads: 2,
        num_layers: 28,
        vocab_size: 131072,
        context_length: 1048576,
        head_dim: 256,
        ffn_dim: 6656,
        num_experts: 0,
    };
    let builder = XclbinBuilder::new(TargetHardware::Npu2Aie2p, topology);
    let pdi = vec![0x5Au8; 2048];
    let bytes = builder.generate_xclbin_bytes(&pdi, None);
    assert!(bytes.len() > 1000, "XCLBIN must contain packaged sections");
    assert_eq!(&bytes[..8], b"xclbin2\0");
    assert_eq!(&bytes[8..16], b"\x02\0\0\0npu2");
    assert_eq!(&bytes[64..], &pdi[..]);
    assert_eq!(builder.generate_xclbin_bytes(&pdi, Some(vec![1, 2])), vec![1, 2]);
    let custom = builder.with_pdi(vec![9]);
    assert_eq!(custom.generate_xclbin_bytes(&pdi, None)[64..], [9]);
}

#[test]
fn section_files_are_written_out() {
    let b = XclbinBuilder::new(TargetHardware::Npu1Aie2, topology("mixtral", 4096, 32, 8));
    let s = b.section_files();
    assert!(s.mem_topology.contains("\"m_sizeKB\": \"0x10000\",\n                \"m_tag\": \"SRAM\""));
    assert!(s.mem_topology.starts_with("{\n    \"mem_topology\": {\n"));
    assert!(s.mem_topology.ends_with("]\n    }\n}"));
    assert!(s.ip_layout.contains("MLIR_AIE:MLIRAIE"));
    assert!(s.connectivity.contains("\"m_count\": \"6\""));
    assert!(s.embedded_metadata.contains(
        "<extended-data subtype=\"1\" functional=\"0\" dpu_kernel_id=\"0x901\" arch=\"mixtral\" hidden_dim=\"4096\" num_heads=\"32\" num_kv_heads=\"8\" layers=\"32\" experts=\"8\" router_sram_pinned_bytes=\"2097152\" router_sram_layers=\"32\"/>"
    ));
    assert!(s.aie_partition.contains("\"name\": \"mixtral_npu1\""));
    assert!(s.aie_partition.contains("\"column_width\": \"5\""));
    assert_eq!(s.pdi_file_name, "38668b23-339b-4deb-a254-5b95c75af8d3.pdi");
    assert!(s.aie_partition.contains("\"file_name\": \"38668b23-339b-4deb-a254-5b95c75af8d3.pdi\""));
    let s = b.with_format(XclbinFormat::MimicBuiltin).section_files();
    assert!(s.mem_topology.contains("\"0xc000\""));
    assert!(s.embedded_metadata.contains("dpu_kernel_id=\"0x901\"/>"));
    assert!(s.aie_partition.contains("\"name\": \"\""));
}

#[test]
fn test_embed_custom_xclbin_into_q4nx() {
    let hyperparams = ModelHyperparameters {
        hidden_dim: 2048,
        num_heads: 8,
        num_kv_heads: 2,
        num_layers: 28,
        vocab_size: 131072,
        context_length: 4096,
    };
    let bare = Q4nxModel::create_container("spark2_5", hyperparams, None, &vec![0x42u8; 1024]);
    let ctx = at("test_bare_custom.q4nx", "test_bare_custom");
    let topology = ModelGraphTopology::from_q4nx(&ctx, &bare).unwrap();
    assert_eq!(topology.arch_name, "spark2_5");
    assert_eq!(topology.hidden_dim, 2048);
    assert_eq!(topology.head_dim, 256);
    assert_eq!(topology.ffn_dim, 5461);

    let builder = XclbinBuilder::new(TargetHardware::Npu2Aie2p, topology);
    let embedded = builder
        .build_embedded(
            &vec![7u8; 2048], None, "q4nx", &ctx, &bare, "unused.q4nx", Some("test_embedded_custom.q4nx"),
        )
        .unwrap();
    assert_eq!(embedded.path, "test_embedded_custom.q4nx");
    let model = Q4nxModel::open(&at("e.q4nx", "e"), &embedded.image).unwrap();
    assert!(model.has_embedded_xclbin());
    assert!(model.xclbin_bytes().unwrap().len() > 1000);
    assert_eq!(model.tensor_payload(), &vec![0x42u8; 1024][..]);
}

#[test]
fn embedding_goes_by_the_extension() {
    let ctx = at("m.bin", "m");
    let b = XclbinBuilder::new(TargetHardware::Npu2Aie2p, topology("m", 64, 1, 0));
    match b.build_embedded(b"X", None, "bin", &ctx, &[], "c", None) {
        Err(ContainerError::CorruptedHeader(s)) => {
            assert_eq!(s, "Invalid model extension: bin. Expected .gguf or .q4nx")
        }
        _ => panic!("expected an error"),
    }
    let mut gguf = b"GGUF".to_vec();
    gguf.extend_from_slice(&[3, 0, 0, 0]);
    gguf.extend_from_slice(&[0u8; 16]);
    let e = b
        .build_embedded(b"", Some(vec![5]), "GGUF", &at("q.gguf", "Qwen"), &gguf, "q.q4nx", None)
        .unwrap();
    assert_eq!(e.path, "q.q4nx");
    let model = Q4nxModel::open(&at("q.q4nx", "q"), &e.image).unwrap();
    assert_eq!(model.header.arch_name, "qwen2");
    assert_eq!(model.xclbin_bytes(), Some(&[5u8][..]));
    assert_eq!(model.header.hyperparams.vocab_size, 262144);
}

fn scan_file(pairs: &[(&str, u32)], arch: Option<&str>) -> Vec<u8> {
    let mut f = b"GGUF".to_vec();
    f.extend_from_slice(&3u32.to_le_bytes());
    f.extend_from_slice(&0u64.to_le_bytes());
    f.extend_from_slice(&50u64.to_le_bytes());
    if let Some(a) = arch {
        f.extend_from_slice(&20u64.to_le_bytes());
        f.extend_from_slice(b"general.architecture");
        f.extend_from_slice(&8u32.to_le_bytes());
        f.extend_from_slice(&(a.len() as u64).to_le_bytes());
        f.extend_from_slice(a.as_bytes());
    }
    for (k, v) in pairs {
        f.extend_from_slice(&(k.len() as u64).to_le_bytes());
        f.extend_from_slice(k.as_bytes());
        f.extend_from_slice(&4u32.to_le_bytes());
        f.extend_from_slice(&v.to_le_bytes());
    }
    f
}

#[test]
fn topologies_come_from_metadata_and_families() {
    let f = scan_file(
        &[("x.block_count", 7), ("x.embedding_length", 100), ("x.attention.head_count", 10), ("x.context_length", 9)],
        Some("mixtral"),
    );
    let t = ModelGraphTopology::from_gguf("Some-File", &f).unwrap();
    assert_eq!(t.arch_name, "mixtral");
    assert_eq!((t.num_layers, t.hidden_dim, t.num_heads, t.head_dim), (7, 100, 10, 10));
    assert_eq!((t.num_kv_heads, t.ffn_dim, t.context_length), (8, 11008, 9));
    assert_eq!((t.vocab_size, t.num_experts), (128000, 8));

    let empty = scan_file(&[], None);
    let t = ModelGraphTopology::from_gguf("Gemma-4-It", &empty).unwrap();
    assert_eq!(t.arch_name, "gemma4");
    assert_eq!((t.hidden_dim, t.num_layers, t.ffn_dim, t.vocab_size), (5120, 56, 24576, 262144));
    let t = ModelGraphTopology::from_gguf("cold_fusion", &empty).unwrap();
    assert_eq!((t.arch_name.as_str(), t.num_experts), ("qwen3_8", 64));
    let t = ModelGraphTopology::from_gguf("thing", &empty).unwrap();
    assert_eq!((t.arch_name.as_str(), t.head_dim), ("custom", 128));
    assert!(matches!(
        ModelGraphTopology::from_gguf("x", b"GG"),
        Err(ContainerError::Io(IoFault::UnexpectedEof))
    ));
    assert!(matches!(
        ModelGraphTopology::from_gguf("x", b"ABCD"),
        Err(ContainerError::InvalidMagic { .. })
    ));
}

#[test]
fn wide_containers_are_not_planned_for() {
    let hp = ModelHyperparameters { hidden_dim: u32::MAX, ..ModelHyperparameters::default() };
    let image = Q4nxModel::create_container("x", hp, None, &[]);
    match ModelGraphTopology::from_q4nx(&at("x.q4nx", "x"), &image) {
        Err(ContainerError::CorruptedHeader(s)) => {
            assert_eq!(s, "Hidden dimension exceeds the supported range")
        }
        _ => panic!("expected an error"),
    }
    let image = Q4nxModel::create_container("DeepSeek", ModelHyperparameters::default(), None, &[]);
    let t = ModelGraphTopology::from_q4nx(&at("x.q4nx", "x"), &image).unwrap();
    assert_eq!((t.num_experts, t.head_dim), (256, 128));
}

#[test]
fn synthesizer_arguments_are_read() {
    let args: Vec<String> = ["apu-synth", "m.gguf", "o.xclbin"].iter().map(|s| s.to_string()).collect();
    assert!(parse_synth_args(&args[..2]).is_none());
    let r = parse_synth_args(&args).unwrap();
    assert_eq!((r.model_path.as_str(), r.output_path.as_str()), ("m.gguf", "o.xclbin"));
    assert_eq!(r.format, XclbinFormat::Enhanced);
    let mut more = args.clone();
    more.push("MIMIC".to_string());
    assert_eq!(parse_synth_args(&more).unwrap().format, XclbinFormat::MimicBuiltin);

    let image = Q4nxModel::create_container("llama", ModelHyperparameters::default(), None, &[]);
    assert_eq!(read_topology("x", &at("x", "x"), &image).unwrap().arch_name, "llama");
    assert_eq!(read_topology("phi", &at("x", "x"), &scan_file(&[], None)).unwrap().arch_name, "phi3");
    assert!(read_topology("x", &at("x", "x"), b"none").is_err());
}
