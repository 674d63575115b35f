use zero_copy_model_runner::container::converter::{
    convert_gguf_to_q4nx, get_q4nx_destination_path, gguf_metadata, guess_metadata,
    is_quantization_supported, load_or_convert_model, parse_gguf_metadata, synthesis_topology,
    CachedContainer, LoadOutcome, ModelFiles,
};
use zero_copy_model_runner::container::{
    extract_json_str, extract_json_u32, guess_arch, ConfigFile, ContainerError, FileContext, IoFault,
    ModelHyperparameters, Q4nxModel,
};

fn at(path: &str, stem: &str) -> FileContext {
    FileContext {
        path: path.to_string(),
        stem: stem.to_string(),
        config: ConfigFile::Absent,
        layer_xclbin: None,
    }
}

fn llama_params() -> ModelHyperparameters {
    ModelHyperparameters {
        hidden_dim: 4096,
        num_heads: 32,
        num_kv_heads: 8,
        num_layers: 32,
        vocab_size: 128000,
        context_length: 8192,
    }
}

#[test]
fn test_q4nx_container_roundtrip_with_embedded_xclbin() {
    let arch = "llama";
    let hyperparams = llama_params();
    let dummy_xclbin = b"\x7FELF_XCLBIN_MOCK_HARDWARE_GRAPH_DATA";
    let dummy_weights = vec![0xABu8; 4096];

    let image = Q4nxModel::create_container(arch, hyperparams, Some(dummy_xclbin), &dummy_weights);
    let model = Q4nxModel::open(&at("test_model_with_xclbin.q4nx", "test_model_with_xclbin"), &image)
        .expect("Failed to open container");

    assert_eq!(model.header.arch_name, "llama");
    assert_eq!(model.header.hyperparams.hidden_dim, 4096);
    assert_eq!(model.header.hyperparams.num_layers, 32);
    assert_eq!(model.header.payload_offset % 64, 0);
    assert!(model.has_embedded_xclbin());
    assert_eq!(model.xclbin_bytes(), Some(&dummy_xclbin[..]));
    assert_eq!(model.tensor_payload(), &dummy_weights[..]);
    assert_eq!(model.header.hyperparams, llama_params());
}

#[test]
fn test_q4nx_bare_stamping_with_xclbin() {
    let hyperparams = ModelHyperparameters::default();
    let dummy_weights = vec![0x42u8; 512];
    let bare = Q4nxModel::create_container("qwen2", hyperparams, None, &dummy_weights);
    let mut model = Q4nxModel::open(&at("bare.q4nx", "bare"), &bare).expect("open bare");
    assert!(!model.has_embedded_xclbin());
    assert_eq!(model.xclbin_bytes(), None);

    let resolved_xclbin = b"RESOLVED_AIE2P_HARDWARE_GRAPH";
    let stamped = model
        .stamp_xclbin(resolved_xclbin, Some("stamped.q4nx"), &bare)
        .expect("Failed to stamp XCLBIN");
    assert_eq!(model.file_path, "stamped.q4nx");

    let stamped_model = Q4nxModel::open(&at("stamped.q4nx", "stamped"), &stamped).expect("open stamped");
    assert!(stamped_model.has_embedded_xclbin());
    assert_eq!(stamped_model.xclbin_bytes(), Some(&resolved_xclbin[..]));
    assert_eq!(stamped_model.tensor_payload(), &dummy_weights[..]);
    assert_eq!(stamped_model.header.arch_name, "qwen2");
}

#[test]
fn xclbins_are_replaced_any_number_of_times() {
    let payload = [1u8, 2, 3, 4];
    let mut file = Q4nxModel::create_container("qwen2", llama_params(), None, &payload);
    let mut model = Q4nxModel::open(&at("m.q4nx", "m"), &file).unwrap();
    let graphs: [&[u8]; 4] = [&[9; 4], &[7], &[5; 200], &[3; 64]];
    for graph in graphs {
        file = model.stamp_xclbin(graph, None, &file).unwrap();
        let opened = Q4nxModel::open(&at("m.q4nx", "m"), &file).unwrap();
        assert_eq!(opened.xclbin_bytes(), Some(graph));
        assert_eq!(opened.tensor_payload(), &payload[..]);
        assert_eq!(model.xclbin_bytes(), opened.xclbin_bytes());
        assert_eq!(model.tensor_payload(), opened.tensor_payload());
        assert_eq!(model.header.xclbin_offset, opened.header.xclbin_offset);
        assert_eq!(model.header.xclbin_size, opened.header.xclbin_size);
        assert_eq!(model.header.payload_offset, opened.header.payload_offset);
        assert_eq!(model.header.payload_size, opened.header.payload_size);
    }
    assert_eq!(
        file,
        Q4nxModel::create_container("qwen2", llama_params(), Some(&[3; 64]), &payload)
    );
}

#[test]
fn stamped_safetensors_become_containers() {
    let mut file = 8u64.to_le_bytes().to_vec();
    file.extend_from_slice(b"{      }");
    file.extend_from_slice(&[6u8; 300]);
    let mut model = Q4nxModel::open(&at("m.q4nx", "qwen"), &file).unwrap();
    assert_eq!(model.header.version, 0);
    assert_eq!(model.header.payload_offset, 16);
    let once = model.stamp_xclbin(&[9; 70], None, &file).unwrap();
    assert_eq!((model.header.version, model.header.tensor_table_offset), (1, 0));
    let twice = model.stamp_xclbin(&[8; 3], None, &once).unwrap();
    let opened = Q4nxModel::open(&at("m.q4nx", "qwen"), &twice).unwrap();
    assert_eq!(opened.header.arch_name, "qwen2");
    assert_eq!(opened.tensor_payload(), &[6u8; 300][..]);
}

#[test]
fn stamping_in_place_goes_through_a_temporary_file() {
    let bare = Q4nxModel::create_container("qwen2", llama_params(), None, &[1, 2, 3]);
    let model = Q4nxModel::open(&at("m.q4nx", "m"), &bare).unwrap();
    let plan = model.plan_stamp(b"X", None).unwrap();
    assert_eq!(plan.out_path, "m.q4nx");
    assert_eq!(plan.write_path, "m.q4nx.tmp_stamp");
    assert!(plan.rename);
    assert_eq!(plan.copy_from, 256);
    assert_eq!(plan.prefix.len(), 320);
    let elsewhere = model.plan_stamp(b"X", Some("n.q4nx")).unwrap();
    assert_eq!(elsewhere.write_path, "n.q4nx");
    assert!(!elsewhere.rename);
}

#[test]
fn header_layout_is_as_documented() {
    let image = Q4nxModel::create_container("ab", llama_params(), Some(&[9u8; 65]), &[7u8; 10]);
    assert_eq!(&image[0..4], b"Q4NX");
    assert_eq!(&image[4..8], &1u32.to_le_bytes());
    assert_eq!(&image[8..11], b"ab\0");
    assert_eq!(&image[40..44], &4096u32.to_le_bytes());
    assert_eq!(&image[64..72], &256u64.to_le_bytes());
    assert_eq!(&image[72..80], &65u64.to_le_bytes());
    assert_eq!(&image[96..104], &384u64.to_le_bytes());
    assert_eq!(&image[104..112], &10u64.to_le_bytes());
    assert_eq!(image.len(), 394);
    assert!(image[321..384].iter().all(|&b| b == 0));
}

#[test]
fn long_architecture_names_are_cut() {
    let long = "a".repeat(40);
    let image = Q4nxModel::create_container(&long, llama_params(), None, &[]);
    let model = Q4nxModel::open(&at("l.q4nx", "l"), &image).unwrap();
    assert_eq!(model.header.arch_name, "a".repeat(31));
}

#[test]
fn damaged_containers_are_refused() {
    let image = Q4nxModel::create_container("llama", llama_params(), Some(b"XCL"), &[5u8; 128]);
    let ctx = at("d.q4nx", "d");
    assert!(matches!(
        Q4nxModel::open(&ctx, &image[..100]),
        Err(ContainerError::Io(IoFault::UnexpectedEof))
    ));
    let mut magic = image.clone();
    magic[0] = b'X';
    match Q4nxModel::open(&ctx, &magic) {
        Err(ContainerError::InvalidMagic { expected, found }) => {
            assert_eq!(&expected, b"Q4NX");
            assert_eq!(&found, b"X4NX");
        }
        _ => panic!("expected InvalidMagic"),
    }
    let mut version = image.clone();
    version[4] = 2;
    assert!(matches!(
        Q4nxModel::open(&ctx, &version),
        Err(ContainerError::UnsupportedVersion(2))
    ));
    let mut offset = image.clone();
    offset[96] = 65;
    offset[97] = 0;
    assert!(matches!(
        Q4nxModel::open(&ctx, &offset),
        Err(ContainerError::AlignmentError { offset: 65 })
    ));
    assert!(matches!(
        Q4nxModel::open(&ctx, &image[..300]),
        Err(ContainerError::Io(IoFault::UnexpectedEof))
    ));
    let mut far = image.clone();
    far[103] = 0x80;
    assert!(matches!(
        Q4nxModel::open(&ctx, &far),
        Err(ContainerError::Io(IoFault::InvalidSeek))
    ));
}

#[test]
fn error_messages_read_well() {
    let e = ContainerError::InvalidMagic { expected: *b"Q4NX", found: [1, 20, 255, 0] };
    assert_eq!(
        e.message(),
        "Invalid Q4NX magic bytes: expected [81, 52, 78, 88], found [1, 20, 255, 0]"
    );
    assert_eq!(ContainerError::UnsupportedVersion(7).message(), "Unsupported Q4NX container version: 7");
    assert_eq!(
        ContainerError::AlignmentError { offset: 65 }.message(),
        "Buffer alignment error: payload must be 64-byte aligned (offset: 65)"
    );
    assert_eq!(
        ContainerError::Io(IoFault::UnexpectedEof).message(),
        "I/O error: failed to fill whole buffer"
    );
    let missing = IoFault::Os { code: 2, text: "No such file or directory".to_string() };
    assert_eq!(
        ContainerError::Io(missing).message(),
        "I/O error: No such file or directory (os error 2)"
    );
    let odd = IoFault::Os { code: -3, text: "Unknown error -3".to_string() };
    assert_eq!(odd.message(), "Unknown error -3 (os error -3)");
}

fn safetensors(header: &str, payload: &[u8]) -> Vec<u8> {
    let mut file = (header.len() as u64).to_le_bytes().to_vec();
    file.extend_from_slice(header.as_bytes());
    file.extend_from_slice(payload);
    while file.len() < 256 {
        file.push(0);
    }
    file
}

#[test]
fn safetensors_containers_use_their_companions() {
    let file = safetensors("{\"qwen.weight\": 1}", &[3u8; 300]);
    let mut ctx = at("dir/model.q4nx", "Model");
    let model = Q4nxModel::open(&ctx, &file).unwrap();
    assert_eq!(model.header.arch_name, "qwen2");
    assert_eq!(model.header.version, 0);
    assert_eq!(model.header.hyperparams.num_kv_heads, 8);
    assert_eq!(model.header.payload_offset, 26);
    assert_eq!(model.tensor_payload(), &file[26..]);
    assert!(!model.has_embedded_xclbin());

    ctx.layer_xclbin = Some(vec![1, 2, 3]);
    ctx.config = ConfigFile::Text(
        "{ \"model_type\": \"gemma3\", \"hidden_size\": 2560, \"num_attention_heads\" : 8 }".to_string(),
    );
    let model = Q4nxModel::open(&ctx, &file).unwrap();
    assert_eq!(model.header.arch_name, "gemma3");
    assert_eq!(model.header.hyperparams.hidden_dim, 2560);
    assert_eq!(model.header.hyperparams.num_heads, 8);
    assert_eq!(model.header.hyperparams.num_kv_heads, 8);
    assert_eq!(model.header.hyperparams.num_layers, 32);
    assert!(model.has_embedded_xclbin());

    ctx.config = ConfigFile::Unreadable;
    let model = Q4nxModel::open(&ctx, &file).unwrap();
    assert_eq!(model.header.arch_name, "llama");
    assert_eq!(model.header.hyperparams, ModelHyperparameters::default());
}

#[test]
fn upper_case_stems_are_recognized() {
    let file = safetensors("{\"w\": 1}", &[0u8; 300]);
    let model = Q4nxModel::open(&at("GEMMA.q4nx", "GEMMA"), &file).unwrap();
    assert_eq!(model.header.arch_name, "gemma2");
    assert_eq!(guess_arch("gemma", ""), "gemma2");
    assert_eq!(guess_arch("x", "y"), "llama");
}

#[test]
fn json_values_are_extracted() {
    let cfg = "{\"a\": 12, \"b\" :  \"text\", \"big\": 4294967296, \"neg\": -1, \"n\":007}";
    assert_eq!(extract_json_u32(cfg, "a"), Some(12));
    assert_eq!(extract_json_u32(cfg, "n"), Some(7));
    assert_eq!(extract_json_u32(cfg, "big"), None);
    assert_eq!(extract_json_u32(cfg, "neg"), None);
    assert_eq!(extract_json_u32(cfg, "missing"), None);
    assert_eq!(extract_json_u32("\"a\"", "a"), None);
    assert_eq!(extract_json_str(cfg, "b"), Some("text".to_string()));
    assert_eq!(extract_json_str("{\"b\": 5}", "b"), None);
}

fn mock_gguf() -> Vec<u8> {
    let mut f = b"GGUF".to_vec();
    f.extend_from_slice(&3u32.to_le_bytes());
    f.extend_from_slice(&100u64.to_le_bytes());
    f.extend_from_slice(&10u64.to_le_bytes());
    f.extend_from_slice(&vec![0x42u8; 1024]);
    f
}

#[test]
fn test_gguf_to_q4nx_conversion_and_disk_caching() {
    let gguf = mock_gguf();
    let files = ModelFiles {
        extension: "gguf",
        ctx: at("Meta-Llama-3.1-8B-Instruct.gguf", "Meta-Llama-3.1-8B-Instruct"),
        bytes: &gguf,
        target_path: "Meta-Llama-3.1-8B-Instruct.q4nx",
        cached: None,
    };
    assert!(matches!(load_or_convert_model(&files, None), Ok(LoadOutcome::NeedsXclbin)));
    let topo = synthesis_topology(&files).expect("topology");
    assert_eq!(topo.arch_name, "llama");

    let image = match load_or_convert_model(&files, Some(b"XCLBIN")) {
        Ok(LoadOutcome::Written { model, path, image }) => {
            assert!(model.has_embedded_xclbin());
            assert_eq!(path, "Meta-Llama-3.1-8B-Instruct.q4nx");
            image
        }
        _ => panic!("first load must convert"),
    };

    let again = ModelFiles {
        extension: "GGUF",
        ctx: at("Meta-Llama-3.1-8B-Instruct.gguf", "Meta-Llama-3.1-8B-Instruct"),
        bytes: &gguf,
        target_path: "Meta-Llama-3.1-8B-Instruct.q4nx",
        cached: Some(CachedContainer { ctx: at("Meta-Llama-3.1-8B-Instruct.q4nx", "x"), bytes: &image }),
    };
    match load_or_convert_model(&again, None) {
        Ok(LoadOutcome::Ready(cached_model)) => {
            assert!(cached_model.has_embedded_xclbin());
            assert_eq!(cached_model.header.payload_offset % 64, 0);
            assert_eq!(cached_model.xclbin_bytes(), Some(&b"XCLBIN"[..]));
        }
        _ => panic!("second load must come from the copy"),
    }
}

#[test]
fn bare_containers_are_stamped_on_load() {
    let bare = Q4nxModel::create_container("llama", llama_params(), None, &[1u8; 64]);
    let files = ModelFiles {
        extension: "Q4NX",
        ctx: at("bare.q4nx", "bare"),
        bytes: &bare,
        target_path: "",
        cached: None,
    };
    assert!(matches!(load_or_convert_model(&files, None), Ok(LoadOutcome::NeedsXclbin)));
    match load_or_convert_model(&files, Some(b"GRAPH")) {
        Ok(LoadOutcome::Written { model, path, image }) => {
            assert_eq!(path, "bare.q4nx");
            assert_eq!(model.xclbin_bytes(), Some(&b"GRAPH"[..]));
            let reread = Q4nxModel::open(&at("bare.q4nx", "bare"), &image).unwrap();
            assert_eq!(reread.xclbin_bytes(), Some(&b"GRAPH"[..]));
            assert_eq!(reread.tensor_payload(), &[1u8; 64]);
        }
        _ => panic!("a bare container must be stamped"),
    }
}

#[test]
fn other_files_are_no_models() {
    let files = ModelFiles {
        extension: "bin",
        ctx: at("m.bin", "m"),
        bytes: &[],
        target_path: "",
        cached: None,
    };
    match load_or_convert_model(&files, None) {
        Err(ContainerError::CorruptedHeader(s)) => {
            assert_eq!(s, "Unsupported model file extension: 'bin'. Expected .q4nx or .gguf")
        }
        _ => panic!("expected an error"),
    }
    match synthesis_topology(&files) {
        Err(ContainerError::Io(IoFault::InvalidData(s))) => {
            assert_eq!(s, "I/O error: failed to fill whole buffer")
        }
        _ => panic!("expected invalid data"),
    }
}

#[test]
fn conversion_checks_and_pads() {
    match parse_gguf_metadata("x", b"GGML0000") {
        Err(ContainerError::Io(IoFault::InvalidData(s))) => {
            assert_eq!(s, "Invalid GGUF magic bytes: [71, 71, 77, 76]")
        }
        _ => panic!("expected invalid data"),
    }
    assert!(matches!(
        convert_gguf_to_q4nx("x", b"GGUF", b""),
        Err(ContainerError::Io(IoFault::UnexpectedEof))
    ));
    let image = convert_gguf_to_q4nx("spark", &mock_gguf(), b"").unwrap();
    let model = Q4nxModel::open(&at("s.q4nx", "s"), &image).unwrap();
    assert_eq!(model.header.arch_name, "spark2_5");
    assert_eq!(model.header.hyperparams.context_length, 1048576);
    assert_eq!(model.header.payload_size, 960);
    assert!(!model.has_embedded_xclbin());

    let mut short = mock_gguf();
    short.truncate(138);
    let image = convert_gguf_to_q4nx("x", &short, b"").unwrap();
    let model = Q4nxModel::open(&at("s.q4nx", "s"), &image).unwrap();
    assert_eq!(model.header.payload_size, 64);
    assert_eq!(model.tensor_payload()[9], 0x42);
    assert_eq!(model.tensor_payload()[10], 0xEE);

    short.truncate(100);
    let image = convert_gguf_to_q4nx("x", &short, b"").unwrap();
    let model = Q4nxModel::open(&at("s.q4nx", "s"), &image).unwrap();
    assert_eq!(model.tensor_payload(), &[0xEEu8; 4096][..]);
}

#[test]
fn names_alone_are_guessed() {
    let (arch, hp) = guess_metadata("tiny-1b");
    assert_eq!(arch, "llama");
    assert_eq!(hp.hidden_dim, 2048);
    assert_eq!(hp.vocab_size, 128000);
    let (arch, hp) = guess_metadata("qwen2-7");
    assert_eq!(arch, "qwen2");
    assert_eq!(hp.vocab_size, 262144);
    assert_eq!(guess_metadata("spark").1.vocab_size, 131072);
    let (arch, hp) = parse_gguf_metadata("Spark", &mock_gguf()).unwrap();
    assert_eq!((arch.as_str(), hp.context_length), ("spark2_5", 1048576));
    let (arch, hp) = gguf_metadata("Phi-3B", &mock_gguf(), None).unwrap();
    assert_eq!((arch.as_str(), hp.num_heads), ("phi3", 16));
}

#[test]
fn converted_models_are_kept_where_they_can_be_written() {
    assert_eq!(get_q4nx_destination_path("d/m.q4nx", true, true, Some("c/m.q4nx")), "d/m.q4nx");
    assert_eq!(get_q4nx_destination_path("d/m.q4nx", true, false, Some("c/m.q4nx")), "c/m.q4nx");
    assert_eq!(get_q4nx_destination_path("d/m.q4nx", true, false, None), "d/m.q4nx");
    assert_eq!(get_q4nx_destination_path("m.q4nx", false, false, Some("c")), "m.q4nx");
}

#[test]
fn test_billm_and_q1_quantization_support() {
    assert!(is_quantization_supported("Q4_0"));
    assert!(is_quantization_supported("Q4_K_M"));
    assert!(is_quantization_supported("IQ4_NL"));
    assert!(is_quantization_supported("Q8_0"));
    assert!(is_quantization_supported("F16"));
    assert!(is_quantization_supported("BF16"));

    assert!(is_quantization_supported("BILLM"));
    assert!(is_quantization_supported("Q1_BILLM"));
    assert!(is_quantization_supported("Q1_0"));
    assert!(is_quantization_supported("Q1_0_G128"));

    assert!(!is_quantization_supported("IQ1_S"));
    assert!(!is_quantization_supported("Q2_K"));
    assert!(!is_quantization_supported("IQ3_S"));

    assert!(is_quantization_supported("q4_k_m"));
    assert!(is_quantization_supported("billm"));
}
