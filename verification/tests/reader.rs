use zero_copy_model_runner::container::reader::{
    bpe_char_to_byte, byte_to_bpe_char, f16_to_f32, GgufModelReader, ModelTokenizer, TensorDType,
    TensorView,
};
use zero_copy_model_runner::container::tensor::{RowTerms, Weight};
use zero_copy_model_runner::container::{ContainerError, ModelHyperparameters};
use zero_copy_model_runner::model_cli::{base_quantization, gguf_info, has_iq4_tensor};

fn number(w: &Weight) -> f32 {
    match *w {
        Weight::Single(bits) => f32::from_bits(bits),
        Weight::Scaled { q, scale } => q as f32 * f32::from_bits(scale),
    }
}

fn dot(terms: RowTerms, vec: &[f32]) -> f32 {
    match terms {
        RowTerms::Zero => 0.0,
        RowTerms::Plain(row) => {
            let mut sum = 0.0f32;
            for (i, bits) in row.iter().enumerate() {
                sum += f32::from_bits(*bits) * vec[i];
            }
            sum
        }
        RowTerms::Blocks(blocks) => {
            let mut sum = 0.0f32;
            for block in blocks.iter() {
                let mut part = 0.0f32;
                for (col, q) in block.terms.iter() {
                    part += *q as f32 * vec[*col];
                }
                sum += part * f32::from_bits(block.scale);
            }
            sum
        }
    }
}

#[test]
fn test_f16_to_f32_precision() {
    assert_eq!(f32::from_bits(f16_to_f32(0x0000)), 0.0);
    assert_eq!(f32::from_bits(f16_to_f32(0x3C00)), 1.0);
    assert_eq!(f32::from_bits(f16_to_f32(0x4000)), 2.0);
    assert_eq!(f32::from_bits(f16_to_f32(0xC000)), -2.0);
}

#[test]
fn small_and_special_halves_are_converted() {
    assert_eq!(f32::from_bits(f16_to_f32(0x0001)), 2.0f32.powi(-24));
    assert_eq!(f32::from_bits(f16_to_f32(0x0200)), 2.0f32.powi(-15));
    assert_eq!(f32::from_bits(f16_to_f32(0x83FF)), -1023.0 * 2.0f32.powi(-24));
    assert_eq!(f32::from_bits(f16_to_f32(0x7BFF)), 65504.0);
    assert_eq!(f32::from_bits(f16_to_f32(0x7C00)), f32::INFINITY);
    assert_eq!(f32::from_bits(f16_to_f32(0xFC00)), f32::NEG_INFINITY);
    assert!(f32::from_bits(f16_to_f32(0x7E00)).is_nan());
    assert_eq!(f16_to_f32(0x8000), 0x8000_0000);
}

#[test]
fn test_quantization_policy_validation() {
    assert!(TensorDType::Q4_0.validate_apu_support("blk.0.attn_q.weight").is_ok());
    assert!(TensorDType::Q4_K.validate_apu_support("blk.0.attn_k.weight").is_ok());
    assert!(TensorDType::IQ4_NL.validate_apu_support("blk.0.ffn_up.weight").is_ok());
    assert!(TensorDType::Q8_0.validate_apu_support("output.weight").is_ok());
    assert!(TensorDType::F16.validate_apu_support("token_embd.weight").is_ok());
    assert!(TensorDType::BF16.validate_apu_support("norm.weight").is_ok());

    let sub4_quants = [
        TensorDType::IQ1_S,
        TensorDType::IQ1_M,
        TensorDType::IQ2_XXS,
        TensorDType::IQ2_XS,
        TensorDType::IQ2_S,
        TensorDType::Q2_K,
        TensorDType::IQ3_XXS,
        TensorDType::IQ3_S,
        TensorDType::Q3_K,
    ];

    for quant in sub4_quants {
        let res = quant.validate_apu_support("test_tensor");
        assert!(res.is_err(), "Expected rejection for sub-4-bit quant {:?}", quant);
        let err_msg = res.unwrap_err().message();
        assert!(
            err_msg.contains("Sub-4-bit quantizations"),
            "Error message must be descriptive: {}",
            err_msg
        );
        assert!(err_msg.contains(&format!("'{:?}'", quant)));
    }
}

#[test]
fn type_numbers_are_known() {
    assert_eq!(TensorDType::from(0), TensorDType::F32);
    assert_eq!(TensorDType::from(20), TensorDType::IQ4_NL);
    assert_eq!(TensorDType::from(42), TensorDType::BILLM);
    assert_eq!(TensorDType::from(5), TensorDType::Unknown(5));
    assert_eq!(TensorDType::Unknown(77).name(), "Unknown(77)");
    assert_eq!(TensorDType::Unknown(77).name(), format!("{:?}", TensorDType::Unknown(77)));
    assert!(!TensorDType::Unknown(77).is_supported_on_apu());
}

#[test]
fn test_tensordtype_apu_support() {
    assert!(TensorDType::Q1_0.is_supported_on_apu());
    assert!(TensorDType::BILLM.is_supported_on_apu());
    assert!(TensorDType::Q4_0.is_supported_on_apu());
    assert!(TensorDType::Q8_0.is_supported_on_apu());
    assert!(!TensorDType::IQ1_S.is_supported_on_apu());
    assert!(!TensorDType::Q2_K.is_supported_on_apu());
}

#[test]
fn test_iq4_nl_dequantize_and_dot_product() {
    let mut block = vec![0u8; 18];
    block[0] = 0x00;
    block[1] = 0x3C;
    for j in 0..16 {
        block[2 + j] = 0x98;
    }
    let shape = [32, 1];
    let view = TensorView { name: "test_iq4_nl", shape: &shape, dtype: TensorDType::IQ4_NL, data: &block };

    let weights = view.dequantize_to_f32(32).expect("dequantize_to_f32");
    let dequant: Vec<f32> = weights.iter().map(number).collect();
    assert_eq!(dequant.len(), 32);
    for i in 0..16 {
        assert_eq!(dequant[i], 1.0);
    }
    for i in 16..32 {
        assert_eq!(dequant[i], 13.0);
    }

    let vec_ones = vec![1.0f32; 32];
    let result = dot(view.dot_product_row(0, vec_ones.len()), &vec_ones);
    let expected_dot = 16.0 * 1.0 + 16.0 * 13.0;
    assert_eq!(result, expected_dot);
}

#[test]
fn test_billm_dot_product_computation() {
    let cols = 128;
    let rows = 1;
    let shape = [cols, rows];

    let mut data = Vec::new();
    data.extend_from_slice(&0x3C00u16.to_le_bytes());
    data.extend_from_slice(&[0xFFu8; 16]);
    let tensor = TensorView { name: "test.weight", shape: &shape, dtype: TensorDType::BILLM, data: &data };
    let in_vec = vec![1.0f32; cols];
    let result = dot(tensor.dot_product_row(0, in_vec.len()), &in_vec);
    assert!((result - 128.0).abs() < 1e-3, "Expected dot product 128.0, got {}", result);

    let mut data_alt = Vec::new();
    data_alt.extend_from_slice(&0x3C00u16.to_le_bytes());
    data_alt.extend_from_slice(&[0xAAu8; 16]);
    let tensor_alt =
        TensorView { name: "test_alt.weight", shape: &shape, dtype: TensorDType::BILLM, data: &data_alt };
    let result_alt = dot(tensor_alt.dot_product_row(0, in_vec.len()), &in_vec);
    assert!(result_alt.abs() < 1e-3, "Expected dot product 0.0, got {}", result_alt);

    let picked = tensor_alt.dot_product_row(0, in_vec.len());
    match picked {
        RowTerms::Blocks(b) => {
            assert_eq!(b[0].terms[0], (0, -1));
            assert_eq!(b[0].terms[1], (1, 1));
        }
        _ => panic!("expected blocks"),
    }
}

#[test]
fn other_types_are_expanded() {
    let mut q8 = 0x4000u16.to_le_bytes().to_vec();
    for i in 0..32u8 {
        q8.push(i.wrapping_sub(16));
    }
    let shape = [30, 1];
    let view = TensorView { name: "q8", shape: &shape, dtype: TensorDType::Q8_0, data: &q8 };
    let w: Vec<f32> = view.dequantize_to_f32(40).unwrap().iter().map(number).collect();
    assert_eq!(w.len(), 30);
    assert_eq!(w[0], -32.0);
    assert_eq!(w[29], 26.0);
    let ones = vec![1.0f32; 30];
    let sum: f32 = w.iter().sum();
    assert_eq!(dot(view.dot_product_row(0, 30), &ones), sum);

    let mut q4 = 0x3C00u16.to_le_bytes().to_vec();
    q4.extend_from_slice(&[0x1Fu8; 16]);
    let shape = [32, 1];
    let view = TensorView { name: "q4", shape: &shape, dtype: TensorDType::Q4_0, data: &q4 };
    let w: Vec<f32> = view.dequantize_to_f32(32).unwrap().iter().map(number).collect();
    assert_eq!(w[0], 7.0);
    assert_eq!(w[16], -7.0);

    let mut f32s = Vec::new();
    for v in [1.5f32, -2.0, 3.0, 4.0] {
        f32s.extend_from_slice(&v.to_le_bytes());
    }
    let shape = [2, 2];
    let view = TensorView { name: "f32", shape: &shape, dtype: TensorDType::F32, data: &f32s };
    assert!(view.has_row(1, 2));
    assert!(view.has_row(2, 2));
    assert_eq!(dot(view.dot_product_row(1, 2), &[1.0, 10.0]), 43.0);
    assert_eq!(dot(view.dot_product_row(2, 2), &[1.0, 10.0]), 0.0);
    assert_eq!(dot(view.dot_product_row(0, 1), &[1.0]), 0.0);

    let bf = [0x80u8, 0x3F, 0x00, 0x40];
    let shape = [2];
    let view = TensorView { name: "bf16", shape: &shape, dtype: TensorDType::BF16, data: &bf };
    let w: Vec<f32> = view.dequantize_to_f32(2).unwrap().iter().map(number).collect();
    assert_eq!(w, vec![1.0, 2.0]);
    let view = TensorView { name: "f16", shape: &shape, dtype: TensorDType::F16, data: &[0x00, 0x3C, 0x00, 0xC0] };
    let w: Vec<f32> = view.dequantize_to_f32(2).unwrap().iter().map(number).collect();
    assert_eq!(w, vec![1.0, -2.0]);
}

#[test]
fn expansion_is_refused_with_reasons() {
    let shape = [4];
    let data = [0u8; 16];
    let view = TensorView { name: "t", shape: &shape, dtype: TensorDType::F32, data: &data };
    assert_eq!(view.element_count(), 4);
    match view.dequantize_to_f32(3) {
        Err(ContainerError::CorruptedHeader(s)) => assert_eq!(s, "Output buffer too small: 3 < 4"),
        _ => panic!("expected an error"),
    }
    let view = TensorView { name: "t", shape: &shape, dtype: TensorDType::Q6_K, data: &data };
    match view.dequantize_to_f32(4) {
        Err(ContainerError::CorruptedHeader(s)) => {
            assert_eq!(s, "Unsupported dequantization format for tensor 't': Q6_K")
        }
        _ => panic!("expected an error"),
    }
    let view = TensorView { name: "t", shape: &[], dtype: TensorDType::F32, data: &data };
    assert_eq!(view.element_count(), 0);
}

struct Gguf {
    bytes: Vec<u8>,
}

impl Gguf {
    fn new(tensors: u64, pairs: u64) -> Gguf {
        let mut bytes = b"GGUF".to_vec();
        bytes.extend_from_slice(&3u32.to_le_bytes());
        bytes.extend_from_slice(&tensors.to_le_bytes());
        bytes.extend_from_slice(&pairs.to_le_bytes());
        Gguf { bytes }
    }

    fn text(&mut self, s: &str) {
        self.bytes.extend_from_slice(&(s.len() as u64).to_le_bytes());
        self.bytes.extend_from_slice(s.as_bytes());
    }

    fn key(&mut self, s: &str, ty: u32) {
        self.text(s);
        self.bytes.extend_from_slice(&ty.to_le_bytes());
    }

    fn number(&mut self, s: &str, v: u32) {
        self.key(s, 4);
        self.bytes.extend_from_slice(&v.to_le_bytes());
    }

    fn string(&mut self, s: &str, v: &str) {
        self.key(s, 8);
        self.text(v);
    }

    fn tensor(&mut self, name: &str, dims: &[u64], dtype: u32, offset: u64) {
        self.text(name);
        self.bytes.extend_from_slice(&(dims.len() as u32).to_le_bytes());
        for d in dims {
            self.bytes.extend_from_slice(&d.to_le_bytes());
        }
        self.bytes.extend_from_slice(&dtype.to_le_bytes());
        self.bytes.extend_from_slice(&offset.to_le_bytes());
    }
}

fn sample_gguf() -> Vec<u8> {
    let mut g = Gguf::new(2, 8);
    g.string("general.architecture", "qwen2");
    g.number("qwen2.embedding_length", 64);
    g.number("qwen2.block_count", 3);
    g.number("qwen2.attention.head_count", 4);
    g.number("qwen2.attention.head_count_kv", 2);
    g.number("tokenizer.ggml.eos_token_id", 5);
    g.key("tokenizer.ggml.scores", 9);
    g.bytes.extend_from_slice(&6u32.to_le_bytes());
    g.bytes.extend_from_slice(&2u64.to_le_bytes());
    g.bytes.extend_from_slice(&[0u8; 8]);
    g.key("tokenizer.ggml.tokens", 9);
    g.bytes.extend_from_slice(&8u32.to_le_bytes());
    g.bytes.extend_from_slice(&4u64.to_le_bytes());
    for t in ["he", "hello", "<0x21>", "Ġthe"] {
        g.text(t);
    }
    g.tensor("w", &[2, 2], 0, 0);
    g.tensor("v", &[32], 20, 32);
    while g.bytes.len() % 32 != 0 {
        g.bytes.push(0);
    }
    for v in [1.0f32, 2.0, 3.0, 4.0] {
        g.bytes.extend_from_slice(&v.to_le_bytes());
    }
    g.bytes.extend_from_slice(&[0u8; 16]);
    g.bytes.extend_from_slice(&[0x00, 0x3C]);
    g.bytes.extend_from_slice(&[0x88; 16]);
    g.bytes
}

#[test]
fn gguf_files_are_read() {
    let file = sample_gguf();
    let reader = GgufModelReader::open(&file).expect("open");
    assert_eq!(reader.arch_name, "qwen2");
    assert_eq!(
        reader.hyperparams,
        ModelHyperparameters {
            hidden_dim: 64,
            num_heads: 4,
            num_kv_heads: 2,
            num_layers: 3,
            vocab_size: 4,
            context_length: 8192,
        }
    );
    assert_eq!(reader.tensor_count(), 2);
    assert_eq!(reader.data_offset % 32, 0);
    assert_eq!(reader.tokenizer.eos_token_id, 5);
    assert_eq!(reader.tokenizer.bos_token_id, 1);
    assert_eq!(reader.tokenizer.tokens.len(), 4);
    let w = reader.get_tensor("w").expect("w");
    assert_eq!(w.shape, &[2, 2]);
    let values: Vec<f32> = w.dequantize_to_f32(4).unwrap().iter().map(number).collect();
    assert_eq!(values, vec![1.0, 2.0, 3.0, 4.0]);
    let v = reader.get_tensor("v").expect("v");
    assert_eq!(v.data.len(), 18);
    assert!(reader.get_tensor("none").is_none());
    assert_eq!(reader.tensor_list[1].element_count(), 32);
    assert!(has_iq4_tensor(&reader));
    assert_eq!(base_quantization(&reader), "F32");
    assert!(gguf_info(&reader).contains(" Total Tensors     : 2\n"));
}

#[test]
fn tensors_beyond_the_file_are_not_handed_out() {
    let mut g = Gguf::new(1, 0);
    g.tensor("w", &[1000], 0, 0);
    let reader = GgufModelReader::open(&g.bytes).expect("open");
    assert_eq!(reader.tensor_list[0].size_bytes, 4000);
    assert!(reader.get_tensor("w").is_none());
}

#[test]
fn damaged_gguf_files_are_refused() {
    match GgufModelReader::open(b"GGUF") {
        Err(ContainerError::CorruptedHeader(s)) => assert_eq!(s, "File too small to be GGUF"),
        _ => panic!("expected an error"),
    }
    let mut g = Gguf::new(0, 0);
    g.bytes[0] = b'X';
    assert!(matches!(
        GgufModelReader::open(&g.bytes),
        Err(ContainerError::InvalidMagic { .. })
    ));
    let mut g = Gguf::new(0, 0);
    g.bytes[4] = 1;
    assert!(matches!(
        GgufModelReader::open(&g.bytes),
        Err(ContainerError::UnsupportedVersion(1))
    ));
    let mut g = Gguf::new(1, 0);
    g.tensor("bad", &[32], 10, 0);
    match GgufModelReader::open(&g.bytes) {
        Err(ContainerError::UnsupportedQuantization(s)) => {
            assert!(s.starts_with("Tensor 'bad' uses unsupported quantization format 'Q2_K'."))
        }
        _ => panic!("expected an error"),
    }
    let mut g = Gguf::new(1, 0);
    g.tensor("cut", &[32], 0, 0);
    let n = g.bytes.len() - 9;
    match GgufModelReader::open(&g.bytes[..n]) {
        Err(ContainerError::CorruptedHeader(s)) => {
            assert_eq!(s, "Tensor directory ends inside an entry")
        }
        _ => panic!("expected an error"),
    }
    let mut g = Gguf::new(1, 0);
    g.tensor("huge", &[u64::MAX, 2], 0, 0);
    match GgufModelReader::open(&g.bytes) {
        Err(ContainerError::CorruptedHeader(s)) => {
            assert_eq!(s, "Tensor size exceeds the address space")
        }
        _ => panic!("expected an error"),
    }
    let mut g = Gguf::new(0, 1);
    g.number("general.alignment", 0);
    match GgufModelReader::open(&g.bytes) {
        Err(ContainerError::CorruptedHeader(s)) => assert_eq!(s, "Alignment of zero"),
        _ => panic!("expected an error"),
    }
}

#[test]
fn the_last_tensor_of_a_name_counts() {
    let mut g = Gguf::new(2, 0);
    g.tensor("w", &[4], 0, 0);
    g.tensor("w", &[2], 0, 0);
    g.bytes.extend_from_slice(&[0u8; 64]);
    let reader = GgufModelReader::open(&g.bytes).expect("open");
    assert_eq!(reader.tensor_count(), 1);
    assert_eq!(reader.get_tensor("w").unwrap().shape, &[2]);
}

#[test]
fn bytes_and_characters_map_both_ways() {
    for b in 0..=255u8 {
        assert_eq!(bpe_char_to_byte(byte_to_bpe_char(b)), Some(b));
    }
    assert_eq!(byte_to_bpe_char(b' '), 'Ġ');
    assert_eq!(byte_to_bpe_char(b'A'), 'A');
    assert_eq!(byte_to_bpe_char(0xAD) as u32, 323);
    assert_eq!(bpe_char_to_byte(' '), None);
    assert_eq!(bpe_char_to_byte('中'), None);
    assert_eq!(bpe_char_to_byte(char::from_u32(324).unwrap()), None);
}

fn tokenizer(words: &[&str]) -> ModelTokenizer {
    let mut t = ModelTokenizer::default();
    for (i, w) in words.iter().enumerate() {
        t.token_to_id.insert(w, i as u64);
        t.tokens.push(w.to_string());
    }
    t
}

#[test]
fn texts_are_split_greedily() {
    let plain = ModelTokenizer::default();
    assert_eq!(plain.tokenize("aé"), vec![97, 195, 169]);

    let t = tokenizer(&["a", "ab", "abc", "<0x7A>", " b"]);
    assert_eq!(t.tokenize("abcab b"), vec![2, 1, 4]);
    assert_eq!(t.tokenize("z"), vec![3]);
    assert_eq!(t.tokenize("y"), vec![121]);
    assert_eq!(t.tokenize("中"), vec![0x2D]);

    let bpe = tokenizer(&["Ġthe", "he", "t"]);
    assert_eq!(bpe.tokenize(" thet"), vec![0, 2]);
    assert_eq!(bpe.tokenize(" "), vec![32]);
}

#[test]
fn tokens_are_decoded() {
    let t = tokenizer(&["Ġthe", "<0x41>", "a b", "中", "<0x+5>", "<0xGG>", "é"]);
    assert_eq!(t.decode_token(0), " the");
    assert_eq!(t.decode_token(1), "A");
    assert_eq!(t.decode_token(2), "a b");
    assert_eq!(t.decode_token(3), "中");
    assert_eq!(t.decode_token(4), "\u{5}");
    assert_eq!(t.decode_token(5), "<0xGG>");
    assert_eq!(t.decode_token(6), "\u{FFFD}");
    assert_eq!(t.decode_token(99), "");
    assert_eq!(t.decode_tokens(&[0, 1, 2, 1]), " theA");
    assert_eq!(t.decode_tokens_all(&[0, 1, 2, 1]), " theAa bA");
}

#[test]
fn rows_beyond_the_data_are_known() {
    let data = [0u8; 34 + 17];
    let shape = [32, 3];
    let view = TensorView { name: "q8", shape: &shape, dtype: TensorDType::Q8_0, data: &data };
    assert!(view.has_row(0, 32));
    assert!(!view.has_row(1, 32));
    assert!(view.has_row(1, 31));
    assert!(view.has_row(3, 32));
    let shape = [33, 1];
    let view = TensorView { name: "q8", shape: &shape, dtype: TensorDType::Q8_0, data: &data };
    assert!(!view.has_row(0, 33));
    let shape = [128, 2];
    let view = TensorView { name: "q1", shape: &shape, dtype: TensorDType::Q1_0, data: &data[..36] };
    assert!(view.has_row(1, 128));
    let shape = [2, usize::MAX];
    let view = TensorView { name: "f16", shape: &shape, dtype: TensorDType::F16, data: &data };
    assert!(view.has_row(11, 2));
    assert!(!view.has_row(12, 2));
    assert!(!view.has_row(usize::MAX - 1, 2));
}

#[test]
fn ascii_text_is_decoded_back() {
    let mut t = tokenizer(&["Ġthe", "he", "Ġc", "at", "Ċ", "<0", "xx"]);
    for b in 0..128u8 {
        let word = byte_to_bpe_char(b).to_string();
        if !t.token_to_id.contains(&word) {
            t.token_to_id.insert(&word, t.tokens.len() as u64);
            t.tokens.push(word);
        }
    }
    let mut text = String::from("the cat\n saw the <0x41> hat\t");
    for b in 0..128u8 {
        text.push(b as char);
    }
    let ids = t.tokenize(&text);
    assert!(ids.len() < text.len());
    assert_eq!(t.decode_tokens_all(&ids), text);
}
