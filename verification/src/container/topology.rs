//! Structure of a model, as far as a hardware graph depends on it.

use vstd::prelude::*;
use vstd::string::*;

use crate::bytes::{le_at, read_u32, read_u64};
use crate::container::reader::{gguf_magic, text_at};
use crate::container::{
    open_fault, opened_arch, opened_hyperparams, or_else, ContainerError, ContainerFault,
    FileContext, IoFault, IoFaultView, ModelHyperparameters, Q4nxModel,
};
use crate::text::{
    contains, ends_with, has_suffix, has_text, lowered, same_text, to_lowercase, utf8_lossy,
};

verus! {

/// Most metadata entries that are looked at.
pub const SCAN_LIMIT: u64 = 2048;

/// Longest metadata key that is taken for one.
pub const KEY_LIMIT: u64 = 256;

/// Structural hyperparameters of a model.
#[derive(Debug, Clone)]
pub struct ModelGraphTopology {
    pub arch_name: String,
    pub hidden_dim: u32,
    pub num_heads: u32,
    pub num_kv_heads: u32,
    pub num_layers: u32,
    pub vocab_size: u32,
    pub context_length: u32,
    pub head_dim: u32,
    pub ffn_dim: u32,
    pub num_experts: u32,
}

/// A [`ModelGraphTopology`] as mathematical values.
pub struct Topology {
    pub arch_name: Seq<char>,
    pub hidden_dim: u32,
    pub num_heads: u32,
    pub num_kv_heads: u32,
    pub num_layers: u32,
    pub vocab_size: u32,
    pub context_length: u32,
    pub head_dim: u32,
    pub ffn_dim: u32,
    pub num_experts: u32,
}

impl View for ModelGraphTopology {
    type V = Topology;

    open spec fn view(&self) -> Topology {
        Topology {
            arch_name: self.arch_name@,
            hidden_dim: self.hidden_dim,
            num_heads: self.num_heads,
            num_kv_heads: self.num_kv_heads,
            num_layers: self.num_layers,
            vocab_size: self.vocab_size,
            context_length: self.context_length,
            head_dim: self.head_dim,
            ffn_dim: self.ffn_dim,
            num_experts: self.num_experts,
        }
    }
}

// ---------------------------------------------------------------------------
// Scan of GGUF metadata
// ---------------------------------------------------------------------------

/// What a scan of the metadata has found, and where it has come to.
pub struct Scan {
    pub pos: nat,
    pub arch: Option<Seq<char>>,
    pub block_count: Option<u32>,
    pub embedding_len: Option<u32>,
    pub head_count: Option<u32>,
    pub head_count_kv: Option<u32>,
    pub ffn_len: Option<u32>,
    pub ctx_len: Option<u32>,
}

/// A scan that has found nothing yet.
pub open spec fn scan_start() -> Scan {
    Scan {
        pos: 24,
        arch: None,
        block_count: None,
        embedding_len: None,
        head_count: None,
        head_count_kv: None,
        ffn_len: None,
        ctx_len: None,
    }
}

/// Takes over a dimension.
pub open spec fn with_dimension(s: Scan, key: Seq<char>, v: u32) -> Scan {
    if has_suffix(key, ".block_count"@) {
        Scan { block_count: Some(v), ..s }
    } else if has_suffix(key, ".embedding_length"@) {
        Scan { embedding_len: Some(v), ..s }
    } else if has_suffix(key, ".attention.head_count"@) {
        Scan { head_count: Some(v), ..s }
    } else if has_suffix(key, ".attention.head_count_kv"@) {
        Scan { head_count_kv: Some(v), ..s }
    } else if has_suffix(key, ".feed_forward_length"@) {
        Scan { ffn_len: Some(v), ..s }
    } else if has_suffix(key, ".context_length"@) {
        Scan { ctx_len: Some(v), ..s }
    } else {
        s
    }
}

/// The place that is `n` bytes further on. A count with the top bit set counts backwards, and
/// a move to a place that no file has is not made.
pub open spec fn moved(pos: nat, n: nat) -> nat {
    if n <= i64::MAX {
        if pos + n <= i64::MAX {
            pos + n
        } else {
            pos
        }
    } else {
        let back = (0x1_0000_0000_0000_0000 - n) as nat;
        if back <= pos {
            (pos - back) as nat
        } else {
            pos
        }
    }
}

/// Reads one entry; none where the scan stops.
pub open spec fn scan_entry(file: Seq<u8>, s: Scan) -> Option<Scan> {
    let key_len = le_at(file, s.pos as int, 8);
    let at = s.pos + 12 + key_len;
    let ty = le_at(file, at - 4, 4);
    let key = text_at(file, s.pos + 8, key_len);
    let text_len = le_at(file, at as int, 8);
    if s.pos + 8 > file.len() || key_len > KEY_LIMIT || at > file.len() {
        None
    } else if ty == 4 || ty == 5 {
        if at + 4 <= file.len() {
            Some(with_dimension(Scan { pos: at + 4, ..s }, key, le_at(file, at as int, 4) as u32))
        } else {
            None
        }
    } else if ty == 10 || ty == 11 {
        if at + 8 <= file.len() {
            Some(
                with_dimension(
                    Scan { pos: at + 8, ..s },
                    key,
                    (le_at(file, at as int, 8) % 0x1_0000_0000) as u32,
                ),
            )
        } else {
            None
        }
    } else if ty == 8 {
        if at + 8 > file.len() {
            None
        } else if text_len >= 256 {
            Some(Scan { pos: moved(at + 8, text_len), ..s })
        } else if at + 8 + text_len > file.len() {
            None
        } else if key == "general.architecture"@ {
            Some(
                Scan {
                    pos: at + 8 + text_len,
                    arch: Some(text_at(file, at + 8, text_len)),
                    ..s
                },
            )
        } else {
            Some(Scan { pos: at + 8 + text_len, ..s })
        }
    } else {
        None
    }
}

/// Reads up to `n` entries.
pub open spec fn scan_entries(file: Seq<u8>, s: Scan, n: nat) -> Scan
    decreases n,
{
    if n == 0 {
        s
    } else {
        match scan_entry(file, s) {
            None => s,
            Some(s2) => scan_entries(file, s2, (n - 1) as nat),
        }
    }
}

/// The number of entries that are looked at.
pub open spec fn scan_count(file: Seq<u8>) -> nat {
    if le_at(file, 16, 8) <= SCAN_LIMIT {
        le_at(file, 16, 8)
    } else {
        SCAN_LIMIT as nat
    }
}

/// What a scan of a file finds.
pub open spec fn scan_of(file: Seq<u8>) -> Scan {
    scan_entries(file, scan_start(), scan_count(file))
}

/// A scan while it goes on.
struct ScanState {
    pos: u128,
    arch: Option<String>,
    block_count: Option<u32>,
    embedding_len: Option<u32>,
    head_count: Option<u32>,
    head_count_kv: Option<u32>,
    ffn_len: Option<u32>,
    ctx_len: Option<u32>,
}

impl View for ScanState {
    type V = Scan;

    closed spec fn view(&self) -> Scan {
        Scan {
            pos: self.pos as nat,
            arch: match self.arch {
                Some(s) => Some(s@),
                None => None,
            },
            block_count: self.block_count,
            embedding_len: self.embedding_len,
            head_count: self.head_count,
            head_count_kv: self.head_count_kv,
            ffn_len: self.ffn_len,
            ctx_len: self.ctx_len,
        }
    }
}

/// The place that is `n` bytes further on.
fn seek_by(pos: u128, n: u64) -> (r: u128)
    requires
        pos <= 0x1_0000_0000_0000_0000,
    ensures
        r as nat == moved(pos as nat, n as nat),
        r <= 0x1_0000_0000_0000_0000,
{
    if n <= i64::MAX as u64 {
        if pos + n as u128 <= i64::MAX as u128 {
            pos + n as u128
        } else {
            pos
        }
    } else {
        let back: u128 = 0x1_0000_0000_0000_0000 - n as u128;
        if back <= pos {
            pos - back
        } else {
            pos
        }
    }
}

impl ScanState {
    fn take_dimension(&mut self, key: &str, v: u32)
        ensures
            final(self)@ == with_dimension(old(self)@, key@, v),
            final(self).pos == old(self).pos,
    {
        if ends_with(key, ".block_count") {
            self.block_count = Some(v);
        } else if ends_with(key, ".embedding_length") {
            self.embedding_len = Some(v);
        } else if ends_with(key, ".attention.head_count") {
            self.head_count = Some(v);
        } else if ends_with(key, ".attention.head_count_kv") {
            self.head_count_kv = Some(v);
        } else if ends_with(key, ".feed_forward_length") {
            self.ffn_len = Some(v);
        } else if ends_with(key, ".context_length") {
            self.ctx_len = Some(v);
        }
    }

    /// Reads one entry; false where the scan stops.
    fn take_entry(&mut self, file: &[u8]) -> (r: bool)
        requires
            old(self).pos <= 0x1_0000_0000_0000_0000,
        ensures
            final(self).pos <= 0x1_0000_0000_0000_0000,
            match scan_entry(file@, old(self)@) {
                None => !r && final(self)@ == old(self)@,
                Some(s) => r && final(self)@ == s,
            },
    {
        assert(file@.len() == file.len());
        let total: u128 = file.len() as u128;
        if self.pos + 8 > total {
            return false;
        }
        let start: usize = self.pos as usize;
        let key_len: u64 = read_u64(file, start);
        if key_len > KEY_LIMIT || self.pos + 12 + key_len as u128 > total {
            return false;
        }
        let key_end: usize = start + 8 + key_len as usize;
        let key = utf8_lossy(&file[start + 8..key_end]);
        let ty: u32 = read_u32(file, key_end);
        let at: usize = key_end + 4;
        if ty == 4 || ty == 5 {
            if at as u128 + 4 > total {
                return false;
            }
            let v: u32 = read_u32(file, at);
            self.pos = at as u128 + 4;
            self.take_dimension(key.as_str(), v);
            true
        } else if ty == 10 || ty == 11 {
            if at as u128 + 8 > total {
                return false;
            }
            let v: u64 = read_u64(file, at);
            self.pos = at as u128 + 8;
            self.take_dimension(key.as_str(), (v % 0x1_0000_0000) as u32);
            true
        } else if ty == 8 {
            if at as u128 + 8 > total {
                return false;
            }
            let text_len: u64 = read_u64(file, at);
            if text_len >= 256 {
                self.pos = seek_by(at as u128 + 8, text_len);
                return true;
            }
            if at as u128 + 8 + text_len as u128 > total {
                return false;
            }
            let end: usize = at + 8 + text_len as usize;
            if same_text(key.as_str(), "general.architecture") {
                self.arch = Some(utf8_lossy(&file[at + 8..end]));
            }
            self.pos = end as u128;
            true
        } else {
            false
        }
    }
}

// ---------------------------------------------------------------------------
// Profiles of model families
// ---------------------------------------------------------------------------

/// The architecture that a lower-cased file name stands for.
pub open spec fn stem_arch(f: Seq<char>) -> Seq<char> {
    if has_text(f, "spark"@) {
        "spark2_5"@
    } else if has_text(f, "gemma4"@) || has_text(f, "gemma-4"@) {
        "gemma4"@
    } else if has_text(f, "cold-fusion"@) || has_text(f, "cold_fusion"@) {
        "qwen3_8"@
    } else if has_text(f, "deepseek"@) {
        "deepseek_v4"@
    } else if has_text(f, "glm"@) {
        "glm5"@
    } else if has_text(f, "sarvam"@) {
        "sarvam"@
    } else if has_text(f, "laguna"@) {
        "laguna"@
    } else if has_text(f, "qwen"@) {
        "qwen2"@
    } else if has_text(f, "llama"@) {
        "llama"@
    } else if has_text(f, "phi"@) {
        "phi3"@
    } else if has_text(f, "gemma"@) {
        "gemma2"@
    } else {
        "custom"@
    }
}

pub open spec fn is_spark(arch: Seq<char>, f: Seq<char>) -> bool {
    has_text(arch, "spark"@) || has_text(f, "spark"@)
}

pub open spec fn is_gemma4(arch: Seq<char>, f: Seq<char>) -> bool {
    has_text(arch, "gemma4"@) || has_text(f, "gemma4"@) || has_text(f, "gemma-4"@)
}

pub open spec fn is_cold_fusion(arch: Seq<char>, f: Seq<char>) -> bool {
    has_text(arch, "cold_fusion"@) || has_text(f, "cold-fusion"@) || has_text(f, "cold_fusion"@)
        || has_text(f, "qwen3.8"@)
}

/// Families with a vocabulary of 262144 tokens.
pub open spec fn is_large_vocab(arch: Seq<char>, f: Seq<char>) -> bool {
    has_text(arch, "qwen"@) || has_text(arch, "gemma"@) || has_text(f, "qwen"@) || has_text(
        f,
        "gemma"@,
    ) || has_text(f, "ornith"@) || has_text(f, "qwythos"@) || has_text(f, "thinkingcap"@)
        || has_text(f, "glm"@) || has_text(f, "deepseek"@) || has_text(f, "sarvam"@) || has_text(
        f,
        "laguna"@,
    )
}

/// The first of four values whose condition holds.
pub open spec fn by_family(spark: bool, gemma4: bool, cold: bool, a: u32, b: u32, c: u32, d: u32) -> u32 {
    if spark {
        a
    } else if gemma4 {
        b
    } else if cold {
        c
    } else {
        d
    }
}

pub open spec fn head_dim_of(hidden_dim: u32, num_heads: u32) -> u32 {
    if num_heads > 0 {
        hidden_dim / num_heads
    } else {
        128
    }
}

/// The topology of a model with the given scan and lower-cased file name.
pub open spec fn topology_of(s: Scan, f: Seq<char>) -> Topology {
    let arch = match s.arch {
        Some(a) => a,
        None => stem_arch(f),
    };
    let spark = is_spark(arch, f);
    let gemma4 = is_gemma4(arch, f);
    let cold = is_cold_fusion(arch, f);
    let hidden_dim = or_else(
        s.embedding_len,
        by_family(spark, gemma4, cold, 2048, 5120, 5120, 4096),
    );
    let num_heads = or_else(s.head_count, by_family(spark, gemma4, cold, 8, 40, 40, 32));
    Topology {
        arch_name: arch,
        hidden_dim,
        num_heads,
        num_kv_heads: or_else(s.head_count_kv, by_family(spark, gemma4, cold, 2, 16, 8, 8)),
        num_layers: or_else(s.block_count, by_family(spark, gemma4, cold, 28, 56, 64, 32)),
        vocab_size: if is_large_vocab(arch, f) {
            262144
        } else if spark {
            131072
        } else {
            128000
        },
        context_length: or_else(
            s.ctx_len,
            by_family(spark, gemma4, cold, 1048576, 131072, 131072, 8192),
        ),
        head_dim: head_dim_of(hidden_dim, num_heads),
        ffn_dim: or_else(s.ffn_len, by_family(spark, gemma4, cold, 6656, 24576, 17920, 11008)),
        num_experts: if cold {
            64
        } else if has_text(arch, "deepseek"@) || has_text(f, "deepseek"@) {
            256
        } else if has_text(arch, "mixtral"@) || has_text(f, "mixtral"@) {
            8
        } else {
            0
        },
    }
}

/// Why a file is not scanned, if it is not.
pub open spec fn scan_fault(file: Seq<u8>) -> Option<ContainerFault> {
    if file.len() < 4 {
        Some(ContainerFault::Io(IoFaultView::UnexpectedEof))
    } else if file.take(4) != gguf_magic() {
        Some(ContainerFault::InvalidMagic { expected: gguf_magic(), found: file.take(4) })
    } else if file.len() < 24 {
        Some(ContainerFault::Io(IoFaultView::UnexpectedEof))
    } else {
        None
    }
}

/// The number of experts that an architecture has, by its lower-cased name.
pub open spec fn experts_of(arch: Seq<char>) -> u32 {
    if has_text(arch, "cold_fusion"@) || has_text(arch, "qwen3.8"@) {
        64
    } else if has_text(arch, "deepseek"@) {
        256
    } else if has_text(arch, "mixtral"@) {
        8
    } else {
        0
    }
}

/// The topology that a container's header stands for. Experts are counted by `experts`; the
/// width of the feed-forward layers is estimated by the usual ratio of 8 to 3.
pub open spec fn header_topology(
    arch: Seq<char>,
    hp: ModelHyperparameters,
    experts: u32,
) -> Topology {
    Topology {
        arch_name: arch,
        hidden_dim: hp.hidden_dim,
        num_heads: hp.num_heads,
        num_kv_heads: hp.num_kv_heads,
        num_layers: hp.num_layers,
        vocab_size: hp.vocab_size,
        context_length: hp.context_length,
        head_dim: head_dim_of(hp.hidden_dim, hp.num_heads),
        ffn_dim: (hp.hidden_dim * 8 / 3) as u32,
        num_experts: experts,
    }
}

/// The topology of an opened container.
pub open spec fn opened_topology(ctx: FileContext, file: Seq<u8>) -> Topology {
    header_topology(
        opened_arch(ctx, file),
        opened_hyperparams(ctx, file),
        experts_of(lowered(opened_arch(ctx, file))),
    )
}

/// The architecture that a lower-cased file name stands for.
fn arch_of_stem(f: &str) -> (r: String)
    ensures
        r@ == stem_arch(f@),
{
    if contains(f, "spark") {
        "spark2_5".to_owned()
    } else if contains(f, "gemma4") || contains(f, "gemma-4") {
        "gemma4".to_owned()
    } else if contains(f, "cold-fusion") || contains(f, "cold_fusion") {
        "qwen3_8".to_owned()
    } else if contains(f, "deepseek") {
        "deepseek_v4".to_owned()
    } else if contains(f, "glm") {
        "glm5".to_owned()
    } else if contains(f, "sarvam") {
        "sarvam".to_owned()
    } else if contains(f, "laguna") {
        "laguna".to_owned()
    } else if contains(f, "qwen") {
        "qwen2".to_owned()
    } else if contains(f, "llama") {
        "llama".to_owned()
    } else if contains(f, "phi") {
        "phi3".to_owned()
    } else if contains(f, "gemma") {
        "gemma2".to_owned()
    } else {
        "custom".to_owned()
    }
}

fn pick(spark: bool, gemma4: bool, cold: bool, a: u32, b: u32, c: u32, d: u32) -> (r: u32)
    ensures
        r == by_family(spark, gemma4, cold, a, b, c, d),
{
    if spark {
        a
    } else if gemma4 {
        b
    } else if cold {
        c
    } else {
        d
    }
}

fn given_or(value: Option<u32>, fallback: u32) -> (r: u32)
    ensures
        r == or_else(value, fallback),
{
    match value {
        Some(v) => v,
        None => fallback,
    }
}

/// Whether a model has one of the large vocabularies.
pub fn has_large_vocab(arch: &str, f: &str) -> (r: bool)
    ensures
        r == is_large_vocab(arch@, f@),
{
    contains(arch, "qwen") || contains(arch, "gemma") || contains(f, "qwen") || contains(
        f,
        "gemma",
    ) || contains(f, "ornith") || contains(f, "qwythos") || contains(f, "thinkingcap")
        || contains(f, "glm") || contains(f, "deepseek") || contains(f, "sarvam") || contains(
        f,
        "laguna",
    )
}

/// The topology of a model with the given scan and lower-cased file name.
fn build_topology(s: ScanState, f: &str) -> (r: ModelGraphTopology)
    ensures
        r@ == topology_of(s@, f@),
{
    let arch_name = match s.arch {
        Some(a) => a,
        None => arch_of_stem(f),
    };
    let arch = arch_name.as_str();
    let spark: bool = contains(arch, "spark") || contains(f, "spark");
    let gemma4: bool = contains(arch, "gemma4") || contains(f, "gemma4") || contains(f, "gemma-4");
    let cold: bool = contains(arch, "cold_fusion") || contains(f, "cold-fusion") || contains(
        f,
        "cold_fusion",
    ) || contains(f, "qwen3.8");
    let hidden_dim: u32 = given_or(
        s.embedding_len,
        pick(spark, gemma4, cold, 2048, 5120, 5120, 4096),
    );
    let num_heads: u32 = given_or(s.head_count, pick(spark, gemma4, cold, 8, 40, 40, 32));
    let vocab_size: u32 = if has_large_vocab(arch, f) {
        262144
    } else if spark {
        131072
    } else {
        128000
    };
    let num_experts: u32 = if cold {
        64
    } else if contains(arch, "deepseek") || contains(f, "deepseek") {
        256
    } else if contains(arch, "mixtral") || contains(f, "mixtral") {
        8
    } else {
        0
    };
    let head_dim: u32 = if num_heads > 0 {
        hidden_dim / num_heads
    } else {
        128
    };
    ModelGraphTopology {
        arch_name,
        hidden_dim,
        num_heads,
        num_kv_heads: given_or(s.head_count_kv, pick(spark, gemma4, cold, 2, 16, 8, 8)),
        num_layers: given_or(s.block_count, pick(spark, gemma4, cold, 28, 56, 64, 32)),
        vocab_size,
        context_length: given_or(
            s.ctx_len,
            pick(spark, gemma4, cold, 1048576, 131072, 131072, 8192),
        ),
        head_dim,
        ffn_dim: given_or(s.ffn_len, pick(spark, gemma4, cold, 6656, 24576, 17920, 11008)),
        num_experts,
    }
}

/// What is said of a container whose layers are too wide to be planned for.
pub open spec fn wide_header_text() -> Seq<char> {
    "Hidden dimension exceeds the supported range"@
}

impl ModelGraphTopology {
    /// The topology of a GGUF file, by its bytes and its file name without extension. What the
    /// metadata does not state is taken from the profile of the model's family.
    pub fn from_gguf(stem: &str, file: &[u8]) -> (r: Result<ModelGraphTopology, ContainerError>)
        ensures
            match r {
                Ok(t) => scan_fault(file@) is None && t@ == topology_of(
                    scan_of(file@),
                    lowered(stem@),
                ),
                Err(e) => scan_fault(file@) == Some(e@),
            },
    {
        let lower = to_lowercase(stem);
        Self::from_gguf_named(lower.as_str(), file)
    }

    /// As [`ModelGraphTopology::from_gguf`], by the lower-cased file name.
    pub fn from_gguf_named(f: &str, file: &[u8]) -> (r: Result<ModelGraphTopology, ContainerError>)
        ensures
            match r {
                Ok(t) => scan_fault(file@) is None && t@ == topology_of(scan_of(file@), f@),
                Err(e) => scan_fault(file@) == Some(e@),
            },
    {
        if file.len() < 4 {
            return Err(ContainerError::Io(IoFault::UnexpectedEof));
        }
        let found: [u8; 4] = [file[0], file[1], file[2], file[3]];
        assert(found@ =~= file@.take(4));
        if !(file[0] == 0x47 && file[1] == 0x47 && file[2] == 0x55 && file[3] == 0x46) {
            assert(file@.take(4) != gguf_magic()) by {
                let t = file@.take(4);
                let m = gguf_magic();
                assert(t[0] == file@[0] && t[1] == file@[1] && t[2] == file@[2] && t[3] == file@[3]);
                assert(m[0] == 0x47 && m[1] == 0x47 && m[2] == 0x55 && m[3] == 0x46);
            }
            let expected: [u8; 4] = [0x47, 0x47, 0x55, 0x46];
            assert(expected@ =~= gguf_magic());
            return Err(ContainerError::InvalidMagic { expected, found });
        }
        assert(file@.take(4) =~= gguf_magic());
        if file.len() < 24 {
            return Err(ContainerError::Io(IoFault::UnexpectedEof));
        }
        let stated: u64 = read_u64(file, 16);
        let n: u64 = if stated <= SCAN_LIMIT {
            stated
        } else {
            SCAN_LIMIT
        };
        let mut state = ScanState {
            pos: 24,
            arch: None,
            block_count: None,
            embedding_len: None,
            head_count: None,
            head_count_kv: None,
            ffn_len: None,
            ctx_len: None,
        };
        let mut left: u64 = n;
        let mut more: bool = true;
        assert(state@ == scan_start());
        while left > 0 && more
            invariant
                state.pos <= 0x1_0000_0000_0000_0000,
                more ==> scan_entries(file@, state@, left as nat) == scan_entries(
                    file@,
                    scan_start(),
                    n as nat,
                ),
                !more ==> state@ == scan_entries(file@, scan_start(), n as nat),
            decreases left,
        {
            more = state.take_entry(file);
            left = left - 1;
        }
        Ok(build_topology(state, f))
    }

    /// The topology of an existing container, by the bytes of its file.
    pub fn from_q4nx(ctx: &FileContext, file: &[u8]) -> (r: Result<
        ModelGraphTopology,
        ContainerError,
    >)
        ensures
            match r {
                Ok(t) => {
                    &&& open_fault(file@) is None
                    &&& opened_hyperparams(*ctx, file@).hidden_dim * 8 <= u32::MAX
                    &&& t@ == opened_topology(*ctx, file@)
                },
                Err(e) => if open_fault(file@) is Some {
                    open_fault(file@) == Some(e@)
                } else {
                    &&& opened_hyperparams(*ctx, file@).hidden_dim * 8 > u32::MAX
                    &&& e@ == ContainerFault::CorruptedHeader(wide_header_text())
                },
            },
    {
        let model = match Q4nxModel::open(ctx, file) {
            Ok(m) => m,
            Err(e) => {
                return Err(e);
            },
        };
        match Self::from_header(model.header.arch_name.as_str(), &model.header.hyperparams) {
            Some(t) => Ok(t),
            None => Err(
                ContainerError::CorruptedHeader(
                    "Hidden dimension exceeds the supported range".to_owned(),
                ),
            ),
        }
    }

    /// The topology that a container's header stands for; none where the estimated width of the
    /// feed-forward layers does not fit 32 bits.
    pub fn from_header(arch_name: &str, hp: &ModelHyperparameters) -> (r: Option<
        ModelGraphTopology,
    >)
        ensures
            r is Some <==> hp.hidden_dim * 8 <= u32::MAX,
            r is Some ==> r->0@ == header_topology(
                arch_name@,
                *hp,
                experts_of(lowered(arch_name@)),
            ),
    {
        if hp.hidden_dim > u32::MAX / 8 {
            return None;
        }
        let lower = to_lowercase(arch_name);
        Some(Self::from_header_named(arch_name, hp, lower.as_str()))
    }

    /// As [`ModelGraphTopology::from_header`], with the lower-cased architecture name.
    pub fn from_header_named(arch_name: &str, hp: &ModelHyperparameters, arch_lower: &str) -> (r:
        ModelGraphTopology)
        requires
            hp.hidden_dim * 8 <= u32::MAX,
        ensures
            r@ == header_topology(arch_name@, *hp, experts_of(arch_lower@)),
    {
        let num_experts: u32 = if contains(arch_lower, "cold_fusion") || contains(
            arch_lower,
            "qwen3.8",
        ) {
            64
        } else if contains(arch_lower, "deepseek") {
            256
        } else if contains(arch_lower, "mixtral") {
            8
        } else {
            0
        };
        let head_dim: u32 = if hp.num_heads > 0 {
            hp.hidden_dim / hp.num_heads
        } else {
            128
        };
        ModelGraphTopology {
            arch_name: arch_name.to_owned(),
            hidden_dim: hp.hidden_dim,
            num_heads: hp.num_heads,
            num_kv_heads: hp.num_kv_heads,
            num_layers: hp.num_layers,
            vocab_size: hp.vocab_size,
            context_length: hp.context_length,
            head_dim,
            ffn_dim: hp.hidden_dim * 8 / 3,
            num_experts,
        }
    }
}

} // verus!
