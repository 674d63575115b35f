//! Binary container `.q4nx`: a fixed header, an embedded XCLBIN and a 64-byte aligned payload.
//!
//! The hardware microcode (`.xclbin`) of a model is stored inside the model file, between the
//! header and the weights. This module holds the layout as functions on bytes; reading and
//! writing files is left to the caller.

use vstd::prelude::*;
use vstd::string::*;
use vstd::utf8::*;

use crate::bytes::{
    align64, align_up_64, copy_range, le_at, le_bytes, push_bytes, push_le, push_zeros, read_u32,
    read_u64, zeros,
};
use crate::text::{
    chars_of, contains, count_digits, decimal, decimal_text, decoded, digit_run, find_chars,
    first_at, has_text, lowered, parse_digits, parsed_digits, same_text, skip_whitespace, string_of,
    to_lowercase, trimmed_start, utf8_lossy,
};

pub mod converter;
pub mod converter_laws;
pub mod dtype;
pub mod gguf_file_laws;
pub mod gguf_laws;
pub mod half;
pub mod hardware;
pub mod laws;
pub mod open_laws;
pub mod reader;
pub mod resolver;
pub mod resolver_laws;
pub mod tensor;
pub mod tensor_laws;
pub mod tokenizer;
pub mod tokenizer_laws;
pub mod topology;
pub mod topology_laws;
pub mod xclbin_builder;
pub mod xclbin_laws;

verus! {

/// Version of the container layout that this library reads and writes.
pub const Q4NX_CURRENT_VERSION: u32 = 1;

/// Length of the container header in bytes.
pub const HEADER_FIXED_SIZE: usize = 256;

/// Longest run of payload bytes that opening a container keeps for inspection.
pub const PAYLOAD_SAMPLE_LIMIT: u64 = 65536;

/// Longest run of payload bytes that opening a SafeTensors container keeps.
pub const SAFETENSORS_SAMPLE_LIMIT: u64 = 4096;

/// Longest part of a SafeTensors header that is searched for an architecture name.
pub const SAFETENSORS_PROBE_LIMIT: u64 = 65536;

/// Magic bytes of the container: `Q4NX`.
pub open spec fn q4nx_magic() -> Seq<u8> {
    seq![0x51u8, 0x34u8, 0x4Eu8, 0x58u8]
}

// ---------------------------------------------------------------------------
// Types
// ---------------------------------------------------------------------------

/// Why a read or a write failed.
#[derive(Debug)]
pub enum IoFault {
    /// The file ended before the bytes that were asked for.
    UnexpectedEof,
    /// A file position beyond what a file can have.
    InvalidSeek,
    /// What was read does not make sense.
    InvalidData(String),
    /// What was looked for is not there.
    NotFound(String),
    /// Any other failure: its error number and what the system says of it.
    Os { code: i32, text: String },
}

/// An [`IoFault`] as mathematical values.
pub enum IoFaultView {
    UnexpectedEof,
    InvalidSeek,
    InvalidData(Seq<char>),
    NotFound(Seq<char>),
    Os { code: i32, text: Seq<char> },
}

impl View for IoFault {
    type V = IoFaultView;

    open spec fn view(&self) -> IoFaultView {
        match *self {
            IoFault::UnexpectedEof => IoFaultView::UnexpectedEof,
            IoFault::InvalidSeek => IoFaultView::InvalidSeek,
            IoFault::InvalidData(s) => IoFaultView::InvalidData(s@),
            IoFault::NotFound(s) => IoFaultView::NotFound(s@),
            IoFault::Os { code, text } => IoFaultView::Os { code, text: text@ },
        }
    }
}

/// Why a container is not read or written.
#[derive(Debug)]
pub enum ContainerError {
    Io(IoFault),
    InvalidMagic { expected: [u8; 4], found: [u8; 4] },
    UnsupportedVersion(u32),
    AlignmentError { offset: u64 },
    CorruptedHeader(String),
    UnsupportedQuantization(String),
}

/// A [`ContainerError`] as mathematical values.
pub enum ContainerFault {
    Io(IoFaultView),
    InvalidMagic { expected: Seq<u8>, found: Seq<u8> },
    UnsupportedVersion(u32),
    AlignmentError { offset: u64 },
    CorruptedHeader(Seq<char>),
    UnsupportedQuantization(Seq<char>),
}

impl View for ContainerError {
    type V = ContainerFault;

    open spec fn view(&self) -> ContainerFault {
        match *self {
            ContainerError::Io(f) => ContainerFault::Io(f@),
            ContainerError::InvalidMagic { expected, found } => ContainerFault::InvalidMagic {
                expected: expected@,
                found: found@,
            },
            ContainerError::UnsupportedVersion(v) => ContainerFault::UnsupportedVersion(v),
            ContainerError::AlignmentError { offset } => ContainerFault::AlignmentError { offset },
            ContainerError::CorruptedHeader(s) => ContainerFault::CorruptedHeader(s@),
            ContainerError::UnsupportedQuantization(s) => ContainerFault::UnsupportedQuantization(
                s@,
            ),
        }
    }
}

/// Model structural hyperparameters stored in the header.
#[derive(Debug, Clone, Copy, PartialEq, Eq, Structural)]
pub struct ModelHyperparameters {
    pub hidden_dim: u32,
    pub num_heads: u32,
    pub num_kv_heads: u32,
    pub num_layers: u32,
    pub vocab_size: u32,
    pub context_length: u32,
}

impl Default for ModelHyperparameters {
    fn default() -> (r: ModelHyperparameters)
        ensures
            r == hyperparams(0, 0, 0, 0, 0, 0),
    {
        ModelHyperparameters {
            hidden_dim: 0,
            num_heads: 0,
            num_kv_heads: 0,
            num_layers: 0,
            vocab_size: 0,
            context_length: 0,
        }
    }
}

/// Hyperparameters from their six values in header order.
pub open spec fn hyperparams(
    hidden_dim: u32,
    num_heads: u32,
    num_kv_heads: u32,
    num_layers: u32,
    vocab_size: u32,
    context_length: u32,
) -> ModelHyperparameters {
    ModelHyperparameters {
        hidden_dim,
        num_heads,
        num_kv_heads,
        num_layers,
        vocab_size,
        context_length,
    }
}

/// In-memory representation of a parsed header.
#[derive(Debug, Clone)]
pub struct Q4nxHeader {
    pub version: u32,
    pub arch_name: String,
    pub hyperparams: ModelHyperparameters,
    pub xclbin_offset: u64,
    pub xclbin_size: u64,
    pub tensor_table_offset: u64,
    pub tensor_table_count: u64,
    pub payload_offset: u64,
    pub payload_size: u64,
}

/// A parsed `.q4nx` model container.
pub struct Q4nxModel {
    pub header: Q4nxHeader,
    pub file_path: String,
    pub xclbin_data: Vec<u8>,
    pub payload_data: Vec<u8>,
}

/// The `config.json` beside a container file.
pub enum ConfigFile {
    /// There is no such file.
    Absent,
    /// The file is there and cannot be read as text.
    Unreadable,
    /// The text of the file.
    Text(String),
}

/// Where a container file lies and what lies beside it.
pub struct FileContext {
    /// Path of the container file.
    pub path: String,
    /// File name without its extension.
    pub stem: String,
    /// The `config.json` in the same directory.
    pub config: ConfigFile,
    /// The bytes of `layer.xclbin` in the same directory, where it can be read.
    pub layer_xclbin: Option<Vec<u8>>,
}

// ---------------------------------------------------------------------------
// Header layout
// ---------------------------------------------------------------------------

/// The 32-byte architecture field: at most 31 bytes of the name, then zeros.
pub open spec fn name_field(name: Seq<u8>) -> Seq<u8> {
    if name.len() <= 31 {
        name + zeros((32 - name.len()) as nat)
    } else {
        name.take(31) + zeros(1)
    }
}

/// Magic, version and architecture name.
pub open spec fn identity_fields(name: Seq<u8>) -> Seq<u8> {
    q4nx_magic() + le_bytes(Q4NX_CURRENT_VERSION as nat, 4) + name_field(name)
}

/// The six hyperparameters.
pub open spec fn hyperparam_fields(hp: ModelHyperparameters) -> Seq<u8> {
    le_bytes(hp.hidden_dim as nat, 4) + le_bytes(hp.num_heads as nat, 4) + le_bytes(
        hp.num_kv_heads as nat,
        4,
    ) + le_bytes(hp.num_layers as nat, 4) + le_bytes(hp.vocab_size as nat, 4) + le_bytes(
        hp.context_length as nat,
        4,
    )
}

/// Where the XCLBIN and the payload lie. The tensor table is empty.
pub open spec fn layout_fields(xclbin_size: nat, payload_size: nat) -> Seq<u8> {
    le_bytes(HEADER_FIXED_SIZE as nat, 8) + le_bytes(xclbin_size, 8) + le_bytes(0, 8) + le_bytes(
        0,
        8,
    ) + le_bytes(payload_start(xclbin_size) as nat, 8) + le_bytes(payload_size, 8)
}

/// The first multiple of 64 behind the header and an XCLBIN of the given size.
pub open spec fn payload_start(xclbin_size: nat) -> int {
    align64(HEADER_FIXED_SIZE + xclbin_size)
}

/// The header of a container.
pub open spec fn header_image(
    name: Seq<u8>,
    hp: ModelHyperparameters,
    xclbin_size: nat,
    payload_size: nat,
) -> Seq<u8> {
    identity_fields(name) + hyperparam_fields(hp) + layout_fields(xclbin_size, payload_size)
        + zeros(144)
}

/// Header, XCLBIN and the padding up to the payload.
pub open spec fn container_prefix(
    name: Seq<u8>,
    hp: ModelHyperparameters,
    xclbin: Seq<u8>,
    payload_size: nat,
) -> Seq<u8> {
    header_image(name, hp, xclbin.len(), payload_size) + xclbin + zeros(
        (payload_start(xclbin.len()) - HEADER_FIXED_SIZE - xclbin.len()) as nat,
    )
}

/// A whole container.
pub open spec fn container_image(
    name: Seq<u8>,
    hp: ModelHyperparameters,
    xclbin: Seq<u8>,
    payload: Seq<u8>,
) -> Seq<u8> {
    container_prefix(name, hp, xclbin, payload.len()) + payload
}

/// Writes the architecture field.
fn push_name_field(out: &mut Vec<u8>, name: &[u8])
    ensures
        final(out)@ == old(out)@ + name_field(name@),
{
    let ghost before = out@;
    if name.len() <= 31 {
        push_bytes(out, name);
        push_zeros(out, 32 - name.len());
    } else {
        push_bytes(out, &name[0..31]);
        push_zeros(out, 1);
        assert(name@.subrange(0, 31) =~= name@.take(31));
    }
    assert(out@ =~= before + name_field(name@));
}

/// The header, XCLBIN and padding of a container.
fn build_prefix(
    arch_name: &str,
    hp: &ModelHyperparameters,
    xclbin: &[u8],
    payload_size: u64,
) -> (r: Vec<u8>)
    requires
        xclbin@.len() + HEADER_FIXED_SIZE + 63 <= u64::MAX,
    ensures
        r@ == container_prefix(encode_utf8(arch_name@), *hp, xclbin@, payload_size as nat),
{
    let ghost name = encode_utf8(arch_name@);
    let xclbin_size: u64 = xclbin.len() as u64;
    let raw: u64 = HEADER_FIXED_SIZE as u64 + xclbin_size;
    let start: u64 = align_up_64(raw);
    let mut out: Vec<u8> = Vec::new();
    out.push(0x51);
    out.push(0x34);
    out.push(0x4E);
    out.push(0x58);
    assert(out@ =~= q4nx_magic());
    push_le(&mut out, Q4NX_CURRENT_VERSION as u64, 4);
    push_name_field(&mut out, arch_name.as_bytes());
    assert(out@ =~= identity_fields(name));
    let ghost part = out@;
    push_le(&mut out, hp.hidden_dim as u64, 4);
    push_le(&mut out, hp.num_heads as u64, 4);
    push_le(&mut out, hp.num_kv_heads as u64, 4);
    push_le(&mut out, hp.num_layers as u64, 4);
    push_le(&mut out, hp.vocab_size as u64, 4);
    push_le(&mut out, hp.context_length as u64, 4);
    assert(out@ =~= part + hyperparam_fields(*hp));
    let ghost part = out@;
    push_le(&mut out, HEADER_FIXED_SIZE as u64, 8);
    push_le(&mut out, xclbin_size, 8);
    push_le(&mut out, 0, 8);
    push_le(&mut out, 0, 8);
    push_le(&mut out, start, 8);
    push_le(&mut out, payload_size, 8);
    assert(out@ =~= part + layout_fields(xclbin@.len(), payload_size as nat));
    push_zeros(&mut out, 144);
    push_bytes(&mut out, xclbin);
    push_zeros(&mut out, (start - raw) as usize);
    out
}

// ---------------------------------------------------------------------------
// Opening
// ---------------------------------------------------------------------------

/// The bytes of the architecture field up to the first zero.
pub open spec fn name_bytes(field: Seq<u8>) -> Seq<u8>
    decreases field.len(),
{
    if field.len() == 0 || field[0] == 0 {
        Seq::empty()
    } else {
        seq![field[0]] + name_bytes(field.skip(1))
    }
}

/// The file begins with a SafeTensors header length and the start of a JSON object.
pub open spec fn is_safetensors(file: Seq<u8>) -> bool {
    0 < le_at(file, 0, 8) < 100_000_000 && file[8] == 0x7Bu8
}

/// Reading `size` bytes at `offset` fails.
pub open spec fn read_fault(file: Seq<u8>, offset: nat, size: nat) -> Option<ContainerFault> {
    if offset > i64::MAX {
        Some(ContainerFault::Io(IoFaultView::InvalidSeek))
    } else if size > 0 && offset + size > file.len() {
        Some(ContainerFault::Io(IoFaultView::UnexpectedEof))
    } else {
        None
    }
}

/// `n`, but at most `limit`.
pub open spec fn at_most(n: nat, limit: nat) -> nat {
    if n <= limit {
        n
    } else {
        limit
    }
}

/// Why a file is not opened, if it is not.
pub open spec fn open_fault(file: Seq<u8>) -> Option<ContainerFault> {
    if file.len() < HEADER_FIXED_SIZE {
        Some(ContainerFault::Io(IoFaultView::UnexpectedEof))
    } else if file.take(4) != q4nx_magic() {
        if is_safetensors(file) {
            None
        } else {
            Some(ContainerFault::InvalidMagic { expected: q4nx_magic(), found: file.take(4) })
        }
    } else if le_at(file, 4, 4) != Q4NX_CURRENT_VERSION {
        Some(ContainerFault::UnsupportedVersion(le_at(file, 4, 4) as u32))
    } else if le_at(file, 96, 8) % 64 != 0 {
        Some(ContainerFault::AlignmentError { offset: le_at(file, 96, 8) as u64 })
    } else if le_at(file, 72, 8) > 0 && read_fault(
        file,
        le_at(file, 64, 8),
        le_at(file, 72, 8),
    ) is Some {
        read_fault(file, le_at(file, 64, 8), le_at(file, 72, 8))
    } else {
        read_fault(
            file,
            le_at(file, 96, 8),
            at_most(le_at(file, 104, 8), PAYLOAD_SAMPLE_LIMIT as nat),
        )
    }
}

/// The hyperparameters in a container header.
pub open spec fn stored_hyperparams(file: Seq<u8>) -> ModelHyperparameters {
    hyperparams(
        le_at(file, 40, 4) as u32,
        le_at(file, 44, 4) as u32,
        le_at(file, 48, 4) as u32,
        le_at(file, 52, 4) as u32,
        le_at(file, 56, 4) as u32,
        le_at(file, 60, 4) as u32,
    )
}

/// The bytes of `file` from `offset` on, `size` of them; none where `size` is zero.
pub open spec fn stored_bytes(file: Seq<u8>, offset: nat, size: nat) -> Seq<u8> {
    if size == 0 {
        Seq::empty()
    } else {
        file.subrange(offset as int, (offset + size) as int)
    }
}

/// The text of a SafeTensors header as far as it is searched.
pub open spec fn header_probe(file: Seq<u8>) -> Seq<u8> {
    let n = at_most(le_at(file, 0, 8), SAFETENSORS_PROBE_LIMIT as nat);
    let have = at_most(n, (file.len() - 8) as nat);
    file.subrange(8, (8 + have) as int) + zeros((n - have) as nat)
}

/// The architecture that a SafeTensors container without a `config.json` is taken for.
pub open spec fn guessed_arch(stem: Seq<char>, header_text: Seq<char>) -> Seq<char> {
    if has_text(stem, "qwen"@) || has_text(header_text, "qwen"@) {
        "qwen2"@
    } else if has_text(stem, "gemma"@) || has_text(header_text, "gemma"@) {
        "gemma2"@
    } else {
        "llama"@
    }
}

/// `value`, or `fallback` where there is none.
pub open spec fn or_else(value: Option<u32>, fallback: u32) -> u32 {
    match value {
        Some(v) => v,
        None => fallback,
    }
}

/// The hyperparameters that a `config.json` states.
pub open spec fn config_hyperparams(cfg: Seq<char>) -> ModelHyperparameters {
    let heads = or_else(json_u32(cfg, "num_attention_heads"@), 32);
    hyperparams(
        or_else(json_u32(cfg, "hidden_size"@), 4096),
        heads,
        or_else(json_u32(cfg, "num_key_value_heads"@), heads),
        or_else(json_u32(cfg, "num_hidden_layers"@), 32),
        or_else(json_u32(cfg, "vocab_size"@), 128000),
        or_else(json_u32(cfg, "max_position_embeddings"@), 8192),
    )
}

// ---------------------------------------------------------------------------
// Values in JSON text
// ---------------------------------------------------------------------------

/// A key with its quotes.
pub open spec fn quoted(key: Seq<char>) -> Seq<char> {
    seq!['"'] + key + seq!['"']
}

/// The text behind the first occurrence of `mark` in `s`.
pub open spec fn text_after(s: Seq<char>, mark: Seq<char>) -> Option<Seq<char>> {
    if has_text(s, mark) {
        let i = choose|i: int| first_at(s, mark, i);
        Some(s.skip(i + mark.len()))
    } else {
        None
    }
}

/// The text behind the colon that follows the first occurrence of the quoted key.
pub open spec fn value_text(s: Seq<char>, key: Seq<char>) -> Option<Seq<char>> {
    match text_after(s, quoted(key)) {
        None => None,
        Some(rest) => match text_after(rest, seq![':']) {
            None => None,
            Some(v) => Some(trimmed_start(v)),
        },
    }
}

/// The number that follows a key.
pub open spec fn json_u32(s: Seq<char>, key: Seq<char>) -> Option<u32> {
    match value_text(s, key) {
        None => None,
        Some(v) => match parsed_digits(v.take(digit_run(v) as int), u32::MAX as nat) {
            Some(n) => Some(n as u32),
            None => None,
        },
    }
}

/// The text between the next two quotes behind a key.
pub open spec fn json_str(s: Seq<char>, key: Seq<char>) -> Option<Seq<char>> {
    match value_text(s, key) {
        None => None,
        Some(v) => match text_after(v, seq!['"']) {
            None => None,
            Some(rest) => if has_text(rest, seq!['"']) {
                Some(rest.take(choose|i: int| first_at(rest, seq!['"'], i)))
            } else {
                None
            },
        },
    }
}

proof fn lemma_first_at_unique(s: Seq<char>, mark: Seq<char>, i: int)
    requires
        first_at(s, mark, i),
    ensures
        has_text(s, mark),
        i == (choose|j: int| first_at(s, mark, j)),
        0 <= i,
        i + mark.len() <= s.len(),
{
    assert(crate::text::occurs_at(s, mark, i));
    let j = choose|j: int| first_at(s, mark, j);
    assert(first_at(s, mark, j));
    assert(crate::text::occurs_at(s, mark, j));
}

/// The text behind the first occurrence of `mark`.
fn skip_past(s: &[char], mark: &[char]) -> (r: Option<Vec<char>>)
    ensures
        match r {
            Some(v) => text_after(s@, mark@) == Some(v@),
            None => text_after(s@, mark@) is None,
        },
{
    match find_chars(s, mark) {
        None => None,
        Some(i) => {
            proof {
                lemma_first_at_unique(s@, mark@, i as int);
            }
            assert(s@.len() == s.len());
            let from: usize = i + mark.len();
            let mut out: Vec<char> = Vec::new();
            let mut k: usize = from;
            while k < s.len()
                invariant
                    from <= k <= s@.len(),
                    out@ == s@.subrange(from as int, k as int),
                decreases s@.len() - k,
            {
                out.push(s[k]);
                assert(out@ =~= s@.subrange(from as int, k + 1));
                k = k + 1;
            }
            assert(out@ =~= s@.skip(from as int));
            Some(out)
        },
    }
}

/// The text behind a key and its colon, without leading whitespace.
fn find_value(text: &str, key: &str) -> (r: Option<Vec<char>>)
    ensures
        match r {
            Some(v) => value_text(text@, key@) == Some(v@),
            None => value_text(text@, key@) is None,
        },
{
    let all = chars_of(text);
    let key_chars = chars_of(key);
    let mut pattern: Vec<char> = Vec::new();
    pattern.push('"');
    let mut k: usize = 0;
    while k < key_chars.len()
        invariant
            k <= key_chars@.len(),
            pattern@ == seq!['"'] + key_chars@.take(k as int),
        decreases key_chars@.len() - k,
    {
        pattern.push(key_chars[k]);
        assert(pattern@ =~= seq!['"'] + key_chars@.take(k + 1));
        k = k + 1;
    }
    pattern.push('"');
    assert(pattern@ =~= quoted(key@));
    match skip_past(&all, &pattern) {
        None => None,
        Some(after_key) => {
            let colon: Vec<char> = vec![':'];
            assert(colon@ =~= seq![':']);
            match skip_past(&after_key, &colon) {
                None => None,
                Some(v) => {
                    let n: usize = skip_whitespace(&v);
                    let mut out: Vec<char> = Vec::new();
                    let mut j: usize = n;
                    while j < v.len()
                        invariant
                            n <= j <= v@.len(),
                            out@ == v@.subrange(n as int, j as int),
                        decreases v@.len() - j,
                    {
                        out.push(v[j]);
                        assert(out@ =~= v@.subrange(n as int, j + 1));
                        j = j + 1;
                    }
                    assert(out@ =~= trimmed_start(v@));
                    Some(out)
                },
            }
        },
    }
}

/// The number that follows `key` in JSON text, where it is a run of digits that fits 32 bits.
pub fn extract_json_u32(text: &str, key: &str) -> (r: Option<u32>)
    ensures
        r == json_u32(text@, key@),
{
    match find_value(text, key) {
        None => None,
        Some(v) => {
            let n: usize = count_digits(&v);
            assert(v@.subrange(0, n as int) =~= v@.take(n as int));
            match parse_digits(&v[0..n], u32::MAX as u64) {
                None => None,
                Some(value) => Some(value as u32),
            }
        },
    }
}

/// The text between the next two quotes behind `key` in JSON text.
pub fn extract_json_str(text: &str, key: &str) -> (r: Option<String>)
    ensures
        match r {
            Some(s) => json_str(text@, key@) == Some(s@),
            None => json_str(text@, key@) is None,
        },
{
    let quote: Vec<char> = vec!['"'];
    assert(quote@ =~= seq!['"']);
    match find_value(text, key) {
        None => None,
        Some(v) => match skip_past(&v, &quote) {
            None => None,
            Some(rest) => match find_chars(&rest, &quote) {
                None => None,
                Some(i) => {
                    proof {
                        lemma_first_at_unique(rest@, quote@, i as int);
                        assert(rest@.subrange(0, i as int) =~= rest@.take(i as int));
                    }
                    Some(string_of(&rest[0..i]))
                },
            },
        },
    }
}

// ---------------------------------------------------------------------------
// The model
// ---------------------------------------------------------------------------

/// What writing a stamped container takes: the new front of the file, where it is written, and
/// the position in the present file from which the payload is copied behind it.
pub struct StampPlan {
    /// Path at which the stamped container ends up.
    pub out_path: String,
    /// Path to which it is written first.
    pub write_path: String,
    /// Whether `write_path` is renamed to `out_path` once it is complete.
    pub rename: bool,
    /// Header, XCLBIN and padding.
    pub prefix: Vec<u8>,
    /// Position of the payload in the present file.
    pub copy_from: u64,
}

/// The path that a stamp ends up at.
pub open spec fn stamp_target(current: Seq<char>, target: Option<&str>) -> Seq<char> {
    match target {
        Some(p) => p@,
        None => current,
    }
}

/// The header of a container after it was stamped with an XCLBIN of the given size.
pub open spec fn stamped_header(before: Q4nxHeader, xclbin_size: nat) -> Q4nxHeader {
    Q4nxHeader {
        version: Q4NX_CURRENT_VERSION,
        xclbin_offset: HEADER_FIXED_SIZE as u64,
        xclbin_size: xclbin_size as u64,
        tensor_table_offset: 0,
        tensor_table_count: 0,
        payload_offset: payload_start(xclbin_size) as u64,
        ..before
    }
}

/// The part of a file from `offset` on.
pub open spec fn rest_from(file: Seq<u8>, offset: nat) -> Seq<u8> {
    if offset <= file.len() {
        file.skip(offset as int)
    } else {
        Seq::empty()
    }
}

impl Q4nxModel {
    /// Path of the file that the model was read from.
    pub open spec fn path(&self) -> Seq<char> {
        self.file_path@
    }

    /// The embedded XCLBIN.
    pub open spec fn xclbin(&self) -> Seq<u8> {
        self.xclbin_data@
    }

    /// The part of the payload that was kept.
    pub open spec fn payload(&self) -> Seq<u8> {
        self.payload_data@
    }

    /// The model is what a container file with the magic bytes states.
    pub open spec fn holds_container(&self, path: Seq<char>, file: Seq<u8>) -> bool {
        &&& self.path() == path
        &&& self.header.version == Q4NX_CURRENT_VERSION
        &&& self.header.arch_name@ == decoded(name_bytes(file.subrange(8, 40)))
        &&& self.header.hyperparams == stored_hyperparams(file)
        &&& self.header.xclbin_offset as nat == le_at(file, 64, 8)
        &&& self.header.xclbin_size as nat == le_at(file, 72, 8)
        &&& self.header.tensor_table_offset as nat == le_at(file, 80, 8)
        &&& self.header.tensor_table_count as nat == le_at(file, 88, 8)
        &&& self.header.payload_offset as nat == le_at(file, 96, 8)
        &&& self.header.payload_size as nat == le_at(file, 104, 8)
        &&& self.xclbin() == stored_bytes(file, le_at(file, 64, 8), le_at(file, 72, 8))
        &&& self.payload() == stored_bytes(
            file,
            le_at(file, 96, 8),
            at_most(le_at(file, 104, 8), PAYLOAD_SAMPLE_LIMIT as nat),
        )
    }

    /// The model is what a SafeTensors file and the files beside it state.
    pub open spec fn holds_safetensors(&self, ctx: FileContext, file: Seq<u8>) -> bool {
        let offset = 8 + le_at(file, 0, 8);
        let size = if offset <= file.len() {
            (file.len() - offset) as nat
        } else {
            0
        };
        &&& self.path() == ctx.path@
        &&& self.header.version == 0
        &&& self.header.arch_name@ == safetensors_arch(ctx, file)
        &&& self.header.hyperparams == safetensors_hyperparams(ctx)
        &&& self.header.xclbin_offset == 0
        &&& self.header.xclbin_size as nat == self.xclbin().len()
        &&& self.header.tensor_table_offset == 8
        &&& self.header.tensor_table_count == 0
        &&& self.header.payload_offset as nat == offset
        &&& self.header.payload_size as nat == size
        &&& self.xclbin() == match ctx.layer_xclbin {
            Some(b) => b@,
            None => Seq::empty(),
        }
        &&& self.payload() == stored_bytes(
            file,
            offset,
            at_most(size, SAFETENSORS_SAMPLE_LIMIT as nat),
        )
    }

    /// The model is what a file and the files beside it state.
    pub open spec fn holds(&self, ctx: FileContext, file: Seq<u8>) -> bool {
        if file.take(4) == q4nx_magic() {
            self.holds_container(ctx.path@, file)
        } else {
            self.holds_safetensors(ctx, file)
        }
    }

    /// Reads a container from the bytes of its file.
    ///
    /// A file without the magic bytes is read as a SafeTensors container where it begins like
    /// one. Of the payload, at most the first 64 KiB (SafeTensors: 4 KiB) are kept.
    pub fn open(ctx: &FileContext, file: &[u8]) -> (r: Result<Q4nxModel, ContainerError>)
        ensures
            match r {
                Ok(m) => open_fault(file@) is None && m.holds(*ctx, file@),
                Err(e) => open_fault(file@) == Some(e@),
            },
    {
        if file.len() < HEADER_FIXED_SIZE {
            return Err(ContainerError::Io(IoFault::UnexpectedEof));
        }
        let magic_found: [u8; 4] = [file[0], file[1], file[2], file[3]];
        assert(magic_found@ =~= file@.take(4));
        if !(file[0] == 0x51 && file[1] == 0x34 && file[2] == 0x4E && file[3] == 0x58) {
            assert(file@.take(4) != q4nx_magic()) by {
                let t = file@.take(4);
                let m = q4nx_magic();
                assert(t[0] == file@[0] && t[1] == file@[1] && t[2] == file@[2] && t[3] == file@[3]);
                assert(m[0] == 0x51 && m[1] == 0x34 && m[2] == 0x4E && m[3] == 0x58);
            }
            let header_len: u64 = read_u64(file, 0);
            if header_len > 0 && header_len < 100_000_000 && file[8] == 0x7B {
                return Ok(Self::open_safetensors_q4nx(ctx, file));
            }
            let expected: [u8; 4] = [0x51, 0x34, 0x4E, 0x58];
            assert(expected@ =~= q4nx_magic());
            return Err(ContainerError::InvalidMagic { expected, found: magic_found });
        }
        assert(file@.take(4) =~= q4nx_magic());
        let version: u32 = read_u32(file, 4);
        if version != Q4NX_CURRENT_VERSION {
            return Err(ContainerError::UnsupportedVersion(version));
        }
        let arch_name = read_name(&file[8..40]);
        let hyperparams = ModelHyperparameters {
            hidden_dim: read_u32(file, 40),
            num_heads: read_u32(file, 44),
            num_kv_heads: read_u32(file, 48),
            num_layers: read_u32(file, 52),
            vocab_size: read_u32(file, 56),
            context_length: read_u32(file, 60),
        };
        let xclbin_offset: u64 = read_u64(file, 64);
        let xclbin_size: u64 = read_u64(file, 72);
        let tensor_table_offset: u64 = read_u64(file, 80);
        let tensor_table_count: u64 = read_u64(file, 88);
        let payload_offset: u64 = read_u64(file, 96);
        let payload_size: u64 = read_u64(file, 104);
        if payload_offset % 64 != 0 {
            return Err(ContainerError::AlignmentError { offset: payload_offset });
        }
        let xclbin_data = if xclbin_size > 0 {
            match read_range(file, xclbin_offset, xclbin_size) {
                Ok(b) => b,
                Err(e) => {
                    return Err(e);
                },
            }
        } else {
            Vec::new()
        };
        let sample: u64 = if payload_size <= PAYLOAD_SAMPLE_LIMIT {
            payload_size
        } else {
            PAYLOAD_SAMPLE_LIMIT
        };
        let payload_data = match read_range(file, payload_offset, sample) {
            Ok(b) => b,
            Err(e) => {
                return Err(e);
            },
        };
        let header = Q4nxHeader {
            version,
            arch_name,
            hyperparams,
            xclbin_offset,
            xclbin_size,
            tensor_table_offset,
            tensor_table_count,
            payload_offset,
            payload_size,
        };
        Ok(Q4nxModel { header, file_path: ctx.path.clone(), xclbin_data, payload_data })
    }

    /// Reads a SafeTensors-format container, with what lies beside it.
    fn open_safetensors_q4nx(ctx: &FileContext, file: &[u8]) -> (r: Q4nxModel)
        requires
            file@.len() >= HEADER_FIXED_SIZE,
            is_safetensors(file@),
        ensures
            r.holds_safetensors(*ctx, file@),
    {
        let header_len: u64 = read_u64(file, 0);
        let total: u64 = file.len() as u64;
        let (arch_name, hyperparams) = match &ctx.config {
            ConfigFile::Text(cfg) => {
                let arch = match extract_json_str(cfg.as_str(), "model_type") {
                    Some(model_type) => model_type,
                    None => "llama".to_owned(),
                };
                (arch, read_config_hyperparams(cfg.as_str()))
            },
            ConfigFile::Unreadable => ("llama".to_owned(), ModelHyperparameters::default()),
            ConfigFile::Absent => {
                let n: u64 = if header_len <= SAFETENSORS_PROBE_LIMIT {
                    header_len
                } else {
                    SAFETENSORS_PROBE_LIMIT
                };
                let have: u64 = if n <= total - 8 {
                    n
                } else {
                    total - 8
                };
                let mut probe = copy_range(file, 8, 8 + have as usize);
                push_zeros(&mut probe, (n - have) as usize);
                assert(probe@ =~= header_probe(file@));
                let header_text = utf8_lossy(&probe);
                let stem = to_lowercase(ctx.stem.as_str());
                (
                    guess_arch(stem.as_str(), header_text.as_str()),
                    ModelHyperparameters {
                        hidden_dim: 4096,
                        num_heads: 32,
                        num_kv_heads: 8,
                        num_layers: 32,
                        vocab_size: 128000,
                        context_length: 8192,
                    },
                )
            },
        };
        let payload_offset: u64 = 8 + header_len;
        let payload_size: u64 = if payload_offset <= total {
            total - payload_offset
        } else {
            0
        };
        let xclbin_data = match &ctx.layer_xclbin {
            Some(b) => {
                let c = copy_range(b.as_slice(), 0, b.len());
                assert(c@ =~= b@);
                c
            },
            None => Vec::new(),
        };
        let sample: u64 = if payload_size <= SAFETENSORS_SAMPLE_LIMIT {
            payload_size
        } else {
            SAFETENSORS_SAMPLE_LIMIT
        };
        let payload_data = if sample == 0 {
            Vec::new()
        } else {
            copy_range(file, payload_offset as usize, (payload_offset + sample) as usize)
        };
        let header = Q4nxHeader {
            version: 0,
            arch_name,
            hyperparams,
            xclbin_offset: 0,
            xclbin_size: xclbin_data.len() as u64,
            tensor_table_offset: 8,
            tensor_table_count: 0,
            payload_offset,
            payload_size,
        };
        Q4nxModel { header, file_path: ctx.path.clone(), xclbin_data, payload_data }
    }

    /// The bytes of a container with the given contents.
    pub fn create_container(
        arch_name: &str,
        hyperparams: ModelHyperparameters,
        xclbin_data: Option<&[u8]>,
        payload_data: &[u8],
    ) -> (r: Vec<u8>)
        requires
            xclbin_data is Some ==> xclbin_data->0@.len() <= isize::MAX,
        ensures
            r@ == container_image(
                encode_utf8(arch_name@),
                hyperparams,
                match xclbin_data {
                    Some(x) => x@,
                    None => Seq::empty(),
                },
                payload_data@,
            ),
    {
        let none: Vec<u8> = Vec::new();
        let xclbin: &[u8] = match xclbin_data {
            Some(x) => x,
            None => none.as_slice(),
        };
        let mut out = build_prefix(arch_name, &hyperparams, xclbin, payload_data.len() as u64);
        push_bytes(&mut out, payload_data);
        out
    }

    /// The embedded XCLBIN, if there is one.
    pub fn xclbin_bytes(&self) -> (r: Option<&[u8]>)
        ensures
            r is None <==> self.xclbin().len() == 0,
            r is Some ==> r->0@ == self.xclbin(),
    {
        if self.xclbin_data.len() == 0 {
            None
        } else {
            Some(self.xclbin_data.as_slice())
        }
    }

    /// The part of the payload that was kept.
    pub fn tensor_payload(&self) -> (r: &[u8])
        ensures
            r@ == self.payload(),
    {
        self.payload_data.as_slice()
    }

    /// Whether the container has an embedded XCLBIN.
    pub fn has_embedded_xclbin(&self) -> (r: bool)
        ensures
            r == (self.header.xclbin_size > 0 && self.xclbin().len() > 0),
    {
        self.header.xclbin_size > 0 && self.xclbin_data.len() > 0
    }

    /// What to write in order to give this container a new XCLBIN. Stamping a file in place
    /// goes through a temporary file beside it.
    pub fn plan_stamp(&self, new_xclbin: &[u8], target_path: Option<&str>) -> (r: Result<
        StampPlan,
        ContainerError,
    >)
        requires
            new_xclbin@.len() <= isize::MAX,
        ensures
            match r {
                Ok(plan) => {
                    &&& self.header.payload_offset <= i64::MAX
                    &&& plan.out_path@ == stamp_target(self.path(), target_path)
                    &&& plan.rename == (plan.out_path@ == self.path())
                    &&& plan.write_path@ == if plan.rename {
                        plan.out_path@ + ".tmp_stamp"@
                    } else {
                        plan.out_path@
                    }
                    &&& plan.prefix@ == container_prefix(
                        encode_utf8(self.header.arch_name@),
                        self.header.hyperparams,
                        new_xclbin@,
                        self.header.payload_size as nat,
                    )
                    &&& plan.copy_from == self.header.payload_offset
                },
                Err(e) => self.header.payload_offset > i64::MAX && e@ == ContainerFault::Io(IoFaultView::InvalidSeek,
                ),
            },
    {
        if self.header.payload_offset > i64::MAX as u64 {
            return Err(ContainerError::Io(IoFault::InvalidSeek));
        }
        let out_path: String = match target_path {
            Some(p) => p.to_owned(),
            None => self.file_path.clone(),
        };
        let rename: bool = same_text(out_path.as_str(), self.file_path.as_str());
        let mut write_path = out_path.clone();
        if rename {
            write_path.append(".tmp_stamp");
        }
        let prefix = build_prefix(
            self.header.arch_name.as_str(),
            &self.header.hyperparams,
            new_xclbin,
            self.header.payload_size,
        );
        Ok(
            StampPlan {
                out_path,
                write_path,
                rename,
                prefix,
                copy_from: self.header.payload_offset,
            },
        )
    }

    /// Takes over the XCLBIN, the header and the path of a stamp that was written.
    pub fn complete_stamp(&mut self, new_xclbin: &[u8], out_path: &str)
        requires
            new_xclbin@.len() <= isize::MAX,
        ensures
            final(self).header == stamped_header(old(self).header, new_xclbin@.len()),
            final(self).xclbin() == new_xclbin@,
            final(self).payload() == old(self).payload(),
            final(self).path() == out_path@,
    {
        self.xclbin_data = copy_range(new_xclbin, 0, new_xclbin.len());
        assert(new_xclbin@.subrange(0, new_xclbin@.len() as int) =~= new_xclbin@);
        let xclbin_size: u64 = new_xclbin.len() as u64;
        self.header.version = Q4NX_CURRENT_VERSION;
        self.header.xclbin_offset = HEADER_FIXED_SIZE as u64;
        self.header.xclbin_size = xclbin_size;
        self.header.tensor_table_offset = 0;
        self.header.tensor_table_count = 0;
        self.header.payload_offset = align_up_64(HEADER_FIXED_SIZE as u64 + xclbin_size);
        self.file_path = out_path.to_owned();
    }

    /// Gives this container a new XCLBIN, in place of the one that it has: returns the bytes of
    /// the stamped file, made from those of the present one, and updates the model to describe
    /// that file.
    pub fn stamp_xclbin(
        &mut self,
        new_xclbin: &[u8],
        target_path: Option<&str>,
        source: &[u8],
    ) -> (r: Result<Vec<u8>, ContainerError>)
        requires
            new_xclbin@.len() <= isize::MAX,
        ensures
            match r {
                Ok(image) => {
                    &&& old(self).header.payload_offset <= i64::MAX
                    &&& image@ == container_prefix(
                        encode_utf8(old(self).header.arch_name@),
                        old(self).header.hyperparams,
                        new_xclbin@,
                        old(self).header.payload_size as nat,
                    ) + rest_from(source@, old(self).header.payload_offset as nat)
                    &&& final(self).header == stamped_header(old(self).header, new_xclbin@.len())
                    &&& final(self).xclbin() == new_xclbin@
                    &&& final(self).payload() == old(self).payload()
                    &&& final(self).path() == stamp_target(old(self).path(), target_path)
                },
                Err(e) => {
                    &&& old(self).header.payload_offset > i64::MAX
                    &&& e@ == ContainerFault::Io(IoFaultView::InvalidSeek)
                    &&& *final(self) == *old(self)
                },
            },
    {
        match self.plan_stamp(new_xclbin, target_path) {
            Err(e) => Err(e),
            Ok(plan) => {
                let mut image = plan.prefix;
                if plan.copy_from <= source.len() as u64 {
                    let from: usize = plan.copy_from as usize;
                    push_bytes(&mut image, &source[from..source.len()]);
                    assert(source@.subrange(from as int, source@.len() as int) =~= source@.skip(
                        from as int,
                    ));
                } else {
                    assert(image@ + Seq::<u8>::empty() =~= image@);
                }
                self.complete_stamp(new_xclbin, plan.out_path.as_str());
                Ok(image)
            },
        }
    }
}

/// The architecture of a SafeTensors container.
pub open spec fn safetensors_arch(ctx: FileContext, file: Seq<u8>) -> Seq<char> {
    match ctx.config {
        ConfigFile::Text(cfg) => match json_str(cfg@, "model_type"@) {
            Some(s) => s,
            None => "llama"@,
        },
        ConfigFile::Unreadable => "llama"@,
        ConfigFile::Absent => guessed_arch(
            lowered(ctx.stem@),
            decoded(header_probe(file)),
        ),
    }
}

/// The architecture of an opened file.
pub open spec fn opened_arch(ctx: FileContext, file: Seq<u8>) -> Seq<char> {
    if file.take(4) == q4nx_magic() {
        decoded(name_bytes(file.subrange(8, 40)))
    } else {
        safetensors_arch(ctx, file)
    }
}

/// The hyperparameters of an opened file.
pub open spec fn opened_hyperparams(ctx: FileContext, file: Seq<u8>) -> ModelHyperparameters {
    if file.take(4) == q4nx_magic() {
        stored_hyperparams(file)
    } else {
        safetensors_hyperparams(ctx)
    }
}

/// The hyperparameters of a SafeTensors container.
pub open spec fn safetensors_hyperparams(ctx: FileContext) -> ModelHyperparameters {
    match ctx.config {
        ConfigFile::Text(cfg) => config_hyperparams(cfg@),
        ConfigFile::Unreadable => hyperparams(0, 0, 0, 0, 0, 0),
        ConfigFile::Absent => hyperparams(4096, 32, 8, 32, 128000, 8192),
    }
}

/// The bytes of the architecture field up to the first zero, as text.
fn read_name(field: &[u8]) -> (r: String)
    ensures
        r@ == decoded(name_bytes(field@)),
{
    let mut n: usize = 0;
    proof {
        assert(field@.skip(0) =~= field@);
        assert(field@.take(0) + name_bytes(field@) =~= name_bytes(field@));
    }
    while n < field.len() && field[n] != 0
        invariant
            n <= field@.len(),
            name_bytes(field@) == field@.take(n as int) + name_bytes(field@.skip(n as int)),
        ensures
            n <= field@.len(),
            name_bytes(field@) == field@.take(n as int) + name_bytes(field@.skip(n as int)),
            n < field@.len() ==> field@[n as int] == 0,
        decreases field@.len() - n,
    {
        proof {
            let rest = field@.skip(n as int);
            assert(rest[0] == field@[n as int]);
            assert(rest.skip(1) =~= field@.skip(n + 1));
            assert(name_bytes(field@) =~= field@.take(n + 1) + name_bytes(field@.skip(n + 1)));
        }
        n = n + 1;
    }
    proof {
        if n < field@.len() {
            assert(field@.skip(n as int)[0] == field@[n as int]);
        }
        assert(field@.subrange(0, n as int) =~= name_bytes(field@));
    }
    utf8_lossy(&field[0..n])
}

/// Reads `size` bytes at `offset`.
fn read_range(file: &[u8], offset: u64, size: u64) -> (r: Result<Vec<u8>, ContainerError>)
    ensures
        match r {
            Ok(b) => read_fault(file@, offset as nat, size as nat) is None && b@ == stored_bytes(
                file@,
                offset as nat,
                size as nat,
            ),
            Err(e) => read_fault(file@, offset as nat, size as nat) == Some(e@),
        },
{
    if offset > i64::MAX as u64 {
        return Err(ContainerError::Io(IoFault::InvalidSeek));
    }
    if size == 0 {
        return Ok(Vec::new());
    }
    let total: u64 = file.len() as u64;
    if offset > total || size > total - offset {
        return Err(ContainerError::Io(IoFault::UnexpectedEof));
    }
    Ok(copy_range(file, offset as usize, (offset + size) as usize))
}

/// The architecture that a SafeTensors container without a `config.json` is taken for, by its
/// lower-cased file name and the text of its header.
pub fn guess_arch(stem: &str, header_text: &str) -> (r: String)
    ensures
        r@ == guessed_arch(stem@, header_text@),
{
    if contains(stem, "qwen") || contains(header_text, "qwen") {
        "qwen2".to_owned()
    } else if contains(stem, "gemma") || contains(header_text, "gemma") {
        "gemma2".to_owned()
    } else {
        "llama".to_owned()
    }
}

/// The number behind `key`, or `fallback`.
fn json_u32_or(cfg: &str, key: &str, fallback: u32) -> (r: u32)
    ensures
        r == or_else(json_u32(cfg@, key@), fallback),
{
    match extract_json_u32(cfg, key) {
        Some(v) => v,
        None => fallback,
    }
}

/// The hyperparameters that a `config.json` states.
fn read_config_hyperparams(cfg: &str) -> (r: ModelHyperparameters)
    ensures
        r == config_hyperparams(cfg@),
{
    let heads: u32 = json_u32_or(cfg, "num_attention_heads", 32);
    ModelHyperparameters {
        hidden_dim: json_u32_or(cfg, "hidden_size", 4096),
        num_heads: heads,
        num_kv_heads: json_u32_or(cfg, "num_key_value_heads", heads),
        num_layers: json_u32_or(cfg, "num_hidden_layers", 32),
        vocab_size: json_u32_or(cfg, "vocab_size", 128000),
        context_length: json_u32_or(cfg, "max_position_embeddings", 8192),
    }
}

// ---------------------------------------------------------------------------
// Messages
// ---------------------------------------------------------------------------

/// Four bytes as a list of numbers.
pub open spec fn bytes_text(b: Seq<u8>) -> Seq<char> {
    "["@ + decimal(b[0] as nat) + ", "@ + decimal(b[1] as nat) + ", "@ + decimal(b[2] as nat)
        + ", "@ + decimal(b[3] as nat) + "]"@
}

/// What is said of a failed read or write.
pub open spec fn io_text(f: IoFaultView) -> Seq<char> {
    match f {
        IoFaultView::UnexpectedEof => "failed to fill whole buffer"@,
        IoFaultView::InvalidSeek => "Invalid argument (os error 22)"@,
        IoFaultView::InvalidData(s) => s,
        IoFaultView::NotFound(s) => s,
        IoFaultView::Os { code, text } => text + " (os error "@ + (if code < 0 {
            "-"@ + decimal((-code) as nat)
        } else {
            decimal(code as nat)
        }) + ")"@,
    }
}

/// What a user is told of an error.
pub open spec fn fault_text(f: ContainerFault) -> Seq<char> {
    match f {
        ContainerFault::Io(io) => "I/O error: "@ + io_text(io),
        ContainerFault::InvalidMagic { expected, found } =>
            "Invalid Q4NX magic bytes: expected "@ + bytes_text(expected) + ", found "@
            + bytes_text(found),
        ContainerFault::UnsupportedVersion(v) => "Unsupported Q4NX container version: "@
            + decimal(v as nat),
        ContainerFault::AlignmentError { offset } =>
            "Buffer alignment error: payload must be 64-byte aligned (offset: "@ + decimal(
            offset as nat,
        ) + ")"@,
        ContainerFault::CorruptedHeader(s) => "Corrupted container header: "@ + s,
        ContainerFault::UnsupportedQuantization(s) => "Unsupported quantization format: "@ + s,
    }
}

/// Four bytes as a list of numbers.
pub fn list_bytes(b: &[u8; 4]) -> (r: String)
    ensures
        r@ == bytes_text(b@),
{
    let b0 = decimal_text(b[0] as u64);
    let b1 = decimal_text(b[1] as u64);
    let b2 = decimal_text(b[2] as u64);
    let b3 = decimal_text(b[3] as u64);
    "[".to_owned().concat(b0.as_str()).concat(", ").concat(b1.as_str()).concat(", ").concat(
        b2.as_str(),
    ).concat(", ").concat(b3.as_str()).concat("]")
}

impl IoFault {
    /// What a user is told of the failure.
    pub fn message(&self) -> (r: String)
        ensures
            r@ == io_text(self@),
    {
        match self {
            IoFault::UnexpectedEof => "failed to fill whole buffer".to_owned(),
            IoFault::InvalidSeek => "Invalid argument (os error 22)".to_owned(),
            IoFault::InvalidData(s) => s.clone(),
            IoFault::NotFound(s) => s.clone(),
            IoFault::Os { code, text } => {
                let n: i64 = *code as i64;
                let number = if n < 0 {
                    let digits = decimal_text((-n) as u64);
                    "-".to_owned().concat(digits.as_str())
                } else {
                    decimal_text(n as u64)
                };
                text.as_str().to_owned().concat(" (os error ").concat(number.as_str()).concat(")")
            },
        }
    }
}

impl ContainerError {
    /// What a user is told of the error.
    pub fn message(&self) -> (r: String)
        ensures
            r@ == fault_text(self@),
    {
        match self {
            ContainerError::Io(f) => {
                let text = f.message();
                "I/O error: ".to_owned().concat(text.as_str())
            },
            ContainerError::InvalidMagic { expected, found } => {
                let e = list_bytes(expected);
                let f = list_bytes(found);
                "Invalid Q4NX magic bytes: expected ".to_owned().concat(e.as_str()).concat(
                    ", found ",
                ).concat(f.as_str())
            },
            ContainerError::UnsupportedVersion(v) => {
                let digits = decimal_text(*v as u64);
                "Unsupported Q4NX container version: ".to_owned().concat(digits.as_str())
            },
            ContainerError::AlignmentError { offset } => {
                let digits = decimal_text(*offset);
                "Buffer alignment error: payload must be 64-byte aligned (offset: ".to_owned().concat(
                digits.as_str()).concat(")")
            },
            ContainerError::CorruptedHeader(s) => "Corrupted container header: ".to_owned().concat(
                s.as_str(),
            ),
            ContainerError::UnsupportedQuantization(s) =>
                "Unsupported quantization format: ".to_owned().concat(s.as_str()),
        }
    }
}

} // verus!
