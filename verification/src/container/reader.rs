//! Reader of GGUF model files.
//!
//! A file is handed over as one slice, usually a memory mapping; tensors are handed out as views
//! into it, so weights are never copied.

use vstd::prelude::*;
use vstd::string::*;

use crate::bytes::{le_at, read_u32, read_u64};
use crate::container::dtype::{dtype_of, refusal_text, supported_on_apu};
pub use crate::container::dtype::TensorDType;
pub use crate::container::half::f16_to_f32;
use crate::container::tensor::{checked_product, product, product_fits};
pub use crate::container::tensor::{TensorDescriptor, TensorView};
pub use crate::container::tokenizer::{bpe_char_to_byte, byte_to_bpe_char, ModelTokenizer};
use crate::container::{hyperparams, ContainerError, ContainerFault, ModelHyperparameters};
use crate::string_map::StringMap;
use crate::text::{chars_of, decoded, ends_with, has_suffix, same_text, utf8_lossy};

verus! {

/// Magic bytes of a GGUF file: `GGUF`.
pub open spec fn gguf_magic() -> Seq<u8> {
    seq![0x47u8, 0x47u8, 0x55u8, 0x46u8]
}

// ---------------------------------------------------------------------------
// Metadata
// ---------------------------------------------------------------------------

/// What the metadata of a file states, and where reading has come to.
pub struct Metadata {
    pub cursor: nat,
    pub arch: Seq<char>,
    pub hp: ModelHyperparameters,
    pub alignment: u32,
    pub bos: u32,
    pub eos: u32,
    pub template: Option<Seq<char>>,
    pub tokens: Seq<Seq<char>>,
    pub ids: Map<Seq<char>, u64>,
}

/// What holds of a file that states nothing.
pub open spec fn default_metadata() -> Metadata {
    Metadata {
        cursor: 24,
        arch: "llama"@,
        hp: hyperparams(2048, 16, 4, 24, 128000, 8192),
        alignment: 32,
        bos: 1,
        eos: 2,
        template: None,
        tokens: Seq::empty(),
        ids: Map::empty(),
    }
}

/// The text in the `n` bytes at `at`.
pub open spec fn text_at(file: Seq<u8>, at: nat, n: nat) -> Seq<char> {
    decoded(file.subrange(at as int, (at + n) as int))
}

/// The size of a value of a scalar type.
pub open spec fn scalar_size(ty: nat) -> Option<nat> {
    if ty == 0 || ty == 1 || ty == 7 {
        Some(1)
    } else if ty == 2 || ty == 3 {
        Some(2)
    } else if ty == 4 || ty == 5 || ty == 6 {
        Some(4)
    } else if ty == 10 || ty == 11 || ty == 12 {
        Some(8)
    } else {
        None
    }
}

/// Takes over a number that the file states.
pub open spec fn with_number(m: Metadata, key: Seq<char>, v: u32) -> Metadata {
    if key == "general.alignment"@ {
        Metadata { alignment: v, ..m }
    } else if has_suffix(key, ".context_length"@) {
        Metadata { hp: ModelHyperparameters { context_length: v, ..m.hp }, ..m }
    } else if has_suffix(key, ".embedding_length"@) {
        Metadata { hp: ModelHyperparameters { hidden_dim: v, ..m.hp }, ..m }
    } else if has_suffix(key, ".block_count"@) {
        Metadata { hp: ModelHyperparameters { num_layers: v, ..m.hp }, ..m }
    } else if has_suffix(key, ".head_count"@) {
        Metadata { hp: ModelHyperparameters { num_heads: v, ..m.hp }, ..m }
    } else if has_suffix(key, ".head_count_kv"@) {
        Metadata { hp: ModelHyperparameters { num_kv_heads: v, ..m.hp }, ..m }
    } else if key == "tokenizer.ggml.bos_token_id"@ {
        Metadata { bos: v, ..m }
    } else if key == "tokenizer.ggml.eos_token_id"@ {
        Metadata { eos: v, ..m }
    } else {
        m
    }
}

/// Takes over a text that the file states.
pub open spec fn with_text(m: Metadata, key: Seq<char>, s: Seq<char>) -> Metadata {
    if key == "general.architecture"@ {
        Metadata { arch: s, ..m }
    } else if key == "tokenizer.chat_template"@ {
        Metadata { template: Some(s), ..m }
    } else {
        m
    }
}

/// Reads tokens `i` to `count` of a vocabulary, as far as the file has them.
pub open spec fn read_vocabulary(file: Seq<u8>, m: Metadata, i: nat, count: nat) -> Metadata
    decreases count - i,
{
    if i >= count || m.cursor + 8 > file.len() {
        m
    } else {
        let n = le_at(file, m.cursor as int, 8);
        if m.cursor + 8 + n > file.len() {
            Metadata { cursor: m.cursor + 8, ..m }
        } else {
            let tok = text_at(file, m.cursor + 8, n);
            read_vocabulary(
                file,
                Metadata {
                    cursor: m.cursor + 8 + n,
                    tokens: m.tokens.push(tok),
                    ids: m.ids.insert(tok, (i % 0x1_0000_0000) as u64),
                    ..m
                },
                i + 1,
                count,
            )
        }
    }
}

/// Where an array of texts that starts at `at` ends.
pub open spec fn skip_texts(file: Seq<u8>, at: nat, count: nat) -> nat
    decreases count,
{
    if count == 0 || at + 8 > file.len() {
        at
    } else {
        skip_texts(file, at + 8 + le_at(file, at as int, 8), (count - 1) as nat)
    }
}

/// Where an array that starts at `at` ends.
pub open spec fn array_end(file: Seq<u8>, at: nat, ty: nat, count: nat) -> nat {
    if ty == 8 {
        skip_texts(file, at, count)
    } else {
        match scalar_size(ty) {
            Some(size) => at + count * size,
            None => at,
        }
    }
}

/// Reads an array.
pub open spec fn read_array(file: Seq<u8>, key: Seq<char>, m: Metadata) -> Metadata {
    if m.cursor + 12 <= file.len() {
        let ty = le_at(file, m.cursor as int, 4);
        let count = le_at(file, m.cursor as int + 4, 8);
        let at = m.cursor + 12;
        if key == "tokenizer.ggml.tokens"@ && ty == 8 {
            let v = read_vocabulary(file, Metadata { cursor: at, ..m }, 0, count);
            Metadata {
                hp: ModelHyperparameters {
                    vocab_size: (v.tokens.len() % 0x1_0000_0000) as u32,
                    ..v.hp
                },
                ..v
            }
        } else {
            Metadata { cursor: array_end(file, at, ty, count), ..m }
        }
    } else {
        m
    }
}

/// Reads the value of a key. Nothing is read on where the type is not known.
pub open spec fn read_value(file: Seq<u8>, key: Seq<char>, ty: nat, m: Metadata) -> Option<
    Metadata,
> {
    if ty == 4 || ty == 5 || ty == 6 {
        let after = m.cursor + 4;
        let m2 = if after <= file.len() {
            with_number(m, key, le_at(file, m.cursor as int, 4) as u32)
        } else {
            m
        };
        Some(Metadata { cursor: after, ..m2 })
    } else if ty == 8 {
        if m.cursor + 8 <= file.len() {
            let n = le_at(file, m.cursor as int, 8);
            let after = m.cursor + 8 + n;
            let m2 = if after <= file.len() {
                with_text(m, key, text_at(file, m.cursor + 8, n))
            } else {
                m
            };
            Some(Metadata { cursor: after, ..m2 })
        } else {
            Some(m)
        }
    } else if ty == 9 {
        Some(read_array(file, key, m))
    } else {
        match scalar_size(ty) {
            Some(size) => Some(Metadata { cursor: m.cursor + size, ..m }),
            None => None,
        }
    }
}

/// Reads up to `n` pairs of keys and values.
pub open spec fn read_pairs(file: Seq<u8>, m: Metadata, n: nat) -> Metadata
    decreases n,
{
    if n == 0 || m.cursor + 12 > file.len() {
        m
    } else {
        let key_len = le_at(file, m.cursor as int, 8);
        if m.cursor + 8 + key_len + 4 > file.len() {
            Metadata { cursor: m.cursor + 8, ..m }
        } else {
            let key = text_at(file, m.cursor + 8, key_len);
            let ty = le_at(file, (m.cursor + 8 + key_len) as int, 4);
            let at = Metadata { cursor: m.cursor + 12 + key_len, ..m };
            match read_value(file, key, ty, at) {
                None => at,
                Some(m2) => read_pairs(file, m2, (n - 1) as nat),
            }
        }
    }
}

// ---------------------------------------------------------------------------
// Tensor directory
// ---------------------------------------------------------------------------

/// A [`TensorDescriptor`] as mathematical values.
pub struct TensorInfo {
    pub name: Seq<char>,
    pub shape: Seq<usize>,
    pub dtype: TensorDType,
    pub offset: nat,
    pub size: nat,
}

impl View for TensorDescriptor {
    type V = TensorInfo;

    open spec fn view(&self) -> TensorInfo {
        TensorInfo {
            name: self.name@,
            shape: self.shape@,
            dtype: self.dtype,
            offset: self.offset_bytes as nat,
            size: self.size_bytes as nat,
        }
    }
}

/// The bytes that `n` elements of a type take. Of types that are not listed two bytes are
/// counted for each element.
pub open spec fn tensor_bytes(d: TensorDType, n: nat) -> nat {
    match d {
        TensorDType::F32 => n * 4,
        TensorDType::F16 | TensorDType::BF16 => n * 2,
        TensorDType::Q8_0 => (n + 31) / 32 * 34,
        TensorDType::Q4_0 | TensorDType::IQ4_NL => (n + 31) / 32 * 18,
        TensorDType::Q4_K => (n + 255) / 256 * 144,
        _ => n * 2,
    }
}

/// What reading one entry of the directory comes to.
pub enum Entry {
    /// The file has no further entry; reading has come to this place.
    End(nat),
    /// The entry is not accepted.
    Fault(ContainerFault),
    /// A tensor, and where the next entry starts.
    Tensor(TensorInfo, nat),
}

/// The number of dimensions that the file has at `at`.
pub open spec fn dims_present(file: Seq<u8>, at: nat, n: nat) -> nat {
    if at + 8 * n <= file.len() {
        n
    } else {
        ((file.len() - at) / 8) as nat
    }
}

/// The dimensions at `at`.
pub open spec fn dims_at(file: Seq<u8>, at: nat, n: nat) -> Seq<usize> {
    Seq::new(n, |i: int| le_at(file, at + 8 * i, 8) as usize)
}

/// Every number that describes the tensor fits a machine word.
pub open spec fn entry_fits(file: Seq<u8>, at: nat, n: nat, d: TensorDType, offset: nat) -> bool {
    &&& forall|i: int| 0 <= i < n ==> #[trigger] le_at(file, at + 8 * i, 8) <= usize::MAX
    &&& product_fits(dims_at(file, at, n))
    &&& tensor_bytes(d, product(dims_at(file, at, n))) <= usize::MAX
    &&& offset <= usize::MAX
}

/// Reads the directory entry at `at`.
pub open spec fn entry_at(file: Seq<u8>, at: nat) -> Entry {
    if at + 8 > file.len() {
        Entry::End(at)
    } else {
        let name_len = le_at(file, at as int, 8);
        if at + 8 + name_len + 4 > file.len() {
            Entry::End(at + 8)
        } else {
            let name = text_at(file, at + 8, name_len);
            let dims = at + 12 + name_len;
            let n = dims_present(file, dims, le_at(file, (at + 8 + name_len) as int, 4));
            let end = dims + 8 * n;
            let d = dtype_of(le_at(file, end as int, 4) as u32);
            let offset = le_at(file, (end + 4) as int, 8);
            if end + 4 > file.len() {
                Entry::Fault(ContainerFault::CorruptedHeader(cut_entry_text()))
            } else if !supported_on_apu(d) {
                Entry::Fault(ContainerFault::UnsupportedQuantization(refusal_text(name, d)))
            } else if end + 12 > file.len() {
                Entry::Fault(ContainerFault::CorruptedHeader(cut_entry_text()))
            } else if !entry_fits(file, dims, n, d, offset) {
                Entry::Fault(ContainerFault::CorruptedHeader(huge_entry_text()))
            } else {
                Entry::Tensor(
                    TensorInfo {
                        name,
                        shape: dims_at(file, dims, n),
                        dtype: d,
                        offset,
                        size: tensor_bytes(d, product(dims_at(file, dims, n))),
                    },
                    end + 12,
                )
            }
        }
    }
}

pub open spec fn cut_entry_text() -> Seq<char> {
    "Tensor directory ends inside an entry"@
}

pub open spec fn huge_entry_text() -> Seq<char> {
    "Tensor size exceeds the address space"@
}

/// What reading the directory comes to.
pub enum Directory {
    Fault(ContainerFault),
    Tensors(Seq<TensorInfo>, nat),
}

/// Reads up to `n` entries from `at` on, behind those in `have`.
pub open spec fn read_directory(
    file: Seq<u8>,
    at: nat,
    n: nat,
    have: Seq<TensorInfo>,
) -> Directory
    decreases n,
{
    if n == 0 {
        Directory::Tensors(have, at)
    } else {
        match entry_at(file, at) {
            Entry::End(e) => Directory::Tensors(have, e),
            Entry::Fault(f) => Directory::Fault(f),
            Entry::Tensor(t, next) => read_directory(file, next, (n - 1) as nat, have.push(t)),
        }
    }
}

/// The number of each name's last tensor.
pub open spec fn name_index(list: Seq<TensorInfo>) -> Map<Seq<char>, u64>
    decreases list.len(),
{
    if list.len() == 0 {
        Map::empty()
    } else {
        name_index(list.drop_last()).insert(list.last().name, (list.len() - 1) as u64)
    }
}

/// `at` rounded up to a multiple of `alignment`, a power of two.
pub open spec fn aligned(at: u64, alignment: u64) -> u64 {
    ((at + alignment - 1) as u64) & !((alignment - 1) as u64)
}

/// The metadata of a file.
pub open spec fn metadata_of(file: Seq<u8>) -> Metadata {
    read_pairs(file, default_metadata(), le_at(file, 16, 8))
}

/// The directory of a file.
pub open spec fn directory_of(file: Seq<u8>) -> Directory {
    read_directory(file, metadata_of(file).cursor, le_at(file, 8, 8), Seq::empty())
}

/// Why a file is not opened, if it is not.
pub open spec fn gguf_fault(file: Seq<u8>) -> Option<ContainerFault> {
    if file.len() < 24 {
        Some(ContainerFault::CorruptedHeader("File too small to be GGUF"@))
    } else if file.take(4) != gguf_magic() {
        Some(ContainerFault::InvalidMagic { expected: gguf_magic(), found: file.take(4) })
    } else if le_at(file, 4, 4) != 2 && le_at(file, 4, 4) != 3 {
        Some(ContainerFault::UnsupportedVersion(le_at(file, 4, 4) as u32))
    } else {
        match directory_of(file) {
            Directory::Fault(f) => Some(f),
            Directory::Tensors(_, end) => {
                let alignment = metadata_of(file).alignment;
                if alignment == 0 {
                    Some(ContainerFault::CorruptedHeader("Alignment of zero"@))
                } else if end + alignment - 1 > u64::MAX {
                    Some(ContainerFault::CorruptedHeader("Header exceeds the address space"@))
                } else {
                    None
                }
            },
        }
    }
}

// ---------------------------------------------------------------------------
// Reading
// ---------------------------------------------------------------------------

/// Metadata while it is being read.
struct Loader {
    cursor: u128,
    arch_name: String,
    hyperparams: ModelHyperparameters,
    alignment: u32,
    tokenizer: ModelTokenizer,
}

impl View for Loader {
    type V = Metadata;

    closed spec fn view(&self) -> Metadata {
        Metadata {
            cursor: self.cursor as nat,
            arch: self.arch_name@,
            hp: self.hyperparams,
            alignment: self.alignment,
            bos: self.tokenizer.bos_token_id,
            eos: self.tokenizer.eos_token_id,
            template: match self.tokenizer.chat_template {
                Some(s) => Some(s@),
                None => None,
            },
            tokens: texts(self.tokenizer.tokens@),
            ids: self.tokenizer.token_to_id@,
        }
    }
}

/// The texts of a sequence of strings.
pub open spec fn texts(v: Seq<String>) -> Seq<Seq<char>> {
    v.map_values(|s: String| s@)
}

/// The text in the `n` bytes at `at`.
fn read_text(file: &[u8], at: usize, n: usize) -> (r: String)
    requires
        at + n <= file@.len(),
    ensures
        r@ == text_at(file@, at as nat, n as nat),
{
    assert(file@.len() == file.len());
    utf8_lossy(&file[at..at + n])
}

/// Where an array of texts that starts at `at` ends.
fn pass_texts(file: &[u8], at: u128, count: u64) -> (r: u128)
    requires
        at <= file@.len(),
    ensures
        r as nat == skip_texts(file@, at as nat, count as nat),
        r <= file@.len() + 0x1_0000_0000_0000_0008,
{
    let total: u128 = file.len() as u128;
    let mut p: u128 = at;
    let mut left: u64 = count;
    while left > 0 && p + 8 <= total
        invariant
            total == file@.len(),
            total <= u64::MAX,
                total <= usize::MAX,
            p <= total + 0x1_0000_0000_0000_0008,
            skip_texts(file@, p as nat, left as nat) == skip_texts(file@, at as nat, count as nat),
        ensures
            p <= total + 0x1_0000_0000_0000_0008,
            skip_texts(file@, p as nat, left as nat) == skip_texts(file@, at as nat, count as nat),
            left == 0 || p + 8 > total,
        decreases left,
    {
        let n: u64 = read_u64(file, p as usize);
        p = p + 8 + n as u128;
        left = left - 1;
    }
    p
}

/// Where an array that starts at `at` ends.
fn pass_array(file: &[u8], at: u128, ty: u32, count: u64) -> (r: u128)
    requires
        at <= file@.len(),
    ensures
        r as nat == array_end(file@, at as nat, ty as nat, count as nat),
        r <= file@.len() + 0x8_0000_0000_0000_0000,
{
    assert(file@.len() == file.len());
    match ty {
        8 => pass_texts(file, at, count),
        0 | 1 | 7 => {
            assert(scalar_size(ty as nat) == Some(1nat));
            at + count as u128
        },
        2 | 3 => {
            assert(scalar_size(ty as nat) == Some(2nat));
            at + count as u128 * 2
        },
        4 | 5 | 6 => {
            assert(scalar_size(ty as nat) == Some(4nat));
            at + count as u128 * 4
        },
        10 | 11 | 12 => {
            assert(scalar_size(ty as nat) == Some(8nat));
            at + count as u128 * 8
        },
        _ => at,
    }
}

impl Loader {
    /// Takes over a number that the file states.
    fn take_number(&mut self, key: &str, v: u32)
        requires
            old(self).tokenizer.wf(),
        ensures
            final(self)@ == with_number(old(self)@, key@, v),
            final(self).tokenizer.wf(),
    {
        if same_text(key, "general.alignment") {
            self.alignment = v;
        } else if ends_with(key, ".context_length") {
            self.hyperparams.context_length = v;
        } else if ends_with(key, ".embedding_length") {
            self.hyperparams.hidden_dim = v;
        } else if ends_with(key, ".block_count") {
            self.hyperparams.num_layers = v;
        } else if ends_with(key, ".head_count") {
            self.hyperparams.num_heads = v;
        } else if ends_with(key, ".head_count_kv") {
            self.hyperparams.num_kv_heads = v;
        } else if same_text(key, "tokenizer.ggml.bos_token_id") {
            self.tokenizer.bos_token_id = v;
        } else if same_text(key, "tokenizer.ggml.eos_token_id") {
            self.tokenizer.eos_token_id = v;
        }
    }

    /// Takes over a text that the file states.
    fn take_text(&mut self, key: &str, s: String)
        requires
            old(self).tokenizer.wf(),
        ensures
            final(self)@ == with_text(old(self)@, key@, s@),
            final(self).tokenizer.wf(),
    {
        if same_text(key, "general.architecture") {
            self.arch_name = s;
        } else if same_text(key, "tokenizer.chat_template") {
            self.tokenizer.chat_template = Some(s);
        }
    }

    /// Reads `count` tokens of a vocabulary, as far as the file has them.
    fn take_vocabulary(&mut self, file: &[u8], count: u64)
        requires
            old(self).tokenizer.wf(),
            old(self).cursor <= file@.len(),
        ensures
            final(self)@ == read_vocabulary(file@, old(self)@, 0, count as nat),
            final(self).tokenizer.wf(),
            final(self).cursor <= file@.len(),
    {
        let total: u128 = file.len() as u128;
        let mut i: u64 = 0;
        while i < count
            invariant
                total == file@.len(),
                total <= u64::MAX,
                total <= usize::MAX,
                i <= count,
                self.tokenizer.wf(),
                self.cursor <= total,
                read_vocabulary(file@, self@, i as nat, count as nat) == read_vocabulary(
                    file@,
                    old(self)@,
                    0,
                    count as nat,
                ),
            decreases count - i,
        {
            if self.cursor + 8 > total {
                return ;
            }
            let n: u64 = read_u64(file, self.cursor as usize);
            if self.cursor + 8 + n as u128 > total {
                self.cursor = self.cursor + 8;
                return ;
            }
            let tok = read_text(file, (self.cursor + 8) as usize, n as usize);
            let ghost before = self.tokenizer.tokens@;
            self.tokenizer.token_to_id.insert(tok.as_str(), i % 0x1_0000_0000);
            self.tokenizer.tokens.push(tok);
            self.cursor = self.cursor + 8 + n as u128;
            assert(texts(self.tokenizer.tokens@) =~= texts(before).push(tok@));
            i = i + 1;
        }
    }

    /// Reads an array.
    fn take_array(&mut self, file: &[u8], key: &str)
        requires
            old(self).tokenizer.wf(),
            old(self).cursor <= file@.len(),
        ensures
            final(self)@ == read_array(file@, key@, old(self)@),
            final(self).tokenizer.wf(),
            final(self).cursor <= file@.len() + 0x8_0000_0000_0000_0000,
    {
        assert(file@.len() == file.len());
        let total: u128 = file.len() as u128;
        if self.cursor + 12 <= total {
            let at: usize = self.cursor as usize;
            let ty: u32 = read_u32(file, at);
            let count: u64 = read_u64(file, at + 4);
            self.cursor = self.cursor + 12;
            if same_text(key, "tokenizer.ggml.tokens") && ty == 8 {
                self.take_vocabulary(file, count);
                let n: u64 = self.tokenizer.tokens.len() as u64;
                self.hyperparams.vocab_size = (n % 0x1_0000_0000) as u32;
            } else {
                self.cursor = pass_array(file, self.cursor, ty, count);
            }
        }
    }

    /// Reads the value of a key; false where its type is not known.
    fn take_value(&mut self, file: &[u8], key: &str, ty: u32) -> (r: bool)
        requires
            old(self).tokenizer.wf(),
            old(self).cursor <= file@.len(),
        ensures
            final(self).tokenizer.wf(),
            final(self).cursor <= file@.len() + 0x8_0000_0000_0000_0000,
            match read_value(file@, key@, ty as nat, old(self)@) {
                Some(m) => r && final(self)@ == m,
                None => !r && final(self)@ == old(self)@,
            },
    {
        assert(file@.len() == file.len());
        let total: u128 = file.len() as u128;
        match ty {
            0 | 1 | 7 => {
                self.cursor = self.cursor + 1;
                true
            },
            2 | 3 => {
                self.cursor = self.cursor + 2;
                true
            },
            4 | 5 | 6 => {
                if self.cursor + 4 <= total {
                    let v: u32 = read_u32(file, self.cursor as usize);
                    self.take_number(key, v);
                }
                self.cursor = self.cursor + 4;
                true
            },
            10 | 11 | 12 => {
                self.cursor = self.cursor + 8;
                true
            },
            8 => {
                if self.cursor + 8 <= total {
                    let at: usize = self.cursor as usize;
                    let n: u64 = read_u64(file, at);
                    if self.cursor + 8 + n as u128 <= total {
                        let s = read_text(file, at + 8, n as usize);
                        self.take_text(key, s);
                    }
                    self.cursor = self.cursor + 8 + n as u128;
                }
                true
            },
            9 => {
                self.take_array(file, key);
                true
            },
            _ => false,
        }
    }

    /// Reads up to `n` pairs of keys and values.
    fn take_pairs(&mut self, file: &[u8], n: u64)
        requires
            old(self).tokenizer.wf(),
            old(self).cursor <= file@.len(),
        ensures
            final(self)@ == read_pairs(file@, old(self)@, n as nat),
            final(self).tokenizer.wf(),
            final(self).cursor <= file@.len() + 0x8_0000_0000_0000_0000,
    {
        let total: u128 = file.len() as u128;
        let mut left: u64 = n;
        while left > 0
            invariant
                total == file@.len(),
                total <= u64::MAX,
                total <= usize::MAX,
                self.tokenizer.wf(),
                self.cursor <= total + 0x8_0000_0000_0000_0000,
                read_pairs(file@, self@, left as nat) == read_pairs(file@, old(self)@, n as nat),
            decreases left,
        {
            if self.cursor + 12 > total {
                return ;
            }
            let at: usize = self.cursor as usize;
            let key_len: u64 = read_u64(file, at);
            if self.cursor + 8 + key_len as u128 + 4 > total {
                self.cursor = self.cursor + 8;
                return ;
            }
            let key = read_text(file, at + 8, key_len as usize);
            let ty: u32 = read_u32(file, at + 8 + key_len as usize);
            self.cursor = self.cursor + 12 + key_len as u128;
            if !self.take_value(file, key.as_str(), ty) {
                return ;
            }
            left = left - 1;
        }
    }
}

/// The bytes that `n` elements of a type take, where that fits a machine word.
fn count_bytes(d: TensorDType, n: usize) -> (r: Option<usize>)
    ensures
        match r {
            Some(size) => size == tensor_bytes(d, n as nat),
            None => tensor_bytes(d, n as nat) > usize::MAX,
        },
{
    let wide: u128 = n as u128;
    let size: u128 = match d {
        TensorDType::F32 => wide * 4,
        TensorDType::F16 | TensorDType::BF16 => wide * 2,
        TensorDType::Q8_0 => (wide + 31) / 32 * 34,
        TensorDType::Q4_0 | TensorDType::IQ4_NL => (wide + 31) / 32 * 18,
        TensorDType::Q4_K => (wide + 255) / 256 * 144,
        _ => wide * 2,
    };
    if size <= usize::MAX as u128 {
        Some(size as usize)
    } else {
        None
    }
}

/// The dimensions at `at`; none where one of them does not fit a machine word.
fn read_dims(file: &[u8], at: usize, n: usize) -> (r: Option<Vec<usize>>)
    requires
        at + 8 * n <= file@.len(),
    ensures
        match r {
            Some(v) => v@ == dims_at(file@, at as nat, n as nat) && forall|i: int|
                0 <= i < n ==> #[trigger] le_at(file@, at + 8 * i, 8) <= usize::MAX,
            None => exists|i: int|
                0 <= i < n && #[trigger] le_at(file@, at + 8 * i, 8) > usize::MAX,
        },
{
    assert(file@.len() == file.len());
    let mut out: Vec<usize> = Vec::new();
    let mut i: usize = 0;
    while i < n
        invariant
            i <= n,
            at + 8 * n <= file@.len(),
            file@.len() <= usize::MAX,
            out@ == dims_at(file@, at as nat, i as nat),
            forall|k: int| 0 <= k < i ==> #[trigger] le_at(file@, at + 8 * k, 8) <= usize::MAX,
        decreases n - i,
    {
        let dim: u64 = read_u64(file, at + 8 * i);
        if dim > usize::MAX as u64 {
            assert(le_at(file@, at + 8 * i, 8) > usize::MAX);
            return None;
        }
        out.push(dim as usize);
        assert(out@ =~= dims_at(file@, at as nat, (i + 1) as nat));
        i = i + 1;
    }
    Some(out)
}

/// What reading one directory entry comes to.
enum ReadEntry {
    End(u128),
    Fault(ContainerError),
    Tensor(TensorDescriptor, u128),
}

/// Reads the directory entry at `at`.
fn read_entry(file: &[u8], at: u128) -> (r: ReadEntry)
    requires
        at <= file@.len() + 0x8_0000_0000_0000_0000,
    ensures
        match r {
            ReadEntry::End(e) => entry_at(file@, at as nat) == Entry::End(e as nat) && e <= at + 8,
            ReadEntry::Fault(f) => entry_at(file@, at as nat) == Entry::Fault(f@),
            ReadEntry::Tensor(t, next) => entry_at(file@, at as nat) == Entry::Tensor(
                t@,
                next as nat,
            ) && next <= file@.len(),
        },
{
    assert(file@.len() == file.len());
    let total: u128 = file.len() as u128;
    if at + 8 > total {
        return ReadEntry::End(at);
    }
    let start: usize = at as usize;
    let name_len: u64 = read_u64(file, start);
    if at + 8 + name_len as u128 + 4 > total {
        return ReadEntry::End(at + 8);
    }
    let name_end: usize = start + 8 + name_len as usize;
    let name = read_text(file, start + 8, name_len as usize);
    let stated: u32 = read_u32(file, name_end);
    let dims: usize = name_end + 4;
    let n: usize = if dims as u128 + 8 * stated as u128 <= total {
        stated as usize
    } else {
        (file.len() - dims) / 8
    };
    assert(n == dims_present(file@, dims as nat, stated as nat));
    let end: usize = dims + 8 * n;
    if end as u128 + 4 > total {
        return ReadEntry::Fault(
            ContainerError::CorruptedHeader("Tensor directory ends inside an entry".to_owned()),
        );
    }
    let dtype = TensorDType::from(read_u32(file, end));
    match dtype.validate_apu_support(name.as_str()) {
        Err(e) => {
            return ReadEntry::Fault(e);
        },
        Ok(_) => {},
    }
    if end as u128 + 12 > total {
        return ReadEntry::Fault(
            ContainerError::CorruptedHeader("Tensor directory ends inside an entry".to_owned()),
        );
    }
    let offset: u64 = read_u64(file, end + 4);
    let shape = match read_dims(file, dims, n) {
        Some(v) => v,
        None => {
            assert(!entry_fits(file@, dims as nat, n as nat, dtype, offset as nat));
            return ReadEntry::Fault(
                ContainerError::CorruptedHeader("Tensor size exceeds the address space".to_owned()),
            );
        },
    };
    let size: Option<usize> = match checked_product(shape.as_slice()) {
        Some(count) => count_bytes(dtype, count),
        None => None,
    };
    match size {
        Some(size_bytes) => {
            if offset > usize::MAX as u64 {
                return ReadEntry::Fault(
                    ContainerError::CorruptedHeader(
                        "Tensor size exceeds the address space".to_owned(),
                    ),
                );
            }
            let desc = TensorDescriptor {
                name,
                shape,
                dtype,
                offset_bytes: offset as usize,
                size_bytes,
            };
            ReadEntry::Tensor(desc, end as u128 + 12)
        },
        None => ReadEntry::Fault(
            ContainerError::CorruptedHeader("Tensor size exceeds the address space".to_owned()),
        ),
    }
}

/// The tensors of a list as mathematical values.
pub open spec fn infos(list: Seq<TensorDescriptor>) -> Seq<TensorInfo> {
    list.map_values(|t: TensorDescriptor| t@)
}

/// A GGUF file that has been read: its metadata, its tensors and the bytes they lie in.
pub struct GgufModelReader<'a> {
    pub data: &'a [u8],
    pub arch_name: String,
    pub hyperparams: ModelHyperparameters,
    pub tensors: StringMap,
    pub tensor_list: Vec<TensorDescriptor>,
    pub tokenizer: ModelTokenizer,
    pub data_offset: u64,
}

impl<'a> GgufModelReader<'a> {
    /// Names are found, and lead to the last tensor of that name.
    pub open spec fn wf(&self) -> bool {
        &&& self.tensors.wf()
        &&& self.tokenizer.wf()
        &&& self.tensors@ == name_index(infos(self.tensor_list@))
        &&& self.tensor_list@.len() <= u64::MAX
    }

    /// The reader holds what the file states.
    pub open spec fn holds_file(&self, file: Seq<u8>) -> bool {
        let m = metadata_of(file);
        let d = directory_of(file);
        &&& self.data@ == file
        &&& self.arch_name@ == m.arch
        &&& self.hyperparams == m.hp
        &&& self.tokenizer.bos_token_id == m.bos
        &&& self.tokenizer.eos_token_id == m.eos
        &&& match self.tokenizer.chat_template {
            Some(s) => m.template == Some(s@),
            None => m.template is None,
        }
        &&& texts(self.tokenizer.tokens@) == m.tokens
        &&& self.tokenizer.token_to_id@ == m.ids
        &&& d is Tensors
        &&& infos(self.tensor_list@) == d->Tensors_0
        &&& d->Tensors_1 <= u64::MAX
        &&& self.data_offset == aligned(d->Tensors_1 as u64, m.alignment as u64)
    }

    /// Reads a GGUF file from its bytes.
    pub fn open(file: &'a [u8]) -> (r: Result<GgufModelReader<'a>, ContainerError>)
        ensures
            match r {
                Ok(m) => gguf_fault(file@) is None && m.wf() && m.holds_file(file@),
                Err(e) => gguf_fault(file@) == Some(e@),
            },
    {
        if file.len() < 24 {
            return Err(ContainerError::CorruptedHeader("File too small to be GGUF".to_owned()));
        }
        let found: [u8; 4] = [file[0], file[1], file[2], file[3]];
        assert(found@ =~= file@.take(4));
        if !(file[0] == 0x47 && file[1] == 0x47 && file[2] == 0x55 && file[3] == 0x46) {
            assert(file@.take(4) != gguf_magic()) by {
                let t = file@.take(4);
                let m = gguf_magic();
                assert(t[0] == file@[0] && t[1] == file@[1] && t[2] == file@[2] && t[3] == file@[3]);
                assert(m[0] == 0x47 && m[1] == 0x47 && m[2] == 0x55 && m[3] == 0x46);
            }
            let expected: [u8; 4] = [0x47, 0x47, 0x55, 0x46];
            assert(expected@ =~= gguf_magic());
            return Err(ContainerError::InvalidMagic { expected, found });
        }
        assert(file@.take(4) =~= gguf_magic());
        let version: u32 = read_u32(file, 4);
        if version != 2 && version != 3 {
            return Err(ContainerError::UnsupportedVersion(version));
        }
        let tensor_count: u64 = read_u64(file, 8);
        let kv_count: u64 = read_u64(file, 16);
        let mut loader = Loader {
            cursor: 24,
            arch_name: "llama".to_owned(),
            hyperparams: ModelHyperparameters {
                hidden_dim: 2048,
                num_heads: 16,
                num_kv_heads: 4,
                num_layers: 24,
                vocab_size: 128000,
                context_length: 8192,
            },
            alignment: 32,
            tokenizer: ModelTokenizer::default(),
        };
        assert(loader@.tokens =~= Seq::<Seq<char>>::empty());
        assert(loader@ == default_metadata());
        loader.take_pairs(file, kv_count);
        let mut tensors = StringMap::new();
        let mut tensor_list: Vec<TensorDescriptor> = Vec::new();
        let mut cursor: u128 = loader.cursor;
        let mut left: u64 = tensor_count;
        let ghost start = cursor as nat;
        assert(infos(tensor_list@) =~= Seq::empty());
        while left > 0
            invariant_except_break
                read_directory(file@, cursor as nat, left as nat, infos(tensor_list@))
                    == read_directory(file@, start, tensor_count as nat, Seq::empty()),
            invariant
                file@.len() <= u64::MAX,
                left <= tensor_count,
                tensor_list@.len() == tensor_count - left,
                cursor <= file@.len() + 0x8_0000_0000_0000_0000,
                tensors.wf(),
                tensors@ == name_index(infos(tensor_list@)),
                start == metadata_of(file@).cursor,
                tensor_count == le_at(file@, 8, 8),
                file@.len() >= 24,
                file@.take(4) == gguf_magic(),
                le_at(file@, 4, 4) == 2 || le_at(file@, 4, 4) == 3,
            ensures
                cursor <= file@.len() + 0x8_0000_0000_0000_0008,
                tensors.wf(),
                tensors@ == name_index(infos(tensor_list@)),
                tensor_list@.len() <= tensor_count,
                Directory::Tensors(infos(tensor_list@), cursor as nat) == read_directory(
                    file@,
                    start,
                    tensor_count as nat,
                    Seq::empty(),
                ),
            decreases left,
        {
            match read_entry(file, cursor) {
                ReadEntry::End(e) => {
                    cursor = e;
                    break;
                },
                ReadEntry::Fault(f) => {
                    return Err(f);
                },
                ReadEntry::Tensor(t, next) => {
                    let ghost before = infos(tensor_list@);
                    tensors.insert(t.name.as_str(), tensor_list.len() as u64);
                    tensor_list.push(t);
                    proof {
                        assert(infos(tensor_list@) =~= before.push(t@));
                        assert(before.push(t@).drop_last() =~= before);
                    }
                    cursor = next;
                    left = left - 1;
                },
            }
        }
        if loader.alignment == 0 {
            return Err(ContainerError::CorruptedHeader("Alignment of zero".to_owned()));
        }
        if cursor + (loader.alignment - 1) as u128 > u64::MAX as u128 {
            return Err(
                ContainerError::CorruptedHeader("Header exceeds the address space".to_owned()),
            );
        }
        let alignment: u64 = loader.alignment as u64;
        let data_offset: u64 = (cursor as u64 + (alignment - 1)) & !(alignment - 1);
        Ok(
            GgufModelReader {
                data: file,
                arch_name: loader.arch_name,
                hyperparams: loader.hyperparams,
                tensors,
                tensor_list,
                tokenizer: loader.tokenizer,
                data_offset,
            },
        )
    }

    /// A view of a tensor's bytes; none where there is no tensor of that name, or where it does
    /// not lie within the file.
    pub fn get_tensor<'b>(&'b self, name: &str) -> (r: Option<TensorView<'b>>)
        requires
            self.wf(),
        ensures
            match r {
                Some(v) => {
                    let i = self.tensors@[name@] as int;
                    let t = self.tensor_list@[i]@;
                    &&& self.tensors@.contains_key(name@)
                    &&& i < self.tensor_list@.len()
                    &&& t.name == name@
                    &&& self.data_offset + t.offset + t.size <= self.data@.len()
                    &&& v.name@ == t.name
                    &&& v.shape@ == t.shape
                    &&& v.dtype == t.dtype
                    &&& v.data@ == self.data@.subrange(
                        self.data_offset + t.offset,
                        self.data_offset + t.offset + t.size,
                    )
                },
                None => self.tensors@.contains_key(name@) ==> {
                    let t = self.tensor_list@[self.tensors@[name@] as int]@;
                    self.data_offset + t.offset + t.size > self.data@.len()
                },
            },
    {
        let key = chars_of(name);
        match self.tensors.get(&key) {
            None => None,
            Some(i) => {
                proof {
                    law_names_lead_to_their_last_tensor(infos(self.tensor_list@), name@);
                    assert(infos(self.tensor_list@)[i as int] == self.tensor_list@[i as int]@);
                }
                assert(self.tensor_list@.len() == self.tensor_list.len());
                let desc: &TensorDescriptor = &self.tensor_list[i as usize];
                let from: u128 = self.data_offset as u128 + desc.offset_bytes as u128;
                let to: u128 = from + desc.size_bytes as u128;
                if to > self.data.len() as u128 {
                    return None;
                }
                Some(
                    TensorView {
                        name: desc.name.as_str(),
                        shape: desc.shape.as_slice(),
                        dtype: desc.dtype,
                        data: &self.data[from as usize..to as usize],
                    },
                )
            },
        }
    }

    /// The number of different tensor names.
    pub fn tensor_count(&self) -> (r: usize)
        requires
            self.wf(),
        ensures
            r == name_index(infos(self.tensor_list@)).len(),
    {
        self.tensors.len()
    }
}

// ---------------------------------------------------------------------------
// Laws
// ---------------------------------------------------------------------------

/// A name leads to a tensor of that name, behind which no other has it.
pub proof fn law_names_lead_to_their_last_tensor(list: Seq<TensorInfo>, name: Seq<char>)
    requires
        list.len() <= u64::MAX,
    ensures
        name_index(list).contains_key(name) <==> exists|i: int|
            0 <= i < list.len() && #[trigger] list[i].name == name,
        name_index(list).contains_key(name) ==> {
            let i = name_index(list)[name] as int;
            &&& i < list.len()
            &&& list[i].name == name
            &&& forall|j: int| i < j < list.len() ==> #[trigger] list[j].name != name
        },
    decreases list.len(),
{
    if list.len() > 0 {
        let rest = list.drop_last();
        law_names_lead_to_their_last_tensor(rest, name);
        assert forall|i: int| 0 <= i < rest.len() implies #[trigger] rest[i] == list[i] by {}
        if list.last().name == name {
            assert(list[list.len() - 1].name == name);
        } else {
            if name_index(rest).contains_key(name) {
                let i = name_index(rest)[name] as int;
                assert(list[i].name == name);
                assert forall|j: int| i < j < list.len() implies #[trigger] list[j].name
                    != name by {
                    if j < rest.len() {
                        assert(rest[j].name != name);
                    }
                }
            }
            if exists|i: int| 0 <= i < list.len() && #[trigger] list[i].name == name {
                let i = choose|i: int| 0 <= i < list.len() && #[trigger] list[i].name == name;
                assert(rest[i].name == name);
            }
        }
    }
}

/// Every tensor of a directory that was read has a type that the hardware takes.
pub proof fn law_listed_tensors_are_supported(file: Seq<u8>, at: nat, n: nat, have: Seq<TensorInfo>)
    requires
        forall|i: int| 0 <= i < have.len() ==> supported_on_apu((#[trigger] have[i]).dtype),
    ensures
        match read_directory(file, at, n, have) {
            Directory::Tensors(list, _) => forall|i: int|
                0 <= i < list.len() ==> supported_on_apu((#[trigger] list[i]).dtype),
            Directory::Fault(_) => true,
        },
    decreases n,
{
    if n > 0 {
        match entry_at(file, at) {
            Entry::Tensor(t, next) => {
                law_listed_tensors_are_supported(file, next, (n - 1) as nat, have.push(t));
            },
            _ => {},
        }
    }
}

/// The tensor data starts behind the directory, less than one alignment further on, and at a
/// multiple of the alignment where that is a power of two.
pub proof fn law_data_is_aligned(at: u64, alignment: u64)
    requires
        alignment > 0,
        at + alignment - 1 <= u64::MAX,
    ensures
        at <= aligned(at, alignment) < at + alignment,
        forall|k: nat|
            k < 64 && alignment == #[trigger] vstd::arithmetic::power2::pow2(k) ==> aligned(
                at,
                alignment,
            ) % alignment == 0,
{
    let m = (alignment - 1) as u64;
    let x = (at + alignment - 1) as u64;
    assert((x & !m) + (x & m) == x && (x & m) <= m && (x & !m) <= x && ((x & !m) & m) == 0)
        by (bit_vector);
    assert forall|k: nat|
        k < 64 && alignment == #[trigger] vstd::arithmetic::power2::pow2(k) implies aligned(
        at,
        alignment,
    ) % alignment == 0 by {
        let r = aligned(at, alignment);
        vstd::bits::lemma_u64_low_bits_mask_is_mod(r, k);
        assert(vstd::bits::low_bits_mask(k) == m);
        assert(r & m == 0);
    }
}

} // verus!
