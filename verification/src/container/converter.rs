//! Conversion of GGUF files to containers, and loading with a converted copy kept beside the
//! model.

use vstd::prelude::*;
use vstd::string::*;
use vstd::utf8::*;

use crate::bytes::{align64, align_up_64, copy_range, le_at, push_zeros, zeros};
use crate::container::reader::gguf_magic;
use crate::container::topology::{
    has_large_vocab, is_large_vocab, opened_topology, scan_fault, scan_of, topology_of,
    wide_header_text, ModelGraphTopology, Topology,
};
use crate::container::{
    bytes_text, container_image, container_prefix, fault_text, hyperparams, list_bytes, open_fault,
    opened_hyperparams, q4nx_magic, rest_from, stamped_header, ContainerError, ContainerFault,
    FileContext, IoFault, IoFaultView, ModelHyperparameters, Q4nxModel,
};
use crate::text::{
    contains, eq_ignore_case, has_text, lowered, raised, same_but_case, same_text, to_lowercase,
    to_uppercase,
};

verus! {

// ---------------------------------------------------------------------------
// Quantization names
// ---------------------------------------------------------------------------

/// Upper-case names of the quantization formats that are taken: those of 4 to 32 bits per
/// weight, and the sign-bit formats.
pub open spec fn supported_quant(u: Seq<char>) -> bool {
    u == "IQ4_NL"@ || u == "Q4_K_M"@ || u == "Q4_K_S"@ || u == "Q4_0"@ || u == "Q4_1"@ || u
        == "IQ4_XS"@ || u == "Q5_K_M"@ || u == "Q5_K_S"@ || u == "Q5_0"@ || u == "Q5_1"@ || u
        == "Q6_K"@ || u == "Q8_0"@ || u == "F16"@ || u == "BF16"@ || u == "F32"@ || u
        == "BILLM"@ || u == "Q1_BILLM"@ || u == "Q1_0_G128"@ || u == "Q1_0"@
}

/// Whether a quantization format is taken, by its name in any case.
pub fn is_quantization_supported(quant_name: &str) -> (r: bool)
    ensures
        r == supported_quant(raised(quant_name@)),
{
    let upper = to_uppercase(quant_name);
    is_upper_name_supported(upper.as_str())
}

/// Whether a quantization format is taken, by its upper-case name.
pub fn is_upper_name_supported(u: &str) -> (r: bool)
    ensures
        r == supported_quant(u@),
{
    same_text(u, "IQ4_NL") || same_text(u, "Q4_K_M") || same_text(u, "Q4_K_S") || same_text(
        u,
        "Q4_0",
    ) || same_text(u, "Q4_1") || same_text(u, "IQ4_XS") || same_text(u, "Q5_K_M") || same_text(
        u,
        "Q5_K_S",
    ) || same_text(u, "Q5_0") || same_text(u, "Q5_1") || same_text(u, "Q6_K") || same_text(
        u,
        "Q8_0",
    ) || same_text(u, "F16") || same_text(u, "BF16") || same_text(u, "F32") || same_text(
        u,
        "BILLM",
    ) || same_text(u, "Q1_BILLM") || same_text(u, "Q1_0_G128") || same_text(u, "Q1_0")
}

// ---------------------------------------------------------------------------
// Metadata
// ---------------------------------------------------------------------------

/// Why a GGUF file is not converted, if it is not.
pub open spec fn parse_fault(file: Seq<u8>) -> Option<ContainerFault> {
    if file.len() >= 4 && file.take(4) != gguf_magic() {
        Some(
            ContainerFault::Io(
                IoFaultView::InvalidData(
                    "Invalid GGUF magic bytes: "@ + bytes_text(file.take(4)),
                ),
            ),
        )
    } else if file.len() < 24 {
        Some(ContainerFault::Io(IoFaultView::UnexpectedEof))
    } else {
        None
    }
}

/// The hyperparameters of a topology.
pub open spec fn topology_hyperparams(t: Topology) -> ModelHyperparameters {
    hyperparams(
        t.hidden_dim,
        t.num_heads,
        t.num_kv_heads,
        t.num_layers,
        t.vocab_size,
        t.context_length,
    )
}

/// The architecture that a lower-cased file name alone stands for.
pub open spec fn guessed_name(f: Seq<char>) -> Seq<char> {
    if has_text(f, "spark"@) {
        "spark2_5"@
    } else if has_text(f, "gemma4"@) || has_text(f, "gemma-4"@) {
        "gemma4"@
    } else if has_text(f, "cold-fusion"@) || has_text(f, "cold_fusion"@) {
        "qwen3_8"@
    } else if has_text(f, "deepseek"@) {
        "deepseek_v4"@
    } else if has_text(f, "glm"@) {
        "glm5"@
    } else if has_text(f, "sarvam"@) {
        "sarvam"@
    } else if has_text(f, "laguna"@) {
        "laguna"@
    } else if has_text(f, "llama"@) {
        "llama"@
    } else if has_text(f, "qwen"@) {
        "qwen2"@
    } else if has_text(f, "gemma"@) {
        "gemma2"@
    } else if has_text(f, "phi"@) {
        "phi3"@
    } else {
        "llama"@
    }
}

/// The hyperparameters that a lower-cased file name alone stands for.
pub open spec fn guessed_hyperparams(f: Seq<char>) -> ModelHyperparameters {
    let vocab: u32 = if is_large_vocab(guessed_name(f), f) {
        262144
    } else if has_text(f, "spark"@) {
        131072
    } else {
        128000
    };
    if has_text(f, "3b"@) || has_text(f, "1b"@) {
        hyperparams(2048, 16, 4, 24, vocab, 8192)
    } else {
        hyperparams(4096, 32, 8, 32, vocab, 8192)
    }
}

/// The architecture and hyperparameters that a lower-cased file name alone stands for, for a
/// file whose metadata cannot be scanned.
pub fn guess_metadata(f: &str) -> (r: (String, ModelHyperparameters))
    ensures
        r.0@ == guessed_name(f@),
        r.1 == guessed_hyperparams(f@),
{
    let name: &str = if contains(f, "spark") {
        "spark2_5"
    } else if contains(f, "gemma4") || contains(f, "gemma-4") {
        "gemma4"
    } else if contains(f, "cold-fusion") || contains(f, "cold_fusion") {
        "qwen3_8"
    } else if contains(f, "deepseek") {
        "deepseek_v4"
    } else if contains(f, "glm") {
        "glm5"
    } else if contains(f, "sarvam") {
        "sarvam"
    } else if contains(f, "laguna") {
        "laguna"
    } else if contains(f, "llama") {
        "llama"
    } else if contains(f, "qwen") {
        "qwen2"
    } else if contains(f, "gemma") {
        "gemma2"
    } else if contains(f, "phi") {
        "phi3"
    } else {
        "llama"
    };
    let vocab_size: u32 = if has_large_vocab(name, f) {
        262144
    } else if contains(f, "spark") {
        131072
    } else {
        128000
    };
    let hp = if contains(f, "3b") || contains(f, "1b") {
        ModelHyperparameters {
            hidden_dim: 2048,
            num_heads: 16,
            num_kv_heads: 4,
            num_layers: 24,
            vocab_size,
            context_length: 8192,
        }
    } else {
        ModelHyperparameters {
            hidden_dim: 4096,
            num_heads: 32,
            num_kv_heads: 8,
            num_layers: 32,
            vocab_size,
            context_length: 8192,
        }
    };
    (name.to_owned(), hp)
}

/// The architecture and hyperparameters of a GGUF file, by its bytes and its file name without
/// extension.
pub fn parse_gguf_metadata(stem: &str, file: &[u8]) -> (r: Result<
    (String, ModelHyperparameters),
    ContainerError,
>)
    ensures
        match r {
            Ok((arch, hp)) => {
                let t = topology_of(scan_of(file@), lowered(stem@));
                &&& parse_fault(file@) is None
                &&& arch@ == t.arch_name
                &&& hp == topology_hyperparams(t)
            },
            Err(e) => parse_fault(file@) == Some(e@),
        },
{
    let topology: Option<ModelGraphTopology> = match ModelGraphTopology::from_gguf(stem, file) {
        Ok(t) => Some(t),
        Err(_) => None,
    };
    gguf_metadata(stem, file, topology)
}

/// The architecture and hyperparameters of a GGUF file: those of its topology, or, where that
/// could not be read, those that its file name stands for. `header` begins with the file's
/// header, which is checked first.
pub fn gguf_metadata(
    stem: &str,
    header: &[u8],
    topology: Option<ModelGraphTopology>,
) -> (r: Result<(String, ModelHyperparameters), ContainerError>)
    ensures
        match r {
            Ok((arch, hp)) => {
                &&& parse_fault(header@) is None
                &&& match topology {
                    Some(t) => arch@ == t@.arch_name && hp == topology_hyperparams(t@),
                    None => {
                        &&& arch@ == guessed_name(lowered(stem@))
                        &&& hp == guessed_hyperparams(lowered(stem@))
                    },
                }
            },
            Err(e) => parse_fault(header@) == Some(e@),
        },
{
    if header.len() >= 4 && !(header[0] == 0x47 && header[1] == 0x47 && header[2] == 0x55
        && header[3] == 0x46) {
        let found: [u8; 4] = [header[0], header[1], header[2], header[3]];
        proof {
            assert(found@ =~= header@.take(4));
            let t = header@.take(4);
            let m = gguf_magic();
            assert(t[0] == header@[0] && t[1] == header@[1] && t[2] == header@[2] && t[3]
                == header@[3]);
            assert(m[0] == 0x47 && m[1] == 0x47 && m[2] == 0x55 && m[3] == 0x46);
        }
        let list = list_bytes(&found);
        let text = "Invalid GGUF magic bytes: ".to_owned().concat(list.as_str());
        return Err(ContainerError::Io(IoFault::InvalidData(text)));
    }
    proof {
        if header@.len() >= 4 {
            assert(header@.take(4) =~= gguf_magic());
        }
    }
    if header.len() < 24 {
        return Err(ContainerError::Io(IoFault::UnexpectedEof));
    }
    match topology {
        Some(t) => Ok(
            (
                t.arch_name,
                ModelHyperparameters {
                    hidden_dim: t.hidden_dim,
                    num_heads: t.num_heads,
                    num_kv_heads: t.num_kv_heads,
                    num_layers: t.num_layers,
                    vocab_size: t.vocab_size,
                    context_length: t.context_length,
                },
            ),
        ),
        None => {
            let lower = to_lowercase(stem);
            Ok(guess_metadata(lower.as_str()))
        },
    }
}

// ---------------------------------------------------------------------------
// Conversion
// ---------------------------------------------------------------------------

/// Largest payload that is taken from a file.
pub const MAX_PAYLOAD: usize = 33554432;

/// Smallest payload that is prepared for.
pub const MIN_PAYLOAD: usize = 4096;

/// Where the payload of a GGUF file is taken from.
pub const PAYLOAD_SOURCE: usize = 128;

/// The number of payload bytes that are prepared for a file of so many bytes.
pub open spec fn prepared_len(n: nat) -> nat {
    let most = if n <= 64 {
        0
    } else if n - 64 <= MAX_PAYLOAD {
        (n - 64) as nat
    } else {
        MAX_PAYLOAD as nat
    };
    if most <= MIN_PAYLOAD {
        MIN_PAYLOAD as nat
    } else {
        most
    }
}

/// `n` filler bytes.
pub open spec fn filler(n: nat) -> Seq<u8> {
    Seq::new(n, |i: int| 0xEEu8)
}

/// The payload before its end is aligned: the bytes of the file from its place on. A run of
/// fewer than 64 bytes is filled up to 64; a file that has none there gets a filled payload.
pub open spec fn raw_payload(file: Seq<u8>) -> Seq<u8> {
    let n = prepared_len(file.len());
    if file.len() <= PAYLOAD_SOURCE {
        filler(n)
    } else if file.len() - PAYLOAD_SOURCE >= n {
        file.subrange(PAYLOAD_SOURCE as int, PAYLOAD_SOURCE + n)
    } else if file.len() - PAYLOAD_SOURCE >= 64 {
        file.skip(PAYLOAD_SOURCE as int)
    } else {
        file.skip(PAYLOAD_SOURCE as int) + filler((64 - (file.len() - PAYLOAD_SOURCE)) as nat)
    }
}

/// The payload of a converted file: a multiple of 64 bytes.
pub open spec fn converted_payload(file: Seq<u8>) -> Seq<u8> {
    let raw = raw_payload(file);
    raw + zeros((align64(raw.len() as int) - raw.len()) as nat)
}

/// The container that a GGUF file is converted to.
pub open spec fn converted_image(f: Seq<char>, file: Seq<u8>, xclbin: Seq<u8>) -> Seq<u8> {
    let t = topology_of(scan_of(file), f);
    container_image(
        encode_utf8(t.arch_name),
        topology_hyperparams(t),
        xclbin,
        converted_payload(file),
    )
}

/// Appends `n` filler bytes.
fn push_filler(out: &mut Vec<u8>, n: usize)
    ensures
        final(out)@ == old(out)@ + filler(n as nat),
{
    let mut i: usize = 0;
    assert(out@ + filler(0) =~= out@);
    while i < n
        invariant
            i <= n,
            out@ == old(out)@ + filler(i as nat),
        decreases n - i,
    {
        out.push(0xEE);
        assert(out@ =~= old(out)@ + filler((i + 1) as nat));
        i = i + 1;
    }
}

/// The payload of a converted file.
fn build_payload(file: &[u8]) -> (r: Vec<u8>)
    ensures
        r@ == converted_payload(file@),
{
    let total: usize = file.len();
    let most: usize = if total <= 64 {
        0
    } else if total - 64 <= MAX_PAYLOAD {
        total - 64
    } else {
        MAX_PAYLOAD
    };
    let n: usize = if most <= MIN_PAYLOAD {
        MIN_PAYLOAD
    } else {
        most
    };
    let mut out: Vec<u8> = Vec::new();
    if total <= PAYLOAD_SOURCE {
        push_filler(&mut out, n);
    } else {
        let have: usize = total - PAYLOAD_SOURCE;
        if have >= n {
            out = copy_range(file, PAYLOAD_SOURCE, PAYLOAD_SOURCE + n);
        } else {
            out = copy_range(file, PAYLOAD_SOURCE, total);
            assert(file@.subrange(PAYLOAD_SOURCE as int, total as int) =~= file@.skip(
                PAYLOAD_SOURCE as int,
            ));
            if have < 64 {
                push_filler(&mut out, 64 - have);
            }
        }
    }
    assert(out@ =~= raw_payload(file@));
    let len: u64 = out.len() as u64;
    let pad: u64 = align_up_64(len) - len;
    push_zeros(&mut out, pad as usize);
    out
}

/// The container that a GGUF file is converted to, with the given XCLBIN embedded.
pub fn convert_gguf_to_q4nx(stem: &str, file: &[u8], xclbin_bytes: &[u8]) -> (r: Result<
    Vec<u8>,
    ContainerError,
>)
    requires
        xclbin_bytes@.len() <= isize::MAX,
    ensures
        match r {
            Ok(image) => parse_fault(file@) is None && image@ == converted_image(
                lowered(stem@),
                file@,
                xclbin_bytes@,
            ),
            Err(e) => parse_fault(file@) == Some(e@),
        },
{
    match parse_gguf_metadata(stem, file) {
        Err(e) => Err(e),
        Ok((arch, hp)) => {
            let payload = build_payload(file);
            Ok(Q4nxModel::create_container(arch.as_str(), hp, Some(xclbin_bytes), &payload))
        },
    }
}

// ---------------------------------------------------------------------------
// Loading
// ---------------------------------------------------------------------------

/// A container that was found where a converted model is kept.
pub struct CachedContainer<'a> {
    pub ctx: FileContext,
    pub bytes: &'a [u8],
}

/// A model file that is to be loaded.
pub struct ModelFiles<'a> {
    /// File name extension of the model.
    pub extension: &'a str,
    /// Where the model lies.
    pub ctx: FileContext,
    /// The bytes of the model.
    pub bytes: &'a [u8],
    /// Where a converted model is kept.
    pub target_path: &'a str,
    /// The file that is kept there, where it can be read.
    pub cached: Option<CachedContainer<'a>>,
}

/// What loading comes to.
pub enum LoadOutcome {
    /// The model is complete.
    Ready(Q4nxModel),
    /// An XCLBIN has to be found first.
    NeedsXclbin,
    /// The model, and the file that is to be written for it.
    Written { model: Q4nxModel, path: String, image: Vec<u8> },
}

/// The file has an embedded XCLBIN, or one beside it.
pub open spec fn has_xclbin(ctx: FileContext, file: Seq<u8>) -> bool {
    if file.take(4) == q4nx_magic() {
        le_at(file, 72, 8) > 0
    } else {
        ctx.layer_xclbin is Some && ctx.layer_xclbin->0@.len() > 0
    }
}

/// `model` is `before` with another XCLBIN.
pub open spec fn has_new_xclbin(before: Q4nxModel, xclbin: Seq<u8>, model: Q4nxModel) -> bool {
    &&& model.header == stamped_header(before.header, xclbin.len())
    &&& model.xclbin() == xclbin
    &&& model.payload() == before.payload()
    &&& model.path() == before.path()
}

/// The bytes of a container with another XCLBIN.
pub open spec fn restamped(before: Q4nxModel, file: Seq<u8>, xclbin: Seq<u8>) -> Seq<u8> {
    container_prefix(
        encode_utf8(before.header.arch_name@),
        before.header.hyperparams,
        xclbin,
        before.header.payload_size as nat,
    ) + rest_from(file, before.header.payload_offset as nat)
}

/// What loading a container comes to: it is complete where it has an XCLBIN, and is stamped
/// with the given one where it has none.
pub open spec fn loads_container(
    outcome: LoadOutcome,
    ctx: FileContext,
    file: Seq<u8>,
    xclbin: Option<&[u8]>,
) -> bool {
    if has_xclbin(ctx, file) {
        outcome is Ready && outcome->Ready_0.holds(ctx, file)
    } else {
        match xclbin {
            None => outcome is NeedsXclbin,
            Some(x) => {
                &&& outcome is Written
                &&& outcome->path@ == ctx.path@
                &&& exists|before: Q4nxModel|
                    {
                        &&& #[trigger] before.holds(ctx, file)
                        &&& has_new_xclbin(before, x@, outcome->model)
                        &&& outcome->image@ == restamped(before, file, x@)
                    }
            },
        }
    }
}

/// There is a converted container that can be opened.
pub open spec fn cache_usable(files: ModelFiles) -> bool {
    files.cached is Some && open_fault(files.cached->0.bytes@) is None
}

/// Loads a container that opens.
fn load_container(ctx: &FileContext, model: Q4nxModel, file: &[u8], xclbin: Option<&[u8]>) -> (r:
    LoadOutcome)
    requires
        open_fault(file@) is None,
        model.holds(*ctx, file@),
        xclbin is Some ==> xclbin->0@.len() <= isize::MAX,
    ensures
        loads_container(r, *ctx, file@, xclbin),
{
    let mut model = model;
    let ghost before = model;
    if model.has_embedded_xclbin() {
        return LoadOutcome::Ready(model);
    }
    match xclbin {
        None => LoadOutcome::NeedsXclbin,
        Some(x) => match model.stamp_xclbin(x, None, file) {
            Ok(image) => {
                let path = model.file_path.clone();
                assert(before.holds(*ctx, file@));
                LoadOutcome::Written { model, path, image }
            },
            Err(_) => LoadOutcome::NeedsXclbin,
        },
    }
}

/// What is said of a file that is no model.
pub open spec fn bad_extension_text(ext: Seq<char>) -> Seq<char> {
    "Unsupported model file extension: '"@ + ext + "'. Expected .q4nx or .gguf"@
}

/// Loads a model: a container as it is, a GGUF file by way of a converted container.
///
/// Where an XCLBIN has to be embedded and none is given, the outcome says so; the call is then
/// made again with one. What is to be written to disk is part of the outcome.
pub fn load_or_convert_model(files: &ModelFiles, xclbin: Option<&[u8]>) -> (r: Result<
    LoadOutcome,
    ContainerError,
>)
    requires
        xclbin is Some ==> xclbin->0@.len() <= isize::MAX,
    ensures
        if same_but_case(files.extension@, "q4nx"@) {
            match r {
                Ok(out) => open_fault(files.bytes@) is None && loads_container(
                    out,
                    files.ctx,
                    files.bytes@,
                    xclbin,
                ),
                Err(e) => open_fault(files.bytes@) == Some(e@),
            }
        } else if same_but_case(files.extension@, "gguf"@) {
            if cache_usable(*files) {
                r is Ok && loads_container(
                    r->Ok_0,
                    files.cached->0.ctx,
                    files.cached->0.bytes@,
                    xclbin,
                )
            } else {
                match xclbin {
                    None => r is Ok && r->Ok_0 is NeedsXclbin,
                    Some(x) => {
                        let image = converted_image(
                            lowered(files.ctx.stem@),
                            files.bytes@,
                            x@,
                        );
                        match r {
                            Ok(out) => {
                                &&& parse_fault(files.bytes@) is None
                                &&& open_fault(image) is None
                                &&& out is Written
                                &&& out->path@ == files.target_path@
                                &&& out->image@ == image
                                &&& out->model.holds_container(files.target_path@, image)
                            },
                            Err(e) => if parse_fault(files.bytes@) is Some {
                                parse_fault(files.bytes@) == Some(e@)
                            } else {
                                open_fault(image) == Some(e@)
                            },
                        }
                    },
                }
            }
        } else {
            r is Err && r->Err_0@ == ContainerFault::CorruptedHeader(
                bad_extension_text(files.extension@),
            )
        },
{
    if eq_ignore_case(files.extension, "q4nx") {
        return match Q4nxModel::open(&files.ctx, files.bytes) {
            Ok(model) => Ok(load_container(&files.ctx, model, files.bytes, xclbin)),
            Err(e) => Err(e),
        };
    }
    if eq_ignore_case(files.extension, "gguf") {
        match &files.cached {
            Some(c) => {
                match Q4nxModel::open(&c.ctx, c.bytes) {
                    Ok(model) => {
                        return Ok(load_container(&c.ctx, model, c.bytes, xclbin));
                    },
                    Err(_) => {},
                }
            },
            None => {},
        }
        return match xclbin {
            None => Ok(LoadOutcome::NeedsXclbin),
            Some(x) => match convert_gguf_to_q4nx(files.ctx.stem.as_str(), files.bytes, x) {
                Err(e) => Err(e),
                Ok(image) => {
                    let ctx = FileContext {
                        path: files.target_path.to_owned(),
                        stem: files.ctx.stem.clone(),
                        config: crate::container::ConfigFile::Absent,
                        layer_xclbin: None,
                    };
                    proof {
                        let t = topology_of(scan_of(files.bytes@), lowered(files.ctx.stem@));
                        crate::container::laws::lemma_container_magic(
                            encode_utf8(t.arch_name),
                            topology_hyperparams(t),
                            x@,
                            converted_payload(files.bytes@),
                        );
                    }
                    match Q4nxModel::open(&ctx, &image) {
                        Err(e) => Err(e),
                        Ok(model) => Ok(
                            LoadOutcome::Written {
                                model,
                                path: files.target_path.to_owned(),
                                image,
                            },
                        ),
                    }
                },
            },
        };
    }
    let text = "Unsupported model file extension: '".to_owned().concat(files.extension).concat(
        "'. Expected .q4nx or .gguf",
    );
    Err(ContainerError::CorruptedHeader(text))
}

/// The topology for which an XCLBIN is synthesized where no profile is found: that of the
/// container that is to be stamped, or that of the GGUF file that is to be converted. An error
/// is reported as invalid data, with its message.
pub fn synthesis_topology(files: &ModelFiles) -> (r: Result<ModelGraphTopology, ContainerError>)
    ensures
        if same_but_case(files.extension@, "gguf"@) && !cache_usable(*files) {
            match r {
                Ok(t) => scan_fault(files.bytes@) is None && t@ == topology_of(
                    scan_of(files.bytes@),
                    lowered(files.ctx.stem@),
                ),
                Err(e) => scan_fault(files.bytes@) is Some && e@ == invalid_data(
                    scan_fault(files.bytes@)->0,
                ),
            }
        } else if same_but_case(files.extension@, "gguf"@) {
            synthesizes_for(r, files.cached->0.ctx, files.cached->0.bytes@)
        } else {
            synthesizes_for(r, files.ctx, files.bytes@)
        },
{
    if eq_ignore_case(files.extension, "gguf") {
        match &files.cached {
            Some(c) => {
                match Q4nxModel::open(&c.ctx, c.bytes) {
                    Ok(_) => {
                        return as_invalid_data(ModelGraphTopology::from_q4nx(&c.ctx, c.bytes));
                    },
                    Err(_) => {},
                }
            },
            None => {},
        }
        return as_invalid_data(
            ModelGraphTopology::from_gguf(files.ctx.stem.as_str(), files.bytes),
        );
    }
    as_invalid_data(ModelGraphTopology::from_q4nx(&files.ctx, files.bytes))
}

/// An error reported as invalid data.
pub open spec fn invalid_data(f: ContainerFault) -> ContainerFault {
    ContainerFault::Io(IoFaultView::InvalidData(fault_text(f)))
}

/// The topology is that of a container.
pub open spec fn synthesizes_for(
    r: Result<ModelGraphTopology, ContainerError>,
    ctx: FileContext,
    file: Seq<u8>,
) -> bool {
    match r {
        Ok(t) => {
            &&& open_fault(file) is None
            &&& opened_hyperparams(ctx, file).hidden_dim * 8 <= u32::MAX
            &&& t@ == opened_topology(ctx, file)
        },
        Err(e) => if open_fault(file) is Some {
            e@ == invalid_data(open_fault(file)->0)
        } else {
            &&& opened_hyperparams(ctx, file).hidden_dim * 8 > u32::MAX
            &&& e@ == invalid_data(ContainerFault::CorruptedHeader(wide_header_text()))
        },
    }
}

fn as_invalid_data(t: Result<ModelGraphTopology, ContainerError>) -> (r: Result<
    ModelGraphTopology,
    ContainerError,
>)
    ensures
        match t {
            Ok(v) => r is Ok && r->Ok_0 == v,
            Err(e) => r is Err && r->Err_0@ == invalid_data(e@),
        },
{
    match t {
        Ok(v) => Ok(v),
        Err(e) => Err(ContainerError::Io(IoFault::InvalidData(e.message()))),
    }
}

/// Where a converted model is kept: beside the model, or, where that directory cannot be
/// written to, in the cache directory under the same name.
pub fn get_q4nx_destination_path(
    beside: &str,
    has_parent: bool,
    writable: bool,
    in_cache: Option<&str>,
) -> (r: String)
    ensures
        r@ == if has_parent && !writable && in_cache is Some {
            in_cache->0@
        } else {
            beside@
        },
{
    if has_parent && !writable {
        match in_cache {
            Some(p) => {
                return p.to_owned();
            },
            None => {},
        }
    }
    beside.to_owned()
}

} // verus!
