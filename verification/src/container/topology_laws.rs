//! What holds of topologies as a whole: what a file states is found, and what it does not state is
//! taken from its family.

use vstd::prelude::*;
use vstd::string::*;
use vstd::utf8::*;

use crate::bytes::{le_at, le_bytes, lemma_le_bytes_len, lemma_le_round_trip, lemma_pow256};
use crate::container::gguf_laws::{
    key_bytes, law_written_architecture_is_found, law_written_dimension_is_found, lemma_two_parts,
    text_bytes, written,
};
use crate::container::topology::{
    experts_of, header_topology, scan_entries, scan_fault, scan_of, scan_start, stem_arch,
    topology_of, with_dimension, Scan,
};
use crate::container::ModelHyperparameters;
use crate::text::has_text;

verus! {

/// An entry of the metadata, as it is written.
pub enum Stated {
    /// A dimension in 32 bits.
    Word(Seq<char>, nat, u32),
    /// A dimension in 64 bits.
    Long(Seq<char>, nat, u32),
    /// A short text.
    Text(Seq<char>, Seq<char>),
}

pub open spec fn stated_ok(s: Stated) -> bool {
    match s {
        Stated::Word(key, ty, _) => encode_utf8(key).len() <= 256 && (ty == 4 || ty == 5),
        Stated::Long(key, ty, _) => encode_utf8(key).len() <= 256 && (ty == 10 || ty == 11),
        Stated::Text(key, t) => encode_utf8(key).len() <= 256 && encode_utf8(t).len() < 256,
    }
}

pub open spec fn stated_bytes(s: Stated) -> Seq<u8> {
    match s {
        Stated::Word(key, ty, v) => key_bytes(key, ty) + le_bytes(v as nat, 4),
        Stated::Long(key, ty, v) => key_bytes(key, ty) + le_bytes(v as nat, 8),
        Stated::Text(key, t) => key_bytes(key, 8) + text_bytes(t),
    }
}

/// What an entry tells of a model.
pub open spec fn with_stated(s: Scan, e: Stated) -> Scan {
    match e {
        Stated::Word(key, _, v) => with_dimension(s, key, v),
        Stated::Long(key, _, v) => with_dimension(s, key, v),
        Stated::Text(key, t) => if key == "general.architecture"@ {
            Scan { arch: Some(t), ..s }
        } else {
            s
        },
    }
}

pub open spec fn all_bytes(list: Seq<Stated>) -> Seq<u8>
    decreases list.len(),
{
    if list.len() == 0 {
        Seq::empty()
    } else {
        stated_bytes(list[0]) + all_bytes(list.skip(1))
    }
}

/// What entries tell of a model; of two that tell the same thing, the later one counts.
pub open spec fn with_all(s: Scan, list: Seq<Stated>) -> Scan
    decreases list.len(),
{
    if list.len() == 0 {
        s
    } else {
        with_all(with_stated(s, list[0]), list.skip(1))
    }
}

pub open spec fn at_place(s: Scan, pos: nat) -> Scan {
    Scan { pos, ..s }
}

proof fn lemma_stated_moves(s: Scan, e: Stated, pos: nat)
    ensures
        with_stated(at_place(s, pos), e) == at_place(with_stated(s, e), pos),
{
}

proof fn lemma_all_move(s: Scan, list: Seq<Stated>, pos: nat)
    ensures
        with_all(at_place(s, pos), list) == at_place(with_all(s, list), pos),
    decreases list.len(),
{
    if list.len() > 0 {
        lemma_stated_moves(s, list[0], pos);
        lemma_all_move(with_stated(s, list[0]), list.skip(1), pos);
    }
}

proof fn lemma_one(file: Seq<u8>, s: Scan, e: Stated, n: nat)
    requires
        stated_ok(e),
        written(file, s.pos as int, stated_bytes(e)),
    ensures
        scan_entries(file, s, n + 1) == scan_entries(
            file,
            at_place(with_stated(s, e), s.pos + stated_bytes(e).len()),
            n,
        ),
{
    match e {
        Stated::Word(key, ty, v) => {
            law_written_dimension_is_found(file, s, key, ty, v, n);
            lemma_le_bytes_len(ty, 4);
            lemma_le_bytes_len(encode_utf8(key).len(), 8);
            lemma_le_bytes_len(v as nat, 4);
        },
        Stated::Long(key, ty, v) => {
            law_written_dimension_is_found(file, s, key, ty, v, n);
            lemma_le_bytes_len(ty, 4);
            lemma_le_bytes_len(encode_utf8(key).len(), 8);
            lemma_le_bytes_len(v as nat, 8);
        },
        Stated::Text(key, t) => {
            law_written_architecture_is_found(file, s, key, t, n);
            lemma_le_bytes_len(8, 4);
            lemma_le_bytes_len(encode_utf8(key).len(), 8);
            lemma_le_bytes_len(encode_utf8(t).len(), 8);
        },
    }
}

proof fn lemma_all(file: Seq<u8>, s: Scan, list: Seq<Stated>)
    requires
        forall|i: int| 0 <= i < list.len() ==> stated_ok(#[trigger] list[i]),
        written(file, s.pos as int, all_bytes(list)),
    ensures
        scan_entries(file, s, list.len()) == at_place(
            with_all(s, list),
            s.pos + all_bytes(list).len(),
        ),
    decreases list.len(),
{
    if list.len() > 0 {
        let e = list[0];
        let rest = list.skip(1);
        lemma_two_parts(file, s.pos as int, stated_bytes(e), all_bytes(rest));
        lemma_one(file, s, e, rest.len());
        let next = at_place(with_stated(s, e), s.pos + stated_bytes(e).len());
        assert forall|i: int| 0 <= i < rest.len() implies stated_ok(#[trigger] rest[i]) by {
            assert(rest[i] == list[i + 1]);
        }
        lemma_all(file, next, rest);
        lemma_all_move(with_stated(s, e), rest, next.pos);
    }
}

/// A scan of a file finds everything that its entries state, up to 2048 of them.
pub proof fn law_scan_finds_what_is_stated(file: Seq<u8>, head: Seq<u8>, list: Seq<Stated>)
    requires
        head.len() == 12,
        list.len() <= 2048,
        forall|i: int| 0 <= i < list.len() ==> stated_ok(#[trigger] list[i]),
        written(
            file,
            0,
            seq![0x47u8, 0x47, 0x55, 0x46] + head + le_bytes(list.len(), 8) + all_bytes(list),
        ),
    ensures
        scan_fault(file) is None,
        scan_of(file) == at_place(with_all(scan_start(), list), 24 + all_bytes(list).len()),
        scan_start().arch is None,
        scan_start().block_count is None,
        scan_start().embedding_len is None,
        scan_start().head_count is None,
        scan_start().head_count_kv is None,
        scan_start().ffn_len is None,
        scan_start().ctx_len is None,
{
    let g = seq![0x47u8, 0x47, 0x55, 0x46];
    let n = le_bytes(list.len(), 8);
    lemma_pow256();
    lemma_le_bytes_len(list.len(), 8);
    lemma_two_parts(file, 0, g + head + n, all_bytes(list));
    lemma_two_parts(file, 0, g + head, n);
    lemma_two_parts(file, 0, g, head);
    lemma_le_round_trip(list.len(), 8);
    assert(le_at(file, 16, 8) == list.len());
    lemma_all(file, scan_start(), list);
    assert(file.take(4) =~= file.subrange(0, 4));
    assert(crate::container::reader::gguf_magic() =~= g);
}

// ---------------------------------------------------------------------------
// Families
// ---------------------------------------------------------------------------

/// What is taken of a model whose file states its architecture and nothing else.
pub proof fn law_families_have_their_profiles(arch: Seq<char>, f: Seq<char>)
    ensures
        ({
            let s = Scan { arch: Some(arch), ..scan_start() };
            let t = topology_of(s, f);
            let spark = has_text(arch, "spark"@) || has_text(f, "spark"@);
            let gemma = has_text(arch, "gemma4"@) || has_text(f, "gemma4"@) || has_text(
                f,
                "gemma-4"@,
            );
            let cold = has_text(arch, "cold_fusion"@) || has_text(f, "cold-fusion"@) || has_text(
                f,
                "cold_fusion"@,
            ) || has_text(f, "qwen3.8"@);
            &&& spark ==> t.hidden_dim == 2048 && t.num_heads == 8 && t.num_kv_heads == 2
                && t.num_layers == 28 && t.context_length == 1048576 && t.head_dim == 256
                && t.ffn_dim == 6656
            &&& gemma && !spark ==> t.hidden_dim == 5120 && t.num_heads == 40 && t.num_kv_heads
                == 16 && t.num_layers == 56 && t.context_length == 131072 && t.head_dim == 128
                && t.ffn_dim == 24576
            &&& cold && !spark && !gemma ==> t.hidden_dim == 5120 && t.num_heads == 40
                && t.num_kv_heads == 8 && t.num_layers == 64 && t.context_length == 131072
                && t.head_dim == 128 && t.ffn_dim == 17920
            &&& !spark && !gemma && !cold ==> t.hidden_dim == 4096 && t.num_heads == 32
                && t.num_kv_heads == 8 && t.num_layers == 32 && t.context_length == 8192
                && t.head_dim == 128 && t.ffn_dim == 11008
        }),
{
}

/// Some of the words stands in one of the two texts.
pub open spec fn names_any(arch: Seq<char>, f: Seq<char>, in_both: Seq<Seq<char>>, in_file: Seq<
    Seq<char>,
>) -> bool {
    ||| exists|i: int| 0 <= i < in_both.len() && has_text(arch, #[trigger] in_both[i])
    ||| exists|i: int| 0 <= i < in_both.len() && has_text(f, #[trigger] in_both[i])
    ||| exists|i: int| 0 <= i < in_file.len() && has_text(f, #[trigger] in_file[i])
}

/// The sizes of the vocabularies, whatever else a file states.
pub proof fn law_vocabulary_sizes(s: Scan, f: Seq<char>)
    ensures
        ({
            let t = topology_of(s, f);
            let a = t.arch_name;
            let large = names_any(
                a,
                f,
                seq!["qwen"@, "gemma"@],
                seq![
                    "ornith"@,
                    "qwythos"@,
                    "thinkingcap"@,
                    "glm"@,
                    "deepseek"@,
                    "sarvam"@,
                    "laguna"@,
                ],
            );
            let spark = has_text(a, "spark"@) || has_text(f, "spark"@);
            &&& large <==> t.vocab_size == 262144
            &&& !large && spark <==> t.vocab_size == 131072
            &&& !large && !spark <==> t.vocab_size == 128000
        }),
{
    let a = topology_of(s, f).arch_name;
    let b = seq!["qwen"@, "gemma"@];
    let l = seq![
        "ornith"@,
        "qwythos"@,
        "thinkingcap"@,
        "glm"@,
        "deepseek"@,
        "sarvam"@,
        "laguna"@,
    ];
    assert(b[0] == "qwen"@ && b[1] == "gemma"@);
    assert(l[0] == "ornith"@ && l[1] == "qwythos"@ && l[2] == "thinkingcap"@ && l[3] == "glm"@
        && l[4] == "deepseek"@ && l[5] == "sarvam"@ && l[6] == "laguna"@);
    if names_any(a, f, b, l) {
        if exists|i: int| 0 <= i < b.len() && has_text(a, #[trigger] b[i]) {
            let i = choose|i: int| 0 <= i < b.len() && has_text(a, #[trigger] b[i]);
            assert(i == 0 || i == 1);
        } else if exists|i: int| 0 <= i < b.len() && has_text(f, #[trigger] b[i]) {
            let i = choose|i: int| 0 <= i < b.len() && has_text(f, #[trigger] b[i]);
            assert(i == 0 || i == 1);
        } else {
            let i = choose|i: int| 0 <= i < l.len() && has_text(f, #[trigger] l[i]);
            assert(i == 0 || i == 1 || i == 2 || i == 3 || i == 4 || i == 5 || i == 6);
        }
    }
}

/// The numbers of experts, whatever else a file or a header states.
pub proof fn law_numbers_of_experts(s: Scan, f: Seq<char>, lower: Seq<char>)
    ensures
        ({
            let t = topology_of(s, f);
            let a = t.arch_name;
            let cold = has_text(a, "cold_fusion"@) || has_text(f, "cold-fusion"@) || has_text(
                f,
                "cold_fusion"@,
            ) || has_text(f, "qwen3.8"@);
            let deep = has_text(a, "deepseek"@) || has_text(f, "deepseek"@);
            let mix = has_text(a, "mixtral"@) || has_text(f, "mixtral"@);
            &&& t.num_experts == 64 <==> cold
            &&& t.num_experts == 256 <==> deep && !cold
            &&& t.num_experts == 8 <==> mix && !deep && !cold
            &&& t.num_experts == 0 <==> !cold && !deep && !mix
        }),
        experts_of(lower) == 64 <==> has_text(lower, "cold_fusion"@) || has_text(lower, "qwen3.8"@),
        experts_of(lower) == 256 <==> has_text(lower, "deepseek"@) && !has_text(
            lower,
            "cold_fusion"@,
        ) && !has_text(lower, "qwen3.8"@),
        experts_of(lower) == 8 ==> has_text(lower, "mixtral"@),
        experts_of(lower) == 0 ==> !has_text(lower, "mixtral"@) && !has_text(lower, "deepseek"@)
            && !has_text(lower, "cold_fusion"@) && !has_text(lower, "qwen3.8"@),
        experts_of(lower) == 64 || experts_of(lower) == 256 || experts_of(lower) == 8 || experts_of(
            lower,
        ) == 0,
{
}

/// A file that does not state its architecture is known by its name; where that names several,
/// the first of a fixed order counts.
pub proof fn law_file_names_stand_for_architectures(s: Scan, f: Seq<char>)
    requires
        s.arch is None,
    ensures
        ({
            let a = topology_of(s, f).arch_name;
            let spark = has_text(f, "spark"@);
            let gemma4 = has_text(f, "gemma4"@) || has_text(f, "gemma-4"@);
            let cold = has_text(f, "cold-fusion"@) || has_text(f, "cold_fusion"@);
            let deep = has_text(f, "deepseek"@);
            let glm = has_text(f, "glm"@);
            let sarvam = has_text(f, "sarvam"@);
            let laguna = has_text(f, "laguna"@);
            let qwen = has_text(f, "qwen"@);
            let llama = has_text(f, "llama"@);
            let phi = has_text(f, "phi"@);
            let first = !spark && !gemma4 && !cold;
            let second = first && !deep && !glm && !sarvam && !laguna;
            &&& spark ==> a == "spark2_5"@
            &&& gemma4 && !spark ==> a == "gemma4"@
            &&& cold && !spark && !gemma4 ==> a == "qwen3_8"@
            &&& deep && first ==> a == "deepseek_v4"@
            &&& glm && first && !deep ==> a == "glm5"@
            &&& sarvam && first && !deep && !glm ==> a == "sarvam"@
            &&& laguna && first && !deep && !glm && !sarvam ==> a == "laguna"@
            &&& qwen && second ==> a == "qwen2"@
            &&& llama && second && !qwen ==> a == "llama"@
            &&& phi && second && !qwen && !llama ==> a == "phi3"@
            &&& has_text(f, "gemma"@) && second && !qwen && !llama && !phi ==> a == "gemma2"@
            &&& second && !qwen && !llama && !phi && !has_text(f, "gemma"@) ==> a == "custom"@
        }),
{
    assert(topology_of(s, f).arch_name == stem_arch(f));
}

/// A header's numbers are those of the topology; a layer's heads share its width, and its
/// feed-forward part is eight thirds as wide.
pub proof fn law_header_states_the_topology(arch: Seq<char>, hp: ModelHyperparameters, experts: u32)
    requires
        hp.hidden_dim * 8 <= u32::MAX,
    ensures
        ({
            let t = header_topology(arch, hp, experts);
            &&& t.arch_name == arch
            &&& t.hidden_dim == hp.hidden_dim
            &&& t.num_heads == hp.num_heads
            &&& t.num_kv_heads == hp.num_kv_heads
            &&& t.num_layers == hp.num_layers
            &&& t.vocab_size == hp.vocab_size
            &&& t.context_length == hp.context_length
            &&& t.num_experts == experts
            &&& 3 * t.ffn_dim <= 8 * t.hidden_dim < 3 * t.ffn_dim + 3
            &&& t.num_heads == 0 ==> t.head_dim == 128
            &&& t.num_heads > 0 ==> t.num_heads * t.head_dim <= t.hidden_dim < t.num_heads
                * t.head_dim + t.num_heads
        }),
{
    if hp.num_heads > 0 {
        vstd::arithmetic::div_mod::lemma_fundamental_div_mod(
            hp.hidden_dim as int,
            hp.num_heads as int,
        );
    }
}

} // verus!
