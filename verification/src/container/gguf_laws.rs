//! What holds of GGUF files as a whole: what was written into one is read from it.

use vstd::prelude::*;
use vstd::string::*;
use vstd::utf8::*;

use crate::bytes::{le_at, le_bytes, lemma_le_bytes_len, lemma_le_round_trip, lemma_pow256, pow256};
use crate::container::dtype::{dtype_of, supported_on_apu, TensorDType};
use crate::container::reader::{
    default_metadata, dims_at, entry_at, entry_fits, read_array, read_pairs, read_value,
    read_vocabulary, tensor_bytes, text_at, with_number, with_text, Entry, Metadata, TensorInfo,
};
use crate::container::tensor::{product, product_fits, stored_elements};
use crate::container::topology::{moved, scan_entries, scan_entry, topology_of, with_dimension, Scan};
use crate::container::ModelHyperparameters;
use crate::text::has_suffix;

verus! {

// ---------------------------------------------------------------------------
// Writing
// ---------------------------------------------------------------------------

/// The bytes stand in the file from a place on.
pub open spec fn written(file: Seq<u8>, at: int, bytes: Seq<u8>) -> bool {
    &&& 0 <= at
    &&& at + bytes.len() <= file.len()
    &&& file.subrange(at, at + bytes.len()) == bytes
}

/// A text: its length in bytes, and its UTF-8 bytes.
pub open spec fn text_bytes(s: Seq<char>) -> Seq<u8> {
    le_bytes(encode_utf8(s).len(), 8) + encode_utf8(s)
}

/// A key and the number of the type of its value.
pub open spec fn key_bytes(key: Seq<char>, ty: nat) -> Seq<u8> {
    text_bytes(key) + le_bytes(ty, 4)
}

/// Texts, one after the other.
pub open spec fn texts_bytes(texts: Seq<Seq<char>>) -> Seq<u8>
    decreases texts.len(),
{
    if texts.len() == 0 {
        Seq::empty()
    } else {
        text_bytes(texts[0]) + texts_bytes(texts.skip(1))
    }
}

/// Dimensions, one after the other.
pub open spec fn dims_bytes(dims: Seq<u64>) -> Seq<u8>
    decreases dims.len(),
{
    if dims.len() == 0 {
        Seq::empty()
    } else {
        le_bytes(dims[0] as nat, 8) + dims_bytes(dims.skip(1))
    }
}

/// An entry of the tensor directory: name, number of dimensions, dimensions, type, and place in
/// the data.
pub open spec fn entry_bytes(
    name: Seq<char>,
    dims: Seq<u64>,
    ty: u32,
    offset: u64,
) -> Seq<u8> {
    text_bytes(name) + le_bytes(dims.len(), 4) + dims_bytes(dims) + le_bytes(ty as nat, 4)
        + le_bytes(offset as nat, 8)
}

/// What was written in two parts stands there part by part.
pub proof fn lemma_two_parts(file: Seq<u8>, at: int, a: Seq<u8>, b: Seq<u8>)
    requires
        written(file, at, a + b),
    ensures
        written(file, at, a),
        written(file, at + a.len(), b),
{
    let all = file.subrange(at, at + (a + b).len());
    assert(file.subrange(at, at + a.len()) =~= all.take(a.len() as int));
    assert((a + b).take(a.len() as int) =~= a);
    assert(file.subrange(at + a.len(), at + a.len() + b.len()) =~= all.skip(a.len() as int));
    assert((a + b).skip(a.len() as int) =~= b);
}

proof fn lemma_number(file: Seq<u8>, at: int, n: nat, k: nat)
    requires
        written(file, at, le_bytes(n, k)),
        n < pow256(k),
    ensures
        le_at(file, at, k as int) == n,
        at + k <= file.len(),
        le_bytes(n, k).len() == k,
{
    lemma_le_round_trip(n, k);
}

proof fn lemma_text(file: Seq<u8>, at: int, s: Seq<char>)
    requires
        written(file, at, text_bytes(s)),
        encode_utf8(s).len() < 0x1_0000_0000_0000_0000,
    ensures
        le_at(file, at, 8) == encode_utf8(s).len(),
        at + 8 + encode_utf8(s).len() <= file.len(),
        text_at(file, (at + 8) as nat, encode_utf8(s).len()) == s,
        text_bytes(s).len() == 8 + encode_utf8(s).len(),
{
    let e = encode_utf8(s);
    lemma_pow256();
    lemma_le_bytes_len(e.len(), 8);
    lemma_two_parts(file, at, le_bytes(e.len(), 8), e);
    lemma_number(file, at, e.len(), 8);
    encode_utf8_valid_utf8(s);
    encode_utf8_decode_utf8(s);
}

proof fn lemma_key(file: Seq<u8>, at: int, key: Seq<char>, ty: nat, rest: Seq<u8>)
    requires
        written(file, at, key_bytes(key, ty) + rest),
        encode_utf8(key).len() < 0x1_0000_0000,
        ty < 0x1_0000_0000,
    ensures
        le_at(file, at, 8) == encode_utf8(key).len(),
        text_at(file, (at + 8) as nat, encode_utf8(key).len()) == key,
        le_at(file, at + 8 + encode_utf8(key).len(), 4) == ty,
        at + 12 + encode_utf8(key).len() <= file.len(),
        written(file, at + 12 + encode_utf8(key).len(), rest),
{
    let k = text_bytes(key);
    let t = le_bytes(ty, 4);
    lemma_pow256();
    lemma_le_bytes_len(ty, 4);
    lemma_two_parts(file, at, key_bytes(key, ty), rest);
    lemma_two_parts(file, at, k, t);
    lemma_text(file, at, key);
    lemma_number(file, at + k.len(), ty, 4);
}

// ---------------------------------------------------------------------------
// Keys
// ---------------------------------------------------------------------------

proof fn lemma_ends(a: Seq<char>, end: Seq<char>, other: Seq<char>)
    ensures
        has_suffix(a + end, end),
        other.len() > 0 && end.len() > 0 && other.last() != end.last() ==> !has_suffix(
            a + end,
            other,
        ),
        forall|k: int|
            #![trigger end[end.len() - 1 - k]]
            0 <= k < end.len() && k < other.len() && end[end.len() - 1 - k] != other[other.len() - 1
                - k] ==> !has_suffix(a + end, other),
{
    let s = a + end;
    assert(s.subrange(s.len() - end.len(), s.len() as int) =~= end);
    if has_suffix(s, other) {
        let t = s.subrange(s.len() - other.len(), s.len() as int);
        assert forall|k: int|
            #![trigger end[end.len() - 1 - k]]
            0 <= k < end.len() && k < other.len() implies end[end.len() - 1 - k] == other[other.len()
            - 1 - k] by {
            assert(t[other.len() - 1 - k] == s[s.len() - 1 - k]);
        }
        if other.len() > 0 && end.len() > 0 {
            assert(t[other.len() - 1] == s[s.len() - 1]);
        }
    }
}

proof fn lemma_key_names()
    ensures
        ".context_length"@.len() == 15,
        ".embedding_length"@.len() == 17,
        ".block_count"@.len() == 12,
        ".head_count"@.len() == 11,
        ".head_count_kv"@.len() == 14,
        ".attention.head_count"@.len() == 21,
        ".attention.head_count_kv"@.len() == 24,
        ".feed_forward_length"@.len() == 20,
        ".context_length"@.last() == 'h',
        ".embedding_length"@.last() == 'h',
        ".feed_forward_length"@.last() == 'h',
        ".context_length"@[15 - 1 - 7] == 't',
        ".embedding_length"@[17 - 1 - 7] == 'g',
        ".feed_forward_length"@[20 - 1 - 7] == 'd',
        ".block_count"@.last() == 't',
        ".head_count"@.last() == 't',
        ".attention.head_count"@.last() == 't',
        ".block_count"@[12 - 1 - 6] == 'k',
        ".head_count"@[11 - 1 - 6] == 'd',
        ".attention.head_count"@[21 - 1 - 6] == 'd',
        ".head_count_kv"@.last() == 'v',
        ".attention.head_count_kv"@.last() == 'v',
        "general.alignment"@.last() == 't',
        "general.alignment"@.len() == 17,
        "general.alignment"@[17 - 1 - 1] == 'n',
        "general.alignment"@[17 - 1 - 2] == 'e',
        ".block_count"@[12 - 1 - 2] == 'u',
        ".head_count"@[11 - 1 - 2] == 'u',
        ".attention.head_count"@[21 - 1 - 2] == 'u',
        "tokenizer.ggml.bos_token_id"@.last() == 'd',
        "tokenizer.ggml.eos_token_id"@.last() == 'd',
        "tokenizer.ggml.bos_token_id"@[15] == 'b',
        "tokenizer.ggml.eos_token_id"@[15] == 'e',
        "tokenizer.ggml.bos_token_id"@.len() == 27,
        "tokenizer.ggml.eos_token_id"@.len() == 27,
        "general.architecture"@.last() == 'e',
        "general.architecture"@.len() == 20,
{
    reveal_strlit(".context_length");
    reveal_strlit(".embedding_length");
    reveal_strlit(".block_count");
    reveal_strlit(".head_count");
    reveal_strlit(".head_count_kv");
    reveal_strlit(".attention.head_count");
    reveal_strlit(".attention.head_count_kv");
    reveal_strlit(".feed_forward_length");
    reveal_strlit("general.alignment");
    reveal_strlit("tokenizer.ggml.bos_token_id");
    reveal_strlit("tokenizer.ggml.eos_token_id");
    reveal_strlit("general.architecture");
}

/// Two texts that end in different characters differ.
proof fn lemma_last_differs(a: Seq<char>, b: Seq<char>)
    requires
        a.len() > 0,
        b.len() > 0,
        a.last() != b.last(),
    ensures
        a != b,
{
}

/// What the numbers of a file mean: each key states one thing of the model, whatever its
/// architecture is called, and leaves all else as it was.
pub proof fn law_keys_have_their_meaning(m: Metadata, arch: Seq<char>, v: u32)
    ensures
        with_number(m, arch + ".context_length"@, v) == (Metadata {
            hp: ModelHyperparameters { context_length: v, ..m.hp },
            ..m
        }),
        with_number(m, arch + ".embedding_length"@, v) == (Metadata {
            hp: ModelHyperparameters { hidden_dim: v, ..m.hp },
            ..m
        }),
        with_number(m, arch + ".block_count"@, v) == (Metadata {
            hp: ModelHyperparameters { num_layers: v, ..m.hp },
            ..m
        }),
        with_number(m, arch + ".attention.head_count"@, v) == (Metadata {
            hp: ModelHyperparameters { num_heads: v, ..m.hp },
            ..m
        }),
        with_number(m, arch + ".attention.head_count_kv"@, v) == (Metadata {
            hp: ModelHyperparameters { num_kv_heads: v, ..m.hp },
            ..m
        }),
        with_number(m, "general.alignment"@, v) == (Metadata { alignment: v, ..m }),
        with_number(m, "tokenizer.ggml.bos_token_id"@, v) == (Metadata { bos: v, ..m }),
        with_number(m, "tokenizer.ggml.eos_token_id"@, v) == (Metadata { eos: v, ..m }),
{
    lemma_key_names();
    lemma_number_keys(arch);
    lemma_head_keys(arch);
    lemma_token_keys();
}

proof fn lemma_number_keys(arch: Seq<char>)
    ensures
        ({
            let k = arch + ".context_length"@;
            k != "general.alignment"@ && has_suffix(k, ".context_length"@)
        }),
        ({
            let k = arch + ".embedding_length"@;
            &&& k != "general.alignment"@
            &&& !has_suffix(k, ".context_length"@)
            &&& has_suffix(k, ".embedding_length"@)
        }),
        ({
            let k = arch + ".block_count"@;
            &&& k != "general.alignment"@
            &&& !has_suffix(k, ".context_length"@)
            &&& !has_suffix(k, ".embedding_length"@)
            &&& has_suffix(k, ".block_count"@)
        }),
{
    lemma_key_names();
    let c = arch + ".context_length"@;
    let e = arch + ".embedding_length"@;
    let b = arch + ".block_count"@;
    assert(c.last() == 'h' && e.last() == 'h' && b.last() == 't');
    lemma_last_differs(c, "general.alignment"@);
    lemma_last_differs(e, "general.alignment"@);
    lemma_ends(arch, ".context_length"@, ".embedding_length"@);
    lemma_ends(arch, ".embedding_length"@, ".context_length"@);
    assert(".embedding_length"@[17 - 1 - 7] != ".context_length"@[15 - 1 - 7]);
    lemma_ends(arch, ".block_count"@, ".context_length"@);
    lemma_ends(arch, ".block_count"@, ".embedding_length"@);
    let g = "general.alignment"@;
    assert(b != g) by {
        assert(b[b.len() - 3] == ".block_count"@[12 - 1 - 2]);
        if b == g {
            assert(b.len() == 17);
            assert(g[17 - 1 - 2] == 'e');
        }
    }
}

proof fn lemma_head_keys(arch: Seq<char>)
    ensures
        ({
            let k = arch + ".attention.head_count"@;
            &&& k != "general.alignment"@
            &&& !has_suffix(k, ".context_length"@)
            &&& !has_suffix(k, ".embedding_length"@)
            &&& !has_suffix(k, ".block_count"@)
            &&& has_suffix(k, ".head_count"@)
            &&& has_suffix(k, ".attention.head_count"@)
        }),
        ({
            let k = arch + ".attention.head_count_kv"@;
            &&& k != "general.alignment"@
            &&& !has_suffix(k, ".context_length"@)
            &&& !has_suffix(k, ".embedding_length"@)
            &&& !has_suffix(k, ".block_count"@)
            &&& !has_suffix(k, ".head_count"@)
            &&& !has_suffix(k, ".attention.head_count"@)
            &&& has_suffix(k, ".head_count_kv"@)
            &&& has_suffix(k, ".attention.head_count_kv"@)
        }),
{
    lemma_key_names();
    let h = arch + ".attention.head_count"@;
    let v = arch + ".attention.head_count_kv"@;
    let g = "general.alignment"@;
    assert(h != g) by {
        assert(h[h.len() - 3] == ".attention.head_count"@[21 - 1 - 2]);
        if h == g {
            assert(g[17 - 1 - 2] == 'e');
        }
    }
    assert(v.last() == 'v');
    lemma_last_differs(v, g);
    lemma_ends(arch, ".attention.head_count"@, ".context_length"@);
    lemma_ends(arch, ".attention.head_count"@, ".embedding_length"@);
    lemma_ends(arch, ".attention.head_count"@, ".block_count"@);
    assert(".attention.head_count"@[21 - 1 - 6] != ".block_count"@[12 - 1 - 6]);
    lemma_ends(arch, ".attention.head_count_kv"@, ".context_length"@);
    lemma_ends(arch, ".attention.head_count_kv"@, ".embedding_length"@);
    lemma_ends(arch, ".attention.head_count_kv"@, ".block_count"@);
    lemma_ends(arch, ".attention.head_count_kv"@, ".head_count"@);
    lemma_ends(arch, ".attention.head_count_kv"@, ".attention.head_count"@);
    reveal_strlit(".attention.head_count");
    reveal_strlit(".head_count");
    reveal_strlit(".attention.head_count_kv");
    reveal_strlit(".head_count_kv");
    reveal_strlit(".attention");
    assert(".attention.head_count"@ =~= ".attention"@ + ".head_count"@);
    assert(".attention.head_count_kv"@ =~= ".attention"@ + ".head_count_kv"@);
    assert(h =~= (arch + ".attention"@) + ".head_count"@);
    assert(v =~= (arch + ".attention"@) + ".head_count_kv"@);
    lemma_ends(arch + ".attention"@, ".head_count"@, ".head_count"@);
    lemma_ends(arch + ".attention"@, ".head_count_kv"@, ".head_count_kv"@);
}

proof fn lemma_token_keys()
    ensures
        ({
            let k = "tokenizer.ggml.bos_token_id"@;
            &&& k != "general.alignment"@
            &&& !has_suffix(k, ".context_length"@)
            &&& !has_suffix(k, ".embedding_length"@)
            &&& !has_suffix(k, ".block_count"@)
            &&& !has_suffix(k, ".head_count"@)
            &&& !has_suffix(k, ".head_count_kv"@)
        }),
        ({
            let k = "tokenizer.ggml.eos_token_id"@;
            &&& k != "general.alignment"@
            &&& k != "tokenizer.ggml.bos_token_id"@
            &&& !has_suffix(k, ".context_length"@)
            &&& !has_suffix(k, ".embedding_length"@)
            &&& !has_suffix(k, ".block_count"@)
            &&& !has_suffix(k, ".head_count"@)
            &&& !has_suffix(k, ".head_count_kv"@)
        }),
{
    lemma_key_names();
    let b = "tokenizer.ggml.bos_token_id"@;
    let e = "tokenizer.ggml.eos_token_id"@;
    let none = Seq::<char>::empty();
    lemma_last_differs(b, "general.alignment"@);
    lemma_last_differs(e, "general.alignment"@);
    assert(b[15] != e[15]);
    assert(none + b =~= b);
    assert(none + e =~= e);
    lemma_ends(none, b, ".context_length"@);
    lemma_ends(none, b, ".embedding_length"@);
    lemma_ends(none, b, ".block_count"@);
    lemma_ends(none, b, ".head_count"@);
    lemma_ends(none, b, ".head_count_kv"@);
    lemma_ends(none, e, ".context_length"@);
    lemma_ends(none, e, ".embedding_length"@);
    lemma_ends(none, e, ".block_count"@);
    lemma_ends(none, e, ".head_count"@);
    lemma_ends(none, e, ".head_count_kv"@);
}

/// What the texts of a file mean.
pub proof fn law_texts_have_their_meaning(m: Metadata, key: Seq<char>, s: Seq<char>)
    ensures
        with_text(m, "general.architecture"@, s) == (Metadata { arch: s, ..m }),
        with_text(m, "tokenizer.chat_template"@, s) == (Metadata { template: Some(s), ..m }),
        key != "general.architecture"@ && key != "tokenizer.chat_template"@ ==> with_text(m, key, s)
            == m,
        default_metadata().arch == "llama"@,
        default_metadata().hp == (ModelHyperparameters {
            hidden_dim: 2048,
            num_heads: 16,
            num_kv_heads: 4,
            num_layers: 24,
            vocab_size: 128000,
            context_length: 8192,
        }),
        default_metadata().alignment == 32,
        default_metadata().bos == 1,
        default_metadata().eos == 2,
        default_metadata().cursor == 24,
        default_metadata().template is None,
        default_metadata().tokens.len() == 0,
{
    reveal_strlit("general.architecture");
    reveal_strlit("tokenizer.chat_template");
    assert("general.architecture"@.len() != "tokenizer.chat_template"@.len());
}

// ---------------------------------------------------------------------------
// Metadata
// ---------------------------------------------------------------------------

/// A number that was written under a key is read under that key, and reading goes on right behind
/// it. A single-precision number is taken by its bits.
pub proof fn law_written_number_is_read(
    file: Seq<u8>,
    m: Metadata,
    key: Seq<char>,
    ty: nat,
    v: u32,
    n: nat,
)
    requires
        ty == 4 || ty == 5 || ty == 6,
        encode_utf8(key).len() < 0x1_0000_0000,
        written(file, m.cursor as int, key_bytes(key, ty) + le_bytes(v as nat, 4)),
    ensures
        read_pairs(file, m, n + 1) == read_pairs(
            file,
            Metadata {
                cursor: m.cursor + 16 + encode_utf8(key).len(),
                ..with_number(m, key, v)
            },
            n,
        ),
{
    let e = encode_utf8(key).len();
    lemma_key(file, m.cursor as int, key, ty, le_bytes(v as nat, 4));
    lemma_pow256();
    lemma_number(file, (m.cursor + 12 + e) as int, v as nat, 4);
    let at = Metadata { cursor: m.cursor + 12 + e, ..m };
    let m2 = read_value(file, key, ty, at);
    assert(m2 == Some(
        Metadata { cursor: m.cursor + 16 + e, ..with_number(at, key, v) },
    ));
    assert((Metadata { cursor: m.cursor + 16 + e, ..with_number(at, key, v) }) == (Metadata {
        cursor: m.cursor + 16 + e,
        ..with_number(m, key, v)
    }));
}

/// A text that was written under a key is read under that key, and reading goes on right behind
/// it.
pub proof fn law_written_text_is_read(
    file: Seq<u8>,
    m: Metadata,
    key: Seq<char>,
    s: Seq<char>,
    n: nat,
)
    requires
        encode_utf8(key).len() < 0x1_0000_0000,
        encode_utf8(s).len() < 0x1_0000_0000_0000_0000,
        written(file, m.cursor as int, key_bytes(key, 8) + text_bytes(s)),
    ensures
        read_pairs(file, m, n + 1) == read_pairs(
            file,
            Metadata {
                cursor: m.cursor + 20 + encode_utf8(key).len() + encode_utf8(s).len(),
                ..with_text(m, key, s)
            },
            n,
        ),
{
    let e = encode_utf8(key).len();
    lemma_key(file, m.cursor as int, key, 8, text_bytes(s));
    lemma_text(file, (m.cursor + 12 + e) as int, s);
    let at = Metadata { cursor: m.cursor + 12 + e, ..m };
    let after = m.cursor + 20 + e + encode_utf8(s).len();
    assert(read_value(file, key, 8, at) == Some(
        Metadata { cursor: after, ..with_text(at, key, s) },
    ));
    assert((Metadata { cursor: after, ..with_text(at, key, s) }) == (Metadata {
        cursor: after,
        ..with_text(m, key, s)
    }));
}

/// The bytes of a value of one of the other types.
pub open spec fn plain_size(ty: nat) -> nat {
    if ty == 0 || ty == 1 || ty == 7 {
        1
    } else if ty == 2 || ty == 3 {
        2
    } else {
        8
    }
}

/// Values of other types are passed over, whatever they are: bytes and flags, short numbers, long
/// numbers.
pub proof fn law_other_values_are_passed_over(
    file: Seq<u8>,
    m: Metadata,
    key: Seq<char>,
    ty: nat,
    value: Seq<u8>,
    n: nat,
)
    requires
        ty == 0 || ty == 1 || ty == 7 || ty == 2 || ty == 3 || ty == 10 || ty == 11 || ty == 12,
        encode_utf8(key).len() < 0x1_0000_0000,
        value.len() == plain_size(ty),
        written(file, m.cursor as int, key_bytes(key, ty) + value),
    ensures
        read_pairs(file, m, n + 1) == read_pairs(
            file,
            Metadata {
                cursor: (m.cursor + 12 + encode_utf8(key).len() + value.len()) as nat,
                ..m
            },
            n,
        ),
{
    lemma_key(file, m.cursor as int, key, ty, value);
}

/// The tokens of a vocabulary are read in their order, and each is found under its number; of
/// equal ones the last number counts.
pub open spec fn with_tokens(m: Metadata, texts: Seq<Seq<char>>, first: nat) -> Metadata
    decreases texts.len(),
{
    if texts.len() == 0 {
        m
    } else {
        with_tokens(
            Metadata {
                tokens: m.tokens.push(texts[0]),
                ids: m.ids.insert(texts[0], first as u64),
                ..m
            },
            texts.skip(1),
            first + 1,
        )
    }
}

proof fn lemma_vocabulary(
    file: Seq<u8>,
    m: Metadata,
    texts: Seq<Seq<char>>,
    first: nat,
    count: nat,
)
    requires
        count == first + texts.len(),
        count < 0x1_0000_0000,
        forall|i: int|
            0 <= i < texts.len() ==> encode_utf8(#[trigger] texts[i]).len()
                < 0x1_0000_0000_0000_0000,
        written(file, m.cursor as int, texts_bytes(texts)),
    ensures
        read_vocabulary(file, m, first, count) == (Metadata {
            cursor: m.cursor + texts_bytes(texts).len(),
            ..with_tokens(m, texts, first)
        }),
    decreases texts.len(),
{
    if texts.len() > 0 {
        let t = texts[0];
        let rest = texts.skip(1);
        lemma_two_parts(file, m.cursor as int, text_bytes(t), texts_bytes(rest));
        lemma_text(file, m.cursor as int, t);
        let next = Metadata {
            cursor: m.cursor + 8 + encode_utf8(t).len(),
            tokens: m.tokens.push(t),
            ids: m.ids.insert(t, first as u64),
            ..m
        };
        assert forall|i: int| 0 <= i < rest.len() implies encode_utf8(#[trigger] rest[i]).len()
            < 0x1_0000_0000_0000_0000 by {
            assert(rest[i] == texts[i + 1]);
        }
        lemma_vocabulary(file, next, rest, first + 1, count);
        lemma_tokens_keep_cursor(
            Metadata { cursor: m.cursor, ..next },
            next,
            rest,
            first + 1,
        );
    }
}

proof fn lemma_tokens_keep_cursor(a: Metadata, b: Metadata, texts: Seq<Seq<char>>, first: nat)
    requires
        a == (Metadata { cursor: a.cursor, ..b }),
    ensures
        with_tokens(a, texts, first) == (Metadata {
            cursor: a.cursor,
            ..with_tokens(b, texts, first)
        }),
        with_tokens(b, texts, first).cursor == b.cursor,
    decreases texts.len(),
{
    if texts.len() > 0 {
        let t = texts[0];
        lemma_tokens_keep_cursor(
            Metadata { tokens: a.tokens.push(t), ids: a.ids.insert(t, first as u64), ..a },
            Metadata { tokens: b.tokens.push(t), ids: b.ids.insert(t, first as u64), ..b },
            texts.skip(1),
            first + 1,
        );
    }
}

/// A vocabulary that was written is read: its tokens, in their order.
pub proof fn law_written_vocabulary_is_read(
    file: Seq<u8>,
    m: Metadata,
    texts: Seq<Seq<char>>,
    n: nat,
)
    requires
        texts.len() < 0x1_0000_0000,
        m.tokens.len() == 0,
        forall|i: int|
            0 <= i < texts.len() ==> encode_utf8(#[trigger] texts[i]).len()
                < 0x1_0000_0000_0000_0000,
        written(
            file,
            m.cursor as int,
            key_bytes("tokenizer.ggml.tokens"@, 9) + (le_bytes(8, 4) + le_bytes(texts.len(), 8)
                + texts_bytes(texts)),
        ),
    ensures
        ({
            let v = with_tokens(m, texts, 0);
            let after = Metadata {
                cursor: m.cursor + 24 + encode_utf8("tokenizer.ggml.tokens"@).len() + texts_bytes(
                    texts,
                ).len(),
                hp: ModelHyperparameters { vocab_size: texts.len() as u32, ..m.hp },
                ..v
            };
            &&& read_pairs(file, m, n + 1) == read_pairs(file, after, n)
            &&& after.tokens == texts
        }),
{
    let key = "tokenizer.ggml.tokens"@;
    let e = encode_utf8(key).len();
    reveal_strlit("tokenizer.ggml.tokens");
    lemma_short_key(key);
    let ty = le_bytes(8, 4);
    let count = le_bytes(texts.len(), 8);
    lemma_key(file, m.cursor as int, key, 9, ty + count + texts_bytes(texts));
    let p = m.cursor + 12 + e;
    lemma_pow256();
    lemma_le_bytes_len(8, 4);
    lemma_le_bytes_len(texts.len(), 8);
    lemma_two_parts(file, p as int, ty + count, texts_bytes(texts));
    lemma_two_parts(file, p as int, ty, count);
    lemma_number(file, p as int, 8, 4);
    lemma_number(file, (p + 4) as int, texts.len(), 8);
    let at = Metadata { cursor: p + 12, ..m };
    lemma_vocabulary(file, at, texts, 0, texts.len());
    lemma_tokens_keep_cursor(m, at, texts, 0);
    lemma_tokens_are_the_texts(m, texts, 0);
    let v = with_tokens(at, texts, 0);
    assert(read_array(file, key, Metadata { cursor: p, ..m }).tokens == v.tokens);
    lemma_tokens_keep_hp(at, texts, 0);
    lemma_tokens_keep_hp(m, texts, 0);
    assert(m.tokens + texts =~= texts);
}

proof fn lemma_short_key(key: Seq<char>)
    requires
        key.len() <= 32,
    ensures
        encode_utf8(key).len() <= 4 * key.len(),
    decreases key.len(),
{
    if key.len() > 0 {
        lemma_short_key(key.drop_first());
    }
}

proof fn lemma_tokens_keep_hp(m: Metadata, texts: Seq<Seq<char>>, first: nat)
    ensures
        with_tokens(m, texts, first).hp == m.hp,
        with_tokens(m, texts, first).arch == m.arch,
        with_tokens(m, texts, first).alignment == m.alignment,
    decreases texts.len(),
{
    if texts.len() > 0 {
        lemma_tokens_keep_hp(
            Metadata {
                tokens: m.tokens.push(texts[0]),
                ids: m.ids.insert(texts[0], first as u64),
                ..m
            },
            texts.skip(1),
            first + 1,
        );
    }
}

proof fn lemma_tokens_are_the_texts(m: Metadata, texts: Seq<Seq<char>>, first: nat)
    ensures
        with_tokens(m, texts, first).tokens == m.tokens + texts,
    decreases texts.len(),
{
    if texts.len() == 0 {
        assert(m.tokens + texts =~= m.tokens);
    } else {
        let next = Metadata {
            tokens: m.tokens.push(texts[0]),
            ids: m.ids.insert(texts[0], first as u64),
            ..m
        };
        lemma_tokens_are_the_texts(next, texts.skip(1), first + 1);
        assert(m.tokens.push(texts[0]) + texts.skip(1) =~= m.tokens + texts);
    }
}

/// Every token of a vocabulary is found under a number that leads back to it.
pub proof fn law_tokens_are_found_under_their_numbers(
    m: Metadata,
    texts: Seq<Seq<char>>,
    i: int,
)
    requires
        0 <= i < texts.len() < 0x1_0000_0000,
        m.tokens.len() == 0,
    ensures
        ({
            let v = with_tokens(m, texts, 0);
            &&& v.ids.contains_key(texts[i])
            &&& v.ids[texts[i]] < texts.len()
            &&& texts[v.ids[texts[i]] as int] == texts[i]
            &&& i <= v.ids[texts[i]]
        }),
{
    lemma_found(m, texts, 0, i);
}

proof fn lemma_found(m: Metadata, texts: Seq<Seq<char>>, first: nat, i: int)
    requires
        0 <= i < texts.len(),
        first + texts.len() < 0x1_0000_0000,
    ensures
        ({
            let v = with_tokens(m, texts, first);
            let k = v.ids[texts[i]] as int;
            &&& v.ids.contains_key(texts[i])
            &&& first + i <= k < first + texts.len()
            &&& texts[k - first] == texts[i]
        }),
    decreases texts.len(),
{
    let next = Metadata {
        tokens: m.tokens.push(texts[0]),
        ids: m.ids.insert(texts[0], first as u64),
        ..m
    };
    let rest = texts.skip(1);
    if i > 0 {
        lemma_found(next, rest, first + 1, i - 1);
        let k = with_tokens(m, texts, first).ids[texts[i]] as int;
        assert(rest[i - 1] == texts[i]);
        assert(rest[k - first - 1] == texts[k - first]);
    } else if rest.contains(texts[0]) {
        let j = choose|j: int| 0 <= j < rest.len() && rest[j] == texts[0];
        lemma_found(next, rest, first + 1, j);
        let k = with_tokens(m, texts, first).ids[texts[0]] as int;
        assert(rest[k - first - 1] == texts[k - first]);
    } else {
        lemma_not_touched(next, rest, first + 1, texts[0]);
    }
}

proof fn lemma_not_touched(m: Metadata, texts: Seq<Seq<char>>, first: nat, t: Seq<char>)
    requires
        !texts.contains(t),
    ensures
        with_tokens(m, texts, first).ids.contains_key(t) == m.ids.contains_key(t),
        m.ids.contains_key(t) ==> with_tokens(m, texts, first).ids[t] == m.ids[t],
    decreases texts.len(),
{
    if texts.len() > 0 {
        assert(texts.contains(texts[0]));
        let rest = texts.skip(1);
        assert(!rest.contains(t)) by {
            if rest.contains(t) {
                let j = choose|j: int| 0 <= j < rest.len() && rest[j] == t;
                assert(texts[j + 1] == t);
            }
        }
        lemma_not_touched(
            Metadata {
                tokens: m.tokens.push(texts[0]),
                ids: m.ids.insert(texts[0], first as u64),
                ..m
            },
            rest,
            first + 1,
            t,
        );
    }
}

// ---------------------------------------------------------------------------
// Tensors
// ---------------------------------------------------------------------------

/// The numbers of the element types.
pub proof fn law_type_numbers(n: u32)
    ensures
        dtype_of(0) == TensorDType::F32 && dtype_of(1) == TensorDType::F16 && dtype_of(30)
            == TensorDType::BF16 && dtype_of(28) == TensorDType::F64,
        dtype_of(2) == TensorDType::Q4_0 && dtype_of(3) == TensorDType::Q4_1 && dtype_of(6)
            == TensorDType::Q5_0 && dtype_of(7) == TensorDType::Q5_1 && dtype_of(8)
            == TensorDType::Q8_0 && dtype_of(9) == TensorDType::Q8_1,
        dtype_of(10) == TensorDType::Q2_K && dtype_of(11) == TensorDType::Q3_K && dtype_of(12)
            == TensorDType::Q4_K && dtype_of(13) == TensorDType::Q5_K && dtype_of(14)
            == TensorDType::Q6_K && dtype_of(15) == TensorDType::Q8_K,
        dtype_of(16) == TensorDType::IQ2_XXS && dtype_of(17) == TensorDType::IQ2_XS && dtype_of(18)
            == TensorDType::IQ3_XXS && dtype_of(19) == TensorDType::IQ1_S && dtype_of(20)
            == TensorDType::IQ4_NL && dtype_of(21) == TensorDType::IQ3_S && dtype_of(22)
            == TensorDType::IQ2_S && dtype_of(23) == TensorDType::IQ4_XS && dtype_of(29)
            == TensorDType::IQ1_M,
        dtype_of(24) == TensorDType::I8 && dtype_of(25) == TensorDType::I16 && dtype_of(26)
            == TensorDType::I32 && dtype_of(27) == TensorDType::I64,
        dtype_of(41) == TensorDType::Q1_0 && dtype_of(42) == TensorDType::BILLM,
        n == 4 || n == 5 || 31 <= n <= 40 || n >= 43 ==> dtype_of(n) == TensorDType::Unknown(n),
{
}

/// The bytes of a tensor hold its elements and less than one group more; none is missing.
pub proof fn law_bytes_hold_the_elements(d: TensorDType, n: nat)
    requires
        d == TensorDType::F32 || d == TensorDType::F16 || d == TensorDType::BF16 || d
            == TensorDType::Q8_0 || d == TensorDType::Q4_0 || d == TensorDType::IQ4_NL,
    ensures
        n <= stored_elements(d, tensor_bytes(d, n)),
        stored_elements(d, tensor_bytes(d, n)) < n + 32,
        d == TensorDType::F32 ==> tensor_bytes(d, n) == 4 * n,
        d == TensorDType::F16 || d == TensorDType::BF16 ==> tensor_bytes(d, n) == 2 * n,
        n % 32 == 0 && d == TensorDType::Q8_0 ==> tensor_bytes(d, n) * 32 == n * 34,
        n % 32 == 0 && (d == TensorDType::Q4_0 || d == TensorDType::IQ4_NL) ==> tensor_bytes(d, n)
            * 32 == n * 18,
{
    let g = ((n + 31) / 32) as nat;
    assert(n <= g * 32 < n + 32);
    assert((g * 34) / 34 == g);
    assert((g * 18) / 18 == g);
    match d {
        TensorDType::F32 | TensorDType::F16 | TensorDType::BF16 => {},
        TensorDType::Q8_0 => {
            assert(tensor_bytes(d, n) == g * 34);
            assert(stored_elements(d, g * 34) == (g * 34) / 34 * 32);
        },
        _ => {
            assert(tensor_bytes(d, n) == g * 18);
            assert(stored_elements(d, g * 18) == (g * 18) / 18 * 32);
        },
    }
}

proof fn lemma_dims(file: Seq<u8>, at: int, dims: Seq<u64>)
    requires
        written(file, at, dims_bytes(dims)),
    ensures
        dims_bytes(dims).len() == 8 * dims.len(),
        forall|i: int| 0 <= i < dims.len() ==> #[trigger] le_at(file, at + 8 * i, 8) == dims[i],
    decreases dims.len(),
{
    if dims.len() > 0 {
        lemma_pow256();
        lemma_le_bytes_len(dims[0] as nat, 8);
        lemma_two_parts(file, at, le_bytes(dims[0] as nat, 8), dims_bytes(dims.skip(1)));
        lemma_number(file, at, dims[0] as nat, 8);
        lemma_dims(file, at + 8, dims.skip(1));
        assert forall|i: int| 0 <= i < dims.len() implies #[trigger] le_at(file, at + 8 * i, 8)
            == dims[i] by {
            if i > 0 {
                assert(le_at(file, (at + 8) + 8 * (i - 1), 8) == dims.skip(1)[i - 1]);
            }
        }
    }
}

/// A tensor that was written into the directory is read from it: its name, its dimensions in their
/// order, its type and its place; its size follows from them. Reading goes on right behind it.
pub proof fn law_written_tensor_is_read(
    file: Seq<u8>,
    at: nat,
    name: Seq<char>,
    dims: Seq<u64>,
    shape: Seq<usize>,
    ty: u32,
    offset: u64,
)
    requires
        written(file, at as int, entry_bytes(name, dims, ty, offset)),
        encode_utf8(name).len() < 0x1_0000_0000,
        dims.len() < 0x1_0000_0000,
        shape.len() == dims.len(),
        forall|i: int| 0 <= i < dims.len() ==> #[trigger] shape[i] == dims[i],
        supported_on_apu(dtype_of(ty)),
        product_fits(shape),
        tensor_bytes(dtype_of(ty), product(shape)) <= usize::MAX,
        offset <= usize::MAX,
    ensures
        entry_at(file, at) == Entry::Tensor(
            TensorInfo {
                name,
                shape,
                dtype: dtype_of(ty),
                offset: offset as nat,
                size: tensor_bytes(dtype_of(ty), product(shape)),
            },
            at + entry_bytes(name, dims, ty, offset).len(),
        ),
{
    let e = encode_utf8(name).len();
    let t = text_bytes(name);
    let n = le_bytes(dims.len(), 4);
    let d = dims_bytes(dims);
    let k = le_bytes(ty as nat, 4);
    let o = le_bytes(offset as nat, 8);
    lemma_pow256();
    lemma_le_bytes_len(dims.len(), 4);
    lemma_le_bytes_len(ty as nat, 4);
    lemma_le_bytes_len(offset as nat, 8);
    lemma_two_parts(file, at as int, t + n + d + k, o);
    lemma_two_parts(file, at as int, t + n + d, k);
    lemma_two_parts(file, at as int, t + n, d);
    lemma_two_parts(file, at as int, t, n);
    lemma_text(file, at as int, name);
    lemma_number(file, (at + t.len()) as int, dims.len(), 4);
    let p = at + 12 + e;
    lemma_dims(file, p as int, dims);
    let end = p + 8 * dims.len();
    lemma_number(file, end as int, ty as nat, 4);
    lemma_number(file, (end + 4) as int, offset as nat, 8);
    assert(dims_at(file, p, dims.len()) =~= shape) by {
        assert forall|i: int| 0 <= i < dims.len() implies dims_at(file, p, dims.len())[i]
            == shape[i] by {
            assert(le_at(file, p + 8 * i, 8) == dims[i]);
        }
    }
    assert(entry_fits(file, p, dims.len(), dtype_of(ty), offset as nat)) by {
        assert forall|i: int| 0 <= i < dims.len() implies #[trigger] le_at(file, p + 8 * i, 8)
            <= usize::MAX by {
            assert(shape[i] == dims[i]);
        }
    }
}

// ---------------------------------------------------------------------------
// Topologies
// ---------------------------------------------------------------------------

/// What the dimensions of a file mean for its topology.
pub proof fn law_dimensions_have_their_meaning(s: Scan, arch: Seq<char>, v: u32)
    ensures
        with_dimension(s, arch + ".block_count"@, v) == (Scan { block_count: Some(v), ..s }),
        with_dimension(s, arch + ".embedding_length"@, v) == (Scan { embedding_len: Some(v), ..s }),
        with_dimension(s, arch + ".attention.head_count"@, v) == (Scan {
            head_count: Some(v),
            ..s
        }),
        with_dimension(s, arch + ".attention.head_count_kv"@, v) == (Scan {
            head_count_kv: Some(v),
            ..s
        }),
        with_dimension(s, arch + ".feed_forward_length"@, v) == (Scan { ffn_len: Some(v), ..s }),
        with_dimension(s, arch + ".context_length"@, v) == (Scan { ctx_len: Some(v), ..s }),
{
    lemma_key_names();
    lemma_number_keys(arch);
    lemma_head_keys(arch);
    lemma_ends(arch, ".embedding_length"@, ".block_count"@);
    lemma_ends(arch, ".context_length"@, ".block_count"@);
    lemma_ends(arch, ".context_length"@, ".embedding_length"@);
    assert(".context_length"@[15 - 1 - 7] != ".embedding_length"@[17 - 1 - 7]);
    lemma_ends(arch, ".context_length"@, ".attention.head_count"@);
    lemma_ends(arch, ".context_length"@, ".attention.head_count_kv"@);
    lemma_ends(arch, ".context_length"@, ".feed_forward_length"@);
    assert(".context_length"@[15 - 1 - 7] != ".feed_forward_length"@[20 - 1 - 7]);
    lemma_ends(arch, ".feed_forward_length"@, ".block_count"@);
    lemma_ends(arch, ".feed_forward_length"@, ".embedding_length"@);
    assert(".feed_forward_length"@[20 - 1 - 7] != ".embedding_length"@[17 - 1 - 7]);
    lemma_ends(arch, ".feed_forward_length"@, ".attention.head_count"@);
    lemma_ends(arch, ".feed_forward_length"@, ".attention.head_count_kv"@);
}

/// A dimension that was written is found by a scan, in 32 bits or in 64, and the scan goes on
/// right behind it.
pub proof fn law_written_dimension_is_found(
    file: Seq<u8>,
    s: Scan,
    key: Seq<char>,
    ty: nat,
    v: u32,
    n: nat,
)
    requires
        encode_utf8(key).len() <= 256,
        (ty == 4 || ty == 5) && written(
            file,
            s.pos as int,
            key_bytes(key, ty) + le_bytes(v as nat, 4),
        ) || (ty == 10 || ty == 11) && written(
            file,
            s.pos as int,
            key_bytes(key, ty) + le_bytes(v as nat, 8),
        ),
    ensures
        scan_entries(file, s, n + 1) == scan_entries(
            file,
            Scan {
                pos: s.pos + encode_utf8(key).len() + if ty == 4 || ty == 5 {
                    16nat
                } else {
                    20
                },
                ..with_dimension(s, key, v)
            },
            n,
        ),
{
    let e = encode_utf8(key).len();
    lemma_pow256();
    let at = s.pos + 12 + e;
    if ty == 4 || ty == 5 {
        lemma_key(file, s.pos as int, key, ty, le_bytes(v as nat, 4));
        lemma_number(file, at as int, v as nat, 4);
        let after = Scan { pos: at + 4, ..s };
        assert(scan_entry(file, s) == Some(with_dimension(after, key, v)));
        assert(with_dimension(after, key, v) == (Scan {
            pos: at + 4,
            ..with_dimension(s, key, v)
        }));
    } else {
        lemma_key(file, s.pos as int, key, ty, le_bytes(v as nat, 8));
        lemma_number(file, at as int, v as nat, 8);
        let after = Scan { pos: at + 8, ..s };
        assert(scan_entry(file, s) == Some(with_dimension(after, key, v)));
        assert(with_dimension(after, key, v) == (Scan {
            pos: at + 8,
            ..with_dimension(s, key, v)
        }));
    }
}

/// The architecture that was written is found by a scan; other short texts are passed over.
pub proof fn law_written_architecture_is_found(
    file: Seq<u8>,
    s: Scan,
    key: Seq<char>,
    text: Seq<char>,
    n: nat,
)
    requires
        encode_utf8(key).len() <= 256,
        encode_utf8(text).len() < 256,
        written(file, s.pos as int, key_bytes(key, 8) + text_bytes(text)),
    ensures
        scan_entries(file, s, n + 1) == scan_entries(
            file,
            Scan {
                pos: s.pos + 20 + encode_utf8(key).len() + encode_utf8(text).len(),
                arch: if key == "general.architecture"@ {
                    Some(text)
                } else {
                    s.arch
                },
                ..s
            },
            n,
        ),
{
    let e = encode_utf8(key).len();
    lemma_key(file, s.pos as int, key, 8, text_bytes(text));
    lemma_text(file, (s.pos + 12 + e) as int, text);
}

/// The topology of a model is what its file states, as far as the file states it; heads divide the
/// width of a layer.
pub proof fn law_topology_is_what_the_file_states(s: Scan, f: Seq<char>)
    ensures
        ({
            let t = topology_of(s, f);
            &&& s.arch is Some ==> t.arch_name == s.arch->0
            &&& s.embedding_len is Some ==> t.hidden_dim == s.embedding_len->0
            &&& s.head_count is Some ==> t.num_heads == s.head_count->0
            &&& s.head_count_kv is Some ==> t.num_kv_heads == s.head_count_kv->0
            &&& s.block_count is Some ==> t.num_layers == s.block_count->0
            &&& s.ctx_len is Some ==> t.context_length == s.ctx_len->0
            &&& s.ffn_len is Some ==> t.ffn_dim == s.ffn_len->0
            &&& t.num_heads > 0 ==> t.head_dim * t.num_heads <= t.hidden_dim < (t.head_dim + 1)
                * t.num_heads
            &&& t.num_heads == 0 ==> t.head_dim == 128
        }),
{
    let t = topology_of(s, f);
    if t.num_heads > 0 {
        assert(t.head_dim == t.hidden_dim / t.num_heads);
        vstd::arithmetic::div_mod::lemma_fundamental_div_mod(
            t.hidden_dim as int,
            t.num_heads as int,
        );
        vstd::arithmetic::mul::lemma_mul_is_distributive_add_other_way(
            t.num_heads as int,
            t.head_dim as int,
            1,
        );
        vstd::arithmetic::mul::lemma_mul_is_commutative(t.num_heads as int, t.head_dim as int);
    }
}

/// The bytes of tensors of the other types: 144 for each group of 256 four-bit weights with
/// scales of their own, the last group filled up, and two for each element of all the rest.
pub proof fn law_bytes_of_other_types(d: TensorDType, n: nat, k: nat)
    ensures
        n == 256 * k ==> tensor_bytes(TensorDType::Q4_K, n) == 144 * k,
        256 * k < n <= 256 * k + 256 ==> tensor_bytes(TensorDType::Q4_K, n) == 144 * k + 144,
        d != TensorDType::F32 && d != TensorDType::Q8_0 && d != TensorDType::Q4_0 && d
            != TensorDType::IQ4_NL && d != TensorDType::Q4_K ==> tensor_bytes(d, n) == n + n,
{
    if n == 256 * k {
        assert((n + 255) / 256 == k);
    }
    if 256 * k < n <= 256 * k + 256 {
        assert((n + 255) / 256 == k + 1);
    }
}

/// A long text is passed over as a whole, whatever its key.
pub proof fn law_long_texts_are_passed_over(
    file: Seq<u8>,
    s: Scan,
    key: Seq<char>,
    len: nat,
    n: nat,
)
    requires
        encode_utf8(key).len() <= 256,
        256 <= len,
        s.pos + 20 + encode_utf8(key).len() + len <= i64::MAX,
        written(file, s.pos as int, key_bytes(key, 8) + le_bytes(len, 8)),
    ensures
        scan_entries(file, s, n + 1) == scan_entries(
            file,
            Scan { pos: s.pos + 20 + encode_utf8(key).len() + len, ..s },
            n,
        ),
{
    let e = encode_utf8(key).len();
    lemma_pow256();
    lemma_key(file, s.pos as int, key, 8, le_bytes(len, 8));
    lemma_number(file, (s.pos + 12 + e) as int, len, 8);
}

/// A length with the top bit set counts backwards, as far as the file goes.
pub proof fn law_negative_lengths_count_backwards(pos: nat, n: nat)
    requires
        1 <= n <= 0x8000_0000_0000_0000,
    ensures
        n <= pos ==> moved(pos, (0x1_0000_0000_0000_0000 - n) as nat) == pos - n,
        n > pos ==> moved(pos, (0x1_0000_0000_0000_0000 - n) as nat) == pos,
        n <= i64::MAX && pos + n > i64::MAX ==> moved(pos, n) == pos,
{
}

} // verus!
