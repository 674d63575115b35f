//! What holds of tokens as a whole: which bytes they stand for, and how they follow from a text.

use vstd::prelude::*;
use vstd::string::*;
use vstd::utf8::*;

use crate::container::tokenizer::{
    bpe_byte, bpe_char, bpe_code, byte_token, fallback_token, greedy_tokens, has_bpe_char, id_text,
    joined_text, keys_lead_to_entries, law_bpe_byte_round_trip, law_bpe_char_round_trip,
    law_greedy_takes_the_longest_token, longest_token, no_byte_tokens, prepared_text, token_byte,
    token_bytes, token_text, until_eos, uses_bpe, window,
};
use crate::text::decoded;

verus! {

// ---------------------------------------------------------------------------
// Bytes as characters
// ---------------------------------------------------------------------------

/// The visible characters of Latin-1 stand for their own bytes; the other bytes are stood for by
/// the characters from U+0100 on, in the order of the bytes, without a gap.
pub proof fn law_bytes_are_stood_for_in_order(b: u8, c: u8)
    ensures
        (0x21 <= b <= 0x7E || 0xA1 <= b <= 0xAC || 0xAE <= b <= 0xFF) <==> bpe_code(b) == b,
        !(0x21 <= b <= 0x7E || 0xA1 <= b <= 0xAC || 0xAE <= b <= 0xFF) ==> 0x100 <= bpe_code(b)
            <= 0x143,
        bpe_code(0) == 0x100,
        bpe_code(0xAD) == 0x143,
        bpe_code(b) != b && bpe_code(c) != c && b < c ==> bpe_code(b) < bpe_code(c),
        bpe_char(b) as u32 == bpe_code(b),
        bpe_byte(bpe_char(b)) == Some(b),
{
}

/// A vocabulary is byte-level where it has one of four common words with the character for a
/// space in front. The characters of a text are then those of its UTF-8 bytes, one for each; with
/// any other vocabulary they are the text itself.
pub proof fn law_text_is_prepared_for_its_vocabulary(ids: Map<Seq<char>, u64>, text: Seq<char>)
    ensures
        ids.contains_key("Ġthe"@) || ids.contains_key("Ġis"@) || ids.contains_key("Ġcapital"@)
            || ids.contains_key("ĠFrance"@) ==> {
            &&& prepared_text(ids, text).len() == encode_utf8(text).len()
            &&& forall|i: int|
                0 <= i < encode_utf8(text).len() ==> bpe_byte(#[trigger] prepared_text(ids, text)[i])
                    == Some(encode_utf8(text)[i])
        },
        !(ids.contains_key("Ġthe"@) || ids.contains_key("Ġis"@) || ids.contains_key("Ġcapital"@)
            || ids.contains_key("ĠFrance"@)) ==> prepared_text(ids, text) == text,
{
    if uses_bpe(ids) {
        assert forall|i: int| 0 <= i < encode_utf8(text).len() implies bpe_byte(
            #[trigger] prepared_text(ids, text)[i],
        ) == Some(encode_utf8(text)[i]) by {
            law_bpe_byte_round_trip(encode_utf8(text)[i]);
        }
    }
}

/// Different texts are looked for in different characters: nothing of a text is lost before it is
/// split.
pub proof fn law_prepared_texts_differ(ids: Map<Seq<char>, u64>, a: Seq<char>, b: Seq<char>)
    requires
        prepared_text(ids, a) == prepared_text(ids, b),
    ensures
        a == b,
{
    if uses_bpe(ids) {
        law_text_is_prepared_for_its_vocabulary(ids, a);
        law_text_is_prepared_for_its_vocabulary(ids, b);
        assert(encode_utf8(a) =~= encode_utf8(b)) by {
            assert forall|i: int| 0 <= i < encode_utf8(a).len() implies encode_utf8(a)[i]
                == encode_utf8(b)[i] by {
                assert(bpe_byte(prepared_text(ids, a)[i]) == Some(encode_utf8(a)[i]));
                assert(bpe_byte(prepared_text(ids, b)[i]) == Some(encode_utf8(b)[i]));
            }
        }
        encode_utf8_decode_utf8(a);
        encode_utf8_decode_utf8(b);
    }
}

// ---------------------------------------------------------------------------
// The choice of tokens
// ---------------------------------------------------------------------------

/// How the tokens of a text begin: with the longest entry of the vocabulary, of at most 64
/// characters, that the text begins with; where it begins with none, with the token of its first
/// character's byte. The rest follows in the same way.
pub proof fn law_longest_entry_comes_first(ids: Map<Seq<char>, u64>, chars: Seq<char>, at: int)
    requires
        0 <= at <= chars.len(),
    ensures
        at == chars.len() ==> greedy_tokens(ids, chars, at) == Seq::<u32>::empty(),
        forall|n: int|
            1 <= n <= 64 && at + n <= chars.len() && ids.contains_key(
                #[trigger] chars.subrange(at, at + n),
            ) && (forall|m: int|
                n < m <= 64 && at + m <= chars.len() ==> !ids.contains_key(
                    #[trigger] chars.subrange(at, at + m),
                )) ==> greedy_tokens(ids, chars, at) == seq![
                ids[chars.subrange(at, at + n)] as u32,
            ] + greedy_tokens(ids, chars, at + n),
        at < chars.len() && (forall|m: int|
            1 <= m <= 64 && at + m <= chars.len() ==> !ids.contains_key(
                #[trigger] chars.subrange(at, at + m),
            )) ==> greedy_tokens(ids, chars, at) == seq![fallback_token(ids, chars[at])]
            + greedy_tokens(ids, chars, at + 1),
{
    let w = window(chars, at);
    let best = longest_token(ids, chars, at, w);
    law_greedy_takes_the_longest_token(ids, chars, at, w);
    assert forall|n: int|
        1 <= n <= 64 && at + n <= chars.len() && ids.contains_key(
            #[trigger] chars.subrange(at, at + n),
        ) && (forall|m: int|
            n < m <= 64 && at + m <= chars.len() ==> !ids.contains_key(
                #[trigger] chars.subrange(at, at + m),
            )) implies greedy_tokens(ids, chars, at) == seq![
        ids[chars.subrange(at, at + n)] as u32,
    ] + greedy_tokens(ids, chars, at + n) by {
        assert(n <= w);
        if best < n {
            assert(!ids.contains_key(chars.subrange(at, at + n)));
        }
        if best > n {
            assert(ids.contains_key(chars.subrange(at, at + best)));
        }
        assert(best == n);
    }
}

/// The token of a byte in vocabularies with byte fallback is `<0x`, two upper-case hexadecimal
/// digits and `>`, and is read back as that byte.
pub proof fn law_byte_tokens_read_back(b: u8)
    ensures
        byte_token(b).len() == 6,
        byte_token(b)[0] == '<' && byte_token(b)[1] == '0' && byte_token(b)[2] == 'x',
        byte_token(b)[5] == '>',
        token_byte(byte_token(b)) == Some(b),
        token_text(byte_token(b)) == decoded(seq![b]),
        forall|i: int|
            3 <= i < 5 ==> '0' <= #[trigger] byte_token(b)[i] <= '9' || 'A' <= byte_token(b)[i]
                <= 'F',
{
}

/// A character that begins no entry becomes the token of its byte: the byte that it stands for,
/// or else the low byte of its code point; the byte itself where there is no such token.
pub proof fn law_unknown_characters_become_bytes(ids: Map<Seq<char>, u64>, c: char, b: u8)
    requires
        bpe_byte(c) == Some(b) || bpe_byte(c) is None && b == c as u32 % 256,
    ensures
        ids.contains_key(byte_token(b)) ==> fallback_token(ids, c) == ids[byte_token(b)] as u32,
        !ids.contains_key(byte_token(b)) ==> fallback_token(ids, c) == b,
{
}

// ---------------------------------------------------------------------------
// The bytes of tokens
// ---------------------------------------------------------------------------

/// The bytes that an entry of the vocabulary stands for.
pub open spec fn stands_for(tok: Seq<char>) -> Seq<u8> {
    match token_byte(tok) {
        Some(b) => seq![b],
        None => if tok.contains(' ') || !has_bpe_char(tok) {
            encode_utf8(tok)
        } else {
            token_bytes(tok)
        },
    }
}

/// The bytes that token numbers stand for, one after the other.
pub open spec fn bytes_of(tokens: Seq<String>, ids: Seq<u32>) -> Seq<u8>
    decreases ids.len(),
{
    if ids.len() == 0 {
        Seq::empty()
    } else {
        (if ids[0] < tokens.len() {
            stands_for(tokens[ids[0] as int]@)
        } else {
            Seq::empty()
        }) + bytes_of(tokens, ids.skip(1))
    }
}

/// The vocabulary has a token for each byte.
pub open spec fn has_all_bytes(ids: Map<Seq<char>, u64>) -> bool {
    forall|b: u8| ids.contains_key(seq![#[trigger] bpe_char(b)])
}

/// Characters that stand for bytes are decoded to these bytes, in order.
pub proof fn law_byte_characters_stand_for_bytes(bytes: Seq<u8>)
    requires
        bytes.len() > 0,
        token_byte(bytes.map_values(|b: u8| bpe_char(b))) is None,
    ensures
        stands_for(bytes.map_values(|b: u8| bpe_char(b))) == bytes,
        token_text(bytes.map_values(|b: u8| bpe_char(b))) == decoded(bytes),
{
    let tok = bytes.map_values(|b: u8| bpe_char(b));
    lemma_bytes_of_characters(bytes);
    assert(!tok.contains(' ')) by {
        if tok.contains(' ') {
            let k = choose|k: int| 0 <= k < tok.len() && tok[k] == ' ';
            law_bpe_byte_round_trip(bytes[k]);
            assert(bpe_byte(' ') is None);
        }
    }
    assert(has_bpe_char(tok)) by {
        law_bpe_byte_round_trip(bytes[0]);
        assert(bpe_byte(tok[0]) is Some);
    }
}

proof fn lemma_bytes_of_characters(bytes: Seq<u8>)
    ensures
        token_bytes(bytes.map_values(|b: u8| bpe_char(b))) == bytes,
    decreases bytes.len(),
{
    let tok = bytes.map_values(|b: u8| bpe_char(b));
    if bytes.len() > 0 {
        lemma_bytes_of_characters(bytes.drop_last());
        assert(tok.drop_last() =~= bytes.drop_last().map_values(|b: u8| bpe_char(b)));
        law_bpe_byte_round_trip(bytes.last());
        assert(tok.last() == bpe_char(bytes.last()));
        assert(bytes.drop_last() + seq![bytes.last()] =~= bytes);
    } else {
        assert(bytes =~= Seq::empty());
    }
}

/// The text of an entry is what its bytes read as. An entry with a space, and one without any
/// character that stands for a byte, is its own text.
pub proof fn law_entries_read_as_their_bytes(tok: Seq<char>)
    ensures
        token_text(tok) == decoded(stands_for(tok)),
        token_byte(tok) is None && tok.contains(' ') ==> token_text(tok) == tok,
        token_byte(tok) is None && (forall|i: int|
            0 <= i < tok.len() ==> bpe_byte(#[trigger] tok[i]) is None) ==> token_text(tok) == tok,
{
    encode_utf8_valid_utf8(tok);
    encode_utf8_decode_utf8(tok);
}

/// Nothing of a text is lost in its tokens: with a byte-level vocabulary that has a token for
/// each byte, the bytes that the tokens of a text stand for are, one after the other, the UTF-8
/// bytes of the text. Each key has to be the number of its own entry, and no key may be a byte
/// token.
pub proof fn law_tokens_stand_for_the_text(
    tokens: Seq<String>,
    ids: Map<Seq<char>, u64>,
    text: Seq<char>,
)
    requires
        keys_lead_to_entries(tokens, ids),
        uses_bpe(ids),
        has_all_bytes(ids),
        no_byte_tokens(ids),
    ensures
        bytes_of(tokens, greedy_tokens(ids, prepared_text(ids, text), 0)) == encode_utf8(text),
{
    law_text_is_prepared_for_its_vocabulary(ids, text);
    lemma_bytes_from(tokens, ids, text, 0);
    assert(encode_utf8(text).skip(0) =~= encode_utf8(text));
}

proof fn lemma_bytes_from(
    tokens: Seq<String>,
    ids: Map<Seq<char>, u64>,
    text: Seq<char>,
    at: int,
)
    requires
        keys_lead_to_entries(tokens, ids),
        uses_bpe(ids),
        has_all_bytes(ids),
        no_byte_tokens(ids),
        0 <= at <= encode_utf8(text).len(),
    ensures
        bytes_of(tokens, greedy_tokens(ids, prepared_text(ids, text), at)) == encode_utf8(
            text,
        ).skip(at),
    decreases encode_utf8(text).len() - at,
{
    let chars = prepared_text(ids, text);
    let bytes = encode_utf8(text);
    law_text_is_prepared_for_its_vocabulary(ids, text);
    if at == bytes.len() {
        assert(bytes.skip(at) =~= Seq::empty());
    } else {
        let n = lemma_first_piece(ids, text, at);
        let piece = chars.subrange(at, at + n);
        let id = ids[piece] as u32;
        let rest = greedy_tokens(ids, chars, at + n);
        let all = greedy_tokens(ids, chars, at);
        assert(ids.contains_key(piece));
        lemma_piece_bytes(ids, text, at, n);
        lemma_bytes_from(tokens, ids, text, at + n);
        assert(all == seq![id] + rest);
        assert(all.skip(1) =~= rest);
        assert(all[0] == id);
        assert(bytes.subrange(at, at + n) + bytes.skip(at + n) =~= bytes.skip(at));
    }
}

/// The length of the piece that is taken at a place of a prepared text.
proof fn lemma_first_piece(ids: Map<Seq<char>, u64>, text: Seq<char>, at: int) -> (n: int)
    requires
        uses_bpe(ids),
        has_all_bytes(ids),
        0 <= at < encode_utf8(text).len(),
    ensures
        1 <= n,
        at + n <= encode_utf8(text).len(),
        ids.contains_key(prepared_text(ids, text).subrange(at, at + n)),
        greedy_tokens(ids, prepared_text(ids, text), at) == seq![
            ids[prepared_text(ids, text).subrange(at, at + n)] as u32,
        ] + greedy_tokens(ids, prepared_text(ids, text), at + n),
{
    let chars = prepared_text(ids, text);
    law_text_is_prepared_for_its_vocabulary(ids, text);
    let w = window(chars, at);
    let n = longest_token(ids, chars, at, w);
    law_greedy_takes_the_longest_token(ids, chars, at, w);
    assert(n > 0) by {
        let b = encode_utf8(text)[at];
        law_bpe_char_round_trip(chars[at]);
        assert(chars.subrange(at, at + 1) =~= seq![bpe_char(b)]);
        assert(ids.contains_key(chars.subrange(at, at + 1)));
    }
    n as int
}

proof fn lemma_piece_bytes(ids: Map<Seq<char>, u64>, text: Seq<char>, at: int, n: int)
    requires
        uses_bpe(ids),
        no_byte_tokens(ids),
        0 <= at,
        1 <= n,
        at + n <= encode_utf8(text).len(),
        ids.contains_key(prepared_text(ids, text).subrange(at, at + n)),
    ensures
        stands_for(prepared_text(ids, text).subrange(at, at + n)) == encode_utf8(text).subrange(
            at,
            at + n,
        ),
{
    let chars = prepared_text(ids, text);
    let piece = chars.subrange(at, at + n);
    let bytes = encode_utf8(text).subrange(at, at + n);
    law_text_is_prepared_for_its_vocabulary(ids, text);
    assert forall|k: int| 0 <= k < n implies #[trigger] piece[k] == bpe_char(bytes[k]) by {
        assert(bpe_byte(chars[at + k]) == Some(encode_utf8(text)[at + k]));
        law_bpe_char_round_trip(chars[at + k]);
    }
    assert(piece =~= bytes.map_values(|b: u8| bpe_char(b)));
    law_byte_characters_stand_for_bytes(bytes);
}

/// Any text survives a byte-level vocabulary where its tokens end where its characters do: where
/// the bytes of each of them are valid UTF-8, decoding the tokens gives the text back.
pub proof fn law_text_is_decoded_back(
    tokens: Seq<String>,
    ids: Map<Seq<char>, u64>,
    text: Seq<char>,
)
    requires
        keys_lead_to_entries(tokens, ids),
        uses_bpe(ids),
        has_all_bytes(ids),
        no_byte_tokens(ids),
        forall|i: int|
            0 <= i < greedy_tokens(ids, prepared_text(ids, text), 0).len() ==> {
                let id = #[trigger] greedy_tokens(ids, prepared_text(ids, text), 0)[i];
                id < tokens.len() && valid_utf8(stands_for(tokens[id as int]@))
            },
    ensures
        joined_text(tokens, greedy_tokens(ids, prepared_text(ids, text), 0)) == text,
{
    let all = greedy_tokens(ids, prepared_text(ids, text), 0);
    law_tokens_stand_for_the_text(tokens, ids, text);
    lemma_joined_bytes(tokens, all);
    encode_utf8_decode_utf8(text);
}

proof fn lemma_joined_bytes(tokens: Seq<String>, ids: Seq<u32>)
    requires
        forall|i: int|
            0 <= i < ids.len() ==> (#[trigger] ids[i]) < tokens.len() && valid_utf8(
                stands_for(tokens[ids[i] as int]@),
            ),
    ensures
        valid_utf8(bytes_of(tokens, ids)),
        decode_utf8(bytes_of(tokens, ids)) == joined_text(tokens, ids),
    decreases ids.len(),
{
    if ids.len() > 0 {
        let rest = ids.skip(1);
        let first = stands_for(tokens[ids[0] as int]@);
        assert forall|i: int| 0 <= i < rest.len() implies (#[trigger] rest[i]) < tokens.len()
            && valid_utf8(stands_for(tokens[rest[i] as int]@)) by {
            assert(rest[i] == ids[i + 1]);
        }
        lemma_joined_bytes(tokens, rest);
        lemma_decode_concat(first, bytes_of(tokens, rest));
        law_entries_read_as_their_bytes(tokens[ids[0] as int]@);
        assert(seq![ids[0]] =~= ids.take(1));
        law_decoding_adds_up(tokens, seq![ids[0]], rest);
        assert(seq![ids[0]] + rest =~= ids);
    }
}

proof fn lemma_decode_concat(a: Seq<u8>, b: Seq<u8>)
    requires
        valid_utf8(a),
        valid_utf8(b),
    ensures
        valid_utf8(a + b),
        decode_utf8(a + b) == decode_utf8(a) + decode_utf8(b),
    decreases a.len(),
{
    valid_utf8_concat(a, b);
    if a.len() == 0 {
        assert(a + b =~= b);
        assert(decode_utf8(a) + decode_utf8(b) =~= decode_utf8(b));
    } else {
        let n = length_of_first_scalar(a);
        assert(pop_first_scalar(a + b) =~= pop_first_scalar(a) + b);
        lemma_decode_concat(pop_first_scalar(a), b);
        assert(decode_utf8(a + b) =~= decode_utf8(a) + decode_utf8(b));
    }
}

/// Decoding goes token by token: the text of two sequences of tokens is the one text and then the
/// other, that of one token is its own, and numbers without an entry have none.
pub proof fn law_decoding_adds_up(tokens: Seq<String>, a: Seq<u32>, b: Seq<u32>)
    ensures
        joined_text(tokens, a + b) == joined_text(tokens, a) + joined_text(tokens, b),
        forall|id: u32|
            #![trigger id_text(tokens, id)]
            joined_text(tokens, seq![id]) == id_text(tokens, id) && (id >= tokens.len() ==> id_text(
                tokens,
                id,
            ) == Seq::<char>::empty()) && (id < tokens.len() ==> id_text(tokens, id) == token_text(
                tokens[id as int]@,
            )),
    decreases b.len(),
{
    assert forall|id: u32|
        #![trigger id_text(tokens, id)]
        joined_text(tokens, seq![id]) == id_text(tokens, id) by {
        assert(seq![id].drop_last() =~= Seq::empty());
        assert(joined_text(tokens, Seq::<u32>::empty()) =~= Seq::empty());
        assert(seq![id].last() == id);
        assert(Seq::<char>::empty() + id_text(tokens, id) =~= id_text(tokens, id));
    }
    if b.len() == 0 {
        assert(a + b =~= a);
        assert(joined_text(tokens, a) + joined_text(tokens, b) =~= joined_text(tokens, a));
    } else {
        law_decoding_adds_up(tokens, a, b.drop_last());
        assert((a + b).drop_last() =~= a + b.drop_last());
        assert((a + b).last() == b.last());
        assert(joined_text(tokens, a + b) =~= joined_text(tokens, a) + joined_text(tokens, b));
    }
}

/// What comes before the end of a sequence is all that comes before its first end token.
pub proof fn law_decoding_stops_at_the_end_token(before: Seq<u32>, after: Seq<u32>, eos: u32)
    requires
        !before.contains(eos),
    ensures
        until_eos(before, eos) == before,
        until_eos(before + seq![eos] + after, eos) == before,
    decreases before.len(),
{
    let all = before + seq![eos] + after;
    if before.len() == 0 {
        assert(all[0] == eos);
        assert(before =~= Seq::empty());
    } else {
        let rest = before.skip(1);
        assert(!rest.contains(eos)) by {
            if rest.contains(eos) {
                let k = choose|k: int| 0 <= k < rest.len() && rest[k] == eos;
                assert(before[k + 1] == eos);
            }
        }
        assert(before.contains(before[0]));
        law_decoding_stops_at_the_end_token(rest, after, eos);
        assert(all.skip(1) =~= rest + seq![eos] + after);
        assert(seq![before[0]] + rest =~= before);
        assert(all[0] == before[0]);
    }
}

} // verus!
