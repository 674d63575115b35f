//! Vocabulary tokenizer read from model metadata.

use vstd::prelude::*;
use vstd::string::*;
use vstd::utf8::*;

use crate::string_map::StringMap;
use crate::text::{all_ascii, chars_of, decoded, string_of, utf8_lossy};

verus! {

/// `std::char::from_u32`: the character of a code point. Every number up to `0x10FFFF` has one,
/// but for the surrogates.
pub assume_specification[ std::char::from_u32 ](i: u32) -> (r: Option<char>)
    ensures
        r is Some <==> i < 0xD800 || 0xE000 <= i <= 0x10FFFF,
        r is Some ==> r->0 as u32 == i,
;

/// Longest token, in characters, that is looked for in a text.
pub const MAX_TOKEN_CHARS: usize = 64;

// ---------------------------------------------------------------------------
// Bytes as printable characters
// ---------------------------------------------------------------------------

/// Bytes that stand for themselves in byte-level vocabularies.
pub open spec fn printable(b: u8) -> bool {
    0x21 <= b <= 0x7E || 0xA1 <= b <= 0xAC || 0xAE <= b
}

/// The code point that stands for a byte: the byte itself where it is printable, else the next
/// free code point from 256 on.
pub open spec fn bpe_code(b: u8) -> u32 {
    if printable(b) {
        b as u32
    } else if b <= 0x20 {
        (256 + b) as u32
    } else if b <= 0xA0 {
        (289 + (b - 0x7F)) as u32
    } else {
        323
    }
}

/// The character that stands for a byte.
pub open spec fn bpe_char(b: u8) -> char {
    bpe_code(b) as char
}

/// The byte that a character stands for.
pub open spec fn bpe_byte(c: char) -> Option<u8> {
    let code = c as u32;
    if code < 256 {
        if printable(code as u8) {
            Some(code as u8)
        } else {
            None
        }
    } else if code <= 288 {
        Some((code - 256) as u8)
    } else if code <= 322 {
        Some((code - 289 + 0x7F) as u8)
    } else if code == 323 {
        Some(0xADu8)
    } else {
        None
    }
}

/// The character that stands for a byte in byte-level vocabularies.
pub fn byte_to_bpe_char(b: u8) -> (r: char)
    ensures
        r as u32 == bpe_code(b),
        r == bpe_char(b),
{
    let code: u32 = if 0x21 <= b && b <= 0x7E || 0xA1 <= b && b <= 0xAC || 0xAE <= b {
        b as u32
    } else if b <= 0x20 {
        256 + b as u32
    } else if b <= 0xA0 {
        289 + (b as u32 - 0x7F)
    } else {
        323
    };
    match std::char::from_u32(code) {
        Some(c) => {
            proof {
                char_u32_cast(c, code);
            }
            c
        },
        None => b as char,
    }
}

/// The byte that a character stands for in byte-level vocabularies.
pub fn bpe_char_to_byte(c: char) -> (r: Option<u8>)
    ensures
        r == bpe_byte(c),
{
    let code: u32 = c as u32;
    if code < 256 {
        let b: u8 = code as u8;
        if 0x21 <= b && b <= 0x7E || 0xA1 <= b && b <= 0xAC || 0xAE <= b {
            Some(b)
        } else {
            None
        }
    } else if code <= 288 {
        Some((code - 256) as u8)
    } else if code <= 322 {
        Some((code - 289 + 0x7F) as u8)
    } else if code == 323 {
        Some(0xAD)
    } else {
        None
    }
}

/// Every byte is given back by the character that stands for it.
pub proof fn law_bpe_byte_round_trip(b: u8)
    ensures
        bpe_byte(bpe_char(b)) == Some(b),
{
}

/// Every character that stands for a byte is given back by that byte, so no two characters
/// stand for the same byte.
pub proof fn law_bpe_char_round_trip(c: char)
    requires
        bpe_byte(c) is Some,
    ensures
        bpe_char(bpe_byte(c)->0) == c,
{
}

/// A byte is printable or has a code point of its own from 256 to 323, one for each of the
/// bytes that are not printable.
pub proof fn law_bpe_codes(b: u8)
    ensures
        printable(b) <==> bpe_code(b) == b,
        !printable(b) <==> 256 <= bpe_code(b) <= 323,
{
}

// ---------------------------------------------------------------------------
// The tokenizer
// ---------------------------------------------------------------------------

/// Tokenizer of a model: its vocabulary and the tokens with a special role.
#[derive(Debug, Clone)]
pub struct ModelTokenizer {
    pub tokens: Vec<String>,
    pub token_to_id: StringMap,
    pub bos_token_id: u32,
    pub eos_token_id: u32,
    pub chat_template: Option<String>,
}

impl Default for ModelTokenizer {
    fn default() -> (r: ModelTokenizer)
        ensures
            r.wf(),
            r.tokens@.len() == 0,
            r.token_to_id@ == Map::<Seq<char>, u64>::empty(),
            r.bos_token_id == 1,
            r.eos_token_id == 2,
            r.chat_template is None,
    {
        ModelTokenizer {
            tokens: Vec::new(),
            token_to_id: StringMap::new(),
            bos_token_id: 1,
            eos_token_id: 2,
            chat_template: None,
        }
    }
}

/// One upper-case hexadecimal digit.
pub open spec fn hex_digit(d: int) -> char {
    if d < 10 {
        (48 + d) as u8 as char
    } else {
        (55 + d) as u8 as char
    }
}

/// The token that stands for a byte in vocabularies with byte fallback.
pub open spec fn byte_token(b: u8) -> Seq<char> {
    seq!['<', '0', 'x', hex_digit(b as int / 16), hex_digit(b as int % 16), '>']
}

/// The vocabulary has words that begin with the character for a space.
pub open spec fn uses_bpe(ids: Map<Seq<char>, u64>) -> bool {
    ids.contains_key("Ġthe"@) || ids.contains_key("Ġis"@) || ids.contains_key("Ġcapital"@)
        || ids.contains_key("ĠFrance"@)
}

/// The characters in which tokens are looked for.
pub open spec fn prepared_text(ids: Map<Seq<char>, u64>, text: Seq<char>) -> Seq<char> {
    if uses_bpe(ids) {
        encode_utf8(text).map_values(|b: u8| bpe_char(b))
    } else {
        text
    }
}

/// The length of the longest token, of at most `n` characters, that `chars` has at `at`; zero
/// where there is none.
pub open spec fn longest_token(
    ids: Map<Seq<char>, u64>,
    chars: Seq<char>,
    at: int,
    n: nat,
) -> nat
    decreases n,
{
    if n == 0 {
        0
    } else if ids.contains_key(chars.subrange(at, at + n)) {
        n
    } else {
        longest_token(ids, chars, at, (n - 1) as nat)
    }
}

/// The byte of a character for which there is no token.
pub open spec fn fallback_byte(c: char) -> u8 {
    match bpe_byte(c) {
        Some(b) => b,
        None => (c as u32 % 256) as u8,
    }
}

/// The token of a character that begins no token of the vocabulary.
pub open spec fn fallback_token(ids: Map<Seq<char>, u64>, c: char) -> u32 {
    let b = fallback_byte(c);
    if ids.contains_key(byte_token(b)) {
        ids[byte_token(b)] as u32
    } else {
        b as u32
    }
}

/// The number of characters in which a token is looked for at `at`.
pub open spec fn window(chars: Seq<char>, at: int) -> nat {
    if chars.len() - at <= MAX_TOKEN_CHARS {
        (chars.len() - at) as nat
    } else {
        MAX_TOKEN_CHARS as nat
    }
}

/// The tokens of `chars` from `at` on: at each place the longest token there is.
pub open spec fn greedy_tokens(ids: Map<Seq<char>, u64>, chars: Seq<char>, at: int) -> Seq<u32>
    decreases chars.len() - at,
{
    if at >= chars.len() {
        Seq::empty()
    } else {
        let n = longest_token(ids, chars, at, window(chars, at));
        if 0 < n <= chars.len() - at {
            seq![ids[chars.subrange(at, at + n)] as u32] + greedy_tokens(ids, chars, at + n)
        } else {
            seq![fallback_token(ids, chars[at])] + greedy_tokens(ids, chars, at + 1)
        }
    }
}

/// At each place the longest token that the vocabulary has there is taken.
pub proof fn law_greedy_takes_the_longest_token(ids: Map<Seq<char>, u64>, chars: Seq<char>, at: int, n: nat)
    ensures
        longest_token(ids, chars, at, n) <= n,
        longest_token(ids, chars, at, n) > 0 ==> ids.contains_key(
            chars.subrange(at, at + longest_token(ids, chars, at, n)),
        ),
        forall|k: int|
            longest_token(ids, chars, at, n) < k <= n ==> !ids.contains_key(
                #[trigger] chars.subrange(at, at + k),
            ),
    decreases n,
{
    if n > 0 && !ids.contains_key(chars.subrange(at, at + n)) {
        law_greedy_takes_the_longest_token(ids, chars, at, (n - 1) as nat);
    }
}

/// The pieces of text that the tokens from `at` on stand for.
pub open spec fn greedy_pieces(ids: Map<Seq<char>, u64>, chars: Seq<char>, at: int) -> Seq<
    Seq<char>,
>
    decreases chars.len() - at,
{
    if at >= chars.len() {
        Seq::empty()
    } else {
        let n = longest_token(ids, chars, at, window(chars, at));
        if 0 < n <= chars.len() - at {
            seq![chars.subrange(at, at + n)] + greedy_pieces(ids, chars, at + n)
        } else {
            seq![chars.subrange(at, at + 1)] + greedy_pieces(ids, chars, at + 1)
        }
    }
}

/// The token of a piece: its number in the vocabulary, or that of its only character.
pub open spec fn piece_token(ids: Map<Seq<char>, u64>, piece: Seq<char>) -> u32 {
    if ids.contains_key(piece) {
        ids[piece] as u32
    } else {
        fallback_token(ids, piece[0])
    }
}

/// Tokens cover a text from end to end: it is the pieces one after the other, and there is one
/// token for each of them, the piece's own. Pieces that are not in the vocabulary are single
/// characters.
pub proof fn law_tokens_cover_the_text(ids: Map<Seq<char>, u64>, chars: Seq<char>, at: int)
    requires
        0 <= at <= chars.len(),
    ensures
        greedy_pieces(ids, chars, at).flatten() == chars.skip(at),
        greedy_tokens(ids, chars, at) == greedy_pieces(ids, chars, at).map_values(
            |p: Seq<char>| piece_token(ids, p),
        ),
        forall|i: int|
            0 <= i < greedy_pieces(ids, chars, at).len() ==> {
                let p = #[trigger] greedy_pieces(ids, chars, at)[i];
                ids.contains_key(p) || p.len() == 1
            },
    decreases chars.len() - at,
{
    let f = |p: Seq<char>| piece_token(ids, p);
    let pieces = greedy_pieces(ids, chars, at);
    if at >= chars.len() {
        assert(pieces.flatten() =~= chars.skip(at));
        assert(greedy_tokens(ids, chars, at) =~= pieces.map_values(f));
    } else {
        let w = window(chars, at);
        let n = longest_token(ids, chars, at, w);
        law_greedy_takes_the_longest_token(ids, chars, at, w);
        let step = if 0 < n <= chars.len() - at {
            n as int
        } else {
            1
        };
        let first = chars.subrange(at, at + step);
        let rest = greedy_pieces(ids, chars, at + step);
        law_tokens_cover_the_text(ids, chars, at + step);
        assert(pieces =~= seq![first] + rest);
        assert(pieces.first() == first);
        assert(pieces.drop_first() =~= rest);
        assert(first + chars.skip(at + step) =~= chars.skip(at));
        assert(pieces.map_values(f) =~= seq![f(first)] + rest.map_values(f));
        assert(first[0] == chars[at]);
        assert forall|i: int| 0 <= i < pieces.len() implies {
            let p = #[trigger] pieces[i];
            ids.contains_key(p) || p.len() == 1
        } by {
            if i > 0 {
                assert(pieces[i] == rest[i - 1]);
            }
        }
    }
}

/// The value of a hexadecimal digit.
pub open spec fn hex_value(c: char) -> Option<int> {
    if '0' <= c && c <= '9' {
        Some(c as u32 - 48)
    } else if 'a' <= c && c <= 'f' {
        Some(c as u32 - 87)
    } else if 'A' <= c && c <= 'F' {
        Some(c as u32 - 55)
    } else {
        None
    }
}

/// The byte that two characters write in hexadecimal; the first may be a plus sign.
pub open spec fn hex_pair(a: char, b: char) -> Option<u8> {
    match hex_value(b) {
        None => None,
        Some(lo) => if a == '+' {
            Some(lo as u8)
        } else {
            match hex_value(a) {
                None => None,
                Some(hi) => Some((16 * hi + lo) as u8),
            }
        },
    }
}

/// The byte that a byte token stands for.
pub open spec fn token_byte(tok: Seq<char>) -> Option<u8> {
    if tok.len() == 6 && tok[0] == '<' && tok[1] == '0' && tok[2] == 'x' && tok[5] == '>' {
        hex_pair(tok[3], tok[4])
    } else {
        None
    }
}

/// The bytes that a token's characters stand for. Characters that stand for no byte are taken
/// in their UTF-8 form.
pub open spec fn token_bytes(tok: Seq<char>) -> Seq<u8>
    decreases tok.len(),
{
    if tok.len() == 0 {
        Seq::empty()
    } else {
        token_bytes(tok.drop_last()) + match bpe_byte(tok.last()) {
            Some(b) => seq![b],
            None => encode_utf8(seq![tok.last()]),
        }
    }
}

/// Some character of the token stands for a byte.
pub open spec fn has_bpe_char(tok: Seq<char>) -> bool {
    exists|i: int| 0 <= i < tok.len() && bpe_byte(#[trigger] tok[i]) is Some
}

/// The text of a token.
pub open spec fn token_text(tok: Seq<char>) -> Seq<char> {
    match token_byte(tok) {
        Some(b) => decoded(seq![b]),
        None => if tok.contains(' ') {
            tok
        } else if has_bpe_char(tok) {
            decoded(token_bytes(tok))
        } else {
            tok
        },
    }
}

/// The text of a token number; empty where the vocabulary has no such token.
pub open spec fn id_text(tokens: Seq<String>, id: u32) -> Seq<char> {
    if id < tokens.len() {
        token_text(tokens[id as int]@)
    } else {
        Seq::empty()
    }
}

/// The texts of all tokens, one after the other.
pub open spec fn joined_text(tokens: Seq<String>, ids: Seq<u32>) -> Seq<char>
    decreases ids.len(),
{
    if ids.len() == 0 {
        Seq::empty()
    } else {
        joined_text(tokens, ids.drop_last()) + id_text(tokens, ids.last())
    }
}

/// The part of a token sequence before the first `eos`.
pub open spec fn until_eos(ids: Seq<u32>, eos: u32) -> Seq<u32>
    decreases ids.len(),
{
    if ids.len() == 0 || ids[0] == eos {
        Seq::empty()
    } else {
        seq![ids[0]] + until_eos(ids.skip(1), eos)
    }
}

// ---------------------------------------------------------------------------
// Decoding what was tokenized
// ---------------------------------------------------------------------------

/// Each key of the vocabulary is the number of its own entry.
pub open spec fn keys_lead_to_entries(tokens: Seq<String>, ids: Map<Seq<char>, u64>) -> bool {
    forall|k: Seq<char>| #[trigger]
        ids.contains_key(k) ==> ids[k] <= u32::MAX && ids[k] < tokens.len()
            && tokens[ids[k] as int]@ == k
}

/// The vocabulary has a token for each ASCII byte.
pub open spec fn has_ascii_bytes(ids: Map<Seq<char>, u64>) -> bool {
    forall|b: u8| b < 128 ==> ids.contains_key(seq![#[trigger] bpe_char(b)])
}

/// No key of the vocabulary is a byte token.
pub open spec fn no_byte_tokens(ids: Map<Seq<char>, u64>) -> bool {
    forall|k: Seq<char>| #[trigger] ids.contains_key(k) ==> token_byte(k) is None
}

/// ASCII text survives a byte-level vocabulary: decoding the tokens of a text gives the text
/// back. The vocabulary has to have a token for each ASCII byte, each key has to be the number of
/// its own entry, and no key may be a byte token.
pub proof fn law_ascii_text_is_decoded_back(
    tokens: Seq<String>,
    ids: Map<Seq<char>, u64>,
    text: Seq<char>,
)
    requires
        keys_lead_to_entries(tokens, ids),
        uses_bpe(ids),
        has_ascii_bytes(ids),
        no_byte_tokens(ids),
        all_ascii(text),
    ensures
        joined_text(tokens, greedy_tokens(ids, prepared_text(ids, text), 0)) == text,
{
    lemma_ascii_bytes(text);
    lemma_decoded_from(tokens, ids, text, 0);
    assert(text.skip(0) =~= text);
}

proof fn lemma_ascii_char(c: char)
    requires
        (c as u32) < 128,
    ensures
        '\0' <= c <= '\u{7f}',
{
}

/// ASCII text has one byte for each character.
proof fn lemma_ascii_bytes(text: Seq<char>)
    requires
        all_ascii(text),
    ensures
        encode_utf8(text).len() == text.len(),
        forall|i: int|
            0 <= i < text.len() ==> #[trigger] encode_utf8(text)[i] == text[i] as u8
                && encode_utf8(text)[i] < 128,
{
    assert forall|i: int| 0 <= i < text.len() implies '\0' <= #[trigger] text[i] <= '\u{7f}' by {
        lemma_ascii_char(text[i]);
    }
    is_ascii_chars_encode_utf8(text);
    assert forall|i: int| 0 <= i < text.len() implies #[trigger] encode_utf8(text)[i]
        == text[i] as u8 && encode_utf8(text)[i] < 128 by {
        assert((text[i] as u32) < 128);
    }
}

/// The bytes of characters that stand for bytes.
proof fn lemma_token_bytes(bytes: Seq<u8>)
    ensures
        token_bytes(bytes.map_values(|b: u8| bpe_char(b))) == bytes,
    decreases bytes.len(),
{
    let tok = bytes.map_values(|b: u8| bpe_char(b));
    if bytes.len() > 0 {
        lemma_token_bytes(bytes.drop_last());
        assert(tok.drop_last() =~= bytes.drop_last().map_values(|b: u8| bpe_char(b)));
        law_bpe_byte_round_trip(bytes.last());
        assert(tok.last() == bpe_char(bytes.last()));
        assert(bytes.drop_last() + seq![bytes.last()] =~= bytes);
    } else {
        assert(bytes =~= Seq::empty());
    }
}

/// A piece of prepared ASCII text is decoded to the piece of the text.
proof fn lemma_piece_text(ids: Map<Seq<char>, u64>, text: Seq<char>, i: int, j: int)
    requires
        uses_bpe(ids),
        all_ascii(text),
        0 <= i < j <= text.len(),
        prepared_text(ids, text).len() == text.len(),
        token_byte(prepared_text(ids, text).subrange(i, j)) is None,
    ensures
        token_text(prepared_text(ids, text).subrange(i, j)) == text.subrange(i, j),
{
    let piece = prepared_text(ids, text).subrange(i, j);
    let part = text.subrange(i, j);
    let bytes = encode_utf8(part);
    lemma_ascii_bytes(text);
    assert(all_ascii(part));
    lemma_ascii_bytes(part);
    assert forall|k: int| 0 <= k < piece.len() implies #[trigger] piece[k] == bpe_char(
        bytes[k],
    ) by {
        assert(part[k] == text[i + k]);
        assert(encode_utf8(text)[i + k] == text[i + k] as u8);
    }
    assert(piece =~= bytes.map_values(|b: u8| bpe_char(b)));
    assert(!piece.contains(' ')) by {
        if piece.contains(' ') {
            let k = choose|k: int| 0 <= k < piece.len() && piece[k] == ' ';
            law_bpe_codes(bytes[k]);
            law_bpe_byte_round_trip(bytes[k]);
            assert(bpe_byte(' ') is None);
        }
    }
    assert(has_bpe_char(piece)) by {
        law_bpe_byte_round_trip(bytes[0]);
        assert(bpe_byte(piece[0]) is Some);
    }
    lemma_token_bytes(bytes);
    encode_utf8_valid_utf8(part);
    encode_utf8_decode_utf8(part);
}

/// The text of a token, followed by the texts of others.
proof fn lemma_joined_front(tokens: Seq<String>, first: u32, rest: Seq<u32>)
    ensures
        joined_text(tokens, seq![first] + rest) == id_text(tokens, first) + joined_text(
            tokens,
            rest,
        ),
    decreases rest.len(),
{
    let all = seq![first] + rest;
    if rest.len() == 0 {
        assert(all.drop_last() =~= rest);
        assert(all.last() == first);
        assert(joined_text(tokens, rest) =~= Seq::empty());
        assert(joined_text(tokens, all) =~= id_text(tokens, first) + joined_text(tokens, rest));
    } else {
        lemma_joined_front(tokens, first, rest.drop_last());
        assert(all.drop_last() =~= seq![first] + rest.drop_last());
        assert(all.last() == rest.last());
        assert(joined_text(tokens, all) =~= id_text(tokens, first) + joined_text(tokens, rest));
    }
}

/// Decoding the tokens from a place on gives the text from there on.
proof fn lemma_decoded_from(
    tokens: Seq<String>,
    ids: Map<Seq<char>, u64>,
    text: Seq<char>,
    at: int,
)
    requires
        keys_lead_to_entries(tokens, ids),
        uses_bpe(ids),
        has_ascii_bytes(ids),
        no_byte_tokens(ids),
        all_ascii(text),
        prepared_text(ids, text).len() == text.len(),
        0 <= at <= text.len(),
    ensures
        joined_text(tokens, greedy_tokens(ids, prepared_text(ids, text), at)) == text.skip(at),
    decreases text.len() - at,
{
    let chars = prepared_text(ids, text);
    if at == text.len() {
        assert(text.skip(at) =~= Seq::empty());
    } else {
        let w = window(chars, at);
        let n = longest_token(ids, chars, at, w);
        law_greedy_takes_the_longest_token(ids, chars, at, w);
        assert(n > 0) by {
            lemma_ascii_bytes(text);
            let b = encode_utf8(text)[at];
            assert(chars.subrange(at, at + 1) =~= seq![bpe_char(b)]);
            assert(ids.contains_key(chars.subrange(at, at + 1)));
        }
        let piece = chars.subrange(at, at + n);
        let id = ids[piece] as u32;
        let rest = greedy_tokens(ids, chars, at + n);
        assert(ids.contains_key(piece));
        assert(id_text(tokens, id) == token_text(piece));
        lemma_piece_text(ids, text, at, at + n);
        lemma_decoded_from(tokens, ids, text, at + n);
        lemma_joined_front(tokens, id, rest);
        assert(text.subrange(at, at + n) + text.skip(at + n) =~= text.skip(at));
    }
}

fn hex_char(d: u8) -> (r: char)
    requires
        d < 16,
    ensures
        r == hex_digit(d as int),
{
    if d < 10 {
        (48 + d) as char
    } else {
        (55 + d) as char
    }
}

fn read_hex(c: char) -> (r: Option<u8>)
    ensures
        match r {
            Some(v) => hex_value(c) == Some(v as int) && v < 16,
            None => hex_value(c) is None,
        },
{
    if '0' <= c && c <= '9' {
        Some((c as u32 - 48) as u8)
    } else if 'a' <= c && c <= 'f' {
        Some((c as u32 - 87) as u8)
    } else if 'A' <= c && c <= 'F' {
        Some((c as u32 - 55) as u8)
    } else {
        None
    }
}

/// The byte that a byte token stands for.
fn read_byte_token(tok: &[char]) -> (r: Option<u8>)
    ensures
        r == token_byte(tok@),
{
    if tok.len() == 6 && tok[0] == '<' && tok[1] == '0' && tok[2] == 'x' && tok[5] == '>' {
        match read_hex(tok[4]) {
            None => None,
            Some(lo) => if tok[3] == '+' {
                Some(lo)
            } else {
                match read_hex(tok[3]) {
                    None => None,
                    Some(hi) => Some(16 * hi + lo),
                }
            },
        }
    } else {
        None
    }
}

impl ModelTokenizer {
    /// The vocabulary can be searched.
    pub open spec fn wf(&self) -> bool {
        self.token_to_id.wf()
    }

    /// The token of a character that begins no token of the vocabulary.
    fn fallback(&self, c: char) -> (r: u32)
        requires
            self.wf(),
        ensures
            r == fallback_token(self.token_to_id@, c),
    {
        let b: u8 = match bpe_char_to_byte(c) {
            Some(b) => b,
            None => (c as u32 % 256) as u8,
        };
        let key: Vec<char> = vec!['<', '0', 'x', hex_char(b / 16), hex_char(b % 16), '>'];
        assert(key@ =~= byte_token(b));
        match self.token_to_id.get(&key) {
            Some(id) => {
                #[verifier::truncate]
                (id as u32)
            },
            None => b as u32,
        }
    }

    /// The characters in which tokens are looked for.
    fn prepare(&self, text: &str) -> (r: Vec<char>)
        requires
            self.wf(),
        ensures
            r@ == prepared_text(self.token_to_id@, text@),
    {
        if self.token_to_id.contains("Ġthe") || self.token_to_id.contains("Ġis")
            || self.token_to_id.contains("Ġcapital") || self.token_to_id.contains("ĠFrance") {
            let raw = text.as_bytes();
            let mut out: Vec<char> = Vec::new();
            let mut i: usize = 0;
            while i < raw.len()
                invariant
                    i <= raw@.len(),
                    out@ == raw@.take(i as int).map_values(|b: u8| bpe_char(b)),
                decreases raw@.len() - i,
            {
                out.push(byte_to_bpe_char(raw[i]));
                assert(out@ =~= raw@.take(i + 1).map_values(|b: u8| bpe_char(b)));
                i = i + 1;
            }
            assert(raw@.take(raw@.len() as int) =~= raw@);
            out
        } else {
            chars_of(text)
        }
    }

    /// Splits a text into tokens, at each place by the longest token of at most 64 characters.
    /// A character that begins no token becomes the token of its byte. Without a vocabulary
    /// each byte is its own token.
    pub fn tokenize(&self, text: &str) -> (r: Vec<u32>)
        requires
            self.wf(),
        ensures
            r@ == if self.tokens@.len() == 0 {
                encode_utf8(text@).map_values(|b: u8| b as u32)
            } else {
                greedy_tokens(
                    self.token_to_id@,
                    prepared_text(self.token_to_id@, text@),
                    0,
                )
            },
    {
        let mut out: Vec<u32> = Vec::new();
        if self.tokens.len() == 0 {
            let raw = text.as_bytes();
            let mut i: usize = 0;
            while i < raw.len()
                invariant
                    i <= raw@.len(),
                    out@ == raw@.take(i as int).map_values(|b: u8| b as u32),
                decreases raw@.len() - i,
            {
                out.push(raw[i] as u32);
                assert(out@ =~= raw@.take(i + 1).map_values(|b: u8| b as u32));
                i = i + 1;
            }
            assert(raw@.take(raw@.len() as int) =~= raw@);
            return out;
        }
        let chars = self.prepare(text);
        let ghost ids = self.token_to_id@;
        let mut at: usize = 0;
        assert(out@ + greedy_tokens(ids, chars@, 0) =~= greedy_tokens(ids, chars@, 0));
        while at < chars.len()
            invariant
                self.wf(),
                ids == self.token_to_id@,
                at <= chars@.len(),
                out@ + greedy_tokens(ids, chars@, at as int) == greedy_tokens(ids, chars@, 0),
            decreases chars@.len() - at,
        {
            assert(chars@.len() == chars.len());
            let left: usize = chars.len() - at;
            let most: usize = if left <= MAX_TOKEN_CHARS {
                left
            } else {
                MAX_TOKEN_CHARS
            };
            let mut n: usize = most;
            let mut found: Option<u64> = None;
            while n > 0 && found.is_none()
                invariant
                    self.wf(),
                    ids == self.token_to_id@,
                    n <= most,
                    at + most <= chars.len(),
                    found is None ==> longest_token(ids, chars@, at as int, most as nat)
                        == longest_token(ids, chars@, at as int, n as nat),
                    found is Some ==> n > 0 && longest_token(ids, chars@, at as int, most as nat)
                        == n && ids.contains_key(chars@.subrange(at as int, at + n)) && found->0
                        == ids[chars@.subrange(at as int, at + n)],
                ensures
                    found is None ==> n == 0,
                decreases n + (if found is None { 1int } else { 0int }),
            {
                let hit = self.token_to_id.get(&chars[at..at + n]);
                match hit {
                    Some(id) => {
                        found = Some(id);
                    },
                    None => {
                        n = n - 1;
                    },
                }
            }
            let ghost rest = greedy_tokens(ids, chars@, at as int);
            match found {
                Some(id) => {
                    out.push(
                        #[verifier::truncate]
                        (id as u32),
                    );
                    proof {
                        let tail = greedy_tokens(ids, chars@, at + n);
                        assert(rest == seq![id as u32] + tail);
                        assert(out@ + tail =~= out@.drop_last() + rest);
                        assert(out@.drop_last() + rest == greedy_tokens(ids, chars@, 0));
                    }
                    at = at + n;
                },
                None => {
                    let t: u32 = self.fallback(chars[at]);
                    out.push(t);
                    proof {
                        let tail = greedy_tokens(ids, chars@, at + 1);
                        assert(rest == seq![t] + tail);
                        assert(out@ + tail =~= out@.drop_last() + rest);
                        assert(out@.drop_last() + rest == greedy_tokens(ids, chars@, 0));
                    }
                    at = at + 1;
                },
            }
        }
        assert(out@ + Seq::<u32>::empty() =~= out@);
        out
    }

    /// The text of a token; empty where the vocabulary has no such token.
    pub fn decode_token(&self, token_id: u32) -> (r: String)
        ensures
            r@ == id_text(self.tokens@, token_id),
    {
        if token_id as u64 >= self.tokens.len() as u64 {
            return String::new();
        }
        let tok = &self.tokens[token_id as usize];
        let cs = chars_of(tok.as_str());
        match read_byte_token(&cs) {
            Some(b) => {
                let one: Vec<u8> = vec![b];
                assert(one@ =~= seq![b]);
                return utf8_lossy(&one);
            },
            None => {},
        }
        let mut raw: Vec<u8> = Vec::new();
        let mut has_bpe: bool = false;
        let mut has_space: bool = false;
        let mut i: usize = 0;
        while i < cs.len()
            invariant
                i <= cs@.len(),
                raw@ == token_bytes(cs@.take(i as int)),
                has_bpe <==> exists|k: int| 0 <= k < i && bpe_byte(#[trigger] cs@[k]) is Some,
                has_space <==> exists|k: int| 0 <= k < i && #[trigger] cs@[k] == ' ',
            decreases cs@.len() - i,
        {
            let c = cs[i];
            proof {
                let t = cs@.take(i + 1);
                assert(t.drop_last() =~= cs@.take(i as int));
                assert(t.last() == c);
            }
            if c == ' ' {
                has_space = true;
            }
            match bpe_char_to_byte(c) {
                Some(b) => {
                    raw.push(b);
                    has_bpe = true;
                    assert(raw@ =~= token_bytes(cs@.take(i as int)) + seq![b]);
                },
                None => {
                    let one = string_of(&cs[i..i + 1]);
                    assert(cs@.subrange(i as int, i + 1) =~= seq![c]);
                    crate::bytes::push_bytes(&mut raw, one.as_str().as_bytes());
                },
            }
            i = i + 1;
        }
        assert(cs@.take(cs@.len() as int) =~= cs@);
        if has_space {
            proof {
                let k = choose|k: int| 0 <= k < cs@.len() && #[trigger] cs@[k] == ' ';
                assert(cs@.contains(cs@[k]));
            }
            return tok.clone();
        }
        assert(!cs@.contains(' '));
        if has_bpe {
            utf8_lossy(&raw)
        } else {
            tok.clone()
        }
    }

    /// The text of a sequence of tokens up to the first end-of-sequence token.
    pub fn decode_tokens(&self, tokens: &[u32]) -> (r: String)
        ensures
            r@ == joined_text(self.tokens@, until_eos(tokens@, self.eos_token_id)),
    {
        let mut out = String::new();
        let mut i: usize = 0;
        let ghost all = until_eos(tokens@, self.eos_token_id);
        assert(tokens@.skip(0) =~= tokens@);
        assert(tokens@.take(0) + all =~= all);
        while i < tokens.len() && tokens[i] != self.eos_token_id
            invariant
                i <= tokens@.len(),
                out@ == joined_text(self.tokens@, tokens@.take(i as int)),
                all == tokens@.take(i as int) + until_eos(
                    tokens@.skip(i as int),
                    self.eos_token_id,
                ),
            ensures
                i <= tokens@.len(),
                out@ == joined_text(self.tokens@, tokens@.take(i as int)),
                all == tokens@.take(i as int) + until_eos(
                    tokens@.skip(i as int),
                    self.eos_token_id,
                ),
                i < tokens@.len() ==> tokens@[i as int] == self.eos_token_id,
            decreases tokens@.len() - i,
        {
            proof {
                let t = tokens@.take(i + 1);
                assert(t.drop_last() =~= tokens@.take(i as int));
                assert(t.last() == tokens@[i as int]);
                let rest = tokens@.skip(i as int);
                assert(rest[0] == tokens@[i as int]);
                assert(rest.skip(1) =~= tokens@.skip(i + 1));
                assert(all =~= t + until_eos(tokens@.skip(i + 1), self.eos_token_id));
            }
            let piece = self.decode_token(tokens[i]);
            out.append(piece.as_str());
            i = i + 1;
        }
        proof {
            if i < tokens@.len() {
                assert(tokens@.skip(i as int)[0] == tokens@[i as int]);
            }
            assert(all =~= tokens@.take(i as int));
        }
        out
    }

    /// The text of a sequence of tokens, end-of-sequence tokens and what follows them included.
    pub fn decode_tokens_all(&self, tokens: &[u32]) -> (r: String)
        ensures
            r@ == joined_text(self.tokens@, tokens@),
    {
        let mut out = String::new();
        let mut i: usize = 0;
        while i < tokens.len()
            invariant
                i <= tokens@.len(),
                out@ == joined_text(self.tokens@, tokens@.take(i as int)),
            decreases tokens@.len() - i,
        {
            proof {
                let t = tokens@.take(i + 1);
                assert(t.drop_last() =~= tokens@.take(i as int));
                assert(t.last() == tokens@[i as int]);
            }
            let piece = self.decode_token(tokens[i]);
            out.append(piece.as_str());
            i = i + 1;
        }
        assert(tokens@.take(tokens@.len() as int) =~= tokens@);
        out
    }
}

} // verus!
