//! What holds of whole GGUF files: a file that was written from metadata and tensors opens, and
//! what comes out of it is what went in.

use vstd::prelude::*;
use vstd::string::*;
use vstd::utf8::*;

use crate::bytes::{le_at, le_bytes, lemma_le_bytes_len, lemma_le_round_trip, lemma_pow256};
use crate::container::dtype::{dtype_of, supported_on_apu};
use crate::container::gguf_laws::{
    entry_bytes, key_bytes, law_other_values_are_passed_over, law_written_number_is_read,
    law_written_tensor_is_read, law_written_text_is_read, law_written_vocabulary_is_read,
    lemma_two_parts, plain_size, text_bytes, texts_bytes, with_tokens, written,
};
use crate::container::reader::{
    array_end, default_metadata, directory_of, gguf_fault, gguf_magic, infos, metadata_of,
    read_array, read_directory, read_pairs, read_value, skip_texts, tensor_bytes, text_at, texts,
    with_number, with_text, Directory, GgufModelReader, Metadata, TensorInfo,
};
use crate::container::tensor::{product, product_fits};
use crate::container::ModelHyperparameters;

verus! {

// ---------------------------------------------------------------------------
// Metadata
// ---------------------------------------------------------------------------

/// A key and its value, as it is written.
pub enum Item {
    /// A number of 32 bits, of one of the three types.
    Number(Seq<char>, nat, u32),
    /// A text.
    Text(Seq<char>, Seq<char>),
    /// A value of another type.
    Plain(Seq<char>, nat, Seq<u8>),
    /// The tokens of the vocabulary.
    Tokens(Seq<Seq<char>>),
    /// Texts under another key.
    Texts(Seq<char>, Seq<Seq<char>>),
    /// Numbers of 32 bits, of one of the three types.
    Numbers(Seq<char>, nat, Seq<u32>),
}

pub open spec fn short_texts(texts: Seq<Seq<char>>) -> bool {
    &&& texts.len() < 0x1_0000_0000
    &&& forall|i: int|
        0 <= i < texts.len() ==> encode_utf8(#[trigger] texts[i]).len() < 0x1_0000_0000_0000_0000
}

/// The item can be written.
pub open spec fn item_ok(i: Item) -> bool {
    match i {
        Item::Number(key, ty, _) => {
            &&& encode_utf8(key).len() < 0x1_0000_0000
            &&& ty == 4 || ty == 5 || ty == 6
        },
        Item::Text(key, s) => {
            &&& encode_utf8(key).len() < 0x1_0000_0000
            &&& encode_utf8(s).len() < 0x1_0000_0000_0000_0000
        },
        Item::Plain(key, ty, value) => {
            &&& encode_utf8(key).len() < 0x1_0000_0000
            &&& ty == 0 || ty == 1 || ty == 7 || ty == 2 || ty == 3 || ty == 10 || ty == 11 || ty
                == 12
            &&& value.len() == plain_size(ty)
        },
        Item::Tokens(tokens) => short_texts(tokens),
        Item::Texts(key, list) => {
            &&& encode_utf8(key).len() < 0x1_0000_0000
            &&& key != "tokenizer.ggml.tokens"@
            &&& short_texts(list)
        },
        Item::Numbers(key, ty, list) => {
            &&& encode_utf8(key).len() < 0x1_0000_0000
            &&& ty == 4 || ty == 5 || ty == 6
            &&& list.len() < 0x1_0000_0000
        },
    }
}

/// Numbers of 32 bits, one after the other.
pub open spec fn words_bytes(list: Seq<u32>) -> Seq<u8>
    decreases list.len(),
{
    if list.len() == 0 {
        Seq::empty()
    } else {
        le_bytes(list[0] as nat, 4) + words_bytes(list.skip(1))
    }
}

/// An item as it is written.
pub open spec fn item_bytes(i: Item) -> Seq<u8> {
    match i {
        Item::Number(key, ty, v) => key_bytes(key, ty) + le_bytes(v as nat, 4),
        Item::Text(key, s) => key_bytes(key, 8) + text_bytes(s),
        Item::Plain(key, ty, value) => key_bytes(key, ty) + value,
        Item::Tokens(list) => key_bytes("tokenizer.ggml.tokens"@, 9) + (le_bytes(8, 4) + le_bytes(
            list.len(),
            8,
        ) + texts_bytes(list)),
        Item::Texts(key, list) => key_bytes(key, 9) + (le_bytes(8, 4) + le_bytes(list.len(), 8)
            + texts_bytes(list)),
        Item::Numbers(key, ty, list) => key_bytes(key, 9) + (le_bytes(ty, 4) + le_bytes(
            list.len(),
            8,
        ) + words_bytes(list)),
    }
}

/// What an item says of a model.
pub open spec fn with_item(m: Metadata, i: Item) -> Metadata {
    match i {
        Item::Number(key, _, v) => with_number(m, key, v),
        Item::Text(key, s) => with_text(m, key, s),
        Item::Tokens(list) => Metadata {
            hp: ModelHyperparameters { vocab_size: list.len() as u32, ..m.hp },
            ..with_tokens(m, list, 0)
        },
        _ => m,
    }
}

/// The items after one another, as they are written.
pub open spec fn items_bytes(items: Seq<Item>) -> Seq<u8>
    decreases items.len(),
{
    if items.len() == 0 {
        Seq::empty()
    } else {
        item_bytes(items[0]) + items_bytes(items.skip(1))
    }
}

/// What items say of a model; of two that say the same thing, the later one counts.
pub open spec fn with_items(m: Metadata, items: Seq<Item>) -> Metadata
    decreases items.len(),
{
    if items.len() == 0 {
        m
    } else {
        with_items(with_item(m, items[0]), items.skip(1))
    }
}

/// At most one item holds the vocabulary.
pub open spec fn one_vocabulary(items: Seq<Item>) -> bool {
    forall|i: int, j: int|
        0 <= i < j < items.len() && #[trigger] items[i] is Tokens ==> !(#[trigger] items[j] is Tokens)
}

/// A place in the file is not part of what the file says.
pub open spec fn moved_to(m: Metadata, cursor: nat) -> Metadata {
    Metadata { cursor, ..m }
}

proof fn lemma_field(file: Seq<u8>, at: int, n: nat, k: nat)
    requires
        written(file, at, le_bytes(n, k)),
        n < crate::bytes::pow256(k),
    ensures
        le_at(file, at, k as int) == n,
        at + k <= file.len(),
{
    lemma_le_round_trip(n, k);
}

proof fn lemma_key_len(key: Seq<char>, ty: nat)
    ensures
        key_bytes(key, ty).len() == 12 + encode_utf8(key).len(),
{
    lemma_le_bytes_len(ty, 4);
    lemma_le_bytes_len(encode_utf8(key).len(), 8);
}

proof fn lemma_number_moves(m: Metadata, key: Seq<char>, v: u32, s: Seq<char>, cursor: nat)
    ensures
        with_number(moved_to(m, cursor), key, v) == moved_to(with_number(m, key, v), cursor),
        with_text(moved_to(m, cursor), key, s) == moved_to(with_text(m, key, s), cursor),
        with_number(m, key, v).cursor == m.cursor,
        with_text(m, key, s).cursor == m.cursor,
        with_number(m, key, v).tokens == m.tokens,
        with_text(m, key, s).tokens == m.tokens,
{
}

proof fn lemma_tokens_move(m: Metadata, list: Seq<Seq<char>>, first: nat, cursor: nat)
    ensures
        with_tokens(moved_to(m, cursor), list, first) == moved_to(
            with_tokens(m, list, first),
            cursor,
        ),
        with_tokens(m, list, first).cursor == m.cursor,
    decreases list.len(),
{
    if list.len() > 0 {
        let next = Metadata {
            tokens: m.tokens.push(list[0]),
            ids: m.ids.insert(list[0], first as u64),
            ..m
        };
        lemma_tokens_move(next, list.skip(1), first + 1, cursor);
        assert(moved_to(next, cursor) == (Metadata {
            tokens: moved_to(m, cursor).tokens.push(list[0]),
            ids: moved_to(m, cursor).ids.insert(list[0], first as u64),
            ..moved_to(m, cursor)
        }));
    }
}

proof fn lemma_item_moves(m: Metadata, i: Item, cursor: nat)
    ensures
        with_item(moved_to(m, cursor), i) == moved_to(with_item(m, i), cursor),
{
    match i {
        Item::Number(key, _, v) => {
            lemma_number_moves(m, key, v, Seq::empty(), cursor);
        },
        Item::Text(key, s) => {
            lemma_number_moves(m, key, 0, s, cursor);
        },
        Item::Tokens(list) => {
            lemma_tokens_move(m, list, 0, cursor);
        },
        _ => {},
    }
}

proof fn lemma_items_move(m: Metadata, items: Seq<Item>, cursor: nat)
    ensures
        with_items(moved_to(m, cursor), items) == moved_to(with_items(m, items), cursor),
    decreases items.len(),
{
    if items.len() > 0 {
        lemma_item_moves(m, items[0], cursor);
        lemma_items_move(with_item(m, items[0]), items.skip(1), cursor);
    }
}

proof fn lemma_texts_are_passed(file: Seq<u8>, at: nat, list: Seq<Seq<char>>)
    requires
        written(file, at as int, texts_bytes(list)),
        short_texts(list),
    ensures
        skip_texts(file, at, list.len()) == at + texts_bytes(list).len(),
    decreases list.len(),
{
    if list.len() > 0 {
        let t = encode_utf8(list[0]);
        let rest = list.skip(1);
        lemma_pow256();
        lemma_le_bytes_len(t.len(), 8);
        lemma_two_parts(file, at as int, text_bytes(list[0]), texts_bytes(rest));
        lemma_two_parts(file, at as int, le_bytes(t.len(), 8), t);
        lemma_field(file, at as int, t.len(), 8);
        assert forall|i: int| 0 <= i < rest.len() implies encode_utf8(#[trigger] rest[i]).len()
            < 0x1_0000_0000_0000_0000 by {
            assert(rest[i] == list[i + 1]);
        }
        lemma_texts_are_passed(file, at + 8 + t.len(), rest);
    }
}

proof fn lemma_words_len(list: Seq<u32>)
    ensures
        words_bytes(list).len() == 4 * list.len(),
    decreases list.len(),
{
    if list.len() > 0 {
        lemma_le_bytes_len(list[0] as nat, 4);
        lemma_words_len(list.skip(1));
    }
}

proof fn lemma_array_is_passed(
    file: Seq<u8>,
    m: Metadata,
    key: Seq<char>,
    ty: nat,
    count: nat,
    body: Seq<u8>,
    n: nat,
)
    requires
        encode_utf8(key).len() < 0x1_0000_0000,
        ty < 0x1_0000_0000,
        count < 0x1_0000_0000,
        key != "tokenizer.ggml.tokens"@ || ty != 8,
        written(
            file,
            m.cursor as int,
            key_bytes(key, 9) + (le_bytes(ty, 4) + le_bytes(count, 8) + body),
        ),
    ensures
        ({
            let p = m.cursor + 24 + encode_utf8(key).len();
            &&& written(file, p as int, body)
            &&& read_pairs(file, m, n + 1) == read_pairs(
                file,
                moved_to(m, array_end(file, p, ty, count)),
                n,
            )
        }),
{
    let e = encode_utf8(key);
    let t = le_bytes(ty, 4);
    let c = le_bytes(count, 8);
    lemma_pow256();
    lemma_key_len(key, 9);
    lemma_le_bytes_len(ty, 4);
    lemma_le_bytes_len(count, 8);
    lemma_le_bytes_len(9, 4);
    lemma_le_bytes_len(e.len(), 8);
    lemma_two_parts(file, m.cursor as int, key_bytes(key, 9), t + c + body);
    lemma_two_parts(file, m.cursor as int, text_bytes(key), le_bytes(9, 4));
    lemma_two_parts(file, m.cursor as int, le_bytes(e.len(), 8), e);
    lemma_field(file, m.cursor as int, e.len(), 8);
    lemma_field(file, (m.cursor + 8 + e.len()) as int, 9, 4);
    let q = m.cursor + 12 + e.len();
    lemma_two_parts(file, q as int, t + c, body);
    lemma_two_parts(file, q as int, t, c);
    lemma_field(file, q as int, ty, 4);
    lemma_field(file, (q + 4) as int, count, 8);
    encode_utf8_valid_utf8(key);
    encode_utf8_decode_utf8(key);
    assert(text_at(file, m.cursor + 8, e.len()) == key);
    let at = moved_to(m, q);
    assert(read_value(file, key, 9, at) == Some(read_array(file, key, at)));
}

/// Texts and numbers under other keys are passed over as a whole.
pub proof fn law_other_arrays_are_passed_over(file: Seq<u8>, m: Metadata, i: Item, n: nat)
    requires
        item_ok(i),
        i is Texts || i is Numbers,
        written(file, m.cursor as int, item_bytes(i)),
    ensures
        read_pairs(file, m, n + 1) == read_pairs(
            file,
            moved_to(m, m.cursor + item_bytes(i).len()),
            n,
        ),
{
    match i {
        Item::Texts(key, list) => {
            lemma_array_is_passed(file, m, key, 8, list.len(), texts_bytes(list), n);
            lemma_texts_are_passed(file, m.cursor + 24 + encode_utf8(key).len(), list);
            lemma_key_len(key, 9);
            lemma_le_bytes_len(8, 4);
            lemma_le_bytes_len(list.len(), 8);
        },
        Item::Numbers(key, ty, list) => {
            lemma_array_is_passed(file, m, key, ty, list.len(), words_bytes(list), n);
            lemma_words_len(list);
            lemma_key_len(key, 9);
            lemma_le_bytes_len(ty, 4);
            lemma_le_bytes_len(list.len(), 8);
        },
        _ => {},
    }
}

proof fn lemma_item(file: Seq<u8>, m: Metadata, i: Item, n: nat)
    requires
        item_ok(i),
        i is Tokens ==> m.tokens.len() == 0,
        written(file, m.cursor as int, item_bytes(i)),
    ensures
        read_pairs(file, m, n + 1) == read_pairs(
            file,
            moved_to(with_item(m, i), m.cursor + item_bytes(i).len()),
            n,
        ),
        i is Tokens || with_item(m, i).tokens == m.tokens,
{
    match i {
        Item::Number(key, ty, v) => {
            law_written_number_is_read(file, m, key, ty, v, n);
            lemma_key_len(key, ty);
            lemma_le_bytes_len(v as nat, 4);
            lemma_number_moves(m, key, v, Seq::empty(), 0);
        },
        Item::Text(key, s) => {
            law_written_text_is_read(file, m, key, s, n);
            lemma_key_len(key, 8);
            lemma_le_bytes_len(encode_utf8(s).len(), 8);
            lemma_number_moves(m, key, 0, s, 0);
        },
        Item::Plain(key, ty, value) => {
            law_other_values_are_passed_over(file, m, key, ty, value, n);
            lemma_key_len(key, ty);
        },
        Item::Tokens(list) => {
            law_written_vocabulary_is_read(file, m, list, n);
            lemma_key_len("tokenizer.ggml.tokens"@, 9);
            lemma_le_bytes_len(8, 4);
            lemma_le_bytes_len(list.len(), 8);
        },
        _ => {
            law_other_arrays_are_passed_over(file, m, i, n);
        },
    }
}

proof fn lemma_items(file: Seq<u8>, m: Metadata, items: Seq<Item>)
    requires
        forall|i: int| 0 <= i < items.len() ==> item_ok(#[trigger] items[i]),
        one_vocabulary(items),
        m.tokens.len() > 0 ==> forall|i: int|
            0 <= i < items.len() ==> !(#[trigger] items[i] is Tokens),
        written(file, m.cursor as int, items_bytes(items)),
    ensures
        read_pairs(file, m, items.len()) == moved_to(
            with_items(m, items),
            m.cursor + items_bytes(items).len(),
        ),
    decreases items.len(),
{
    if items.len() == 0 {
        assert(moved_to(m, m.cursor) == m);
    } else {
        let i = items[0];
        let rest = items.skip(1);
        lemma_two_parts(file, m.cursor as int, item_bytes(i), items_bytes(rest));
        lemma_item(file, m, i, rest.len());
        let next = moved_to(with_item(m, i), m.cursor + item_bytes(i).len());
        assert forall|k: int| 0 <= k < rest.len() implies item_ok(#[trigger] rest[k]) by {
            assert(rest[k] == items[k + 1]);
        }
        assert forall|j: int, k: int|
            0 <= j < k < rest.len() && #[trigger] rest[j] is Tokens implies !(
        #[trigger] rest[k] is Tokens) by {
            assert(items[j + 1] is Tokens);
            assert(!(items[k + 1] is Tokens));
        }
        assert forall|k: int| next.tokens.len() > 0 && 0 <= k < rest.len() implies !(
        #[trigger] rest[k] is Tokens) by {
            assert(rest[k] == items[k + 1]);
            if i is Tokens {
                assert(items[0] is Tokens);
            }
        }
        lemma_items(file, next, rest);
        lemma_items_move(with_item(m, i), rest, next.cursor);
    }
}

// ---------------------------------------------------------------------------
// Tensors
// ---------------------------------------------------------------------------

/// A tensor as it is written into the directory.
pub struct Listed {
    pub name: Seq<char>,
    pub shape: Seq<usize>,
    pub ty: u32,
    pub offset: u64,
}

impl Listed {
    pub open spec fn dims(self) -> Seq<u64> {
        Seq::new(self.shape.len(), |i: int| self.shape[i] as u64)
    }

    pub open spec fn bytes(self) -> Seq<u8> {
        entry_bytes(self.name, self.dims(), self.ty, self.offset)
    }

    /// The tensor can be written, and the hardware takes it.
    pub open spec fn ok(self) -> bool {
        &&& encode_utf8(self.name).len() < 0x1_0000_0000
        &&& self.shape.len() < 0x1_0000_0000
        &&& supported_on_apu(dtype_of(self.ty))
        &&& product_fits(self.shape)
        &&& tensor_bytes(dtype_of(self.ty), product(self.shape)) <= usize::MAX
        &&& self.offset <= usize::MAX
    }

    pub open spec fn info(self) -> TensorInfo {
        TensorInfo {
            name: self.name,
            shape: self.shape,
            dtype: dtype_of(self.ty),
            offset: self.offset as nat,
            size: tensor_bytes(dtype_of(self.ty), product(self.shape)),
        }
    }
}

/// The tensors after one another, as they are written.
pub open spec fn list_bytes(list: Seq<Listed>) -> Seq<u8>
    decreases list.len(),
{
    if list.len() == 0 {
        Seq::empty()
    } else {
        list[0].bytes() + list_bytes(list.skip(1))
    }
}

proof fn lemma_list(file: Seq<u8>, at: nat, list: Seq<Listed>, have: Seq<TensorInfo>)
    requires
        forall|i: int| 0 <= i < list.len() ==> (#[trigger] list[i]).ok(),
        written(file, at as int, list_bytes(list)),
    ensures
        read_directory(file, at, list.len(), have) == Directory::Tensors(
            have + list.map_values(|t: Listed| t.info()),
            at + list_bytes(list).len(),
        ),
    decreases list.len(),
{
    let f = |t: Listed| t.info();
    if list.len() == 0 {
        assert(have + list.map_values(f) =~= have);
    } else {
        let t = list[0];
        let rest = list.skip(1);
        lemma_two_parts(file, at as int, t.bytes(), list_bytes(rest));
        assert forall|i: int| 0 <= i < t.dims().len() implies #[trigger] t.shape[i]
            == t.dims()[i] by {
            vstd::layout::unsigned_int_max_values();
        }
        law_written_tensor_is_read(file, at, t.name, t.dims(), t.shape, t.ty, t.offset);
        assert forall|i: int| 0 <= i < rest.len() implies (#[trigger] rest[i]).ok() by {
            assert(rest[i] == list[i + 1]);
        }
        lemma_list(file, at + t.bytes().len(), rest, have.push(t.info()));
        assert(have.push(t.info()) + rest.map_values(f) =~= have + list.map_values(f));
    }
}

// ---------------------------------------------------------------------------
// Files
// ---------------------------------------------------------------------------

/// The file was written from these items and tensors: the four letters, the version, the numbers
/// of tensors and of items, the items, the tensors, and whatever follows.
pub open spec fn is_file_of(
    file: Seq<u8>,
    version: nat,
    items: Seq<Item>,
    list: Seq<Listed>,
) -> bool {
    &&& version == 2 || version == 3
    &&& items.len() < 0x1_0000_0000_0000_0000
    &&& list.len() < 0x1_0000_0000_0000_0000
    &&& forall|i: int| 0 <= i < items.len() ==> item_ok(#[trigger] items[i])
    &&& forall|i: int| 0 <= i < list.len() ==> (#[trigger] list[i]).ok()
    &&& one_vocabulary(items)
    &&& written(
        file,
        0,
        seq![0x47u8, 0x47, 0x55, 0x46] + le_bytes(version, 4) + le_bytes(list.len(), 8) + le_bytes(
            items.len(),
            8,
        ) + items_bytes(items) + list_bytes(list),
    )
}

proof fn lemma_header(file: Seq<u8>, version: nat, items: Seq<Item>, list: Seq<Listed>)
    requires
        is_file_of(file, version, items, list),
    ensures
        file.len() >= 24 + items_bytes(items).len() + list_bytes(list).len(),
        file.take(4) == seq![0x47u8, 0x47, 0x55, 0x46],
        le_at(file, 4, 4) == version,
        le_at(file, 8, 8) == list.len(),
        le_at(file, 16, 8) == items.len(),
        written(file, 24, items_bytes(items)),
        written(file, (24 + items_bytes(items).len()) as int, list_bytes(list)),
{
    let g = seq![0x47u8, 0x47, 0x55, 0x46];
    let v = le_bytes(version, 4);
    let n = le_bytes(list.len(), 8);
    let k = le_bytes(items.len(), 8);
    let a = items_bytes(items);
    let b = list_bytes(list);
    lemma_pow256();
    lemma_le_bytes_len(version, 4);
    lemma_le_bytes_len(list.len(), 8);
    lemma_le_bytes_len(items.len(), 8);
    lemma_two_parts(file, 0, g + v + n + k + a, b);
    lemma_two_parts(file, 0, g + v + n + k, a);
    lemma_two_parts(file, 0, g + v + n, k);
    lemma_two_parts(file, 0, g + v, n);
    lemma_two_parts(file, 0, g, v);
    lemma_field(file, 4, version, 4);
    lemma_field(file, 8, list.len(), 8);
    lemma_field(file, 16, items.len(), 8);
    assert(file.take(4) =~= file.subrange(0, 4));
}

/// The metadata that were written are read, and so are the tensors, in their order.
pub proof fn law_written_file_is_read(
    file: Seq<u8>,
    version: nat,
    items: Seq<Item>,
    list: Seq<Listed>,
)
    requires
        is_file_of(file, version, items, list),
    ensures
        metadata_of(file) == moved_to(
            with_items(default_metadata(), items),
            24 + items_bytes(items).len(),
        ),
        directory_of(file) == Directory::Tensors(
            list.map_values(|t: Listed| t.info()),
            24 + items_bytes(items).len() + list_bytes(list).len(),
        ),
{
    lemma_header(file, version, items, list);
    lemma_items(file, default_metadata(), items);
    lemma_list(file, 24 + items_bytes(items).len(), list, Seq::empty());
    let f = |t: Listed| t.info();
    assert(Seq::<TensorInfo>::empty() + list.map_values(f) =~= list.map_values(f));
}

/// A file that was written opens, unless it asks for an alignment of zero.
pub proof fn law_written_file_opens(
    file: Seq<u8>,
    version: nat,
    items: Seq<Item>,
    list: Seq<Listed>,
)
    requires
        is_file_of(file, version, items, list),
        file.len() <= i64::MAX,
    ensures
        gguf_fault(file) is None <==> with_items(default_metadata(), items).alignment != 0,
{
    lemma_header(file, version, items, list);
    law_written_file_is_read(file, version, items, list);
    assert(gguf_magic() =~= seq![0x47u8, 0x47, 0x55, 0x46]);
}

/// A reader of a file that was written has each tensor under its place: its name, shape and type,
/// and its bytes start where the data start and the tensor's own place says.
pub proof fn law_reader_has_what_was_written(
    r: GgufModelReader<'_>,
    file: Seq<u8>,
    version: nat,
    items: Seq<Item>,
    list: Seq<Listed>,
    i: int,
)
    requires
        is_file_of(file, version, items, list),
        r.wf(),
        r.holds_file(file),
        0 <= i < list.len(),
    ensures
        r.tensor_list@.len() == list.len(),
        r.tensor_list@[i].name@ == list[i].name,
        r.tensor_list@[i].shape@ == list[i].shape,
        r.tensor_list@[i].dtype == dtype_of(list[i].ty),
        r.tensor_list@[i].offset_bytes == list[i].offset,
        r.arch_name@ == with_items(default_metadata(), items).arch,
        r.hyperparams == with_items(default_metadata(), items).hp,
        texts(r.tokenizer.tokens@) == with_items(default_metadata(), items).tokens,
        r.data@ == file,
{
    law_written_file_is_read(file, version, items, list);
    let f = |t: Listed| t.info();
    assert(infos(r.tensor_list@) == list.map_values(f));
    assert(infos(r.tensor_list@).len() == list.len());
    assert(infos(r.tensor_list@)[i] == list[i].info());
    assert(infos(r.tensor_list@)[i] == r.tensor_list@[i]@);
}

} // verus!
