//! What holds of opening models as a whole: which files open, and what the files beside them say.

use vstd::prelude::*;
use vstd::string::*;

use crate::bytes::le_at;
use crate::container::converter::{
    cache_usable, guessed_hyperparams, guessed_name, has_xclbin, loads_container, parse_fault,
    LoadOutcome, ModelFiles,
};
use crate::container::dtype::{dtype_of, supported_on_apu};
use crate::container::half::widened;
use crate::container::resolver::{
    first_xclbin, joined_path, menu_lines, menu_text, scanned, scanned_roots, text_before, two_wide,
    DirEntry, Profile,
};
use crate::container::tokenizer::token_byte;
use crate::container::{
    config_hyperparams, fault_text, header_probe, io_text, json_str, json_u32, name_bytes,
    open_fault, quoted, read_fault, safetensors_arch, safetensors_hyperparams, stamped_header,
    stored_hyperparams, text_after, value_text, ConfigFile, ContainerFault, FileContext,
    IoFaultView, Q4nxHeader, Q4nxModel,
};
use crate::text::{
    decimal, decoded, first_at, has_text, leading_whitespace, lowered, occurs_at, trimmed_start,
    whitespace,
};
use crate::text_laws::{law_decimal_reads_back, law_digits_end_where_another_character_is};

verus! {

// ---------------------------------------------------------------------------
// Values in JSON text
// ---------------------------------------------------------------------------

proof fn lemma_text_after(s: Seq<char>, mark: Seq<char>, i: int)
    requires
        occurs_at(s, mark, i),
        forall|j: int| 0 <= j < i ==> !occurs_at(s, mark, j),
    ensures
        text_after(s, mark) == Some(s.skip(i + mark.len())),
        has_text(s, mark),
        (choose|k: int| first_at(s, mark, k)) == i,
{
    assert(first_at(s, mark, i));
    let k = choose|k: int| first_at(s, mark, k);
    assert(first_at(s, mark, k));
    if k > i {
        assert(!occurs_at(s, mark, i));
    }
}

/// A character does not stand in a text.
pub open spec fn without(s: Seq<char>, c: char) -> bool {
    forall|i: int| 0 <= i < s.len() ==> s[i] != c
}

proof fn lemma_first_char(gap: Seq<char>, c: char, rest: Seq<char>)
    requires
        without(gap, c),
    ensures
        text_after(gap + seq![c] + rest, seq![c]) == Some(rest),
        has_text(gap + seq![c] + rest, seq![c]),
        (choose|k: int| first_at(gap + seq![c] + rest, seq![c], k)) == gap.len(),
{
    let s = gap + seq![c] + rest;
    let i = gap.len() as int;
    assert(s.subrange(i, i + 1) =~= seq![c]);
    assert forall|j: int| 0 <= j < i implies !occurs_at(s, seq![c], j) by {
        if occurs_at(s, seq![c], j) {
            assert(s.subrange(j, j + 1)[0] == c);
            assert(s[j] == gap[j]);
        }
    }
    lemma_text_after(s, seq![c], i);
    assert(s.skip(i + 1) =~= rest);
}

proof fn lemma_blanks(blanks: Seq<char>, rest: Seq<char>)
    requires
        forall|i: int| 0 <= i < blanks.len() ==> whitespace(#[trigger] blanks[i]),
        rest.len() > 0 ==> !whitespace(rest[0]),
    ensures
        leading_whitespace(blanks + rest) == blanks.len(),
        trimmed_start(blanks + rest) == rest,
    decreases blanks.len(),
{
    let s = blanks + rest;
    if blanks.len() > 0 {
        assert(whitespace(blanks[0]));
        assert(s[0] == blanks[0]);
        assert(s.skip(1) =~= blanks.skip(1) + rest);
        assert forall|i: int| 0 <= i < blanks.skip(1).len() implies whitespace(
            #[trigger] blanks.skip(1)[i],
        ) by {
            assert(whitespace(blanks[i + 1]));
        }
        lemma_blanks(blanks.skip(1), rest);
    } else {
        assert(s =~= rest);
    }
    assert(s.skip(blanks.len() as int) =~= rest);
}

/// A text in which a key, in its quotes, stands for the first time behind `before`, with a colon
/// and perhaps blanks between it and its value.
pub open spec fn states(
    s: Seq<char>,
    before: Seq<char>,
    key: Seq<char>,
    gap: Seq<char>,
    blanks: Seq<char>,
    value: Seq<char>,
) -> bool {
    &&& s == before + (seq!['"'] + key + seq!['"']) + gap + seq![':'] + blanks + value
    &&& forall|j: int|
        0 <= j < before.len() ==> !#[trigger] occurs_at(s, seq!['"'] + key + seq!['"'], j)
    &&& without(gap, ':')
    &&& forall|i: int| 0 <= i < blanks.len() ==> whitespace(#[trigger] blanks[i])
    &&& value.len() > 0
    &&& !whitespace(value[0])
}

proof fn lemma_value(
    s: Seq<char>,
    before: Seq<char>,
    key: Seq<char>,
    gap: Seq<char>,
    blanks: Seq<char>,
    value: Seq<char>,
)
    requires
        states(s, before, key, gap, blanks, value),
    ensures
        value_text(s, key) == Some(value),
{
    let q = quoted(key);
    assert(q == seq!['"'] + key + seq!['"']);
    let i = before.len() as int;
    assert(s.subrange(i, i + q.len()) =~= q);
    lemma_text_after(s, q, i);
    let rest = gap + seq![':'] + (blanks + value);
    assert(s.skip(i + q.len()) =~= rest);
    lemma_first_char(gap, ':', blanks + value);
    lemma_blanks(blanks, value);
}

/// A number that stands behind its key is read, up to the first character that is no digit; one
/// that does not fit 32 bits is not.
pub proof fn law_number_behind_its_key_is_read(
    s: Seq<char>,
    before: Seq<char>,
    key: Seq<char>,
    gap: Seq<char>,
    blanks: Seq<char>,
    n: nat,
    after: Seq<char>,
)
    requires
        states(s, before, key, gap, blanks, decimal(n) + after),
        after.len() > 0 ==> !('0' <= after[0] && after[0] <= '9'),
    ensures
        n <= u32::MAX ==> json_u32(s, key) == Some(n as u32),
        n > u32::MAX ==> json_u32(s, key) is None,
{
    lemma_value(s, before, key, gap, blanks, decimal(n) + after);
    law_decimal_reads_back(n, u32::MAX as nat);
    law_digits_end_where_another_character_is(decimal(n), after);
    assert((decimal(n) + after).take(decimal(n).len() as int) =~= decimal(n));
}

/// A text that stands behind its key is what is read between its quotes.
pub proof fn law_text_behind_its_key_is_read(
    s: Seq<char>,
    before: Seq<char>,
    key: Seq<char>,
    gap: Seq<char>,
    blanks: Seq<char>,
    text: Seq<char>,
    after: Seq<char>,
)
    requires
        states(s, before, key, gap, blanks, seq!['"'] + text + seq!['"'] + after),
        without(text, '"'),
    ensures
        json_str(s, key) == Some(text),
{
    let value = seq!['"'] + text + seq!['"'] + after;
    lemma_value(s, before, key, gap, blanks, value);
    let none = Seq::<char>::empty();
    assert(value =~= none + seq!['"'] + (text + seq!['"'] + after));
    lemma_first_char(none, '"', text + seq!['"'] + after);
    lemma_first_char(text, '"', after);
    assert((text + seq!['"'] + after).take(text.len() as int) =~= text);
}

/// A key that is not there has no value.
pub proof fn law_missing_key_has_no_value(s: Seq<char>, key: Seq<char>)
    requires
        !has_text(s, seq!['"'] + key + seq!['"']),
    ensures
        json_u32(s, key) is None,
        json_str(s, key) is None,
{
    assert(quoted(key) == seq!['"'] + key + seq!['"']);
}

/// Each hyperparameter of a model is what its own key says, and else what is usual; a model that
/// does not say how many heads share a key has one for each.
pub proof fn law_config_states_the_hyperparameters(cfg: Seq<char>)
    ensures
        ({
            let hp = config_hyperparams(cfg);
            let hidden = json_u32(cfg, "hidden_size"@);
            let heads = json_u32(cfg, "num_attention_heads"@);
            let kv = json_u32(cfg, "num_key_value_heads"@);
            let layers = json_u32(cfg, "num_hidden_layers"@);
            let vocab = json_u32(cfg, "vocab_size"@);
            let context = json_u32(cfg, "max_position_embeddings"@);
            &&& hidden is Some ==> hp.hidden_dim == hidden->0
            &&& hidden is None ==> hp.hidden_dim == 4096
            &&& heads is Some ==> hp.num_heads == heads->0
            &&& heads is None ==> hp.num_heads == 32
            &&& kv is Some ==> hp.num_kv_heads == kv->0
            &&& kv is None ==> hp.num_kv_heads == hp.num_heads
            &&& layers is Some ==> hp.num_layers == layers->0
            &&& layers is None ==> hp.num_layers == 32
            &&& vocab is Some ==> hp.vocab_size == vocab->0
            &&& vocab is None ==> hp.vocab_size == 128000
            &&& context is Some ==> hp.context_length == context->0
            &&& context is None ==> hp.context_length == 8192
        }),
{
}

/// A SafeTensors model without a configuration is known by its name, or by what its header says;
/// with one, by what that says.
pub proof fn law_what_safetensors_are_taken_for(ctx: FileContext, file: Seq<u8>)
    ensures
        ({
            let a = safetensors_arch(ctx, file);
            let hp = safetensors_hyperparams(ctx);
            match ctx.config {
                ConfigFile::Text(cfg) => {
                    &&& hp == config_hyperparams(cfg@)
                    &&& json_str(cfg@, "model_type"@) is Some ==> a == json_str(
                        cfg@,
                        "model_type"@,
                    )->0
                    &&& json_str(cfg@, "model_type"@) is None ==> a == "llama"@
                },
                ConfigFile::Unreadable => {
                    &&& a == "llama"@
                    &&& hp.hidden_dim == 0 && hp.num_heads == 0 && hp.num_kv_heads == 0
                        && hp.num_layers == 0 && hp.vocab_size == 0 && hp.context_length == 0
                },
                ConfigFile::Absent => {
                    let f = lowered(ctx.stem@);
                    let t = decoded(header_probe(file));
                    let qwen = has_text(f, "qwen"@) || has_text(t, "qwen"@);
                    let gemma = has_text(f, "gemma"@) || has_text(t, "gemma"@);
                    &&& qwen ==> a == "qwen2"@
                    &&& gemma && !qwen ==> a == "gemma2"@
                    &&& !gemma && !qwen ==> a == "llama"@
                    &&& hp.hidden_dim == 4096 && hp.num_heads == 32 && hp.num_kv_heads == 8
                        && hp.num_layers == 32 && hp.vocab_size == 128000 && hp.context_length
                        == 8192
                },
            }
        }),
{
}

/// Of a SafeTensors header, what follows its length is searched: as many bytes as it has, but at
/// most 64 KiB, with zeros for those that the file lacks.
pub proof fn law_header_is_searched(file: Seq<u8>, i: int)
    requires
        file.len() >= 8,
        0 <= i < le_at(file, 0, 8),
        i < 65536,
    ensures
        header_probe(file).len() <= 65536,
        header_probe(file).len() <= le_at(file, 0, 8),
        i < header_probe(file).len(),
        8 + i < file.len() ==> header_probe(file)[i] == file[8 + i],
        8 + i >= file.len() ==> header_probe(file)[i] == 0,
{
}

// ---------------------------------------------------------------------------
// Opening
// ---------------------------------------------------------------------------

/// What stands between two places of a file can be read where the file has it, and where the first
/// place is one that a file can have.
pub proof fn law_what_can_be_read(file: Seq<u8>, offset: nat, size: nat)
    ensures
        read_fault(file, offset, size) is None <==> offset <= 0x7FFF_FFFF_FFFF_FFFF && (size == 0
            || offset + size <= file.len()),
        offset > 0x7FFF_FFFF_FFFF_FFFF ==> read_fault(file, offset, size) == Some(
            ContainerFault::Io(IoFaultView::InvalidSeek),
        ),
        offset <= 0x7FFF_FFFF_FFFF_FFFF && size > 0 && offset + size > file.len() ==> read_fault(
            file,
            offset,
            size,
        ) == Some(ContainerFault::Io(IoFaultView::UnexpectedEof)),
{
}

/// A file begins with the letters of a container.
pub open spec fn has_letters(file: Seq<u8>) -> bool {
    file[0] == 'Q' as u8 && file[1] == '4' as u8 && file[2] == 'N' as u8 && file[3] == 'X' as u8
}

/// Which containers open: those with the version and an aligned payload whose XCLBIN lies in the
/// file, and so much of the payload as is looked at.
pub proof fn law_which_containers_open(file: Seq<u8>)
    requires
        file.len() >= 256,
        has_letters(file),
    ensures
        ({
            let xclbin_at = le_at(file, 64, 8);
            let xclbin_len = le_at(file, 72, 8);
            let at = le_at(file, 96, 8);
            let len = le_at(file, 104, 8);
            let looked_at = if len <= 65536 {
                len
            } else {
                65536
            };
            open_fault(file) is None <==> {
                &&& le_at(file, 4, 4) == 1
                &&& at % 64 == 0
                &&& xclbin_len > 0 ==> xclbin_at <= 0x7FFF_FFFF_FFFF_FFFF && xclbin_at + xclbin_len
                    <= file.len()
                &&& at <= 0x7FFF_FFFF_FFFF_FFFF
                &&& looked_at > 0 ==> at + looked_at <= file.len()
            }
        }),
        le_at(file, 4, 4) != 1 ==> open_fault(file) == Some(
            ContainerFault::UnsupportedVersion(le_at(file, 4, 4) as u32),
        ),
        le_at(file, 4, 4) == 1 && le_at(file, 96, 8) % 64 != 0 ==> open_fault(file) == Some(
            ContainerFault::AlignmentError { offset: le_at(file, 96, 8) as u64 },
        ),
{
    assert(file.take(4) =~= crate::container::q4nx_magic());
}

/// Which other files open: those that begin as SafeTensors do. Short files do not open.
pub proof fn law_which_other_files_open(file: Seq<u8>)
    ensures
        file.len() < 256 ==> open_fault(file) == Some(
            ContainerFault::Io(IoFaultView::UnexpectedEof),
        ),
        file.len() >= 256 && !has_letters(file) ==> {
            &&& open_fault(file) is None <==> 0 < le_at(file, 0, 8) < 100_000_000 && file[8]
                == '{' as u8
            &&& open_fault(file) is Some ==> open_fault(file) == Some(
                ContainerFault::InvalidMagic {
                    expected: seq![0x51u8, 0x34, 0x4E, 0x58],
                    found: file.take(4),
                },
            )
        },
{
    if file.len() >= 256 && !has_letters(file) {
        let t = file.take(4);
        let m = crate::container::q4nx_magic();
        assert(t[0] == file[0] && t[1] == file[1] && t[2] == file[2] && t[3] == file[3]);
        assert(m[0] == 0x51 && m[1] == 0x34 && m[2] == 0x4E && m[3] == 0x58);
        assert(m =~= seq![0x51u8, 0x34, 0x4E, 0x58]);
        assert(t != m);
    }
}

/// A name ends at the first zero of its field.
pub proof fn law_names_end_at_a_zero(name: Seq<u8>, rest: Seq<u8>)
    requires
        forall|i: int| 0 <= i < name.len() ==> name[i] != 0,
        rest.len() > 0 ==> rest[0] == 0,
    ensures
        name_bytes(name + rest) == name,
    decreases name.len(),
{
    let s = name + rest;
    if name.len() > 0 {
        assert(s[0] == name[0]);
        assert(s.skip(1) =~= name.skip(1) + rest);
        law_names_end_at_a_zero(name.skip(1), rest);
        assert(seq![name[0]] + name.skip(1) =~= name);
    } else {
        assert(s =~= rest);
        assert(name =~= Seq::empty());
    }
}

/// Where a container's numbers stand.
pub proof fn law_where_hyperparameters_stand(file: Seq<u8>)
    ensures
        stored_hyperparams(file).hidden_dim == le_at(file, 40, 4) as u32,
        stored_hyperparams(file).num_heads == le_at(file, 44, 4) as u32,
        stored_hyperparams(file).num_kv_heads == le_at(file, 48, 4) as u32,
        stored_hyperparams(file).num_layers == le_at(file, 52, 4) as u32,
        stored_hyperparams(file).vocab_size == le_at(file, 56, 4) as u32,
        stored_hyperparams(file).context_length == le_at(file, 60, 4) as u32,
{
}

/// A stamp changes where things lie, and nothing that is said of the model.
pub proof fn law_stamps_keep_the_model(before: Q4nxHeader, n: nat)
    requires
        n <= isize::MAX,
    ensures
        ({
            let h = stamped_header(before, n);
            &&& h.arch_name == before.arch_name
            &&& h.hyperparams == before.hyperparams
            &&& h.payload_size == before.payload_size
            &&& h.version == 1
            &&& h.xclbin_offset == 256
            &&& h.xclbin_size == n
            &&& h.payload_offset % 64 == 0
            &&& 256 + n <= h.payload_offset < 256 + n + 64
            &&& h.tensor_table_offset == 0
            &&& h.tensor_table_count == 0
        }),
{
}

/// A container has an XCLBIN where its header states the size of one; any other file has one where
/// one lies beside it that is not empty.
pub proof fn law_which_files_have_an_xclbin(ctx: FileContext, file: Seq<u8>)
    requires
        file.len() >= 256,
    ensures
        has_letters(file) ==> (has_xclbin(ctx, file) <==> le_at(file, 72, 8) != 0),
        !has_letters(file) ==> (has_xclbin(ctx, file) <==> match ctx.layer_xclbin {
            Some(b) => b@.len() != 0,
            None => false,
        }),
{
    let t = file.take(4);
    let m = crate::container::q4nx_magic();
    assert(t[0] == file[0] && t[1] == file[1] && t[2] == file[2] && t[3] == file[3]);
    assert(m[0] == 0x51 && m[1] == 0x34 && m[2] == 0x4E && m[3] == 0x58);
    if has_letters(file) {
        assert(t =~= m);
    }
}

/// An opened container has the bytes of its XCLBIN, all of them, and the first of its payload, up
/// to 64 KiB.
pub proof fn law_opened_container_has_its_bytes(
    m: Q4nxModel,
    path: Seq<char>,
    file: Seq<u8>,
    i: int,
)
    requires
        file.len() >= 256,
        has_letters(file),
        open_fault(file) is None,
        m.holds_container(path, file),
    ensures
        m.xclbin().len() == le_at(file, 72, 8),
        0 <= i < m.xclbin().len() ==> m.xclbin()[i] == file[le_at(file, 64, 8) + i],
        le_at(file, 104, 8) <= 65536 ==> m.payload().len() == le_at(file, 104, 8),
        le_at(file, 104, 8) > 65536 ==> m.payload().len() == 65536,
        0 <= i < m.payload().len() ==> m.payload()[i] == file[le_at(file, 96, 8) + i],
        m.header.xclbin_offset == le_at(file, 64, 8),
        m.header.xclbin_size == le_at(file, 72, 8),
        m.header.payload_offset == le_at(file, 96, 8),
        m.header.payload_size == le_at(file, 104, 8),
        m.header.version == 1,
        m.path() == path,
{
    law_which_containers_open(file);
}

/// An opened SafeTensors model has the XCLBIN that lies beside it, and the first of what follows
/// its header, up to 4 KiB.
pub proof fn law_opened_safetensors_have_their_bytes(
    m: Q4nxModel,
    ctx: FileContext,
    file: Seq<u8>,
    i: int,
)
    requires
        file.len() >= 256,
        m.holds_safetensors(ctx, file),
    ensures
        ({
            let at = 8 + le_at(file, 0, 8);
            &&& m.header.payload_offset == at
            &&& at <= file.len() ==> m.header.payload_size == file.len() - at
            &&& at > file.len() ==> m.header.payload_size == 0
            &&& m.header.payload_size <= 4096 ==> m.payload().len() == m.header.payload_size
            &&& m.header.payload_size > 4096 ==> m.payload().len() == 4096
            &&& 0 <= i < m.payload().len() ==> m.payload()[i] == file[at + i]
            &&& m.header.xclbin_size == m.xclbin().len()
            &&& ctx.layer_xclbin is Some ==> m.xclbin() == ctx.layer_xclbin->0@
            &&& ctx.layer_xclbin is None ==> m.xclbin().len() == 0
            &&& m.header.version == 0
            &&& m.path() == ctx.path@
        }),
{
}

/// A container that has an XCLBIN is loaded as it is. One that has none waits for it, and is
/// written with it to where it lies: its header states the XCLBIN, which stands behind the header,
/// and its payload is kept.
pub proof fn law_containers_are_loaded(
    out: LoadOutcome,
    ctx: FileContext,
    file: Seq<u8>,
    x: &[u8],
)
    requires
        file.len() >= 256,
        has_letters(file),
        open_fault(file) is None,
        x@.len() <= isize::MAX,
    ensures
        loads_container(out, ctx, file, None) && le_at(file, 72, 8) == 0 ==> out is NeedsXclbin,
        loads_container(out, ctx, file, None) && le_at(file, 72, 8) > 0 ==> out is Ready,
        loads_container(out, ctx, file, Some(x)) && le_at(file, 72, 8) > 0 ==> out is Ready
            && out->Ready_0.holds_container(ctx.path@, file),
        loads_container(out, ctx, file, Some(x)) && le_at(file, 72, 8) == 0 ==> {
            let at = le_at(file, 96, 8);
            let n = out->image@.len() - (file.len() - at);
            &&& out is Written
            &&& out->path@ == ctx.path@
            &&& out->model.path() == ctx.path@
            &&& out->model.xclbin() == x@
            &&& out->model.header.xclbin_size == x@.len()
            &&& at <= file.len() ==> {
                &&& n % 64 == 0
                &&& 256 + x@.len() <= n < 256 + x@.len() + 64
                &&& out->image@.skip(n) == file.skip(at as int)
                &&& out->image@.subrange(256, (256 + x@.len()) as int) == x@
                &&& le_at(out->image@, 72, 8) == x@.len()
                &&& le_at(out->image@, 96, 8) == n
            }
        },
{
    assert(file.take(4) =~= crate::container::q4nx_magic());
    if loads_container(out, ctx, file, Some(x)) && le_at(file, 72, 8) == 0 {
        let before = choose|before: Q4nxModel|
            {
                &&& #[trigger] before.holds(ctx, file)
                &&& crate::container::converter::has_new_xclbin(before, x@, out->model)
                &&& out->image@ == crate::container::converter::restamped(before, file, x@)
            };
        let at = le_at(file, 96, 8);
        assert(before.header.payload_offset == at);
        if at <= file.len() {
            let tail = file.skip(at as int);
            lemma_image_parts(before, x@, tail);
            assert(tail.len() == file.len() - at);
        }
    }
}

proof fn lemma_image_parts(before: Q4nxModel, x: Seq<u8>, tail: Seq<u8>)
    requires
        x.len() <= isize::MAX,
    ensures
        ({
            let image = crate::container::container_prefix(
                vstd::utf8::encode_utf8(before.header.arch_name@),
                before.header.hyperparams,
                x,
                before.header.payload_size as nat,
            ) + tail;
            let n = image.len() - tail.len();
            &&& n % 64 == 0
            &&& 256 + x.len() <= n < 256 + x.len() + 64
            &&& image.skip(n) == tail
            &&& image.subrange(256, (256 + x.len()) as int) == x
            &&& le_at(image, 72, 8) == x.len()
            &&& le_at(image, 96, 8) == n
        }),
{
    let name = vstd::utf8::encode_utf8(before.header.arch_name@);
    let prefix = crate::container::container_prefix(
        name,
        before.header.hyperparams,
        x,
        before.header.payload_size as nat,
    );
    let image = prefix + tail;
    crate::container::laws::lemma_prefix_fields(
        name,
        before.header.hyperparams,
        x,
        before.header.payload_size as nat,
        tail,
    );
    assert(image.skip(prefix.len() as int) =~= tail);
}

/// A kept copy is used exactly where there is one and it opens.
pub proof fn law_when_copies_are_used(files: ModelFiles<'_>)
    ensures
        cache_usable(files) <==> match files.cached {
            Some(c) => open_fault(c.bytes@) is None,
            None => false,
        },
{
}

// ---------------------------------------------------------------------------
// Guesses
// ---------------------------------------------------------------------------

/// Which GGUF files are converted: those with the letters and a whole header.
pub proof fn law_which_files_are_converted(file: Seq<u8>)
    ensures
        parse_fault(file) is None <==> file.len() >= 24 && file[0] == 'G' as u8 && file[1]
            == 'G' as u8 && file[2] == 'U' as u8 && file[3] == 'F' as u8,
        file.len() < 4 ==> parse_fault(file) == Some(
            ContainerFault::Io(IoFaultView::UnexpectedEof),
        ),
{
    if file.len() >= 4 {
        let t = file.take(4);
        let m = crate::container::reader::gguf_magic();
        assert(t[0] == file[0] && t[1] == file[1] && t[2] == file[2] && t[3] == file[3]);
        assert(m[0] == 0x47 && m[1] == 0x47 && m[2] == 0x55 && m[3] == 0x46);
        if file[0] == 0x47 && file[1] == 0x47 && file[2] == 0x55 && file[3] == 0x46 {
            assert(t =~= m);
        }
    }
}

/// What a file that cannot be scanned is taken for, by its name alone: a small model where that
/// speaks of one or three billion weights, and a larger one else.
pub proof fn law_what_names_alone_say(f: Seq<char>)
    ensures
        ({
            let hp = guessed_hyperparams(f);
            let small = has_text(f, "3b"@) || has_text(f, "1b"@);
            &&& hp.context_length == 8192
            &&& small ==> hp.hidden_dim == 2048 && hp.num_heads == 16 && hp.num_kv_heads == 4
                && hp.num_layers == 24
            &&& !small ==> hp.hidden_dim == 4096 && hp.num_heads == 32 && hp.num_kv_heads == 8
                && hp.num_layers == 32
            &&& has_text(f, "qwen"@) || has_text(f, "gemma"@) || has_text(f, "glm"@) || has_text(
                f,
                "deepseek"@,
            ) ==> hp.vocab_size == 262144
        }),
        has_text(f, "spark"@) ==> guessed_name(f) == "spark2_5"@,
        ({
            let first = has_text(f, "spark"@) || has_text(f, "gemma4"@) || has_text(
                f,
                "gemma-4"@,
            ) || has_text(f, "cold-fusion"@) || has_text(f, "cold_fusion"@);
            let second = has_text(f, "deepseek"@) || has_text(f, "glm"@) || has_text(f, "sarvam"@)
                || has_text(f, "laguna"@);
            let a = guessed_name(f);
            &&& !has_text(f, "spark"@) && (has_text(f, "gemma4"@) || has_text(f, "gemma-4"@)) ==> a
                == "gemma4"@
            &&& !has_text(f, "spark"@) && !has_text(f, "gemma4"@) && !has_text(f, "gemma-4"@)
                && first ==> a == "qwen3_8"@
            &&& !first && has_text(f, "deepseek"@) ==> a == "deepseek_v4"@
            &&& !first && !has_text(f, "deepseek"@) && has_text(f, "glm"@) ==> a == "glm5"@
            &&& !first && !second && has_text(f, "llama"@) ==> a == "llama"@
            &&& !first && !second && !has_text(f, "llama"@) && has_text(f, "qwen"@) ==> a
                == "qwen2"@
            &&& !first && !second && !has_text(f, "llama"@) && !has_text(f, "qwen"@) && has_text(
                f,
                "gemma"@,
            ) ==> a == "gemma2"@
            &&& !first && !second && !has_text(f, "llama"@) && !has_text(f, "qwen"@) && !has_text(
                f,
                "gemma"@,
            ) && has_text(f, "phi"@) ==> a == "phi3"@
            &&& !first && !second && !has_text(f, "llama"@) && !has_text(f, "qwen"@) && !has_text(
                f,
                "gemma"@,
            ) && !has_text(f, "phi"@) ==> a == "llama"@
        }),
{
}

/// Which types of elements the hardware takes, by their numbers.
pub proof fn law_which_types_are_taken(n: u32)
    ensures
        supported_on_apu(dtype_of(n)) <==> {
            ||| n <= 3
            ||| 6 <= n <= 9
            ||| 12 <= n <= 15
            ||| n == 20
            ||| 23 <= n <= 28
            ||| n == 30
            ||| n == 41
            ||| n == 42
        },
{
}

/// A number of half precision that is infinite or none keeps its bits when it is widened.
pub proof fn law_special_numbers_keep_their_bits(h: u16)
    requires
        h / 1024 % 32 == 31,
    ensures
        widened(h) % 0x80_0000 == (h % 1024) * 8192,
        widened(h) / 0x80_0000 % 256 == 255,
        widened(h) / 0x8000_0000 == h / 32768,
{
}

// ---------------------------------------------------------------------------
// Profiles
// ---------------------------------------------------------------------------

/// Names are ordered by the first character in which they differ; a name is before all that it
/// begins.
pub proof fn law_names_are_ordered(
    same: Seq<char>,
    c: char,
    d: char,
    x: Seq<char>,
    y: Seq<char>,
)
    ensures
        c < d ==> text_before(same + seq![c] + x, same + seq![d] + y),
        c < d ==> !text_before(same + seq![d] + y, same + seq![c] + x),
        text_before(same, same + seq![c] + x),
        !text_before(same + seq![c] + x, same),
        !text_before(same, same),
    decreases same.len(),
{
    let a = same + seq![c] + x;
    let b = same + seq![d] + y;
    if same.len() > 0 {
        law_names_are_ordered(same.skip(1), c, d, x, y);
        assert(a.skip(1) =~= same.skip(1) + seq![c] + x);
        assert(b.skip(1) =~= same.skip(1) + seq![d] + y);
        assert(a[0] == same[0] && b[0] == same[0]);
    } else {
        assert(a[0] == c && b[0] == d);
    }
}

/// The first XCLBIN among the entries of a directory is taken.
pub proof fn law_first_file_is_taken(entries: Seq<DirEntry>, i: int, k: int)
    requires
        0 <= i <= k < entries.len(),
        entries[k].is_file,
        entries[k].is_xclbin,
        forall|j: int|
            i <= j < k ==> !((#[trigger] entries[j]).is_file && entries[j].is_xclbin),
    ensures
        first_xclbin(entries, i) == Some(entries[k].path@),
    decreases k - i,
{
    if i < k {
        assert(!(entries[i].is_file && entries[i].is_xclbin));
        law_first_file_is_taken(entries, i + 1, k);
    }
}

proof fn lemma_one_more(ps: Seq<Profile>, entries: Seq<DirEntry>, i: int, depth: nat)
    requires
        0 <= i < entries.len(),
        depth <= 3,
    ensures
        scanned(ps, entries, i, depth) == scanned(
            after_entry(ps, entries[i], depth),
            entries,
            i + 1,
            depth,
        ),
{
}

/// Profiles with one more, unless one has its name.
pub open spec fn unless_named(ps: Seq<Profile>, p: Profile) -> Seq<Profile> {
    if exists|i: int| 0 <= i < ps.len() && #[trigger] ps[i].name == p.name {
        ps
    } else {
        ps.push(p)
    }
}

/// What one entry adds: a directory with an XCLBIN one profile under the directory's name, a
/// directory without one those below it, and an XCLBIN one profile under the file's name.
pub open spec fn after_entry(ps: Seq<Profile>, e: DirEntry, depth: nat) -> Seq<Profile> {
    if e.is_dir && e.kernel is Some {
        unless_named(ps, Profile { name: e.name@, dir: e.path@, path: e.kernel->0@ })
    } else if e.is_dir && first_xclbin(e.children@, 0) is Some {
        unless_named(
            ps,
            Profile { name: e.name@, dir: e.path@, path: first_xclbin(e.children@, 0)->0 },
        )
    } else if e.is_dir {
        scanned(ps, e.children@, 0, depth + 1)
    } else if e.is_file && e.is_xclbin {
        unless_named(ps, Profile { name: e.stem@, dir: e.parent@, path: e.path@ })
    } else {
        ps
    }
}

/// Entries are looked at one after the other, down to the third directory below a search path, and
/// each adds its own; nothing is found further down.
pub proof fn law_entries_are_looked_at_in_order(
    ps: Seq<Profile>,
    a: Seq<DirEntry>,
    e: DirEntry,
    depth: nat,
)
    ensures
        depth <= 3 ==> scanned(ps, a.push(e), 0, depth) == after_entry(
            scanned(ps, a, 0, depth),
            e,
            depth,
        ),
        depth > 3 ==> scanned(ps, a.push(e), 0, depth) == ps,
        scanned(ps, Seq::empty(), 0, depth) == ps,
{
    if depth <= 3 {
        lemma_scan_push(ps, a, e, 0, depth);
    }
}

proof fn lemma_scan_push(ps: Seq<Profile>, a: Seq<DirEntry>, e: DirEntry, i: int, depth: nat)
    requires
        0 <= i <= a.len(),
        depth <= 3,
    ensures
        scanned(ps, a.push(e), i, depth) == after_entry(scanned(ps, a, i, depth), e, depth),
    decreases a.len() - i,
{
    let all = a.push(e);
    lemma_one_more(ps, all, i, depth);
    if i < a.len() {
        assert(all[i] == a[i]);
        lemma_one_more(ps, a, i, depth);
        lemma_scan_push(after_entry(ps, a[i], depth), a, e, i + 1, depth);
    } else {
        assert(all[i] == e);
        assert(scanned(after_entry(ps, e, depth), all, i + 1, depth) == after_entry(ps, e, depth));
    }
}

/// Search paths are looked at one after the other.
pub proof fn law_search_paths_are_looked_at_in_order(roots: Seq<Vec<DirEntry>>, last: Vec<DirEntry>)
    ensures
        scanned_roots(roots.push(last), roots.len() + 1) == scanned(
            scanned_roots(roots, roots.len()),
            last@,
            0,
            0,
        ),
        scanned_roots(Seq::empty(), 0) == Seq::<Profile>::empty(),
{
    lemma_roots(roots, last, roots.len());
    assert(roots.push(last)[roots.len() as int] == last);
}

proof fn lemma_roots(roots: Seq<Vec<DirEntry>>, last: Vec<DirEntry>, k: nat)
    requires
        k <= roots.len(),
    ensures
        scanned_roots(roots.push(last), k) == scanned_roots(roots, k),
    decreases k,
{
    if k > 0 {
        lemma_roots(roots, last, (k - 1) as nat);
        assert(roots.push(last)[k - 1] == roots[k - 1]);
    }
}

/// A path below another one has one slash between the two, and none where there is nothing above.
pub proof fn law_paths_are_joined(base: Seq<char>, below: Seq<char>)
    ensures
        joined_path(Seq::empty(), below) == below,
        base.len() > 0 && base.last() != '/' ==> joined_path(base, below) == base + seq!['/']
            + below,
        joined_path(base + seq!['/'], below) == base + seq!['/'] + below,
{
    reveal_strlit("/");
    assert("/"@ =~= seq!['/']);
    assert((base + seq!['/']).last() == '/');
}

/// A byte token may have a plus sign in place of its first digit, and its digits are of either
/// case; nothing else is one.
pub proof fn law_forms_of_byte_tokens(d: char, c: char, other: Seq<char>)
    requires
        '0' <= d <= '9',
        'a' <= c <= 'f',
    ensures
        token_byte(seq!['<', '0', 'x', '+', d, '>']) == Some((d as u32 - 48) as u8),
        token_byte(seq!['<', '0', 'x', d, d, '>']) == Some((17 * (d as u32 - 48)) as u8),
        token_byte(seq!['<', '0', 'x', d, c, '>']) == Some(
            (16 * (d as u32 - 48) + (c as u32 - 87)) as u8,
        ),
        token_byte(seq!['<', '0', 'x', c, d, '>']) == Some(
            (16 * (c as u32 - 87) + (d as u32 - 48)) as u8,
        ),
        other.len() != 6 ==> token_byte(other) is None,
        other.len() == 6 && (other[0] != '<' || other[5] != '>') ==> token_byte(other) is None,
{
    let w = seq!['<', '0', 'x', '+', d, '>'];
    assert(w[3] == '+' && w[4] == d);
}

proof fn lemma_menu(ps: Seq<Profile>, files: Seq<Seq<char>>, j: nat, n: nat) -> (rest: Seq<char>)
    requires
        j <= n,
    ensures
        menu_lines(ps, files, n) == menu_lines(ps, files, j) + rest,
    decreases n,
{
    if j == n {
        assert(menu_lines(ps, files, n) =~= menu_lines(ps, files, j) + Seq::empty());
        Seq::empty()
    } else {
        let r = lemma_menu(ps, files, j, (n - 1) as nat);
        let line = "  ["@ + two_wide(n) + "] "@ + ps[n - 1].name + " ("@ + files[n - 1] + ")\n"@;
        assert(menu_lines(ps, files, n) =~= menu_lines(ps, files, j) + (r + line));
        r + line
    }
}

/// Every profile has a line of the menu, with its number, its name and its file.
pub proof fn law_each_profile_is_in_the_menu(ps: Seq<Profile>, files: Seq<Seq<char>>, k: nat)
    requires
        1 <= k <= ps.len(),
        files.len() == ps.len(),
    ensures
        has_text(
            menu_text(ps, files),
            (if k < 10 {
                "  ["@ + " "@
            } else {
                "  ["@
            }) + decimal(k) + "] "@ + ps[k - 1].name + " ("@ + files[k - 1] + ")\n"@,
        ),
{
    let rest = lemma_menu(ps, files, k, ps.len());
    let before = menu_lines(ps, files, (k - 1) as nat);
    let wide = "  ["@ + two_wide(k);
    let tail = "] "@ + ps[k - 1].name + " ("@ + files[k - 1] + ")\n"@;
    let opening = (if k < 10 {
        "  ["@ + " "@
    } else {
        "  ["@
    }) + decimal(k);
    lemma_width(k);
    assert(opening =~= wide);
    let line = opening + "] "@ + ps[k - 1].name + " ("@ + files[k - 1] + ")\n"@;
    assert(menu_lines(ps, files, k) =~= before + line);
    let head =
        "\n========================================================\n  AMD Ryzen AI NPU: Dynamic XCLBIN Profile Selection\n========================================================\nDiscovered "@
        + decimal(ps.len())
        + " compatible hardware graph profiles in search paths.\nPlease choose the target hardware graph profile for your model:\n\n"@;
    let end =
        "--------------------------------------------------------\nEnter selection [1-"@;
    lemma_menu_parts(head, before, line, rest, end, decimal(ps.len()), "]: "@);
}

proof fn lemma_menu_parts(
    head: Seq<char>,
    before: Seq<char>,
    line: Seq<char>,
    rest: Seq<char>,
    end: Seq<char>,
    n: Seq<char>,
    close: Seq<char>,
)
    ensures
        has_text(head + ((before + line) + rest) + end + n + close, line),
{
    let all = head + ((before + line) + rest) + end + n + close;
    let i = (head + before).len() as int;
    assert(all.subrange(i, i + line.len()) =~= line);
    assert(occurs_at(all, line, i));
}

proof fn lemma_width(k: nat)
    requires
        k >= 1,
    ensures
        decimal(k).len() < 2 <==> k < 10,
{
    if k >= 10 {
        law_decimal_reads_back(k / 10, k);
    }
}

// ---------------------------------------------------------------------------
// Messages
// ---------------------------------------------------------------------------

proof fn lemma_last_part(a: Seq<char>, b: Seq<char>)
    ensures
        has_text(a + b, b),
        has_text(a + b, a),
{
    let s = a + b;
    assert(s.subrange(a.len() as int, s.len() as int) =~= b);
    assert(occurs_at(s, b, a.len() as int));
    assert(s.subrange(0, a.len() as int) =~= a);
    assert(occurs_at(s, a, 0));
}

/// Users are told what was found: the version, the place, the text.
pub proof fn law_messages_tell_what_was_found(v: u32, offset: u64, s: Seq<char>, io: IoFaultView)
    ensures
        has_text(fault_text(ContainerFault::UnsupportedVersion(v)), decimal(v as nat)),
        has_text(
            fault_text(ContainerFault::AlignmentError { offset }),
            "(offset: "@ + decimal(offset as nat) + ")"@,
        ),
        has_text(fault_text(ContainerFault::CorruptedHeader(s)), s),
        has_text(fault_text(ContainerFault::UnsupportedQuantization(s)), s),
        has_text(fault_text(ContainerFault::Io(io)), io_text(io)),
        io_text(IoFaultView::InvalidData(s)) == s,
        io_text(IoFaultView::NotFound(s)) == s,
{
    lemma_last_part("Unsupported Q4NX container version: "@, decimal(v as nat));
    lemma_last_part("Corrupted container header: "@, s);
    lemma_last_part("Unsupported quantization format: "@, s);
    lemma_last_part("I/O error: "@, io_text(io));
    lemma_offset_text();
    let a = "Buffer alignment error: payload must be 64-byte aligned "@;
    let b = "(offset: "@;
    let d = decimal(offset as nat);
    assert(a + b + d + ")"@ =~= a + (b + d + ")"@));
    lemma_last_part(a, b + d + ")"@);
}

proof fn lemma_offset_text()
    ensures
        "Buffer alignment error: payload must be 64-byte aligned (offset: "@
            == "Buffer alignment error: payload must be 64-byte aligned "@ + "(offset: "@,
{
    reveal_strlit("Buffer alignment error: payload must be 64-byte aligned (offset: ");
    reveal_strlit("Buffer alignment error: payload must be 64-byte aligned ");
    reveal_strlit("(offset: ");
    assert("Buffer alignment error: payload must be 64-byte aligned (offset: "@
        =~= "Buffer alignment error: payload must be 64-byte aligned "@ + "(offset: "@);
}

} // verus!
