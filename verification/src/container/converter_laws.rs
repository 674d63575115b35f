//! What holds of converted models as a whole: where their weights and their structure come from,
//! and how a container is laid out.

use vstd::prelude::*;
use vstd::string::*;
use vstd::utf8::*;

use crate::bytes::{align64, le_at, lemma_le_eight, lemma_le_four, lemma_le_two};
use crate::container::converter::{
    converted_image, converted_payload, raw_payload, supported_quant, topology_hyperparams,
};
use crate::container::laws::{fits_a_file, lemma_container_fields};
use crate::container::topology::{scan_of, topology_of, Topology};
use crate::container::{
    container_image, name_field, payload_start, q4nx_magic, ModelHyperparameters,
};

verus! {

// ---------------------------------------------------------------------------
// Payloads
// ---------------------------------------------------------------------------

/// The payload of a converted file is the file's own bytes from offset 128 on, as far as the file
/// goes and 32 MiB hold: no byte of them is changed, left out or moved.
pub proof fn law_payload_is_the_file(file: Seq<u8>, i: int)
    requires
        file.len() > 128,
        0 <= i < file.len() - 128,
        i < 33554432,
    ensures
        i < converted_payload(file).len(),
        converted_payload(file)[i] == file[128 + i],
{
    assert(i < raw_payload(file).len());
}

/// What a payload holds beyond the bytes of the file: of a file that has none at offset 128, 4096
/// bytes of 0xEE; of one with fewer than 64 there, 0xEE up to 64; zeros up to the next multiple of
/// 64 otherwise. No payload is longer than that.
pub proof fn law_payload_is_filled_up(file: Seq<u8>)
    ensures
        file.len() <= 128 ==> converted_payload(file) == Seq::new(4096, |i: int| 0xEEu8),
        128 < file.len() < 192 ==> {
            &&& converted_payload(file).len() == 64
            &&& forall|i: int|
                file.len() - 128 <= i < 64 ==> #[trigger] converted_payload(file)[i] == 0xEE
        },
        192 <= file.len() <= 33554560 ==> {
            &&& file.len() - 128 <= converted_payload(file).len() < file.len() - 64
            &&& forall|i: int|
                file.len() - 128 <= i < converted_payload(file).len()
                    ==> #[trigger] converted_payload(file)[i] == 0
        },
        file.len() > 33554560 ==> converted_payload(file).len() == 33554432,
        converted_payload(file).len() % 64 == 0,
{
    let raw = raw_payload(file);
    let all = converted_payload(file);
    if file.len() <= 128 {
        assert(raw.len() == 4096);
        assert(align64(4096) == 4096);
        assert(all =~= Seq::new(4096, |i: int| 0xEEu8));
    } else if file.len() < 192 {
        assert(raw.len() == 64);
        assert(align64(64) == 64);
        assert forall|i: int| file.len() - 128 <= i < 64 implies #[trigger] all[i] == 0xEE by {
            assert(all[i] == raw[i]);
        }
    } else if file.len() <= 33554560 {
        assert(raw.len() == file.len() - 128);
    } else {
        assert(raw.len() == 33554432);
        assert(align64(33554432) == 33554432);
    }
}

// ---------------------------------------------------------------------------
// Layout
// ---------------------------------------------------------------------------

/// How a container is laid out, byte for byte: the magic bytes `Q4NX`, version one, the name of
/// the architecture from byte 8 on with zeros behind it, six hyperparameters from byte 40 on, the
/// place and size of the XCLBIN at 64 and 72, no tensor table, and the place and size of the
/// payload at 96 and 104. The XCLBIN begins at byte 256; the payload at the next multiple of 64.
pub proof fn law_container_is_laid_out(
    name: Seq<u8>,
    hp: ModelHyperparameters,
    xclbin: Seq<u8>,
    payload: Seq<u8>,
    start: int,
)
    requires
        fits_a_file(xclbin, payload),
        256 + xclbin.len() <= start < 256 + xclbin.len() + 64,
        start % 64 == 0,
    ensures
        ({
            let image = container_image(name, hp, xclbin, payload);
            &&& image.len() == start + payload.len()
            &&& image[0] == 0x51 && image[1] == 0x34 && image[2] == 0x4E && image[3] == 0x58
            &&& le_at(image, 4, 4) == 1
            &&& forall|i: int|
                0 <= i < 32 ==> #[trigger] image[8 + i] == if i < 31 && i < name.len() {
                    name[i]
                } else {
                    0
                }
            &&& le_at(image, 40, 4) == hp.hidden_dim
            &&& le_at(image, 44, 4) == hp.num_heads
            &&& le_at(image, 48, 4) == hp.num_kv_heads
            &&& le_at(image, 52, 4) == hp.num_layers
            &&& le_at(image, 56, 4) == hp.vocab_size
            &&& le_at(image, 60, 4) == hp.context_length
            &&& le_at(image, 64, 8) == 256
            &&& le_at(image, 72, 8) == xclbin.len()
            &&& le_at(image, 80, 8) == 0
            &&& le_at(image, 88, 8) == 0
            &&& le_at(image, 96, 8) == start
            &&& le_at(image, 104, 8) == payload.len()
            &&& image.subrange(256, (256 + xclbin.len()) as int) == xclbin
            &&& image.skip(start) == payload
        }),
{
    lemma_container_fields(name, hp, xclbin, payload);
    lemma_next_multiple(xclbin.len(), start);
    lemma_identity_bytes(container_image(name, hp, xclbin, payload), name);
}

proof fn lemma_next_multiple(n: nat, start: int)
    requires
        256 + n <= start < 256 + n + 64,
        start % 64 == 0,
    ensures
        start == payload_start(n),
{
}

proof fn lemma_identity_bytes(image: Seq<u8>, name: Seq<u8>)
    requires
        image.len() >= 40,
        image.take(4) == q4nx_magic(),
        image.subrange(8, 40) == name_field(name),
    ensures
        image[0] == 0x51 && image[1] == 0x34 && image[2] == 0x4E && image[3] == 0x58,
        forall|i: int|
            0 <= i < 32 ==> #[trigger] image[8 + i] == if i < 31 && i < name.len() {
                name[i]
            } else {
                0
            },
{
    let t = image.take(4);
    assert(t[0] == image[0] && t[1] == image[1] && t[2] == image[2] && t[3] == image[3]);
    let field = image.subrange(8, 40);
    assert forall|i: int| 0 <= i < 32 implies #[trigger] image[8 + i] == if i < 31 && i
        < name.len() {
        name[i]
    } else {
        0
    } by {
        assert(field[i] == image[8 + i]);
    }
}

/// Numbers stand in files with the low byte first.
pub proof fn law_low_bytes_come_first(b: Seq<u8>, at: int)
    requires
        0 <= at,
        at + 8 <= b.len(),
    ensures
        le_at(b, at, 2) == b[at] + 0x100 * b[at + 1],
        le_at(b, at, 4) == b[at] + 0x100 * b[at + 1] + 0x1_0000 * b[at + 2] + 0x100_0000 * b[at
            + 3],
        le_at(b, at, 8) == b[at] + 0x100 * b[at + 1] + 0x1_0000 * b[at + 2] + 0x100_0000 * b[at
            + 3] + 0x1_0000_0000 * (b[at + 4] + 0x100 * b[at + 5] + 0x1_0000 * b[at + 6]
            + 0x100_0000 * b[at + 7]),
{
    lemma_le_two(b, at);
    lemma_le_two(b, at + 2);
    lemma_le_two(b, at + 4);
    lemma_le_two(b, at + 6);
    lemma_le_four(b, at);
    lemma_le_four(b, at + 4);
    lemma_le_eight(b, at);
}

/// A converted model keeps its structure and its weights: the container's hyperparameters are
/// those of the model, its XCLBIN is the given one, and its payload is the model's bytes.
pub proof fn law_converted_model_keeps_its_structure(
    f: Seq<char>,
    file: Seq<u8>,
    xclbin: Seq<u8>,
    t: Topology,
)
    requires
        fits_a_file(xclbin, converted_payload(file)),
        t == topology_of(scan_of(file), f),
    ensures
        ({
            let image = converted_image(f, file, xclbin);
            &&& le_at(image, 40, 4) == t.hidden_dim
            &&& le_at(image, 44, 4) == t.num_heads
            &&& le_at(image, 48, 4) == t.num_kv_heads
            &&& le_at(image, 52, 4) == t.num_layers
            &&& le_at(image, 56, 4) == t.vocab_size
            &&& le_at(image, 60, 4) == t.context_length
            &&& image.subrange(256, (256 + xclbin.len()) as int) == xclbin
            &&& forall|i: int|
                0 <= i < 31 && i < encode_utf8(t.arch_name).len() ==> #[trigger] image[8 + i]
                    == encode_utf8(t.arch_name)[i]
            &&& forall|i: int|
                0 <= i < file.len() - 128 && i < 33554432 ==> #[trigger] image[le_at(image, 96, 8)
                    + i] == file[128 + i]
        }),
{
    let name = encode_utf8(t.arch_name);
    let payload = converted_payload(file);
    let image = converted_image(f, file, xclbin);
    let start = payload_start(xclbin.len());
    assert(image == container_image(name, topology_hyperparams(t), xclbin, payload));
    law_container_is_laid_out(name, topology_hyperparams(t), xclbin, payload, start);
    assert forall|i: int| 0 <= i < file.len() - 128 && i < 33554432 implies #[trigger] image[le_at(
        image,
        96,
        8,
    ) + i] == file[128 + i] by {
        law_payload_is_the_file(file, i);
        assert(image.skip(start)[i] == image[start + i]);
    }
}

// ---------------------------------------------------------------------------
// Quantization names
// ---------------------------------------------------------------------------

/// The quantization formats that are taken, and no others: those of four to six bits, of eight,
/// the unquantized ones, and the sign formats.
pub proof fn law_quantization_names(u: Seq<char>)
    ensures
        supported_quant(u) <==> {
            ||| u == "Q4_0"@ || u == "Q4_1"@ || u == "Q4_K_S"@ || u == "Q4_K_M"@
            ||| u == "IQ4_NL"@ || u == "IQ4_XS"@
            ||| u == "Q5_0"@ || u == "Q5_1"@ || u == "Q5_K_S"@ || u == "Q5_K_M"@
            ||| u == "Q6_K"@ || u == "Q8_0"@
            ||| u == "F16"@ || u == "BF16"@ || u == "F32"@
            ||| u == "BILLM"@ || u == "Q1_BILLM"@ || u == "Q1_0_G128"@ || u == "Q1_0"@
        },
{
}

} // verus!
