//! What holds of containers as a whole: reading gives back what was written.

use vstd::prelude::*;
use vstd::utf8::*;

use crate::bytes::{le_at, le_bytes, lemma_le_bytes_len, lemma_le_round_trip, lemma_pow256, zeros};
use crate::container::converter::{
    converted_image, converted_payload, has_xclbin, loads_container, restamped,
    topology_hyperparams, LoadOutcome,
};
use crate::container::topology::{scan_of, topology_of};
use crate::container::{
    at_most, container_image, container_prefix, hyperparam_fields, identity_fields, layout_fields,
    name_bytes, name_field, open_fault, payload_start, q4nx_magic, rest_from,
    stamped_header, stored_bytes, stored_hyperparams, FileContext, ModelHyperparameters, Q4nxModel, HEADER_FIXED_SIZE,
    PAYLOAD_SAMPLE_LIMIT, Q4NX_CURRENT_VERSION,
};
use crate::text::decoded;

verus! {

proof fn lemma_field(file: Seq<u8>, at: int, n: nat, k: nat)
    requires
        0 <= at,
        at + k <= file.len(),
        n < crate::bytes::pow256(k),
        file.subrange(at, at + k) == le_bytes(n, k),
    ensures
        le_at(file, at, k as int) == n,
{
    lemma_le_round_trip(n, k);
}

proof fn lemma_identity(name: Seq<u8>)
    ensures
        identity_fields(name).len() == 40,
        identity_fields(name).take(4) == q4nx_magic(),
        identity_fields(name).subrange(4, 8) == le_bytes(Q4NX_CURRENT_VERSION as nat, 4),
        identity_fields(name).subrange(8, 40) == name_field(name),
{
    lemma_le_bytes_len(Q4NX_CURRENT_VERSION as nat, 4);
    let f = identity_fields(name);
    assert(f.take(4) =~= q4nx_magic());
    assert(f.subrange(4, 8) =~= le_bytes(Q4NX_CURRENT_VERSION as nat, 4));
    assert(f.subrange(8, 40) =~= name_field(name));
}

proof fn lemma_hyperparams(hp: ModelHyperparameters)
    ensures
        hyperparam_fields(hp).len() == 24,
        hyperparam_fields(hp).subrange(0, 4) == le_bytes(hp.hidden_dim as nat, 4),
        hyperparam_fields(hp).subrange(4, 8) == le_bytes(hp.num_heads as nat, 4),
        hyperparam_fields(hp).subrange(8, 12) == le_bytes(hp.num_kv_heads as nat, 4),
        hyperparam_fields(hp).subrange(12, 16) == le_bytes(hp.num_layers as nat, 4),
        hyperparam_fields(hp).subrange(16, 20) == le_bytes(hp.vocab_size as nat, 4),
        hyperparam_fields(hp).subrange(20, 24) == le_bytes(hp.context_length as nat, 4),
{
    lemma_le_bytes_len(hp.hidden_dim as nat, 4);
    lemma_le_bytes_len(hp.num_heads as nat, 4);
    lemma_le_bytes_len(hp.num_kv_heads as nat, 4);
    lemma_le_bytes_len(hp.num_layers as nat, 4);
    lemma_le_bytes_len(hp.vocab_size as nat, 4);
    lemma_le_bytes_len(hp.context_length as nat, 4);
    let f = hyperparam_fields(hp);
    assert(f.subrange(0, 4) =~= le_bytes(hp.hidden_dim as nat, 4));
    assert(f.subrange(4, 8) =~= le_bytes(hp.num_heads as nat, 4));
    assert(f.subrange(8, 12) =~= le_bytes(hp.num_kv_heads as nat, 4));
    assert(f.subrange(12, 16) =~= le_bytes(hp.num_layers as nat, 4));
    assert(f.subrange(16, 20) =~= le_bytes(hp.vocab_size as nat, 4));
    assert(f.subrange(20, 24) =~= le_bytes(hp.context_length as nat, 4));
}

proof fn lemma_layout(xclbin_size: nat, payload_size: nat)
    ensures
        layout_fields(xclbin_size, payload_size).len() == 48,
        layout_fields(xclbin_size, payload_size).subrange(0, 8) == le_bytes(
            HEADER_FIXED_SIZE as nat,
            8,
        ),
        layout_fields(xclbin_size, payload_size).subrange(8, 16) == le_bytes(xclbin_size, 8),
        layout_fields(xclbin_size, payload_size).subrange(16, 24) == le_bytes(0, 8),
        layout_fields(xclbin_size, payload_size).subrange(24, 32) == le_bytes(0, 8),
        layout_fields(xclbin_size, payload_size).subrange(32, 40) == le_bytes(
            payload_start(xclbin_size) as nat,
            8,
        ),
        layout_fields(xclbin_size, payload_size).subrange(40, 48) == le_bytes(payload_size, 8),
{
    lemma_le_bytes_len(HEADER_FIXED_SIZE as nat, 8);
    lemma_le_bytes_len(xclbin_size, 8);
    lemma_le_bytes_len(0, 8);
    lemma_le_bytes_len(payload_start(xclbin_size) as nat, 8);
    lemma_le_bytes_len(payload_size, 8);
    let f = layout_fields(xclbin_size, payload_size);
    assert(f.subrange(0, 8) =~= le_bytes(HEADER_FIXED_SIZE as nat, 8));
    assert(f.subrange(8, 16) =~= le_bytes(xclbin_size, 8));
    assert(f.subrange(16, 24) =~= le_bytes(0, 8));
    assert(f.subrange(24, 32) =~= le_bytes(0, 8));
    assert(f.subrange(32, 40) =~= le_bytes(payload_start(xclbin_size) as nat, 8));
    assert(f.subrange(40, 48) =~= le_bytes(payload_size, 8));
}

/// The fields of a file that begins with the front of a container.
pub proof fn lemma_prefix_fields(
    name: Seq<u8>,
    hp: ModelHyperparameters,
    xclbin: Seq<u8>,
    payload_size: nat,
    tail: Seq<u8>,
)
    requires
        payload_start(xclbin.len()) <= u64::MAX,
        payload_size <= u64::MAX,
    ensures
        ({
            let file = container_prefix(name, hp, xclbin, payload_size) + tail;
            let start = payload_start(xclbin.len());
            &&& container_prefix(name, hp, xclbin, payload_size).len() == start
            &&& start % 64 == 0
            &&& HEADER_FIXED_SIZE + xclbin.len() <= start
            &&& file.len() == start + tail.len()
            &&& file.take(4) == q4nx_magic()
            &&& le_at(file, 4, 4) == Q4NX_CURRENT_VERSION
            &&& file.subrange(8, 40) == name_field(name)
            &&& stored_hyperparams(file) == hp
            &&& le_at(file, 64, 8) == HEADER_FIXED_SIZE
            &&& le_at(file, 72, 8) == xclbin.len()
            &&& le_at(file, 80, 8) == 0
            &&& le_at(file, 88, 8) == 0
            &&& le_at(file, 96, 8) == start
            &&& le_at(file, 104, 8) == payload_size
            &&& file.subrange(256, (256 + xclbin.len()) as int) == xclbin
            &&& file.skip(start) == tail
        }),
{
    let file = container_prefix(name, hp, xclbin, payload_size) + tail;
    let start = payload_start(xclbin.len());
    let id = identity_fields(name);
    let hf = hyperparam_fields(hp);
    let lf = layout_fields(xclbin.len(), payload_size);
    lemma_identity(name);
    lemma_hyperparams(hp);
    lemma_layout(xclbin.len(), payload_size);
    lemma_pow256();
    lemma_parts(
        id,
        hf,
        lf,
        zeros(144),
        xclbin,
        zeros((start - HEADER_FIXED_SIZE - xclbin.len()) as nat),
        tail,
    );
    assert(file.take(4) =~= id.take(4)) by {
        lemma_within(file, id, 0, 0, 4);
        assert(file.take(4) =~= file.subrange(0, 4));
        assert(id.take(4) =~= id.subrange(0, 4));
    }
    lemma_within(file, id, 0, 4, 8);
    lemma_within(file, id, 0, 8, 40);
    lemma_field(file, 4, Q4NX_CURRENT_VERSION as nat, 4);
    lemma_within(file, hf, 40, 0, 4);
    lemma_within(file, hf, 40, 4, 8);
    lemma_within(file, hf, 40, 8, 12);
    lemma_within(file, hf, 40, 12, 16);
    lemma_within(file, hf, 40, 16, 20);
    lemma_within(file, hf, 40, 20, 24);
    lemma_field(file, 40, hp.hidden_dim as nat, 4);
    lemma_field(file, 44, hp.num_heads as nat, 4);
    lemma_field(file, 48, hp.num_kv_heads as nat, 4);
    lemma_field(file, 52, hp.num_layers as nat, 4);
    lemma_field(file, 56, hp.vocab_size as nat, 4);
    lemma_field(file, 60, hp.context_length as nat, 4);
    lemma_within(file, lf, 64, 0, 8);
    lemma_within(file, lf, 64, 8, 16);
    lemma_within(file, lf, 64, 16, 24);
    lemma_within(file, lf, 64, 24, 32);
    lemma_within(file, lf, 64, 32, 40);
    lemma_within(file, lf, 64, 40, 48);
    lemma_field(file, 64, HEADER_FIXED_SIZE as nat, 8);
    lemma_field(file, 72, xclbin.len(), 8);
    lemma_field(file, 80, 0, 8);
    lemma_field(file, 88, 0, 8);
    lemma_field(file, 96, start as nat, 8);
    lemma_field(file, 104, payload_size, 8);
}

/// The fields of a whole container.
pub proof fn lemma_container_fields(
    name: Seq<u8>,
    hp: ModelHyperparameters,
    xclbin: Seq<u8>,
    payload: Seq<u8>,
)
    requires
        fits_a_file(xclbin, payload),
    ensures
        ({
            let file = container_image(name, hp, xclbin, payload);
            let start = payload_start(xclbin.len());
            &&& start % 64 == 0
            &&& HEADER_FIXED_SIZE + xclbin.len() <= start < HEADER_FIXED_SIZE + xclbin.len() + 64
            &&& file.len() == start + payload.len()
            &&& file.take(4) == q4nx_magic()
            &&& le_at(file, 4, 4) == Q4NX_CURRENT_VERSION
            &&& file.subrange(8, 40) == name_field(name)
            &&& stored_hyperparams(file) == hp
            &&& le_at(file, 40, 4) == hp.hidden_dim
            &&& le_at(file, 44, 4) == hp.num_heads
            &&& le_at(file, 48, 4) == hp.num_kv_heads
            &&& le_at(file, 52, 4) == hp.num_layers
            &&& le_at(file, 56, 4) == hp.vocab_size
            &&& le_at(file, 60, 4) == hp.context_length
            &&& le_at(file, 64, 8) == HEADER_FIXED_SIZE
            &&& le_at(file, 72, 8) == xclbin.len()
            &&& le_at(file, 80, 8) == 0
            &&& le_at(file, 88, 8) == 0
            &&& le_at(file, 96, 8) == start
            &&& le_at(file, 104, 8) == payload.len()
            &&& file.subrange(256, (256 + xclbin.len()) as int) == xclbin
            &&& file.skip(start) == payload
        }),
{
    lemma_prefix_fields(name, hp, xclbin, payload.len(), payload);
    let file = container_image(name, hp, xclbin, payload);
    crate::bytes::lemma_le_four(file, 40);
    crate::bytes::lemma_le_four(file, 44);
    crate::bytes::lemma_le_four(file, 48);
    crate::bytes::lemma_le_four(file, 52);
    crate::bytes::lemma_le_four(file, 56);
    crate::bytes::lemma_le_four(file, 60);
}

/// Where the parts of a sequence of parts lie.
proof fn lemma_parts(
    a: Seq<u8>,
    b: Seq<u8>,
    c: Seq<u8>,
    d: Seq<u8>,
    e: Seq<u8>,
    f: Seq<u8>,
    g: Seq<u8>,
)
    requires
        a.len() == 40,
        b.len() == 24,
        c.len() == 48,
        d.len() == 144,
    ensures
        ({
            let s = ((a + b + c + d) + e + f) + g;
            &&& s.len() == 256 + e.len() + f.len() + g.len()
            &&& s.subrange(0, 40) == a
            &&& s.subrange(40, 64) == b
            &&& s.subrange(64, 112) == c
            &&& s.subrange(256, (256 + e.len()) as int) == e
            &&& s.skip((256 + e.len() + f.len()) as int) == g
        }),
{
    let s = ((a + b + c + d) + e + f) + g;
    assert(s.subrange(0, 40) =~= a);
    assert(s.subrange(40, 64) =~= b);
    assert(s.subrange(64, 112) =~= c);
    assert(s.subrange(256, (256 + e.len()) as int) =~= e);
    assert(s.skip((256 + e.len() + f.len()) as int) =~= g);
}

/// A range of a part that stands in `file` at `at`.
proof fn lemma_within(file: Seq<u8>, part: Seq<u8>, at: int, i: int, j: int)
    requires
        0 <= at,
        at + part.len() <= file.len(),
        file.subrange(at, at + part.len()) == part,
        0 <= i <= j <= part.len(),
    ensures
        file.subrange(at + i, at + j) == part.subrange(i, j),
{
    assert(file.subrange(at + i, at + j) =~= file.subrange(at, at + part.len()).subrange(i, j));
}

proof fn lemma_name_read_back(name: Seq<u8>, pad: nat)
    requires
        pad > 0,
        forall|i: int| 0 <= i < name.len() ==> name[i] != 0,
    ensures
        name_bytes(name + zeros(pad)) == name,
    decreases name.len(),
{
    let f = name + zeros(pad);
    if name.len() > 0 {
        lemma_name_read_back(name.skip(1), pad);
        assert(f.skip(1) =~= name.skip(1) + zeros(pad));
        assert(f[0] == name[0]);
        assert(seq![name[0]] + name.skip(1) =~= name);
    } else {
        assert(f[0] == 0);
        assert(name =~= Seq::empty());
    }
}

/// Every container that is created begins with the magic bytes.
pub proof fn lemma_container_magic(
    name: Seq<u8>,
    hp: ModelHyperparameters,
    xclbin: Seq<u8>,
    payload: Seq<u8>,
)
    ensures
        container_image(name, hp, xclbin, payload).take(4) == q4nx_magic(),
{
    lemma_identity(name);
    lemma_hyperparams(hp);
    lemma_layout(xclbin.len(), payload.len());
    lemma_parts(
        identity_fields(name),
        hyperparam_fields(hp),
        layout_fields(xclbin.len(), payload.len()),
        zeros(144),
        xclbin,
        zeros((payload_start(xclbin.len()) - HEADER_FIXED_SIZE - xclbin.len()) as nat),
        payload,
    );
    let file = container_image(name, hp, xclbin, payload);
    lemma_within(file, identity_fields(name), 0, 0, 4);
    assert(file.take(4) =~= file.subrange(0, 4));
    assert(identity_fields(name).take(4) =~= identity_fields(name).subrange(0, 4));
}

/// The sizes of a container are ones that a file can have.
pub open spec fn fits_a_file(xclbin: Seq<u8>, payload: Seq<u8>) -> bool {
    payload_start(xclbin.len()) + payload.len() <= i64::MAX
}

/// A container that was created opens without an error, and its payload is 64-byte aligned.
pub proof fn law_created_container_opens(
    name: Seq<u8>,
    hp: ModelHyperparameters,
    xclbin: Seq<u8>,
    payload: Seq<u8>,
)
    requires
        fits_a_file(xclbin, payload),
    ensures
        open_fault(container_image(name, hp, xclbin, payload)) is None,
        container_image(name, hp, xclbin, payload).take(4) == q4nx_magic(),
        le_at(container_image(name, hp, xclbin, payload), 72, 8) == xclbin.len(),
        le_at(container_image(name, hp, xclbin, payload), 96, 8) % 64 == 0,
{
    lemma_prefix_fields(name, hp, xclbin, payload.len(), payload);
}

/// Opening a container that was created gives back the hyperparameters, the XCLBIN, the
/// payload's size and as much of the payload as opening keeps; the whole payload stands in the
/// file where the header says. The architecture name comes back too where its UTF-8 form has
/// at most 31 bytes and none of them is zero.
pub proof fn law_created_container_reads_back(
    path: Seq<char>,
    arch: Seq<char>,
    hp: ModelHyperparameters,
    xclbin: Seq<u8>,
    payload: Seq<u8>,
    m: Q4nxModel,
)
    requires
        fits_a_file(xclbin, payload),
        m.holds_container(path, container_image(encode_utf8(arch), hp, xclbin, payload)),
    ensures
        m.header.version == Q4NX_CURRENT_VERSION,
        m.header.hyperparams == hp,
        m.header.xclbin_size == xclbin.len(),
        m.xclbin() == xclbin,
        m.header.payload_offset % 64 == 0,
        m.header.payload_size == payload.len(),
        m.payload() == payload.take(at_most(payload.len(), PAYLOAD_SAMPLE_LIMIT as nat) as int),
        rest_from(
            container_image(encode_utf8(arch), hp, xclbin, payload),
            m.header.payload_offset as nat,
        ) == payload,
        encode_utf8(arch).len() <= 31 && !encode_utf8(arch).contains(0) ==> m.header.arch_name@
            == arch,
{
    let name = encode_utf8(arch);
    lemma_prefix_fields(name, hp, xclbin, payload.len(), payload);
    let file = container_image(name, hp, xclbin, payload);
    let start = payload_start(xclbin.len());
    let n = at_most(payload.len(), PAYLOAD_SAMPLE_LIMIT as nat);
    assert(m.payload() =~= payload.take(n as int)) by {
        if n > 0 {
            assert(file.subrange(start, start + n) =~= file.skip(start).take(n as int));
        }
    }
    assert(m.xclbin() =~= xclbin);
    if name.len() <= 31 && !name.contains(0) {
        lemma_arch_reads_back(arch, m.header.arch_name@);
    }
}

/// A short architecture name without zeros is read back from its field.
proof fn lemma_arch_reads_back(arch: Seq<char>, read: Seq<char>)
    requires
        encode_utf8(arch).len() <= 31,
        !encode_utf8(arch).contains(0),
        read == decoded(name_bytes(name_field(encode_utf8(arch)))),
    ensures
        read == arch,
{
    lemma_arch_is_kept(arch);
}

/// Stamping a container keeps its payload and hyperparameters and gives it the new XCLBIN:
/// the stamped file opens, and opens to the same payload as the file it was made from. Its
/// architecture name is kept too where it has at most 31 bytes and none of them is zero.
pub proof fn law_stamped_container_reads_back(
    path: Seq<char>,
    source: Seq<u8>,
    m: Q4nxModel,
    new_xclbin: Seq<u8>,
    new_path: Seq<char>,
    stamped: Q4nxModel,
)
    requires
        open_fault(source) is None,
        m.holds_container(path, source),
        m.header.payload_offset + m.header.payload_size <= source.len(),
        payload_start(new_xclbin.len()) + source.len() <= i64::MAX,
    ensures
        ({
            let image = container_prefix(
                encode_utf8(m.header.arch_name@),
                m.header.hyperparams,
                new_xclbin,
                m.header.payload_size as nat,
            ) + rest_from(source, m.header.payload_offset as nat);
            &&& open_fault(image) is None
            &&& image.take(4) == q4nx_magic()
            &&& stamped.holds_container(new_path, image) ==> {
                &&& stamped.header.hyperparams == m.header.hyperparams
                &&& stamped.header.payload_size == m.header.payload_size
                &&& stamped.header.payload_offset % 64 == 0
                &&& stamped.header.xclbin_size == new_xclbin.len()
                &&& stamped.xclbin() == new_xclbin
                &&& stamped.payload() == m.payload()
                &&& encode_utf8(m.header.arch_name@).len() <= 31 && !encode_utf8(
                    m.header.arch_name@,
                ).contains(0) ==> stamped.header.arch_name@ == m.header.arch_name@
                &&& rest_from(image, stamped.header.payload_offset as nat) == rest_from(
                    source,
                    m.header.payload_offset as nat,
                )
            }
        }),
{
    let name = encode_utf8(m.header.arch_name@);
    let tail = rest_from(source, m.header.payload_offset as nat);
    let size = m.header.payload_size as nat;
    lemma_prefix_fields(name, m.header.hyperparams, new_xclbin, size, tail);
    let image = container_prefix(name, m.header.hyperparams, new_xclbin, size) + tail;
    let start = payload_start(new_xclbin.len());
    let n = at_most(size, PAYLOAD_SAMPLE_LIMIT as nat);
    let from = m.header.payload_offset as int;
    if stamped.holds_container(new_path, image) {
        assert(stamped.payload() =~= m.payload()) by {
            if n > 0 {
                assert(image.subrange(start, start + n) =~= tail.take(n as int));
                assert(source.subrange(from, from + n) =~= tail.take(n as int));
            }
        }
        assert(stamped.xclbin() =~= new_xclbin);
        if name.len() <= 31 && !name.contains(0) {
            lemma_arch_reads_back(m.header.arch_name@, stamped.header.arch_name@);
        }
    }
}

/// A stamped model describes the stamped file: what it holds is what opening that file gives. So
/// whatever holds of a model that was opened holds again after each stamp.
pub proof fn law_stamped_model_describes_its_file(
    path: Seq<char>,
    source: Seq<u8>,
    before: Q4nxModel,
    xclbin: Seq<u8>,
    new_path: Seq<char>,
    stamped: Q4nxModel,
)
    requires
        before.holds_container(path, source),
        before.header.payload_offset + before.header.payload_size <= source.len(),
        payload_start(xclbin.len()) + source.len() <= i64::MAX,
        encode_utf8(before.header.arch_name@).len() <= 31,
        !encode_utf8(before.header.arch_name@).contains(0),
        stamped.header == stamped_header(before.header, xclbin.len()),
        stamped.xclbin() == xclbin,
        stamped.payload() == before.payload(),
        stamped.path() == new_path,
    ensures
        ({
            let image = restamped(before, source, xclbin);
            &&& open_fault(image) is None
            &&& stamped.holds_container(new_path, image)
            &&& stamped.header.payload_offset + stamped.header.payload_size <= image.len()
        }),
{
    let name = encode_utf8(before.header.arch_name@);
    let tail = rest_from(source, before.header.payload_offset as nat);
    let size = before.header.payload_size as nat;
    let image = restamped(before, source, xclbin);
    let start = payload_start(xclbin.len());
    let n = at_most(size, PAYLOAD_SAMPLE_LIMIT as nat);
    lemma_prefix_fields(name, before.header.hyperparams, xclbin, size, tail);
    lemma_same_sample(source, before.header.payload_offset as nat, image, start as nat, n);
    assert(stamped.xclbin() =~= stored_bytes(image, HEADER_FIXED_SIZE as nat, xclbin.len()));
    assert(before.header.arch_name@ == decoded(name_bytes(image.subrange(8, 40)))) by {
        lemma_arch_is_kept(before.header.arch_name@);
    }
}

/// Two files that are alike from a position on hold the same bytes there.
proof fn lemma_same_sample(a: Seq<u8>, i: nat, b: Seq<u8>, j: nat, n: nat)
    requires
        i + n <= a.len(),
        j + n <= b.len(),
        a.skip(i as int) == b.skip(j as int),
    ensures
        stored_bytes(a, i, n) == stored_bytes(b, j, n),
{
    assert(a.subrange(i as int, (i + n) as int) =~= a.skip(i as int).take(n as int));
    assert(b.subrange(j as int, (j + n) as int) =~= b.skip(j as int).take(n as int));
}

/// A short architecture name without zeros reads as itself from its field.
proof fn lemma_arch_is_kept(arch: Seq<char>)
    requires
        encode_utf8(arch).len() <= 31,
        !encode_utf8(arch).contains(0),
    ensures
        name_bytes(name_field(encode_utf8(arch))) == encode_utf8(arch),
        valid_utf8(encode_utf8(arch)),
        decode_utf8(encode_utf8(arch)) == arch,
{
    let name = encode_utf8(arch);
    assert forall|i: int| 0 <= i < name.len() implies name[i] != 0 by {
        assert(name.contains(name[i]));
    }
    lemma_name_read_back(name, (32 - name.len()) as nat);
    encode_utf8_valid_utf8(arch);
    encode_utf8_decode_utf8(arch);
}

/// Only the last stamp counts: a container that was stamped and then stamped again is, byte for
/// byte, the one that the second stamp alone would have made.
pub proof fn law_last_stamp_counts(
    source: Seq<u8>,
    before: Q4nxModel,
    first: Seq<u8>,
    stamped: Q4nxModel,
    second: Seq<u8>,
)
    requires
        payload_start(first.len()) <= u64::MAX,
        stamped.header == stamped_header(before.header, first.len()),
    ensures
        restamped(stamped, restamped(before, source, first), second) == restamped(
            before,
            source,
            second,
        ),
{
    lemma_prefix_fields(
        encode_utf8(before.header.arch_name@),
        before.header.hyperparams,
        first,
        before.header.payload_size as nat,
        rest_from(source, before.header.payload_offset as nat),
    );
}

/// Replacing the XCLBIN keeps the payload: a container that was created, stamped and stamped again
/// opens to the second XCLBIN and to the payload and hyperparameters that it was created with.
pub proof fn law_replacing_the_xclbin_keeps_the_payload(
    path: Seq<char>,
    arch: Seq<char>,
    hp: ModelHyperparameters,
    xclbin: Seq<u8>,
    payload: Seq<u8>,
    created: Q4nxModel,
    first: Seq<u8>,
    stamped: Q4nxModel,
    second: Seq<u8>,
    opened: Q4nxModel,
)
    requires
        fits_a_file(xclbin, payload),
        fits_a_file(first, payload),
        fits_a_file(second, payload),
        created.holds_container(path, container_image(encode_utf8(arch), hp, xclbin, payload)),
        stamped.header == stamped_header(created.header, first.len()),
    ensures
        ({
            let source = container_image(encode_utf8(arch), hp, xclbin, payload);
            let image = restamped(stamped, restamped(created, source, first), second);
            &&& open_fault(image) is None
            &&& opened.holds_container(path, image) ==> {
                &&& opened.xclbin() == second
                &&& opened.header.xclbin_size == second.len()
                &&& opened.header.hyperparams == hp
                &&& opened.header.payload_size == payload.len()
                &&& opened.payload() == payload.take(
                    at_most(payload.len(), PAYLOAD_SAMPLE_LIMIT as nat) as int,
                )
                &&& rest_from(image, opened.header.payload_offset as nat) == payload
            }
        }),
{
    let source = container_image(encode_utf8(arch), hp, xclbin, payload);
    let image = restamped(stamped, restamped(created, source, first), second);
    law_last_stamp_counts(source, created, first, stamped, second);
    law_created_container_reads_back(path, arch, hp, xclbin, payload, created);
    assert(image == container_image(encode_utf8(created.header.arch_name@), hp, second, payload));
    law_created_container_opens(encode_utf8(created.header.arch_name@), hp, second, payload);
    if opened.holds_container(path, image) {
        law_created_container_reads_back(
            path,
            created.header.arch_name@,
            hp,
            second,
            payload,
            opened,
        );
    }
}

/// A converted model is complete: its container opens, has the XCLBIN that it was converted
/// with, and is loaded from its converted copy from then on without asking for another one.
/// Its payload is a multiple of 64 bytes and starts at a multiple of 64.
#[verifier::spinoff_prover]
#[verifier::rlimit(40)]
pub proof fn law_converted_model_is_loaded_from_its_copy(
    f: Seq<char>,
    file: Seq<u8>,
    xclbin: Seq<u8>,
    ctx: FileContext,
    outcome: LoadOutcome,
)
    requires
        xclbin.len() > 0,
        fits_a_file(xclbin, converted_payload(file)),
    ensures
        open_fault(converted_image(f, file, xclbin)) is None,
        has_xclbin(ctx, converted_image(f, file, xclbin)),
        loads_container(outcome, ctx, converted_image(f, file, xclbin), None)
            ==> outcome is Ready && outcome->Ready_0.xclbin() == xclbin,
        converted_payload(file).len() % 64 == 0,
        le_at(converted_image(f, file, xclbin), 96, 8) % 64 == 0,
{
    lemma_created_loads(
        topology_of(scan_of(file), f).arch_name,
        topology_hyperparams(topology_of(scan_of(file), f)),
        xclbin,
        converted_payload(file),
        ctx,
        outcome,
    );
    lemma_converted_payload_is_aligned(file);
}

proof fn lemma_converted_payload_is_aligned(file: Seq<u8>)
    ensures
        converted_payload(file).len() % 64 == 0,
{
}

proof fn lemma_created_loads(
    arch: Seq<char>,
    hp: ModelHyperparameters,
    xclbin: Seq<u8>,
    payload: Seq<u8>,
    ctx: FileContext,
    outcome: LoadOutcome,
)
    requires
        xclbin.len() > 0,
        fits_a_file(xclbin, payload),
    ensures
        ({
            let image = container_image(encode_utf8(arch), hp, xclbin, payload);
            &&& open_fault(image) is None
            &&& has_xclbin(ctx, image)
            &&& le_at(image, 96, 8) % 64 == 0
            &&& loads_container(outcome, ctx, image, None) ==> outcome is Ready
                && outcome->Ready_0.xclbin() == xclbin
        }),
{
    let image = container_image(encode_utf8(arch), hp, xclbin, payload);
    law_created_container_opens(encode_utf8(arch), hp, xclbin, payload);
    if loads_container(outcome, ctx, image, None) {
        law_created_container_reads_back(ctx.path@, arch, hp, xclbin, payload, outcome->Ready_0);
    }
}

} // verus!
