//! What holds of hardware targets and XCLBINs as a whole.

use vstd::prelude::*;
use vstd::string::*;

use crate::container::hardware::{
    format_of, target_columns, target_name, target_of, TargetHardware, XclbinFormat,
};
use crate::container::topology::Topology;
use crate::container::xclbin_builder::{
    extended_data_text, mem_topology_text, metadata_text, partition_text, router_plan, sram_size,
    stand_in, RouterSramPlan, MEM_TOPOLOGY_HEAD, MEM_TOPOLOGY_TAIL, METADATA_HEAD, METADATA_TAIL,
    PARTITION_COLUMNS, PARTITION_HEAD, PARTITION_PDI,
};
use crate::synth_cli::asked_format;
use crate::text::{decimal, has_text, occurs_at};

verus! {

/// The names of the older target.
pub open spec fn first_names() -> Seq<Seq<char>> {
    seq!["npu1"@, "aie2"@, "phoenix"@, "hawkpoint"@, "7040"@, "8040"@]
}

/// The names of the newer target.
pub open spec fn second_names() -> Seq<Seq<char>> {
    seq!["npu2"@, "aie2p"@, "strix"@, "gorgon"@, "krackan"@, "strixhalo"@, "300"@, "395"@]
}

proof fn lemma_first_names(s: Seq<char>)
    ensures
        first_names().contains(s) <==> s == "npu1"@ || s == "aie2"@ || s == "phoenix"@ || s
            == "hawkpoint"@ || s == "7040"@ || s == "8040"@,
{
    let l = first_names();
    assert(l[0] == "npu1"@ && l[1] == "aie2"@ && l[2] == "phoenix"@ && l[3] == "hawkpoint"@ && l[4]
        == "7040"@ && l[5] == "8040"@);
    if l.contains(s) {
        let i = choose|i: int| 0 <= i < l.len() && l[i] == s;
        assert(i == 0 || i == 1 || i == 2 || i == 3 || i == 4 || i == 5);
    }
}

proof fn lemma_second_names(s: Seq<char>)
    ensures
        second_names().contains(s) <==> s == "npu2"@ || s == "aie2p"@ || s == "strix"@ || s
            == "gorgon"@ || s == "krackan"@ || s == "strixhalo"@ || s == "300"@ || s == "395"@,
{
    let l = second_names();
    assert(l[0] == "npu2"@ && l[1] == "aie2p"@ && l[2] == "strix"@ && l[3] == "gorgon"@ && l[4]
        == "krackan"@ && l[5] == "strixhalo"@ && l[6] == "300"@ && l[7] == "395"@);
    if l.contains(s) {
        let i = choose|i: int| 0 <= i < l.len() && l[i] == s;
        assert(i == 0 || i == 1 || i == 2 || i == 3 || i == 4 || i == 5 || i == 6 || i == 7);
    }
}

proof fn lemma_names_differ(s: Seq<char>)
    ensures
        !(first_names().contains(s) && second_names().contains(s)),
{
    lemma_first_names(s);
    lemma_second_names(s);
    reveal_strlit("npu1");
    reveal_strlit("aie2");
    reveal_strlit("phoenix");
    reveal_strlit("hawkpoint");
    reveal_strlit("7040");
    reveal_strlit("8040");
    reveal_strlit("npu2");
    reveal_strlit("aie2p");
    reveal_strlit("strix");
    reveal_strlit("gorgon");
    reveal_strlit("krackan");
    reveal_strlit("strixhalo");
    reveal_strlit("300");
    reveal_strlit("395");
    assert("npu1"@.len() == 4 && "aie2"@.len() == 4 && "7040"@.len() == 4 && "8040"@.len() == 4);
    assert("phoenix"@.len() == 7 && "hawkpoint"@.len() == 9);
    assert("npu2"@.len() == 4 && "aie2p"@.len() == 5 && "strix"@.len() == 5);
    assert("gorgon"@.len() == 6 && "krackan"@.len() == 7 && "strixhalo"@.len() == 9);
    assert("300"@.len() == 3 && "395"@.len() == 3);
    let c = |x: Seq<char>, i: int| x[i];
    if s.len() == 4 {
        assert(c("npu2"@, 0) == 'n' && c("npu2"@, 3) == '2');
        assert(c("npu1"@, 3) == '1');
        assert(c("aie2"@, 0) == 'a');
        assert(c("7040"@, 0) == '7');
        assert(c("8040"@, 0) == '8');
    } else if s.len() == 7 {
        assert(c("phoenix"@, 0) == 'p');
        assert(c("krackan"@, 0) == 'k');
    } else if s.len() == 9 {
        assert(c("hawkpoint"@, 0) == 'h');
        assert(c("strixhalo"@, 0) == 's');
    }
}

/// Every name stands for one target, and no other text stands for any.
pub proof fn law_names_stand_for_targets(s: Seq<char>)
    ensures
        target_of(s) == Some(TargetHardware::Npu1Aie2) <==> first_names().contains(s),
        target_of(s) == Some(TargetHardware::Npu2Aie2p) <==> second_names().contains(s),
        target_of(s) is None <==> !first_names().contains(s) && !second_names().contains(s),
{
    lemma_first_names(s);
    lemma_second_names(s);
    lemma_names_differ(s);
}

/// The tiles of a target stand in four rows: 20 of the older one and 32 of the newer one.
pub proof fn law_columns_hold_the_tiles(t: TargetHardware)
    ensures
        t == TargetHardware::Npu1Aie2 ==> target_columns(t) * 4 == 20 && target_name(t) == "npu1"@,
        t == TargetHardware::Npu2Aie2p ==> target_columns(t) * 4 == 32 && target_name(t)
            == "npu2"@,
{
}

/// What a format is called: one of three words for the older format, wherever it stands in the
/// text, else one of three for the usual one. The synthesizer takes the older one for its own word
/// alone.
pub proof fn law_words_stand_for_formats(s: Seq<char>)
    ensures
        format_of(s) == Some(XclbinFormat::MimicBuiltin) <==> has_text(s, "mimic"@) || has_text(
            s,
            "builtin"@,
        ) || has_text(s, "legacy"@),
        format_of(s) is None <==> !has_text(s, "mimic"@) && !has_text(s, "builtin"@) && !has_text(
            s,
            "legacy"@,
        ) && !has_text(s, "enhanced"@) && !has_text(s, "default"@) && !has_text(s, "custom"@),
        asked_format(s) == XclbinFormat::MimicBuiltin <==> has_text(s, "mimic"@),
        has_text(s, "mimic"@) ==> format_of(s) == Some(asked_format(s)),
{
}

// ---------------------------------------------------------------------------
// The stand-in
// ---------------------------------------------------------------------------

/// The binary that stands in for a packaged one: what each byte of its header is.
pub proof fn law_stand_in_header(target: TargetHardware, pdi: Seq<u8>, i: int)
    requires
        0 <= i < 64,
    ensures
        stand_in(target, pdi).len() == 64 + pdi.len(),
        i < 8 ==> stand_in(target, pdi)[i] == seq![
            0x78u8,
            0x63,
            0x6C,
            0x62,
            0x69,
            0x6E,
            0x32,
            0x00,
        ][i],
        8 <= i < 12 ==> stand_in(target, pdi)[i] == if i == 8 {
            2u8
        } else {
            0
        },
        i == 12 ==> stand_in(target, pdi)[i] == 'n' as u8,
        i == 13 ==> stand_in(target, pdi)[i] == 'p' as u8,
        i == 14 ==> stand_in(target, pdi)[i] == 'u' as u8,
        i == 15 ==> (stand_in(target, pdi)[i] == 0x31 <==> target == TargetHardware::Npu1Aie2),
        i == 15 ==> (stand_in(target, pdi)[i] == 0x32 <==> target == TargetHardware::Npu2Aie2p),
        16 <= i ==> stand_in(target, pdi)[i] == 0,
        stand_in(target, pdi).skip(64) == pdi,
{
    assert(stand_in(target, pdi).skip(64) =~= pdi);
}

// ---------------------------------------------------------------------------
// Router matrices
// ---------------------------------------------------------------------------

/// A layer's matrix has two bytes for each expert and each number of the layer's width; all
/// layers count where there are experts and pinning is on, and else nothing does. The greatest
/// number of layers that fits under the ceiling is pinned.
pub proof fn law_matrices_are_pinned(enabled: bool, t: Topology, ceiling: usize)
    requires
        t.hidden_dim * t.num_experts * 2 * t.num_layers <= usize::MAX,
    ensures
        ({
            let plan = router_plan(enabled, t, ceiling);
            let per = t.hidden_dim * t.num_experts * 2;
            let on = enabled && t.num_experts > 0;
            &&& plan.total_layers == t.num_layers
            &&& on ==> plan.total_router_bytes == per * t.num_layers
            &&& !on ==> plan.total_router_bytes == 0 && plan.pinned_layer_count == 0
                && plan.pinned_sram_bytes == 0 && !plan.sram_exhaustion_prevented
            &&& on && per > 0 ==> plan.pinned_sram_bytes == plan.pinned_layer_count * per
            &&& on && per > 0 ==> plan.pinned_layer_count * per <= ceiling
            &&& on && per > 0 && plan.pinned_layer_count < t.num_layers
                ==> plan.pinned_layer_count * per + per > ceiling
            &&& on ==> (plan.sram_exhaustion_prevented <==> per * t.num_layers > ceiling)
        }),
{
    let per = t.hidden_dim * t.num_experts * 2;
    assert(t.hidden_dim as int * t.num_experts as int * 2 == per);
    crate::container::xclbin_builder::law_router_plan_respects_the_ceiling(enabled, t, ceiling);
    assert(0 <= per * t.num_layers) by (nonlinear_arith)
        requires
            per == t.hidden_dim * t.num_experts * 2,
    ;
    if t.num_layers == 0 {
        assert(per * t.num_layers == 0) by (nonlinear_arith)
            requires
                t.num_layers == 0,
        ;
        let none = router_plan(enabled, t, ceiling).pinned_layer_count;
        assert(none * per == 0) by (nonlinear_arith)
            requires
                none == 0,
        ;
    }
}

// ---------------------------------------------------------------------------
// Section texts
// ---------------------------------------------------------------------------

proof fn lemma_stands_between(before: Seq<char>, x: Seq<char>, after: Seq<char>)
    ensures
        has_text(before + x + after, x),
{
    let all = before + x + after;
    assert(all.subrange(before.len() as int, (before.len() + x.len()) as int) =~= x);
    assert(occurs_at(all, x, before.len() as int));
}

/// The memory bank of a wide model has 64 MB in the usual format, and 48 MB else.
pub proof fn law_bank_sizes(f: XclbinFormat, hidden_dim: u32)
    ensures
        sram_size(f, hidden_dim) == if f == XclbinFormat::Enhanced && hidden_dim > 4095 {
            "0x10000"@
        } else {
            "0xc000"@
        },
        ({
            let s = mem_topology_text(f, hidden_dim);
            let n = sram_size(f, hidden_dim).len();
            let at = MEM_TOPOLOGY_HEAD@.len();
            &&& s.take(at as int) == MEM_TOPOLOGY_HEAD@
            &&& s.subrange(at as int, (at + n) as int) == sram_size(f, hidden_dim)
            &&& s.skip((at + n) as int) == MEM_TOPOLOGY_TAIL@
        }),
{
    let s = mem_topology_text(f, hidden_dim);
    let n = sram_size(f, hidden_dim).len();
    let at = MEM_TOPOLOGY_HEAD@.len();
    assert(s.take(at as int) =~= MEM_TOPOLOGY_HEAD@);
    assert(s.subrange(at as int, (at + n) as int) =~= sram_size(f, hidden_dim));
    assert(s.skip((at + n) as int) =~= MEM_TOPOLOGY_TAIL@);
}

/// An attribute with its value.
pub open spec fn attribute(name: Seq<char>, value: Seq<char>) -> Seq<char> {
    " "@ + name + "=\""@ + value + "\""@
}

proof fn lemma_attribute(
    text: Seq<char>,
    before: Seq<char>,
    open: Seq<char>,
    name: Seq<char>,
    value: Seq<char>,
    after: Seq<char>,
)
    requires
        text == before + open + value + after,
        open == "\""@ + " "@ + name + "=\""@,
        after.len() > 0,
        after[0] == '"',
    ensures
        has_text(text, attribute(name, value)),
{
    reveal_strlit("\"");
    reveal_strlit(" ");
    reveal_strlit("=\"");
    let x = attribute(name, value);
    lemma_stands_between(before + "\""@, x, after.skip(1));
    assert(before + "\""@ + x + after.skip(1) =~= text);
}

/// The metadata of the usual format state every dimension of the model, and what is pinned.
pub proof fn law_metadata_state_the_model(t: Topology, plan: RouterSramPlan)
    ensures
        ({
            let s = extended_data_text(XclbinFormat::Enhanced, t, plan);
            &&& has_text(s, attribute("arch"@, t.arch_name))
            &&& has_text(s, attribute("hidden_dim"@, decimal(t.hidden_dim as nat)))
            &&& has_text(s, attribute("num_heads"@, decimal(t.num_heads as nat)))
            &&& has_text(s, attribute("num_kv_heads"@, decimal(t.num_kv_heads as nat)))
            &&& has_text(s, attribute("layers"@, decimal(t.num_layers as nat)))
            &&& has_text(s, attribute("experts"@, decimal(t.num_experts as nat)))
            &&& has_text(
                s,
                attribute("router_sram_pinned_bytes"@, decimal(plan.pinned_sram_bytes as nat)),
            )
            &&& has_text(
                s,
                attribute("router_sram_layers"@, decimal(plan.pinned_layer_count as nat)),
            )
        }),
{
    lemma_metadata_first(t, plan);
    lemma_metadata_second(t, plan);
}

proof fn lemma_first_openings()
    ensures
        ({
            let q = "\""@ + " "@;
            let h = r#"<extended-data subtype="1" functional="0" dpu_kernel_id="0x901"#@;
            &&& r#"<extended-data subtype="1" functional="0" dpu_kernel_id="0x901" arch=""#@ == h + (q
                + "arch"@ + "=\""@)
            &&& r#"" hidden_dim=""#@ == q + "hidden_dim"@ + "=\""@
            &&& r#"" num_heads=""#@ == q + "num_heads"@ + "=\""@
            &&& r#"" num_kv_heads=""#@ == q + "num_kv_heads"@ + "=\""@
            &&& r#"" layers=""#@.len() > 0
            &&& r#"" layers=""#@[0] == '"'
            &&& r#"" hidden_dim=""#@.len() > 0
            &&& r#"" hidden_dim=""#@[0] == '"'
            &&& r#"" num_heads=""#@.len() > 0
            &&& r#"" num_heads=""#@[0] == '"'
            &&& r#"" num_kv_heads=""#@.len() > 0
            &&& r#"" num_kv_heads=""#@[0] == '"'
        }),
{
    reveal_strlit("\"");
    reveal_strlit(" ");
    reveal_strlit("=\"");
    reveal_strlit("arch");
    reveal_strlit("hidden_dim");
    reveal_strlit("num_heads");
    reveal_strlit("num_kv_heads");
    reveal_strlit(r#"<extended-data subtype="1" functional="0" dpu_kernel_id="0x901" arch=""#);
    reveal_strlit(r#"<extended-data subtype="1" functional="0" dpu_kernel_id="0x901"#);
    reveal_strlit(r#"" hidden_dim=""#);
    reveal_strlit(r#"" num_heads=""#);
    reveal_strlit(r#"" num_kv_heads=""#);
    reveal_strlit(r#"" layers=""#);
    let q = "\""@ + " "@;
    let h = r#"<extended-data subtype="1" functional="0" dpu_kernel_id="0x901"#@;
    assert(r#"<extended-data subtype="1" functional="0" dpu_kernel_id="0x901" arch=""#@ =~= h + (q
        + "arch"@ + "=\""@));
    assert(r#"" hidden_dim=""#@ =~= q + "hidden_dim"@ + "=\""@);
    assert(r#"" num_heads=""#@ =~= q + "num_heads"@ + "=\""@);
    assert(r#"" num_kv_heads=""#@ =~= q + "num_kv_heads"@ + "=\""@);
}

#[verifier::rlimit(60)]
proof fn lemma_metadata_first(t: Topology, plan: RouterSramPlan)
    ensures
        ({
            let s = extended_data_text(XclbinFormat::Enhanced, t, plan);
            &&& has_text(s, attribute("arch"@, t.arch_name))
            &&& has_text(s, attribute("hidden_dim"@, decimal(t.hidden_dim as nat)))
            &&& has_text(s, attribute("num_heads"@, decimal(t.num_heads as nat)))
            &&& has_text(s, attribute("num_kv_heads"@, decimal(t.num_kv_heads as nat)))
        }),
{
    let s = extended_data_text(XclbinFormat::Enhanced, t, plan);
    let o0 = r#"<extended-data subtype="1" functional="0" dpu_kernel_id="0x901" arch=""#@;
    let h0 = r#"<extended-data subtype="1" functional="0" dpu_kernel_id="0x901"#@;
    let o1 = r#"" hidden_dim=""#@;
    let o2 = r#"" num_heads=""#@;
    let o3 = r#"" num_kv_heads=""#@;
    let o4 = r#"" layers=""#@;
    let d1 = decimal(t.hidden_dim as nat);
    let d2 = decimal(t.num_heads as nat);
    let d3 = decimal(t.num_kv_heads as nat);
    let d4 = decimal(t.num_layers as nat);
    let rest = d4 + r#"" experts=""#@ + decimal(t.num_experts as nat)
        + r#"" router_sram_pinned_bytes=""#@ + decimal(plan.pinned_sram_bytes as nat)
        + r#"" router_sram_layers=""#@ + decimal(plan.pinned_layer_count as nat) + r#""/>"#@;
    let q = "\""@ + " "@;
    lemma_first_openings();
    let a4 = o4 + rest;
    let a3 = o3 + d3 + a4;
    let a2 = o2 + d2 + a3;
    let a1 = o1 + d1 + a2;
    assert(s =~= o0 + t.arch_name + a1);
    assert(s =~= h0 + (q + "arch"@ + "=\""@) + t.arch_name + a1);
    lemma_attribute(s, h0, q + "arch"@ + "=\""@, "arch"@, t.arch_name, a1);
    let b1 = o0 + t.arch_name;
    assert(s =~= b1 + o1 + d1 + a2);
    lemma_attribute(s, b1, o1, "hidden_dim"@, d1, a2);
    let b2 = b1 + o1 + d1;
    assert(s =~= b2 + o2 + d2 + a3);
    lemma_attribute(s, b2, o2, "num_heads"@, d2, a3);
    let b3 = b2 + o2 + d2;
    assert(s =~= b3 + o3 + d3 + a4);
    lemma_attribute(s, b3, o3, "num_kv_heads"@, d3, a4);
}

proof fn lemma_second_openings()
    ensures
        ({
            let q = "\""@ + " "@;
            &&& r#"" layers=""#@ == q + "layers"@ + "=\""@
            &&& r#"" experts=""#@ == q + "experts"@ + "=\""@
            &&& r#"" router_sram_pinned_bytes=""#@ == q + "router_sram_pinned_bytes"@ + "=\""@
            &&& r#"" router_sram_layers=""#@ == q + "router_sram_layers"@ + "=\""@
            &&& r#"" experts=""#@.len() > 0
            &&& r#"" experts=""#@[0] == '"'
            &&& r#"" router_sram_pinned_bytes=""#@.len() > 0
            &&& r#"" router_sram_pinned_bytes=""#@[0] == '"'
            &&& r#"" router_sram_layers=""#@.len() > 0
            &&& r#"" router_sram_layers=""#@[0] == '"'
            &&& r#""/>"#@.len() > 0
            &&& r#""/>"#@[0] == '"'
        }),
{
    reveal_strlit("\"");
    reveal_strlit(" ");
    reveal_strlit("=\"");
    reveal_strlit("layers");
    reveal_strlit("experts");
    reveal_strlit("router_sram_pinned_bytes");
    reveal_strlit("router_sram_layers");
    reveal_strlit(r#"" layers=""#);
    reveal_strlit(r#"" experts=""#);
    reveal_strlit(r#"" router_sram_pinned_bytes=""#);
    reveal_strlit(r#"" router_sram_layers=""#);
    reveal_strlit(r#""/>"#);
    let q = "\""@ + " "@;
    assert(r#"" layers=""#@ =~= q + "layers"@ + "=\""@);
    assert(r#"" experts=""#@ =~= q + "experts"@ + "=\""@);
    assert(r#"" router_sram_pinned_bytes=""#@ =~= q + "router_sram_pinned_bytes"@ + "=\""@);
    assert(r#"" router_sram_layers=""#@ =~= q + "router_sram_layers"@ + "=\""@);
}

proof fn lemma_metadata_second(t: Topology, plan: RouterSramPlan)
    ensures
        ({
            let s = extended_data_text(XclbinFormat::Enhanced, t, plan);
            &&& has_text(s, attribute("layers"@, decimal(t.num_layers as nat)))
            &&& has_text(s, attribute("experts"@, decimal(t.num_experts as nat)))
            &&& has_text(
                s,
                attribute("router_sram_pinned_bytes"@, decimal(plan.pinned_sram_bytes as nat)),
            )
            &&& has_text(
                s,
                attribute("router_sram_layers"@, decimal(plan.pinned_layer_count as nat)),
            )
        }),
{
    let s = extended_data_text(XclbinFormat::Enhanced, t, plan);
    let b4 = r#"<extended-data subtype="1" functional="0" dpu_kernel_id="0x901" arch=""#@
        + t.arch_name + r#"" hidden_dim=""#@ + decimal(t.hidden_dim as nat) + r#"" num_heads=""#@
        + decimal(t.num_heads as nat) + r#"" num_kv_heads=""#@ + decimal(t.num_kv_heads as nat);
    let o4 = r#"" layers=""#@;
    let o5 = r#"" experts=""#@;
    let o6 = r#"" router_sram_pinned_bytes=""#@;
    let o7 = r#"" router_sram_layers=""#@;
    let end = r#""/>"#@;
    let d4 = decimal(t.num_layers as nat);
    let d5 = decimal(t.num_experts as nat);
    let d6 = decimal(plan.pinned_sram_bytes as nat);
    let d7 = decimal(plan.pinned_layer_count as nat);
    lemma_second_openings();
    let a7 = o7 + d7 + end;
    let a6 = o6 + d6 + a7;
    let a5 = o5 + d5 + a6;
    assert(s =~= b4 + o4 + d4 + a5);
    lemma_attribute(s, b4, o4, "layers"@, d4, a5);
    let b5 = b4 + o4 + d4;
    assert(s =~= b5 + o5 + d5 + a6);
    lemma_attribute(s, b5, o5, "experts"@, d5, a6);
    let b6 = b5 + o5 + d5;
    assert(s =~= b6 + o6 + d6 + a7);
    lemma_attribute(s, b6, o6, "router_sram_pinned_bytes"@, d6, a7);
    let b7 = b6 + o6 + d6;
    assert(s =~= b7 + o7 + d7 + end);
    lemma_attribute(s, b7, o7, "router_sram_layers"@, d7, end);
}

/// The metadata hold the extended data between what all metadata begin and end with; those of the
/// older format state nothing of the model.
pub proof fn law_metadata_hold_the_extended_data(
    f: XclbinFormat,
    t: Topology,
    plan: RouterSramPlan,
    other: Topology,
    other_plan: RouterSramPlan,
)
    ensures
        ({
            let s = metadata_text(f, t, plan);
            let x = extended_data_text(f, t, plan);
            let at = METADATA_HEAD@.len() as int;
            &&& s.take(at) == METADATA_HEAD@
            &&& s.subrange(at, at + x.len()) == x
            &&& s.skip(at + x.len()) == METADATA_TAIL@
        }),
        f == XclbinFormat::MimicBuiltin ==> metadata_text(f, t, plan) == metadata_text(
            f,
            other,
            other_plan,
        ),
{
    let s = metadata_text(f, t, plan);
    let x = extended_data_text(f, t, plan);
    let at = METADATA_HEAD@.len() as int;
    assert(s.take(at) =~= METADATA_HEAD@);
    assert(s.subrange(at, at + x.len()) =~= x);
    assert(s.skip(at + x.len()) =~= METADATA_TAIL@);
}

/// A partition has its name in the first place, made of the architecture and the target in the
/// usual format and empty in the older one, and the number of the target's columns in the second.
pub proof fn law_partition_states_name_and_width(
    f: XclbinFormat,
    arch: Seq<char>,
    target: TargetHardware,
)
    ensures
        ({
            let s = partition_text(f, arch, target);
            let name = if f == XclbinFormat::Enhanced {
                arch + "_"@ + (if target == TargetHardware::Npu1Aie2 {
                    "npu1"@
                } else {
                    "npu2"@
                })
            } else {
                Seq::empty()
            };
            let columns = if target == TargetHardware::Npu1Aie2 {
                decimal(5)
            } else {
                decimal(8)
            };
            let before = PARTITION_HEAD@ + name + PARTITION_COLUMNS@ + columns + PARTITION_PDI@;
            &&& before.len() <= s.len()
            &&& s.take(before.len() as int) == before
        }),
{
    let s = partition_text(f, arch, target);
    let name = if f == XclbinFormat::Enhanced {
        arch + "_"@ + (if target == TargetHardware::Npu1Aie2 {
            "npu1"@
        } else {
            "npu2"@
        })
    } else {
        Seq::empty()
    };
    let columns = if target == TargetHardware::Npu1Aie2 {
        decimal(5)
    } else {
        decimal(8)
    };
    let before = PARTITION_HEAD@ + name + PARTITION_COLUMNS@ + columns + PARTITION_PDI@;
    assert(s.take(before.len() as int) =~= before);
}

} // verus!
