//! Command line of the model manager: what it reports and decides.

use vstd::prelude::*;
use vstd::string::*;

use crate::container::dtype::{dtype_name, TensorDType};
use crate::container::hardware::TargetHardware;
use crate::container::reader::{infos, name_index, GgufModelReader};
use crate::container::topology::ModelGraphTopology;
use crate::container::xclbin_builder::RouterSramPlan;
use crate::container::{ModelHyperparameters, Q4nxModel};
use crate::text::{
    chars_of, decimal, decimal_text, eq_ignore_case, lowered, raised, same_but_case, same_text,
    to_lowercase, to_uppercase,
};

verus! {

// ---------------------------------------------------------------------------
// Lines
// ---------------------------------------------------------------------------

/// `n` spaces.
pub open spec fn spaces(n: nat) -> Seq<char> {
    Seq::new(n, |i: int| ' ')
}

/// Text filled up to a width, on the right.
pub open spec fn padded_right(s: Seq<char>, width: nat) -> Seq<char> {
    if s.len() < width {
        s + spaces((width - s.len()) as nat)
    } else {
        s
    }
}

/// Text filled up to a width, on the left.
pub open spec fn padded_left(s: Seq<char>, width: nat) -> Seq<char> {
    if s.len() < width {
        spaces((width - s.len()) as nat) + s
    } else {
        s
    }
}

/// A line with a label and a value.
pub open spec fn field_line(label: Seq<char>, value: Seq<char>) -> Seq<char> {
    label + value + "\n"@
}

fn make_spaces(n: usize) -> (r: String)
    ensures
        r@ == spaces(n as nat),
{
    let mut out = String::new();
    let mut i: usize = 0;
    assert(out@ =~= spaces(0));
    while i < n
        invariant
            i <= n,
            out@ == spaces(i as nat),
        decreases n - i,
    {
        out.push(' ');
        assert(out@ =~= spaces((i + 1) as nat));
        i = i + 1;
    }
    out
}

fn pad_right(s: &str, width: usize) -> (r: String)
    ensures
        r@ == padded_right(s@, width as nat),
{
    let n: usize = chars_of(s).len();
    if n < width {
        let fill = make_spaces(width - n);
        s.to_owned().concat(fill.as_str())
    } else {
        s.to_owned()
    }
}

fn pad_left(s: &str, width: usize) -> (r: String)
    ensures
        r@ == padded_left(s@, width as nat),
{
    let n: usize = chars_of(s).len();
    if n < width {
        make_spaces(width - n).concat(s)
    } else {
        s.to_owned()
    }
}

fn line(label: &str, value: &str) -> (r: String)
    ensures
        r@ == field_line(label@, value@),
{
    label.to_owned().concat(value).concat("\n")
}

fn number_line(label: &str, value: u64) -> (r: String)
    ensures
        r@ == field_line(label@, decimal(value as nat)),
{
    let digits = decimal_text(value);
    line(label, digits.as_str())
}

// ---------------------------------------------------------------------------
// Information on a model
// ---------------------------------------------------------------------------

/// The lines that GGUF files and containers have in common.
pub open spec fn structure_lines(arch: Seq<char>, hp: ModelHyperparameters) -> Seq<char> {
    field_line(" Architecture      : "@, arch) + field_line(
        " Hidden Dimension  : "@,
        decimal(hp.hidden_dim as nat),
    ) + field_line(" Attention Heads   : "@, decimal(hp.num_heads as nat)) + field_line(
        " KV Heads          : "@,
        decimal(hp.num_kv_heads as nat),
    ) + field_line(" Layers            : "@, decimal(hp.num_layers as nat)) + field_line(
        " Vocabulary Size   : "@,
        decimal(hp.vocab_size as nat),
    )
}

fn make_structure_lines(arch: &str, hp: &ModelHyperparameters) -> (r: String)
    ensures
        r@ == structure_lines(arch@, *hp),
{
    let a = line(" Architecture      : ", arch);
    let b = number_line(" Hidden Dimension  : ", hp.hidden_dim as u64);
    let c = number_line(" Attention Heads   : ", hp.num_heads as u64);
    let d = number_line(" KV Heads          : ", hp.num_kv_heads as u64);
    let e = number_line(" Layers            : ", hp.num_layers as u64);
    let f = number_line(" Vocabulary Size   : ", hp.vocab_size as u64);
    a.concat(b.as_str()).concat(c.as_str()).concat(d.as_str()).concat(e.as_str()).concat(f.as_str())
}

/// What is told of a GGUF file.
pub open spec fn gguf_info_text(arch: Seq<char>, hp: ModelHyperparameters, tensors: nat) -> Seq<
    char,
> {
    " Format            : GGUF v3\n"@ + structure_lines(arch, hp) + field_line(
        " Context Length    : "@,
        decimal(hp.context_length as nat),
    ) + field_line(" Total Tensors     : "@, decimal(tensors))
        + " Embedded XCLBIN   : None (Raw GGUF format)\n"@
}

/// What is told of a GGUF file.
pub fn gguf_info(reader: &GgufModelReader) -> (r: String)
    requires
        reader.wf(),
    ensures
        r@ == gguf_info_text(
            reader.arch_name@,
            reader.hyperparams,
            name_index(infos(reader.tensor_list@)).len(),
        ),
{
    let body = make_structure_lines(reader.arch_name.as_str(), &reader.hyperparams);
    let context = number_line(" Context Length    : ", reader.hyperparams.context_length as u64);
    let tensors = number_line(" Total Tensors     : ", reader.tensor_count() as u64);
    " Format            : GGUF v3\n".to_owned().concat(body.as_str()).concat(
        context.as_str(),
    ).concat(tensors.as_str()).concat(" Embedded XCLBIN   : None (Raw GGUF format)\n")
}

/// What is told of a container.
pub open spec fn container_info_text(
    arch: Seq<char>,
    hp: ModelHyperparameters,
    embedded: bool,
    xclbin_size: nat,
) -> Seq<char> {
    " Format            : .q4nx Unified APU Container\n"@ + structure_lines(arch, hp)
        + if embedded {
        " Embedded XCLBIN   : YES (Turnkey APU deployment)\n"@ + " XCLBIN Size       : "@ + decimal(
            xclbin_size,
        ) + " bytes\n"@
    } else {
        " Embedded XCLBIN   : NO (Bare container)\n"@
    }
}

/// What is told of a container.
pub fn container_info(model: &Q4nxModel) -> (r: String)
    ensures
        r@ == container_info_text(
            model.header.arch_name@,
            model.header.hyperparams,
            model.header.xclbin_size > 0 && model.xclbin().len() > 0,
            model.header.xclbin_size as nat,
        ),
{
    let body = make_structure_lines(model.header.arch_name.as_str(), &model.header.hyperparams);
    let tail = if model.has_embedded_xclbin() {
        let digits = decimal_text(model.header.xclbin_size);
        " Embedded XCLBIN   : YES (Turnkey APU deployment)\n".to_owned().concat(
            " XCLBIN Size       : ",
        ).concat(digits.as_str()).concat(" bytes\n")
    } else {
        " Embedded XCLBIN   : NO (Bare container)\n".to_owned()
    };
    " Format            : .q4nx Unified APU Container\n".to_owned().concat(body.as_str()).concat(
        tail.as_str(),
    )
}

/// The quantization of a model: that of its first tensor.
pub fn base_quantization(reader: &GgufModelReader) -> (r: String)
    ensures
        r@ == if reader.tensor_list@.len() > 0 {
            dtype_name(reader.tensor_list@[0].dtype)
        } else {
            "Q4_K_M"@
        },
{
    if reader.tensor_list.len() > 0 {
        reader.tensor_list[0].dtype.name()
    } else {
        "Q4_K_M".to_owned()
    }
}

/// Whether a model has tensors of the non-linear four-bit type.
pub fn has_iq4_tensor(reader: &GgufModelReader) -> (r: bool)
    ensures
        r == exists|i: int|
            0 <= i < reader.tensor_list@.len() && (#[trigger] reader.tensor_list@[i]).dtype
                == TensorDType::IQ4_NL,
{
    let mut i: usize = 0;
    while i < reader.tensor_list.len()
        invariant
            i <= reader.tensor_list@.len(),
            forall|k: int|
                0 <= k < i ==> (#[trigger] reader.tensor_list@[k]).dtype != TensorDType::IQ4_NL,
        decreases reader.tensor_list@.len() - i,
    {
        if reader.tensor_list[i].dtype == TensorDType::IQ4_NL {
            return true;
        }
        i = i + 1;
    }
    false
}

/// What is told of the router matrices of a model.
pub open spec fn router_info_text(experts: u32, plan: RouterSramPlan) -> Seq<char> {
    if experts > 0 {
        " MoE Architecture  : Active ("@ + decimal(experts as nat) + " total experts)\n"@
            + " Router Matrix SRAM: "@ + decimal(plan.pinned_sram_bytes as nat / 1024)
            + " KB pinned of "@ + decimal(plan.total_router_bytes as nat / 1024) + " KB total ("@
            + decimal(plan.pinned_layer_count as nat) + "/"@ + decimal(plan.total_layers as nat)
            + " layers in on-chip SRAM)\n"@ + if plan.sram_exhaustion_prevented {
            "   Safety Ceiling  : ENFORCED (32 MB max allocated to prevent tile buffer exhaustion)\n"@
        } else {
            "   Safety Ceiling  : Within 32 MB limit (100% router matrices pinned)\n"@
        }
    } else {
        " MoE Architecture  : Dense (No routing matrices to pin)\n"@
    }
}

/// What is told of the router matrices of a model.
pub fn router_info(topology: &ModelGraphTopology, plan: &RouterSramPlan) -> (r: String)
    ensures
        r@ == router_info_text(topology.num_experts, *plan),
{
    if topology.num_experts > 0 {
        let experts = decimal_text(topology.num_experts as u64);
        let pinned = decimal_text(plan.pinned_sram_bytes as u64 / 1024);
        let total = decimal_text(plan.total_router_bytes as u64 / 1024);
        let layers = decimal_text(plan.pinned_layer_count as u64);
        let all = decimal_text(plan.total_layers as u64);
        let ceiling: &str = if plan.sram_exhaustion_prevented {
            "   Safety Ceiling  : ENFORCED (32 MB max allocated to prevent tile buffer exhaustion)\n"
        } else {
            "   Safety Ceiling  : Within 32 MB limit (100% router matrices pinned)\n"
        };
        " MoE Architecture  : Active (".to_owned().concat(experts.as_str()).concat(
            " total experts)\n",
        ).concat(" Router Matrix SRAM: ").concat(pinned.as_str()).concat(" KB pinned of ").concat(
            total.as_str(),
        ).concat(" KB total (").concat(layers.as_str()).concat("/").concat(all.as_str()).concat(
            " layers in on-chip SRAM)\n",
        ).concat(ceiling)
    } else {
        " MoE Architecture  : Dense (No routing matrices to pin)\n".to_owned()
    }
}

// ---------------------------------------------------------------------------
// Decisions
// ---------------------------------------------------------------------------

/// The ceiling for router matrices in bytes: at least one megabyte.
pub fn router_sram_limit(megabytes: usize) -> (r: usize)
    requires
        megabytes * 1048576 <= usize::MAX,
    ensures
        r == if megabytes == 0 {
            1048576
        } else {
            megabytes * 1048576
        },
{
    if megabytes == 0 {
        1048576
    } else {
        megabytes * 1048576
    }
}

/// Whether a lower-cased name stands for the one target that conversion knows.
pub open spec fn known_target(lower: Seq<char>) -> bool {
    lower == "npu2-aie2p"@ || lower == "aie2p"@ || lower == "xdna2"@
}

/// The target that a model is converted for, and whether its name was known. A name that is
/// not known stands for the same target.
pub fn convert_target(target: &str) -> (r: (TargetHardware, bool))
    ensures
        r.0 == TargetHardware::Npu2Aie2p,
        r.1 == known_target(lowered(target@)),
{
    let lower = to_lowercase(target);
    (TargetHardware::Npu2Aie2p, is_known_target(lower.as_str()))
}

/// Whether a lower-cased name stands for the one target that conversion knows.
pub fn is_known_target(lower: &str) -> (r: bool)
    ensures
        r == known_target(lower@),
{
    same_text(lower, "npu2-aie2p") || same_text(lower, "aie2p") || same_text(lower, "xdna2")
}

/// Where a conversion starts from.
#[derive(Debug, Clone, Copy, PartialEq, Eq, Structural)]
pub enum ConvertSource {
    /// A directory of SafeTensors files.
    SafetensorsDirectory,
    /// A SafeTensors file, whose directory is converted.
    SafetensorsFile,
    /// A GGUF file.
    Gguf,
}

/// Where a conversion starts from.
pub fn convert_source(is_dir: bool, extension: &str) -> (r: ConvertSource)
    ensures
        r == if is_dir {
            ConvertSource::SafetensorsDirectory
        } else if same_but_case(extension@, "safetensors"@) {
            ConvertSource::SafetensorsFile
        } else {
            ConvertSource::Gguf
        },
{
    if is_dir {
        ConvertSource::SafetensorsDirectory
    } else if eq_ignore_case(extension, "safetensors") {
        ConvertSource::SafetensorsFile
    } else {
        ConvertSource::Gguf
    }
}

/// Whether a container without an XCLBIN is asked for.
pub fn is_bare_format(format: &str) -> (r: bool)
    ensures
        r == same_but_case(format@, "bare"@),
{
    eq_ignore_case(format, "bare")
}

/// What is told of a conversion before it starts. `ratio` is the share of salient weights in
/// per cent.
pub open spec fn convert_banner_text(
    input: Seq<char>,
    target: Seq<char>,
    bare: bool,
    quant_upper: Seq<char>,
    billm: bool,
    no_rotation: bool,
    ratio: Seq<char>,
) -> Seq<char> {
    " Converting Model to .q4nx Container\n"@ + field_line(" Input Path : "@, input) + field_line(
        " Target HW  : "@,
        target,
    ) + field_line(
        " Container  : "@,
        if bare {
            "Bare (requires companion .gguf)"@
        } else {
            "Embedded GGUF/Q4NX (Default)"@
        },
    ) + field_line(" Quantization: "@, quant_upper) + if billm {
        field_line(
            " Orthogonal Rot. : "@,
            if no_rotation {
                "DISABLED"@
            } else {
                "ENABLED (Block-RHT Walsh-Hadamard 128)"@
            },
        ) + " Saliency Ratio  : "@ + ratio + "% isolated for scale factor\n"@
    } else {
        Seq::empty()
    }
}

/// What is told of a conversion before it starts.
pub fn convert_banner(
    input: &str,
    target: &str,
    bare: bool,
    quant: &str,
    no_rotation: bool,
    ratio: &str,
) -> (r: String)
    ensures
        r@ == convert_banner_text(
            input@,
            target@,
            bare,
            raised(quant@),
            same_but_case(quant@, "billm"@),
            no_rotation,
            ratio@,
        ),
{
    let a = line(" Input Path : ", input);
    let b = line(" Target HW  : ", target);
    let c = line(
        " Container  : ",
        if bare {
            "Bare (requires companion .gguf)"
        } else {
            "Embedded GGUF/Q4NX (Default)"
        },
    );
    let upper = to_uppercase(quant);
    let d = line(" Quantization: ", upper.as_str());
    let e: String = if eq_ignore_case(quant, "billm") {
        let rotation = line(
            " Orthogonal Rot. : ",
            if no_rotation {
                "DISABLED"
            } else {
                "ENABLED (Block-RHT Walsh-Hadamard 128)"
            },
        );
        rotation.concat(" Saliency Ratio  : ").concat(ratio).concat(
            "% isolated for scale factor\n",
        )
    } else {
        let none = String::new();
        assert(none@ =~= Seq::<char>::empty());
        none
    };
    " Converting Model to .q4nx Container\n".to_owned().concat(a.as_str()).concat(
        b.as_str(),
    ).concat(c.as_str()).concat(d.as_str()).concat(e.as_str())
}

/// The texts of strings.
pub open spec fn texts_of(v: Seq<String>) -> Seq<Seq<char>> {
    v.map_values(|s: String| s@)
}

/// The arguments of the streaming quantizer.
pub open spec fn quantizer_argument_list(
    model_dir: Seq<char>,
    output: Seq<char>,
    bare: bool,
    quant: Seq<char>,
    ratio: Seq<char>,
    no_rotation: bool,
    xclbin: Option<&str>,
) -> Seq<Seq<char>> {
    seq![
        "old/converter/convert_to_billm.py"@,
        "--model-id"@,
        model_dir,
        "--output"@,
        output,
        "--format"@,
        if bare {
            "bare"@
        } else {
            "embedded"@
        },
        "--quant"@,
        quant,
        "--salient-ratio"@,
        ratio,
    ] + (if no_rotation {
        seq!["--no-rotation"@]
    } else {
        Seq::empty()
    }) + match xclbin {
        Some(x) => seq!["--xclbin"@, x@],
        None => Seq::empty(),
    }
}

/// The arguments of the streaming quantizer.
pub fn quantizer_arguments(
    model_dir: &str,
    output: &str,
    bare: bool,
    quant: &str,
    ratio: &str,
    no_rotation: bool,
    xclbin: Option<&str>,
) -> (r: Vec<String>)
    ensures
        texts_of(r@) == quantizer_argument_list(
            model_dir@,
            output@,
            bare,
            quant@,
            ratio@,
            no_rotation,
            xclbin,
        ),
{
    let format: &str = if bare {
        "bare"
    } else {
        "embedded"
    };
    let mut out: Vec<String> = vec![
        "old/converter/convert_to_billm.py".to_owned(),
        "--model-id".to_owned(),
        model_dir.to_owned(),
        "--output".to_owned(),
        output.to_owned(),
        "--format".to_owned(),
        format.to_owned(),
        "--quant".to_owned(),
        quant.to_owned(),
        "--salient-ratio".to_owned(),
        ratio.to_owned(),
    ];
    if no_rotation {
        out.push("--no-rotation".to_owned());
    }
    match xclbin {
        Some(x) => {
            out.push("--xclbin".to_owned());
            out.push(x.to_owned());
        },
        None => {},
    }
    assert(texts_of(out@) =~= quantizer_argument_list(
        model_dir@,
        output@,
        bare,
        quant@,
        ratio@,
        no_rotation,
        xclbin,
    ));
    out
}

/// The line of a model in a list of models.
pub open spec fn model_line_text(name: Seq<char>, bytes: nat, dir: Seq<char>) -> Seq<char> {
    " - "@ + padded_right(name, 45) + " ("@ + padded_left(decimal(bytes / 1048576), 5) + " MB) ["@
        + dir + "]\n"@
}

/// The line of a file in a list of models; none for a file that is no model.
pub fn model_line(name: &str, extension: &str, bytes: u64, dir: &str) -> (r: Option<String>)
    ensures
        r is Some <==> same_but_case(extension@, "gguf"@) || same_but_case(extension@, "q4nx"@),
        r is Some ==> r->0@ == model_line_text(name@, bytes as nat, dir@),
{
    if !eq_ignore_case(extension, "gguf") && !eq_ignore_case(extension, "q4nx") {
        return None;
    }
    let padded = pad_right(name, 45);
    let digits = decimal_text(bytes / 1048576);
    let size = pad_left(digits.as_str(), 5);
    Some(
        " - ".to_owned().concat(padded.as_str()).concat(" (").concat(size.as_str()).concat(
            " MB) [",
        ).concat(dir).concat("]\n"),
    )
}

} // verus!
