//! Builder of XCLBIN hardware binaries for a model topology.
//!
//! The builder makes the section files that `xclbinutil` packages. Where that tool is not there,
//! a minimal binary with the standard header stands in for its output.

use vstd::prelude::*;
use vstd::string::*;

use crate::bytes::{push_bytes, push_zeros, zeros};
use crate::container::converter::{convert_gguf_to_q4nx, converted_image, parse_fault, restamped};
pub use crate::container::hardware::{TargetHardware, XclbinFormat};
use crate::container::hardware::{target_columns, target_name};
pub use crate::container::topology::ModelGraphTopology;
use crate::container::topology::Topology;
use crate::container::{
    open_fault, ContainerError, ContainerFault, FileContext, Q4nxModel,
};
use crate::text::{decimal, decimal_text, eq_ignore_case, lowered, same_but_case};

verus! {

/// Memory topology up to the size of the SRAM bank.
pub const MEM_TOPOLOGY_HEAD: &'static str = r#"{
    "mem_topology": {
        "m_count": "2",
        "m_mem_data": [
            {
                "m_type": "MEM_DRAM",
                "m_used": "1",
                "m_sizeKB": "0x10000",
                "m_tag": "HOST",
                "m_base_address": "0x4000000"
            },
            {
                "m_type": "MEM_DRAM",
                "m_used": "1",
                "m_sizeKB": ""#;

/// Memory topology behind the size of the SRAM bank.
pub const MEM_TOPOLOGY_TAIL: &'static str = r#"",
                "m_tag": "SRAM",
                "m_base_address": "0x4000000"
            }
        ]
    }
}"#;

/// Layout of the DPU kernel.
pub const IP_LAYOUT: &'static str = r#"{
    "ip_layout": {
        "m_count": "1",
        "m_ip_data": [
            {
                "m_type": "IP_PS_KERNEL",
                "m_subtype": "DPU",
                "m_functional": "DPU",
                "m_kernel_id": "0x901",
                "m_base_address": "not_used",
                "m_name": "MLIR_AIE:MLIRAIE"
            }
        ]
    }
}"#;

/// Connections between kernel arguments and memory banks.
pub const CONNECTIVITY: &'static str = r#"{
    "connectivity": {
        "m_count": "6",
        "m_connection": [
            {
                "arg_index": "1",
                "m_ip_layout_index": "0",
                "mem_data_index": "1"
            },
            {
                "arg_index": "3",
                "m_ip_layout_index": "0",
                "mem_data_index": "0"
            },
            {
                "arg_index": "4",
                "m_ip_layout_index": "0",
                "mem_data_index": "0"
            },
            {
                "arg_index": "5",
                "m_ip_layout_index": "0",
                "mem_data_index": "0"
            },
            {
                "arg_index": "6",
                "m_ip_layout_index": "0",
                "mem_data_index": "0"
            },
            {
                "arg_index": "7",
                "m_ip_layout_index": "0",
                "mem_data_index": "0"
            }
        ]
    }
}"#;

/// Embedded metadata up to the extended data.
pub const METADATA_HEAD: &'static str = r#"<?xml version="1.0" encoding="utf-8"?>
<project>
  <platform>
    <device>
      <core>
        <kernel name="MLIR_AIE" language="c" type="dpu">
          "#;

/// Embedded metadata behind the extended data.
pub const METADATA_TAIL: &'static str = r#"
          <arg name="opcode" addressQualifier="0" id="0" size="0x8" offset="0x00" hostOffset="0x0" hostSize="0x8" type="uint64_t"/>
          <arg name="instr" addressQualifier="1" id="1" size="0x8" offset="0x8" hostOffset="0x0" hostSize="0x8" type="char *"/>
          <arg name="ninstr" addressQualifier="0" id="2" size="0x4" offset="0x10" hostOffset="0x0" hostSize="0x4" type="uint32_t"/>
          <arg name="bo0" addressQualifier="1" id="3" size="0x8" offset="0x14" hostOffset="0x0" hostSize="0x8" type="void*"/>
          <arg name="bo1" addressQualifier="1" id="4" size="0x8" offset="0x1c" hostOffset="0x0" hostSize="0x8" type="void*"/>
          <arg name="bo2" addressQualifier="1" id="5" size="0x8" offset="0x24" hostOffset="0x0" hostSize="0x8" type="void*"/>
          <arg name="bo3" addressQualifier="1" id="6" size="0x8" offset="0x2c" hostOffset="0x0" hostSize="0x8" type="void*"/>
          <arg name="bo4" addressQualifier="1" id="7" size="0x8" offset="0x34" hostOffset="0x0" hostSize="0x8" type="void*"/>
          <instance name="MLIRAIE"/>
        </kernel>
      </core>
    </device>
  </platform>
</project>
"#;

/// Partition up to its name.
pub const PARTITION_HEAD: &'static str = r#"{
    "aie_partition": {
        "name": ""#;

/// Partition from its name to its width.
pub const PARTITION_COLUMNS: &'static str = r#"",
        "operations_per_cycle": "2048",
        "inference_fingerprint": "23423",
        "pre_post_fingerprint": "12345",
        "kernel_commit_id": "",
        "partition": {
            "column_width": ""#;

/// Partition from its width to the identifier of the hardware image.
pub const PARTITION_PDI: &'static str = r#"",
            "start_columns": [
                "0"
            ]
        },
        "PDIs": [
            {
                "uuid": ""#;

/// Partition from that identifier to the file name of the image.
pub const PARTITION_FILE: &'static str = r#"",
                "file_name": ""#;

/// Partition behind that file name.
pub const PARTITION_TAIL: &'static str = r#"",
                "cdo_groups": [
                    {
                        "name": "DPU",
                        "type": "PRIMARY",
                        "pdi_id": "0x1",
                        "dpu_kernel_ids": [
                            "0x901"
                        ],
                        "pre_cdo_groups": [
                            "0xc1"
                        ]
                    }
                ]
            }
        ]
    }
}"#;

/// Extended data of built-in XCLBINs.
pub const PLAIN_EXTENDED_DATA: &'static str = r#"<extended-data subtype="1" functional="0" dpu_kernel_id="0x901"/>"#;

/// Identifier of the hardware image.
pub const PDI_UUID: &'static str = r#"38668b23-339b-4deb-a254-5b95c75af8d3"#;

/// File name of the hardware image.
pub const PDI_FILE_NAME: &'static str = r#"38668b23-339b-4deb-a254-5b95c75af8d3.pdi"#;

/// Room for router matrices in SRAM unless another ceiling is set.
pub const DEFAULT_ROUTER_SRAM_BYTES: usize = 33554432;

/// Allocation of on-chip SRAM for router matrices.
#[derive(Debug, Clone, Copy, PartialEq, Eq, Structural)]
pub struct RouterSramPlan {
    /// Total bytes required to hold all router matrices across all layers.
    pub total_router_bytes: usize,
    /// Bytes allocated in on-chip SRAM for router matrices.
    pub pinned_sram_bytes: usize,
    /// Number of shallow layers pinned in on-chip SRAM.
    pub pinned_layer_count: usize,
    /// Total layers in the model.
    pub total_layers: usize,
    /// Whether the safety ceiling kept layers out of SRAM.
    pub sram_exhaustion_prevented: bool,
}

/// Section files of an XCLBIN.
pub struct XclbinSections {
    pub mem_topology: String,
    pub ip_layout: String,
    pub connectivity: String,
    pub embedded_metadata: String,
    pub aie_partition: String,
    pub pdi_file_name: String,
}

/// Builder of XCLBIN hardware binaries.
pub struct XclbinBuilder {
    pub target: TargetHardware,
    pub topology: ModelGraphTopology,
    pub custom_pdi: Option<Vec<u8>>,
    pub format: XclbinFormat,
    pub router_sram_enabled: bool,
    pub max_router_sram_bytes: usize,
}

// ---------------------------------------------------------------------------
// SRAM plan
// ---------------------------------------------------------------------------

/// Bytes of one layer's router matrix, in 16-bit numbers.
pub open spec fn layer_router_bytes(t: Topology) -> int {
    t.hidden_dim as int * t.num_experts as int * 2
}

/// The lesser of two numbers.
pub open spec fn lesser(a: int, b: int) -> int {
    if a <= b {
        a
    } else {
        b
    }
}

/// Layers whose matrices fit under the ceiling.
pub open spec fn pinned_layers(t: Topology, ceiling: int) -> int {
    let per_layer = layer_router_bytes(t);
    if per_layer > 0 {
        lesser(lesser(per_layer * t.num_layers, ceiling) / per_layer, t.num_layers as int)
    } else {
        0
    }
}

/// Router matrices are to be planned for.
pub open spec fn has_routers(enabled: bool, t: Topology) -> bool {
    enabled && t.num_experts > 0 && t.num_layers > 0
}

/// The plan for a topology under a ceiling.
pub open spec fn router_plan(enabled: bool, t: Topology, ceiling: usize) -> RouterSramPlan {
    if has_routers(enabled, t) {
        let per_layer = layer_router_bytes(t);
        RouterSramPlan {
            total_router_bytes: (per_layer * t.num_layers) as usize,
            pinned_sram_bytes: (pinned_layers(t, ceiling as int) * per_layer) as usize,
            pinned_layer_count: pinned_layers(t, ceiling as int) as usize,
            total_layers: t.num_layers as usize,
            sram_exhaustion_prevented: per_layer * t.num_layers > ceiling,
        }
    } else {
        RouterSramPlan {
            total_router_bytes: 0,
            pinned_sram_bytes: 0,
            pinned_layer_count: 0,
            total_layers: t.num_layers as usize,
            sram_exhaustion_prevented: false,
        }
    }
}

proof fn lemma_pinned_layers(t: Topology, ceiling: int)
    requires
        0 <= ceiling,
        layer_router_bytes(t) > 0,
    ensures
        0 <= pinned_layers(t, ceiling) <= t.num_layers,
        pinned_layers(t, ceiling) * layer_router_bytes(t) <= ceiling,
        pinned_layers(t, ceiling) * layer_router_bytes(t) <= layer_router_bytes(t) * t.num_layers,
        pinned_layers(t, ceiling) < t.num_layers ==> (pinned_layers(t, ceiling) + 1)
            * layer_router_bytes(t) > ceiling,
        layer_router_bytes(t) * t.num_layers <= ceiling ==> pinned_layers(t, ceiling)
            == t.num_layers,
{
    let per = layer_router_bytes(t);
    let n = t.num_layers as int;
    let cap = lesser(per * n, ceiling);
    let q = cap / per;
    assert(0 <= per * n) by (nonlinear_arith)
        requires
            per > 0,
            n >= 0,
    ;
    vstd::arithmetic::div_mod::lemma_fundamental_div_mod(cap, per);
    assert(0 <= q && q * per <= cap && cap < (q + 1) * per) by (nonlinear_arith)
        requires
            per > 0,
            0 <= cap,
            cap == per * q + cap % per,
            0 <= cap % per < per,
    ;
    assert(q <= n) by (nonlinear_arith)
        requires
            q * per <= per * n,
            per > 0,
    ;
    if q < n {
        assert((q + 1) * per <= per * n) by (nonlinear_arith)
            requires
                q + 1 <= n,
                per > 0,
        ;
    } else {
        assert(q * per == per * n) by (nonlinear_arith)
            requires
                q == n,
        ;
    }
}

/// What is pinned never passes the ceiling nor what the model needs; whole layers are pinned,
/// as many as fit; everything is pinned where everything fits, and then alone no layer is kept
/// out.
pub proof fn law_router_plan_respects_the_ceiling(enabled: bool, t: Topology, ceiling: usize)
    requires
        layer_router_bytes(t) * t.num_layers <= usize::MAX,
    ensures
        ({
            let plan = router_plan(enabled, t, ceiling);
            &&& plan.pinned_sram_bytes <= ceiling
            &&& plan.pinned_sram_bytes <= plan.total_router_bytes
            &&& plan.pinned_layer_count <= plan.total_layers
            &&& plan.total_layers == t.num_layers
            &&& has_routers(enabled, t) ==> plan.pinned_sram_bytes == plan.pinned_layer_count
                * layer_router_bytes(t)
            &&& plan.sram_exhaustion_prevented <==> plan.total_router_bytes > ceiling
            &&& !plan.sram_exhaustion_prevented ==> plan.pinned_sram_bytes
                == plan.total_router_bytes
            &&& has_routers(enabled, t) && layer_router_bytes(t) > 0 && plan.pinned_layer_count
                < t.num_layers ==> plan.pinned_sram_bytes + layer_router_bytes(t) > ceiling
        }),
{
    let per = layer_router_bytes(t);
    let n = t.num_layers as int;
    assert(per >= 0) by (nonlinear_arith)
        requires
            per == t.hidden_dim as int * t.num_experts as int * 2,
    ;
    if per > 0 {
        lemma_pinned_layers(t, ceiling as int);
        let p = pinned_layers(t, ceiling as int);
        assert(0 <= p * per) by (nonlinear_arith)
            requires
                0 <= p,
                0 < per,
        ;
        assert((p + 1) * per == p * per + per) by (nonlinear_arith);
        assert(0 <= per * n) by (nonlinear_arith)
            requires
                0 < per,
                0 <= n,
        ;
        if per * n <= ceiling {
            assert(p * per == per * n) by (nonlinear_arith)
                requires
                    p == n,
            ;
        }
    } else {
        assert(per * n == 0) by (nonlinear_arith)
            requires
                per == 0,
        ;
        assert(pinned_layers(t, ceiling as int) * per == 0) by (nonlinear_arith)
            requires
                per == 0,
        ;
    }
}

// ---------------------------------------------------------------------------
// Section texts
// ---------------------------------------------------------------------------

/// Size of the SRAM bank in kilobytes: 64 MB for wide models of the enhanced format, else 48 MB.
pub open spec fn sram_size(f: XclbinFormat, hidden_dim: u32) -> Seq<char> {
    if f == XclbinFormat::Enhanced && hidden_dim >= 4096 {
        "0x10000"@
    } else {
        "0xc000"@
    }
}

/// The memory topology.
pub open spec fn mem_topology_text(f: XclbinFormat, hidden_dim: u32) -> Seq<char> {
    MEM_TOPOLOGY_HEAD@ + sram_size(f, hidden_dim) + MEM_TOPOLOGY_TAIL@
}

/// The extended data of the embedded metadata.
pub open spec fn extended_data_text(f: XclbinFormat, t: Topology, plan: RouterSramPlan) -> Seq<
    char,
> {
    match f {
        XclbinFormat::MimicBuiltin => PLAIN_EXTENDED_DATA@,
        XclbinFormat::Enhanced =>
            r#"<extended-data subtype="1" functional="0" dpu_kernel_id="0x901" arch=""#@
            + t.arch_name + r#"" hidden_dim=""#@ + decimal(t.hidden_dim as nat)
            + r#"" num_heads=""#@ + decimal(t.num_heads as nat) + r#"" num_kv_heads=""#@ + decimal(
            t.num_kv_heads as nat,
        ) + r#"" layers=""#@ + decimal(t.num_layers as nat) + r#"" experts=""#@ + decimal(
            t.num_experts as nat,
        ) + r#"" router_sram_pinned_bytes=""#@ + decimal(plan.pinned_sram_bytes as nat)
            + r#"" router_sram_layers=""#@ + decimal(plan.pinned_layer_count as nat) + r#""/>"#@,
    }
}

/// The embedded metadata.
pub open spec fn metadata_text(f: XclbinFormat, t: Topology, plan: RouterSramPlan) -> Seq<char> {
    METADATA_HEAD@ + extended_data_text(f, t, plan) + METADATA_TAIL@
}

/// The name of the partition.
pub open spec fn partition_name(f: XclbinFormat, arch: Seq<char>, target: TargetHardware) -> Seq<
    char,
> {
    match f {
        XclbinFormat::MimicBuiltin => Seq::empty(),
        XclbinFormat::Enhanced => arch + "_"@ + target_name(target),
    }
}

/// The partition.
pub open spec fn partition_text(f: XclbinFormat, arch: Seq<char>, target: TargetHardware) -> Seq<
    char,
> {
    PARTITION_HEAD@ + partition_name(f, arch, target) + PARTITION_COLUMNS@ + decimal(
        target_columns(target) as nat,
    ) + PARTITION_PDI@ + PDI_UUID@ + PARTITION_FILE@ + PDI_FILE_NAME@ + PARTITION_TAIL@
}

/// The binary that stands in for a packaged one: the magic bytes `xclbin2`, a version and the
/// name of the target in 64 bytes, and the hardware image.
pub open spec fn stand_in(target: TargetHardware, pdi: Seq<u8>) -> Seq<u8> {
    seq![0x78u8, 0x63u8, 0x6Cu8, 0x62u8, 0x69u8, 0x6Eu8, 0x32u8, 0x00u8] + seq![
        0x02u8,
        0x00u8,
        0x00u8,
        0x00u8,
    ] + seq![
        0x6Eu8,
        0x70u8,
        0x75u8,
        match target {
            TargetHardware::Npu1Aie2 => 0x31u8,
            TargetHardware::Npu2Aie2p => 0x32u8,
        },
    ] + zeros(48) + pdi
}

// ---------------------------------------------------------------------------
// The builder
// ---------------------------------------------------------------------------

/// What an embedding comes to: the file that is to be written, and its path.
pub struct Embedded {
    pub path: String,
    pub image: Vec<u8>,
}

/// What is said of a file that an XCLBIN cannot be embedded in.
pub open spec fn bad_model_text(ext: Seq<char>) -> Seq<char> {
    "Invalid model extension: "@ + ext + ". Expected .gguf or .q4nx"@
}

impl XclbinBuilder {
    /// A builder for the enhanced format, with up to 32 MB of router matrices in SRAM.
    pub fn new(target: TargetHardware, topology: ModelGraphTopology) -> (r: XclbinBuilder)
        ensures
            r.target == target,
            r.topology == topology,
            r.custom_pdi is None,
            r.format == XclbinFormat::Enhanced,
            r.router_sram_enabled,
            r.max_router_sram_bytes == DEFAULT_ROUTER_SRAM_BYTES,
    {
        XclbinBuilder {
            target,
            topology,
            custom_pdi: None,
            format: XclbinFormat::Enhanced,
            router_sram_enabled: true,
            max_router_sram_bytes: DEFAULT_ROUTER_SRAM_BYTES,
        }
    }

    /// Sets the hardware image.
    pub fn with_pdi(self, pdi: Vec<u8>) -> (r: XclbinBuilder)
        ensures
            r == (XclbinBuilder { custom_pdi: Some(pdi), ..self }),
    {
        let mut b = self;
        b.custom_pdi = Some(pdi);
        b
    }

    /// Sets the output format.
    pub fn with_format(self, format: XclbinFormat) -> (r: XclbinBuilder)
        ensures
            r == (XclbinBuilder { format, ..self }),
    {
        let mut b = self;
        b.format = format;
        b
    }

    /// Turns pinning of router matrices on or off, and sets its ceiling where one is given.
    pub fn with_router_sram(self, enabled: bool, max_bytes: Option<usize>) -> (r: XclbinBuilder)
        ensures
            r == (XclbinBuilder {
                router_sram_enabled: enabled,
                max_router_sram_bytes: match max_bytes {
                    Some(limit) => limit,
                    None => self.max_router_sram_bytes,
                },
                ..self
            }),
    {
        let mut b = self;
        b.router_sram_enabled = enabled;
        match max_bytes {
            Some(limit) => {
                b.max_router_sram_bytes = limit;
            },
            None => {},
        }
        b
    }

    /// The sizes of the router matrices can be added up.
    pub open spec fn can_plan(&self) -> bool {
        has_routers(self.router_sram_enabled, self.topology@) ==> layer_router_bytes(self.topology@)
            * self.topology.num_layers <= usize::MAX
    }

    /// The plan for the router matrices.
    pub open spec fn plan(&self) -> RouterSramPlan {
        router_plan(self.router_sram_enabled, self.topology@, self.max_router_sram_bytes)
    }

    /// The hardware image that is packaged.
    pub open spec fn pdi(&self, default_pdi: Seq<u8>) -> Seq<u8> {
        match self.custom_pdi {
            Some(p) => p@,
            None => default_pdi,
        }
    }

    /// Plans which router matrices are pinned in on-chip SRAM.
    pub fn plan_router_sram(&self) -> (r: RouterSramPlan)
        requires
            self.can_plan(),
        ensures
            r == self.plan(),
    {
        let layers: usize = self.topology.num_layers as usize;
        if !self.router_sram_enabled || self.topology.num_experts == 0 || self.topology.num_layers
            == 0 {
            return RouterSramPlan {
                total_router_bytes: 0,
                pinned_sram_bytes: 0,
                pinned_layer_count: 0,
                total_layers: layers,
                sram_exhaustion_prevented: false,
            };
        }
        let hidden: usize = self.topology.hidden_dim as usize;
        let experts: usize = self.topology.num_experts as usize;
        let ghost per = layer_router_bytes(self.topology@);
        proof {
            assert(0 <= hidden * experts && hidden * experts <= per && 0 <= per) by (nonlinear_arith)
                requires
                    per == hidden * experts * 2,
                    hidden >= 0,
                    experts >= 0,
            ;
            assert(per <= per * layers) by (nonlinear_arith)
                requires
                    0 <= per,
                    layers >= 1,
            ;
        }
        let bytes_per_layer: usize = hidden * experts * 2;
        let total_router_bytes: usize = bytes_per_layer * layers;
        let capped: usize = if total_router_bytes <= self.max_router_sram_bytes {
            total_router_bytes
        } else {
            self.max_router_sram_bytes
        };
        let pinned_layer_count: usize = if bytes_per_layer > 0 {
            let fit: usize = capped / bytes_per_layer;
            if fit <= layers {
                fit
            } else {
                layers
            }
        } else {
            0
        };
        proof {
            if per > 0 {
                lemma_pinned_layers(self.topology@, self.max_router_sram_bytes as int);
            } else {
                assert(pinned_layer_count * bytes_per_layer == 0) by (nonlinear_arith)
                    requires
                        bytes_per_layer == 0,
                ;
            }
        }
        let pinned_sram_bytes: usize = pinned_layer_count * bytes_per_layer;
        RouterSramPlan {
            total_router_bytes,
            pinned_sram_bytes,
            pinned_layer_count,
            total_layers: layers,
            sram_exhaustion_prevented: total_router_bytes > self.max_router_sram_bytes,
        }
    }

    /// The extended data of the embedded metadata.
    fn extended_data(&self) -> (r: String)
        requires
            self.can_plan(),
        ensures
            r@ == extended_data_text(self.format, self.topology@, self.plan()),
    {
        let plan = self.plan_router_sram();
        match self.format {
            XclbinFormat::MimicBuiltin => PLAIN_EXTENDED_DATA.to_owned(),
            XclbinFormat::Enhanced => {
                let dim = decimal_text(self.topology.hidden_dim as u64);
                let heads = decimal_text(self.topology.num_heads as u64);
                let kv_heads = decimal_text(self.topology.num_kv_heads as u64);
                let layers = decimal_text(self.topology.num_layers as u64);
                let experts = decimal_text(self.topology.num_experts as u64);
                let bytes = decimal_text(plan.pinned_sram_bytes as u64);
                let pinned = decimal_text(plan.pinned_layer_count as u64);
                r#"<extended-data subtype="1" functional="0" dpu_kernel_id="0x901" arch=""#.to_owned().concat(
                    self.topology.arch_name.as_str()).concat(r#"" hidden_dim=""#).concat(
                    dim.as_str(),
                ).concat(r#"" num_heads=""#).concat(heads.as_str()).concat(
                    r#"" num_kv_heads=""#,
                ).concat(kv_heads.as_str()).concat(r#"" layers=""#).concat(
                    layers.as_str(),
                ).concat(r#"" experts=""#).concat(experts.as_str()).concat(
                    r#"" router_sram_pinned_bytes=""#,
                ).concat(bytes.as_str()).concat(r#"" router_sram_layers=""#).concat(
                    pinned.as_str(),
                ).concat(r#""/>"#)
            },
        }
    }

    /// The section files that are packaged.
    pub fn section_files(&self) -> (r: XclbinSections)
        requires
            self.can_plan(),
        ensures
            r.mem_topology@ == mem_topology_text(self.format, self.topology.hidden_dim),
            r.ip_layout@ == IP_LAYOUT@,
            r.connectivity@ == CONNECTIVITY@,
            r.embedded_metadata@ == metadata_text(self.format, self.topology@, self.plan()),
            r.aie_partition@ == partition_text(
                self.format,
                self.topology.arch_name@,
                self.target,
            ),
            r.pdi_file_name@ == PDI_FILE_NAME@,
    {
        let sram: &str = match self.format {
            XclbinFormat::MimicBuiltin => "0xc000",
            XclbinFormat::Enhanced => {
                if self.topology.hidden_dim >= 4096 {
                    "0x10000"
                } else {
                    "0xc000"
                }
            },
        };
        let mem_topology = MEM_TOPOLOGY_HEAD.to_owned().concat(sram).concat(MEM_TOPOLOGY_TAIL);
        let extended = self.extended_data();
        let embedded_metadata = METADATA_HEAD.to_owned().concat(extended.as_str()).concat(
            METADATA_TAIL,
        );
        let name = match self.format {
            XclbinFormat::MimicBuiltin => String::new(),
            XclbinFormat::Enhanced => self.topology.arch_name.clone().concat("_").concat(
                self.target.as_str(),
            ),
        };
        let columns = decimal_text(self.target.column_width() as u64);
        let aie_partition = PARTITION_HEAD.to_owned().concat(name.as_str()).concat(
            PARTITION_COLUMNS,
        ).concat(columns.as_str()).concat(PARTITION_PDI).concat(PDI_UUID).concat(
            PARTITION_FILE,
        ).concat(PDI_FILE_NAME).concat(PARTITION_TAIL);
        XclbinSections {
            mem_topology,
            ip_layout: IP_LAYOUT.to_owned(),
            connectivity: CONNECTIVITY.to_owned(),
            embedded_metadata,
            aie_partition,
            pdi_file_name: PDI_FILE_NAME.to_owned(),
        }
    }

    /// The bytes of the XCLBIN: what the packaging tool made of the section files, or, where it
    /// made nothing, a binary that stands in for it.
    pub fn generate_xclbin_bytes(&self, default_pdi: &[u8], packaged: Option<Vec<u8>>) -> (r: Vec<
        u8,
    >)
        ensures
            r@ == self.xclbin(default_pdi@, packaged),
    {
        match packaged {
            Some(b) => b,
            None => {
                let last: u8 = match self.target {
                    TargetHardware::Npu1Aie2 => 0x31,
                    TargetHardware::Npu2Aie2p => 0x32,
                };
                let mut out: Vec<u8> = vec![
                    0x78, 0x63, 0x6C, 0x62, 0x69, 0x6E, 0x32, 0x00, 0x02, 0x00, 0x00, 0x00, 0x6E,
                    0x70, 0x75, last,
                ];
                push_zeros(&mut out, 48);
                match &self.custom_pdi {
                    Some(p) => push_bytes(&mut out, p.as_slice()),
                    None => push_bytes(&mut out, default_pdi),
                }
                assert(out@ =~= stand_in(self.target, self.pdi(default_pdi@)));
                out
            },
        }
    }

    /// The XCLBIN that is built: what the packaging tool made, or the stand-in.
    pub open spec fn xclbin(&self, default_pdi: Seq<u8>, packaged: Option<Vec<u8>>) -> Seq<u8> {
        match packaged {
            Some(b) => b@,
            None => stand_in(self.target, self.pdi(default_pdi)),
        }
    }

    /// Builds an XCLBIN and embeds it in a model: a GGUF file is converted to a container, a
    /// container is stamped.
    pub fn build_embedded(
        &self,
        default_pdi: &[u8],
        packaged: Option<Vec<u8>>,
        extension: &str,
        ctx: &FileContext,
        file: &[u8],
        converted_path: &str,
        output_path: Option<&str>,
    ) -> (r: Result<Embedded, ContainerError>)
        requires
            self.xclbin(default_pdi@, packaged).len() <= isize::MAX,
        ensures
            ({
                let xclbin = self.xclbin(default_pdi@, packaged);
                if same_but_case(extension@, "gguf"@) {
                match r {
                    Ok(e) => {
                        &&& parse_fault(file@) is None
                        &&& e.path@ == match output_path {
                            Some(p) => p@,
                            None => converted_path@,
                        }
                        &&& e.image@ == converted_image(lowered(ctx.stem@), file@, xclbin)
                    },
                    Err(e) => parse_fault(file@) == Some(e@),
                }
            } else if same_but_case(extension@, "q4nx"@) {
                match r {
                    Ok(e) => {
                        &&& open_fault(file@) is None
                        &&& e.path@ == match output_path {
                            Some(p) => p@,
                            None => ctx.path@,
                        }
                        &&& exists|before: Q4nxModel| #[trigger]
                            before.holds(*ctx, file@) && e.image@ == restamped(
                                before,
                                file@,
                                xclbin,
                            )
                    },
                    Err(e) => open_fault(file@) == Some(e@),
                }
            } else {
                r is Err && r->Err_0@ == ContainerFault::CorruptedHeader(
                    bad_model_text(extension@),
                )
            }
            }),
    {
        let built = self.generate_xclbin_bytes(default_pdi, packaged);
        let xclbin: &[u8] = built.as_slice();
        if eq_ignore_case(extension, "gguf") {
            let path: &str = match output_path {
                Some(p) => p,
                None => converted_path,
            };
            match convert_gguf_to_q4nx(ctx.stem.as_str(), file, xclbin) {
                Ok(image) => Ok(Embedded { path: path.to_owned(), image }),
                Err(e) => Err(e),
            }
        } else if eq_ignore_case(extension, "q4nx") {
            let path: &str = match output_path {
                Some(p) => p,
                None => ctx.path.as_str(),
            };
            match Q4nxModel::open(ctx, file) {
                Err(e) => Err(e),
                Ok(model) => {
                    let mut model = model;
                    let ghost before = model;
                    match model.stamp_xclbin(xclbin, Some(path), file) {
                        Ok(image) => {
                            assert(before.holds(*ctx, file@));
                            Ok(Embedded { path: path.to_owned(), image })
                        },
                        Err(e) => Err(e),
                    }
                },
            }
        } else {
            let text = "Invalid model extension: ".to_owned().concat(extension).concat(
                ". Expected .gguf or .q4nx",
            );
            Err(ContainerError::CorruptedHeader(text))
        }
    }
}

/// The stand-in begins with the magic bytes of an XCLBIN and holds the hardware image behind
/// its 64-byte header.
pub proof fn law_stand_in_layout(target: TargetHardware, pdi: Seq<u8>)
    ensures
        stand_in(target, pdi).len() == 64 + pdi.len(),
        stand_in(target, pdi).take(8) == seq![
            0x78u8,
            0x63u8,
            0x6Cu8,
            0x62u8,
            0x69u8,
            0x6Eu8,
            0x32u8,
            0x00u8,
        ],
        stand_in(target, pdi).skip(64) == pdi,
{
    assert(stand_in(target, pdi).take(8) =~= seq![
        0x78u8,
        0x63u8,
        0x6Cu8,
        0x62u8,
        0x69u8,
        0x6Eu8,
        0x32u8,
        0x00u8,
    ]);
    assert(stand_in(target, pdi).skip(64) =~= pdi);
}

} // verus!
