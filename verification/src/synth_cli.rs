//! Command line of the XCLBIN synthesizer.

use vstd::prelude::*;
use vstd::string::*;

use crate::container::hardware::XclbinFormat;
use crate::container::topology::{
    opened_topology, scan_fault, scan_of, topology_of, wide_header_text, ModelGraphTopology,
};
use crate::container::{
    open_fault, opened_hyperparams, ContainerError, ContainerFault, FileContext,
};
use crate::text::{contains, has_text, lowered, to_lowercase};

verus! {

/// What the synthesizer is asked for.
#[derive(Debug)]
pub struct SynthRequest {
    pub model_path: String,
    pub output_path: String,
    pub format: XclbinFormat,
}

/// The format that an argument asks for, by its lower-cased text.
pub open spec fn asked_format(lower: Seq<char>) -> XclbinFormat {
    if has_text(lower, "mimic"@) {
        XclbinFormat::MimicBuiltin
    } else {
        XclbinFormat::Enhanced
    }
}

/// The format that an argument asks for, by its lower-cased text.
pub fn format_argument(lower: &str) -> (r: XclbinFormat)
    ensures
        r == asked_format(lower@),
{
    if contains(lower, "mimic") {
        XclbinFormat::MimicBuiltin
    } else {
        XclbinFormat::Enhanced
    }
}

/// Reads the arguments: the program's name, the model, the output, and perhaps a format.
pub fn parse_synth_args(args: &[String]) -> (r: Option<SynthRequest>)
    ensures
        r is Some <==> args@.len() >= 3,
        r is Some ==> {
            &&& r->0.model_path@ == args@[1]@
            &&& r->0.output_path@ == args@[2]@
            &&& r->0.format == if args@.len() >= 4 {
                asked_format(lowered(args@[3]@))
            } else {
                XclbinFormat::Enhanced
            }
        },
{
    if args.len() < 3 {
        return None;
    }
    let format = if args.len() >= 4 {
        let lower = to_lowercase(args[3].as_str());
        format_argument(lower.as_str())
    } else {
        XclbinFormat::Enhanced
    };
    Some(SynthRequest { model_path: args[1].clone(), output_path: args[2].clone(), format })
}

/// The topology of a model file: read as GGUF, and as a container where it is none.
pub fn read_topology(stem: &str, ctx: &FileContext, file: &[u8]) -> (r: Result<
    ModelGraphTopology,
    ContainerError,
>)
    ensures
        if scan_fault(file@) is None {
            r is Ok && r->Ok_0@ == topology_of(scan_of(file@), lowered(stem@))
        } else if open_fault(file@) is Some {
            r is Err && Some(r->Err_0@) == open_fault(file@)
        } else if opened_hyperparams(*ctx, file@).hidden_dim * 8 <= u32::MAX {
            r is Ok && r->Ok_0@ == opened_topology(*ctx, file@)
        } else {
            r is Err && r->Err_0@ == ContainerFault::CorruptedHeader(wide_header_text())
        },
{
    match ModelGraphTopology::from_gguf(stem, file) {
        Ok(t) => Ok(t),
        Err(_) => ModelGraphTopology::from_q4nx(ctx, file),
    }
}

} // verus!
