//! Token generation.

use vstd::prelude::*;

pub mod laws;
pub mod oracle;
pub mod pilot;
pub mod sampler;
pub mod triforce;
pub mod xrt_decode;

pub use oracle::DeterministicReferenceOracle;
pub use sampler::{argmax_scalar, FastRng, Sampler, SamplerConfig};
pub use triforce::{
    TriForceCacheConfig, TriForceSpeculativeEngine, TriForceStats, TriForceStepResult,
};
pub use xrt_decode::XrtDecodeEngine;

verus! {

/// Why an engine does not do what it was asked.
#[derive(Debug)]
pub enum EngineError {
    InitFailed(String),
    InvalidArgument(String),
    OutOfResources(String),
    LaunchFailed(String),
}

/// An [`EngineError`] as mathematical values.
pub enum EngineFault {
    InitFailed(Seq<char>),
    InvalidArgument(Seq<char>),
    OutOfResources(Seq<char>),
    LaunchFailed(Seq<char>),
}

impl View for EngineError {
    type V = EngineFault;

    open spec fn view(&self) -> EngineFault {
        match *self {
            EngineError::InitFailed(s) => EngineFault::InitFailed(s@),
            EngineError::InvalidArgument(s) => EngineFault::InvalidArgument(s@),
            EngineError::OutOfResources(s) => EngineFault::OutOfResources(s@),
            EngineError::LaunchFailed(s) => EngineFault::LaunchFailed(s@),
        }
    }
}

// ---------------------------------------------------------------------------
// Single-precision numbers by their bit patterns
// ---------------------------------------------------------------------------

/// The bit pattern is not a number.
pub open spec fn is_nan(bits: u32) -> bool {
    bits % 0x8000_0000 > 0x7F80_0000
}

/// The place of a number in the order of numbers: the magnitude of its bit pattern, with its
/// sign. Both zeros have the same place.
pub open spec fn order_key(bits: u32) -> int {
    if bits >= 0x8000_0000 {
        -(bits - 0x8000_0000)
    } else {
        bits as int
    }
}

/// The first number is greater than the second.
pub open spec fn greater(a: u32, b: u32) -> bool {
    !is_nan(a) && !is_nan(b) && order_key(a) > order_key(b)
}

/// Whether a bit pattern is not a number.
pub fn float_is_nan(bits: u32) -> (r: bool)
    ensures
        r == is_nan(bits),
{
    bits % 0x8000_0000 > 0x7F80_0000
}

/// Whether the first number is greater than the second.
pub fn float_greater(a: u32, b: u32) -> (r: bool)
    ensures
        r == greater(a, b),
{
    if float_is_nan(a) || float_is_nan(b) {
        return false;
    }
    let x: i64 = if a >= 0x8000_0000 {
        -((a - 0x8000_0000) as i64)
    } else {
        a as i64
    };
    let y: i64 = if b >= 0x8000_0000 {
        -((b - 0x8000_0000) as i64)
    } else {
        b as i64
    };
    x > y
}

} // verus!
