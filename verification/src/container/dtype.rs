//! Tensor element types and which of them the hardware takes.

use vstd::prelude::*;
use vstd::std_specs::convert::FromSpecImpl;
use vstd::string::*;

use crate::container::{ContainerError, ContainerFault};
use crate::text::{decimal, decimal_text};

verus! {

/// Tensor element data type, by its GGML identifier.
#[derive(Debug, Clone, Copy, PartialEq, Eq, Structural)]
pub enum TensorDType {
    F32,
    F16,
    Q4_0,
    Q4_1,
    Q5_0,
    Q5_1,
    Q8_0,
    Q8_1,
    Q2_K,
    Q3_K,
    Q4_K,
    Q5_K,
    Q6_K,
    Q8_K,
    IQ2_XXS,
    IQ2_XS,
    IQ3_XXS,
    IQ1_S,
    IQ4_NL,
    IQ3_S,
    IQ2_S,
    IQ4_XS,
    I8,
    I16,
    I32,
    I64,
    F64,
    IQ1_M,
    BF16,
    Q1_0,
    BILLM,
    Unknown(u32),
}

/// The element type of a GGML identifier.
pub open spec fn dtype_of(val: u32) -> TensorDType {
    match val {
        0 => TensorDType::F32,
        1 => TensorDType::F16,
        2 => TensorDType::Q4_0,
        3 => TensorDType::Q4_1,
        6 => TensorDType::Q5_0,
        7 => TensorDType::Q5_1,
        8 => TensorDType::Q8_0,
        9 => TensorDType::Q8_1,
        10 => TensorDType::Q2_K,
        11 => TensorDType::Q3_K,
        12 => TensorDType::Q4_K,
        13 => TensorDType::Q5_K,
        14 => TensorDType::Q6_K,
        15 => TensorDType::Q8_K,
        16 => TensorDType::IQ2_XXS,
        17 => TensorDType::IQ2_XS,
        18 => TensorDType::IQ3_XXS,
        19 => TensorDType::IQ1_S,
        20 => TensorDType::IQ4_NL,
        21 => TensorDType::IQ3_S,
        22 => TensorDType::IQ2_S,
        23 => TensorDType::IQ4_XS,
        24 => TensorDType::I8,
        25 => TensorDType::I16,
        26 => TensorDType::I32,
        27 => TensorDType::I64,
        28 => TensorDType::F64,
        29 => TensorDType::IQ1_M,
        30 => TensorDType::BF16,
        41 => TensorDType::Q1_0,
        42 => TensorDType::BILLM,
        _ => TensorDType::Unknown(val),
    }
}

impl FromSpecImpl<u32> for TensorDType {
    open spec fn obeys_from_spec() -> bool {
        true
    }

    open spec fn from_spec(val: u32) -> TensorDType {
        dtype_of(val)
    }
}

impl From<u32> for TensorDType {
    fn from(val: u32) -> (r: TensorDType) {
        match val {
            0 => TensorDType::F32,
            1 => TensorDType::F16,
            2 => TensorDType::Q4_0,
            3 => TensorDType::Q4_1,
            6 => TensorDType::Q5_0,
            7 => TensorDType::Q5_1,
            8 => TensorDType::Q8_0,
            9 => TensorDType::Q8_1,
            10 => TensorDType::Q2_K,
            11 => TensorDType::Q3_K,
            12 => TensorDType::Q4_K,
            13 => TensorDType::Q5_K,
            14 => TensorDType::Q6_K,
            15 => TensorDType::Q8_K,
            16 => TensorDType::IQ2_XXS,
            17 => TensorDType::IQ2_XS,
            18 => TensorDType::IQ3_XXS,
            19 => TensorDType::IQ1_S,
            20 => TensorDType::IQ4_NL,
            21 => TensorDType::IQ3_S,
            22 => TensorDType::IQ2_S,
            23 => TensorDType::IQ4_XS,
            24 => TensorDType::I8,
            25 => TensorDType::I16,
            26 => TensorDType::I32,
            27 => TensorDType::I64,
            28 => TensorDType::F64,
            29 => TensorDType::IQ1_M,
            30 => TensorDType::BF16,
            41 => TensorDType::Q1_0,
            42 => TensorDType::BILLM,
            other => TensorDType::Unknown(other),
        }
    }
}

/// Integer and floating-point types of 8 bits and more, the block types of four to eight bits
/// per weight, and the sign-bit types `Q1_0` and `BILLM`.
pub open spec fn supported_on_apu(d: TensorDType) -> bool {
    match d {
        TensorDType::F32 | TensorDType::F16 | TensorDType::BF16 | TensorDType::F64 => true,
        TensorDType::I8 | TensorDType::I16 | TensorDType::I32 | TensorDType::I64 => true,
        TensorDType::Q4_0 | TensorDType::Q4_1 | TensorDType::Q4_K => true,
        TensorDType::IQ4_NL | TensorDType::IQ4_XS => true,
        TensorDType::Q5_0 | TensorDType::Q5_1 | TensorDType::Q5_K | TensorDType::Q6_K => true,
        TensorDType::Q8_0 | TensorDType::Q8_1 | TensorDType::Q8_K => true,
        TensorDType::Q1_0 | TensorDType::BILLM => true,
        _ => false,
    }
}

/// The block types with fewer than four bits per weight whose blocks do not suit the hardware.
pub open spec fn sub_four_bit(d: TensorDType) -> bool {
    match d {
        TensorDType::IQ1_S | TensorDType::IQ1_M => true,
        TensorDType::IQ2_XXS | TensorDType::IQ2_XS | TensorDType::IQ2_S | TensorDType::Q2_K => true,
        TensorDType::IQ3_XXS | TensorDType::IQ3_S | TensorDType::Q3_K => true,
        _ => false,
    }
}

/// The name of an element type.
pub open spec fn dtype_name(d: TensorDType) -> Seq<char> {
    match d {
        TensorDType::F32 => "F32"@,
        TensorDType::F16 => "F16"@,
        TensorDType::Q4_0 => "Q4_0"@,
        TensorDType::Q4_1 => "Q4_1"@,
        TensorDType::Q5_0 => "Q5_0"@,
        TensorDType::Q5_1 => "Q5_1"@,
        TensorDType::Q8_0 => "Q8_0"@,
        TensorDType::Q8_1 => "Q8_1"@,
        TensorDType::Q2_K => "Q2_K"@,
        TensorDType::Q3_K => "Q3_K"@,
        TensorDType::Q4_K => "Q4_K"@,
        TensorDType::Q5_K => "Q5_K"@,
        TensorDType::Q6_K => "Q6_K"@,
        TensorDType::Q8_K => "Q8_K"@,
        TensorDType::IQ2_XXS => "IQ2_XXS"@,
        TensorDType::IQ2_XS => "IQ2_XS"@,
        TensorDType::IQ3_XXS => "IQ3_XXS"@,
        TensorDType::IQ1_S => "IQ1_S"@,
        TensorDType::IQ4_NL => "IQ4_NL"@,
        TensorDType::IQ3_S => "IQ3_S"@,
        TensorDType::IQ2_S => "IQ2_S"@,
        TensorDType::IQ4_XS => "IQ4_XS"@,
        TensorDType::I8 => "I8"@,
        TensorDType::I16 => "I16"@,
        TensorDType::I32 => "I32"@,
        TensorDType::I64 => "I64"@,
        TensorDType::F64 => "F64"@,
        TensorDType::IQ1_M => "IQ1_M"@,
        TensorDType::BF16 => "BF16"@,
        TensorDType::Q1_0 => "Q1_0"@,
        TensorDType::BILLM => "BILLM"@,
        TensorDType::Unknown(n) => "Unknown("@ + decimal(n as nat) + ")"@,
    }
}

/// What a user is told of a tensor whose type is refused.
pub open spec fn refusal_text(tensor_name: Seq<char>, d: TensorDType) -> Seq<char> {
    "Tensor '"@ + tensor_name + "' uses unsupported quantization format '"@ + dtype_name(d)
        + "'. Sub-4-bit quantizations (IQ1, IQ2, Q2, IQ3, Q3) are not supported on AMD Ryzen AI APUs due to severe perplexity loss and non-aligned AIE2P hardware memory strides. Supported range is Q4 through Q16 (Q4_0, Q4_K, IQ4_NL, Q5_K, Q6_K, Q8_0, F16, BF16)."@
}

impl TensorDType {
    /// The name of the element type.
    pub fn name(&self) -> (r: String)
        ensures
            r@ == dtype_name(*self),
    {
        match *self {
            TensorDType::F32 => "F32".to_owned(),
            TensorDType::F16 => "F16".to_owned(),
            TensorDType::Q4_0 => "Q4_0".to_owned(),
            TensorDType::Q4_1 => "Q4_1".to_owned(),
            TensorDType::Q5_0 => "Q5_0".to_owned(),
            TensorDType::Q5_1 => "Q5_1".to_owned(),
            TensorDType::Q8_0 => "Q8_0".to_owned(),
            TensorDType::Q8_1 => "Q8_1".to_owned(),
            TensorDType::Q2_K => "Q2_K".to_owned(),
            TensorDType::Q3_K => "Q3_K".to_owned(),
            TensorDType::Q4_K => "Q4_K".to_owned(),
            TensorDType::Q5_K => "Q5_K".to_owned(),
            TensorDType::Q6_K => "Q6_K".to_owned(),
            TensorDType::Q8_K => "Q8_K".to_owned(),
            TensorDType::IQ2_XXS => "IQ2_XXS".to_owned(),
            TensorDType::IQ2_XS => "IQ2_XS".to_owned(),
            TensorDType::IQ3_XXS => "IQ3_XXS".to_owned(),
            TensorDType::IQ1_S => "IQ1_S".to_owned(),
            TensorDType::IQ4_NL => "IQ4_NL".to_owned(),
            TensorDType::IQ3_S => "IQ3_S".to_owned(),
            TensorDType::IQ2_S => "IQ2_S".to_owned(),
            TensorDType::IQ4_XS => "IQ4_XS".to_owned(),
            TensorDType::I8 => "I8".to_owned(),
            TensorDType::I16 => "I16".to_owned(),
            TensorDType::I32 => "I32".to_owned(),
            TensorDType::I64 => "I64".to_owned(),
            TensorDType::F64 => "F64".to_owned(),
            TensorDType::IQ1_M => "IQ1_M".to_owned(),
            TensorDType::BF16 => "BF16".to_owned(),
            TensorDType::Q1_0 => "Q1_0".to_owned(),
            TensorDType::BILLM => "BILLM".to_owned(),
            TensorDType::Unknown(n) => {
                let digits = decimal_text(n as u64);
                "Unknown(".to_owned().concat(digits.as_str()).concat(")")
            },
        }
    }

    /// Whether the hardware takes this type.
    pub fn is_supported_on_apu(&self) -> (r: bool)
        ensures
            r == supported_on_apu(*self),
    {
        match *self {
            TensorDType::F32 | TensorDType::F16 | TensorDType::BF16 | TensorDType::F64 => true,
            TensorDType::I8 | TensorDType::I16 | TensorDType::I32 | TensorDType::I64 => true,
            TensorDType::Q4_0 | TensorDType::Q4_1 | TensorDType::Q4_K => true,
            TensorDType::IQ4_NL | TensorDType::IQ4_XS => true,
            TensorDType::Q5_0 | TensorDType::Q5_1 | TensorDType::Q5_K | TensorDType::Q6_K => true,
            TensorDType::Q8_0 | TensorDType::Q8_1 | TensorDType::Q8_K => true,
            TensorDType::Q1_0 | TensorDType::BILLM => true,
            _ => false,
        }
    }

    /// Refuses a type that the hardware does not take, with a text that says what it takes.
    pub fn validate_apu_support(&self, tensor_name: &str) -> (r: Result<(), ContainerError>)
        ensures
            match r {
                Ok(_) => supported_on_apu(*self),
                Err(e) => !supported_on_apu(*self) && e@ == ContainerFault::UnsupportedQuantization(
                    refusal_text(tensor_name@, *self),
                ),
            },
    {
        if self.is_supported_on_apu() {
            Ok(())
        } else {
            let name = self.name();
            let text = "Tensor '".to_owned().concat(tensor_name).concat(
                "' uses unsupported quantization format '",
            ).concat(name.as_str()).concat(
                "'. Sub-4-bit quantizations (IQ1, IQ2, Q2, IQ3, Q3) are not supported on AMD Ryzen AI APUs due to severe perplexity loss and non-aligned AIE2P hardware memory strides. Supported range is Q4 through Q16 (Q4_0, Q4_K, IQ4_NL, Q5_K, Q6_K, Q8_0, F16, BF16).",
            );
            Err(ContainerError::UnsupportedQuantization(text))
        }
    }
}

/// No block type with fewer than four bits per weight is taken; neither is an unknown type.
pub proof fn law_sub_four_bit_refused(d: TensorDType)
    ensures
        sub_four_bit(d) || d is Unknown <==> !supported_on_apu(d),
{
}

} // verus!
