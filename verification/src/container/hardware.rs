//! Hardware generations and output formats.

use vstd::prelude::*;
use vstd::string::*;

use crate::text::{
    all_ascii, ascii_lowered, contains, has_text, lemma_trimmed_already, lowered, occurs_at,
    same_text, to_lowercase, trim, trimmed,
};

verus! {

/// Hardware target generation for the NPU.
#[derive(Debug, Clone, Copy, PartialEq, Eq, Structural)]
pub enum TargetHardware {
    /// Phoenix and Hawk Point: XDNA 1 / AIE2, 20 tiles (4x5 array).
    Npu1Aie2,
    /// Strix Point, Krackan Point, Gorgon Point and Strix Halo: XDNA 2 / AIE2P, 32 tiles
    /// (4x8 array).
    Npu2Aie2p,
}

/// The target that a lower-cased name stands for.
pub open spec fn target_of(norm: Seq<char>) -> Option<TargetHardware> {
    if norm == "npu1"@ || norm == "aie2"@ || norm == "phoenix"@ || norm == "hawkpoint"@ || norm
        == "7040"@ || norm == "8040"@ {
        Some(TargetHardware::Npu1Aie2)
    } else if norm == "npu2"@ || norm == "aie2p"@ || norm == "strix"@ || norm == "gorgon"@ || norm
        == "krackan"@ || norm == "strixhalo"@ || norm == "300"@ || norm == "395"@ {
        Some(TargetHardware::Npu2Aie2p)
    } else {
        None
    }
}

/// The short name of a target.
pub open spec fn target_name(t: TargetHardware) -> Seq<char> {
    match t {
        TargetHardware::Npu1Aie2 => "npu1"@,
        TargetHardware::Npu2Aie2p => "npu2"@,
    }
}

/// Columns of the tile array.
pub open spec fn target_columns(t: TargetHardware) -> u32 {
    match t {
        TargetHardware::Npu1Aie2 => 5,
        TargetHardware::Npu2Aie2p => 8,
    }
}

impl TargetHardware {
    /// The target that a name stands for, whatever its case and surrounding whitespace.
    pub fn from_str_loose(s: &str) -> (r: Option<TargetHardware>)
        ensures
            r == target_of(lowered(trimmed(s@))),
    {
        let t = trim(s);
        let norm = to_lowercase(t.as_str());
        Self::from_normalized(norm.as_str())
    }

    /// The target that a lower-cased name stands for.
    pub fn from_normalized(norm: &str) -> (r: Option<TargetHardware>)
        ensures
            r == target_of(norm@),
    {
        if same_text(norm, "npu1") || same_text(norm, "aie2") || same_text(norm, "phoenix")
            || same_text(norm, "hawkpoint") || same_text(norm, "7040") || same_text(norm, "8040") {
            Some(TargetHardware::Npu1Aie2)
        } else if same_text(norm, "npu2") || same_text(norm, "aie2p") || same_text(norm, "strix")
            || same_text(norm, "gorgon") || same_text(norm, "krackan") || same_text(
            norm,
            "strixhalo",
        ) || same_text(norm, "300") || same_text(norm, "395") {
            Some(TargetHardware::Npu2Aie2p)
        } else {
            None
        }
    }

    /// The short name of the target.
    pub fn as_str(&self) -> (r: &'static str)
        ensures
            r@ == target_name(*self),
    {
        match self {
            TargetHardware::Npu1Aie2 => "npu1",
            TargetHardware::Npu2Aie2p => "npu2",
        }
    }

    /// Columns of the tile array.
    pub fn column_width(&self) -> (r: u32)
        ensures
            r == target_columns(*self),
    {
        match self {
            TargetHardware::Npu1Aie2 => 5,
            TargetHardware::Npu2Aie2p => 8,
        }
    }

    /// What the target is.
    pub fn description(&self) -> (r: &'static str)
        ensures
            r@ == match *self {
                TargetHardware::Npu1Aie2 => "AMD XDNA 1 / AIE2 (Phoenix / Hawk Point 20-tile)"@,
                TargetHardware::Npu2Aie2p =>
                    "AMD XDNA 2 / AIE2P (Strix Point / Gorgon / Krackan / Strix Halo 32-tile)"@,
            },
    {
        match self {
            TargetHardware::Npu1Aie2 => "AMD XDNA 1 / AIE2 (Phoenix / Hawk Point 20-tile)",
            TargetHardware::Npu2Aie2p =>
                "AMD XDNA 2 / AIE2P (Strix Point / Gorgon / Krackan / Strix Halo 32-tile)",
        }
    }
}

/// Format of a synthesized XCLBIN.
#[derive(Debug, Clone, Copy, PartialEq, Eq, Structural)]
pub enum XclbinFormat {
    /// Architectural tags in the embedded metadata, and SRAM scaled to the model.
    Enhanced,
    /// The configuration, naming and 48 MB of SRAM of built-in production XCLBINs.
    MimicBuiltin,
}

impl Default for XclbinFormat {
    fn default() -> (r: XclbinFormat)
        ensures
            r == XclbinFormat::Enhanced,
    {
        XclbinFormat::Enhanced
    }
}

/// The format that a lower-cased name stands for.
pub open spec fn format_of(norm: Seq<char>) -> Option<XclbinFormat> {
    if has_text(norm, "mimic"@) || has_text(norm, "builtin"@) || has_text(norm, "legacy"@) {
        Some(XclbinFormat::MimicBuiltin)
    } else if has_text(norm, "enhanced"@) || has_text(norm, "default"@) || has_text(
        norm,
        "custom"@,
    ) {
        Some(XclbinFormat::Enhanced)
    } else {
        None
    }
}

/// The name of a format.
pub open spec fn format_name(f: XclbinFormat) -> Seq<char> {
    match f {
        XclbinFormat::Enhanced => "enhanced"@,
        XclbinFormat::MimicBuiltin => "mimic-builtin"@,
    }
}

impl XclbinFormat {
    /// The format that a name stands for, whatever its case and surrounding whitespace.
    pub fn from_str_loose(s: &str) -> (r: Option<XclbinFormat>)
        ensures
            r == format_of(lowered(trimmed(s@))),
    {
        let t = trim(s);
        let norm = to_lowercase(t.as_str());
        Self::from_normalized(norm.as_str())
    }

    /// The format that a lower-cased name stands for.
    pub fn from_normalized(norm: &str) -> (r: Option<XclbinFormat>)
        ensures
            r == format_of(norm@),
    {
        if contains(norm, "mimic") || contains(norm, "builtin") || contains(norm, "legacy") {
            Some(XclbinFormat::MimicBuiltin)
        } else if contains(norm, "enhanced") || contains(norm, "default") || contains(
            norm,
            "custom",
        ) {
            Some(XclbinFormat::Enhanced)
        } else {
            None
        }
    }

    /// The name of the format.
    pub fn as_str(&self) -> (r: &'static str)
        ensures
            r@ == format_name(*self),
    {
        match self {
            XclbinFormat::Enhanced => "enhanced",
            XclbinFormat::MimicBuiltin => "mimic-builtin",
        }
    }
}

/// The short name of a target is read back as that target.
pub proof fn law_target_name_reads_back(t: TargetHardware)
    ensures
        target_of(lowered(trimmed(target_name(t)))) == Some(t),
{
    reveal_strlit("npu1");
    reveal_strlit("npu2");
    reveal_strlit("aie2");
    reveal_strlit("phoenix");
    reveal_strlit("hawkpoint");
    reveal_strlit("7040");
    reveal_strlit("8040");
    let n = target_name(t);
    assert(ascii_lowered(n) =~= n);
    lemma_trimmed_already(n);
    if t == TargetHardware::Npu2Aie2p {
        assert(n[3] == '2');
        assert(n[0] == 'n' && n[2] == 'u');
        assert("npu1"@[3] == '1');
        assert("aie2"@[0] == 'a');
        assert("phoenix"@.len() == 7);
        assert("7040"@[0] == '7');
        assert("8040"@[0] == '8');
        assert("hawkpoint"@.len() == 9);
    }
}

/// The name of a format is read back as that format.
pub proof fn law_format_name_reads_back(f: XclbinFormat)
    ensures
        format_of(lowered(trimmed(format_name(f)))) == Some(f),
{
    lemma_format_names();
    if f == XclbinFormat::MimicBuiltin {
        lemma_mimic_name();
    } else {
        lemma_enhanced_name();
    }
}

proof fn lemma_format_names()
    ensures
        forall|f: XclbinFormat|
            {
                &&& trimmed(#[trigger] format_name(f)) == format_name(f)
                &&& all_ascii(format_name(f))
                &&& ascii_lowered(format_name(f)) == format_name(f)
            },
{
    assert forall|f: XclbinFormat|
        {
            &&& trimmed(#[trigger] format_name(f)) == format_name(f)
            &&& all_ascii(format_name(f))
            &&& ascii_lowered(format_name(f)) == format_name(f)
        } by {
        reveal_strlit("enhanced");
        reveal_strlit("mimic-builtin");
        let n = format_name(f);
        assert(ascii_lowered(n) =~= n);
        lemma_trimmed_already(n);
    }
}

proof fn lemma_mimic_name()
    ensures
        has_text("mimic-builtin"@, "mimic"@),
{
    reveal_strlit("mimic-builtin");
    reveal_strlit("mimic");
    assert("mimic-builtin"@.subrange(0, 5) =~= "mimic"@);
    assert(occurs_at("mimic-builtin"@, "mimic"@, 0));
}

proof fn lemma_enhanced_name()
    ensures
        has_text("enhanced"@, "enhanced"@),
        !has_text("enhanced"@, "mimic"@),
        !has_text("enhanced"@, "builtin"@),
        !has_text("enhanced"@, "legacy"@),
{
    let n = "enhanced"@;
    reveal_strlit("enhanced");
    assert(n.subrange(0, 8) =~= n);
    assert(occurs_at(n, n, 0));
    assert(!has_text(n, "mimic"@)) by {
        reveal_strlit("mimic");
        lemma_no_first_char(n, "mimic"@);
    }
    assert(!has_text(n, "builtin"@)) by {
        reveal_strlit("builtin");
        lemma_no_first_char(n, "builtin"@);
    }
    assert(!has_text(n, "legacy"@)) by {
        reveal_strlit("legacy");
        lemma_no_first_char(n, "legacy"@);
    }
}

/// A text in which the first character of `needle` does not occur does not hold `needle`.
proof fn lemma_no_first_char(hay: Seq<char>, needle: Seq<char>)
    requires
        needle.len() > 0,
        forall|i: int| 0 <= i < hay.len() ==> #[trigger] hay[i] != needle[0],
    ensures
        !has_text(hay, needle),
{
    assert forall|i: int| !occurs_at(hay, needle, i) by {
        if occurs_at(hay, needle, i) {
            assert(hay.subrange(i, i + needle.len())[0] == hay[i]);
        }
    }
}

} // verus!
