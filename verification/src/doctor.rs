//! Diagnosis of hardware and drivers.
//!
//! What was found on the system is handed in; what it means is decided here.

use vstd::prelude::*;
use vstd::string::*;

use crate::text::{
    chars_of, contains, has_text, matches_at, occurs_at, string_of, trim, trimmed,
};

verus! {

/// Result of one check.
#[derive(Debug)]
pub struct CheckResult {
    pub name: &'static str,
    pub status: bool,
    pub details: String,
    pub recommendation: Option<String>,
}

/// A [`CheckResult`] as mathematical values.
pub struct Check {
    pub name: Seq<char>,
    pub status: bool,
    pub details: Seq<char>,
    pub recommendation: Option<Seq<char>>,
}

impl View for CheckResult {
    type V = Check;

    open spec fn view(&self) -> Check {
        Check {
            name: self.name@,
            status: self.status,
            details: self.details@,
            recommendation: match self.recommendation {
                Some(s) => Some(s@),
                None => None,
            },
        }
    }
}

/// What was found on the system.
pub struct SystemProbe {
    /// Text of `/proc/cpuinfo`; empty where it cannot be read.
    pub cpu_info: String,
    /// Whether `/dev/dri/renderD128` is there.
    pub has_render_node: bool,
    /// Whether `/dev/kfd` is there.
    pub has_kfd: bool,
    /// Whether `/dev/accel/accel0` is there.
    pub has_accel: bool,
    /// Whether a ROCm runtime library is there.
    pub has_rocm: bool,
    /// Names of the user's groups; empty where they are not known.
    pub groups: String,
}

// ---------------------------------------------------------------------------
// The name of the processor
// ---------------------------------------------------------------------------

/// A line that begins with `prefix` starts at `i`.
pub open spec fn line_starts(s: Seq<char>, prefix: Seq<char>, i: int) -> bool {
    (i == 0 || (0 < i <= s.len() && s[i - 1] == '\n')) && occurs_at(s, prefix, i)
}

/// The first line, from `i` on, that begins with `prefix`.
pub open spec fn first_line(s: Seq<char>, prefix: Seq<char>, i: int) -> Option<int>
    decreases s.len() - i,
{
    if i < 0 || i >= s.len() {
        None
    } else if line_starts(s, prefix, i) {
        Some(i)
    } else {
        first_line(s, prefix, i + 1)
    }
}

/// The first place from `i` on that holds one of two characters, or the end.
pub open spec fn first_of(s: Seq<char>, a: char, b: char, i: int) -> int
    decreases s.len() - i,
{
    if i < 0 || i >= s.len() {
        s.len() as int
    } else if s[i] == a || s[i] == b {
        i
    } else {
        first_of(s, a, b, i + 1)
    }
}

/// The value on the line that starts at `i`: the text between its first and its second colon,
/// without whitespace around it.
pub open spec fn line_value(s: Seq<char>, i: int) -> Seq<char> {
    let colon = first_of(s, ':', '\n', i);
    if colon < s.len() && s[colon] == ':' {
        trimmed(s.subrange(colon + 1, first_of(s, ':', '\n', colon + 1)))
    } else {
        Seq::empty()
    }
}

/// The name of the processor.
pub open spec fn cpu_name(cpu_info: Seq<char>) -> Seq<char> {
    match first_line(cpu_info, "model name"@, 0) {
        Some(i) => line_value(cpu_info, i),
        None => "Unknown CPU"@,
    }
}

/// The first place from `from` on that holds one of two characters, or the end.
fn find_of(s: &[char], a: char, b: char, from: usize) -> (r: usize)
    requires
        from <= s@.len(),
    ensures
        r == first_of(s@, a, b, from as int),
        from <= r <= s@.len(),
{
    let mut i: usize = from;
    while i < s.len() && s[i] != a && s[i] != b
        invariant
            from <= i <= s@.len(),
            first_of(s@, a, b, i as int) == first_of(s@, a, b, from as int),
        ensures
            from <= i <= s@.len(),
            first_of(s@, a, b, i as int) == first_of(s@, a, b, from as int),
            i < s@.len() ==> s@[i as int] == a || s@[i as int] == b,
        decreases s@.len() - i,
    {
        i = i + 1;
    }
    i
}

/// The name of the processor.
fn read_cpu_name(cpu_info: &str) -> (r: String)
    ensures
        r@ == cpu_name(cpu_info@),
{
    let s = chars_of(cpu_info);
    let prefix = chars_of("model name");
    let mut i: usize = 0;
    while i < s.len()
        invariant
            i <= s@.len(),
            s@ == cpu_info@,
            prefix@ == "model name"@,
            first_line(s@, prefix@, i as int) == first_line(s@, prefix@, 0),
        decreases s@.len() - i,
    {
        if (i == 0 || s[i - 1] == '\n') && matches_at(&s, &prefix, i) {
            let colon: usize = find_of(&s, ':', '\n', i);
            if colon < s.len() && s[colon] == ':' {
                let end: usize = find_of(&s, ':', '\n', colon + 1);
                let value = string_of(&s[colon + 1..end]);
                return trim(value.as_str());
            }
            let none = String::new();
            assert(none@ =~= Seq::<char>::empty());
            return none;
        }
        i = i + 1;
    }
    "Unknown CPU".to_owned()
}

// ---------------------------------------------------------------------------
// The checks
// ---------------------------------------------------------------------------

/// A check with one text where it is passed and another, with advice, where it is not.
pub open spec fn simple_check(
    name: Seq<char>,
    ok: bool,
    found: Seq<char>,
    missing: Seq<char>,
    advice: Seq<char>,
) -> Check {
    Check {
        name,
        status: ok,
        details: if ok {
            found
        } else {
            missing
        },
        recommendation: if ok {
            None
        } else {
            Some(advice)
        },
    }
}

fn make_check(
    name: &'static str,
    ok: bool,
    found: &str,
    missing: &str,
    advice: &str,
) -> (r: CheckResult)
    ensures
        r@ == simple_check(name@, ok, found@, missing@, advice@),
{
    CheckResult {
        name,
        status: ok,
        details: if ok {
            found.to_owned()
        } else {
            missing.to_owned()
        },
        recommendation: if ok {
            None
        } else {
            Some(advice.to_owned())
        },
    }
}

/// The processor has the vector instructions that sampling is fastest with.
pub open spec fn cpu_check(cpu_info: Seq<char>) -> Check {
    let ok = has_text(cpu_info, "avx512f"@) || has_text(cpu_info, "avx512"@);
    simple_check(
        "Zen 5 CPU & AVX-512 SIMD"@,
        ok,
        cpu_name(cpu_info) + " (AVX-512: "@ + "Supported"@ + ")"@,
        cpu_name(cpu_info) + " (AVX-512: "@ + "Missing"@ + ")"@,
        "AMD Zen 4 or Zen 5 CPU with AVX-512 is recommended for optimal sampler/CPU performance."@,
    )
}

/// The user may use the hardware.
pub open spec fn permission_check(groups: Seq<char>) -> Check {
    let render = has_text(groups, "render"@);
    let video = has_text(groups, "video"@);
    let text = "render: "@ + (if render {
        "OK"@
    } else {
        "Missing"@
    }) + ", video: "@ + (if video {
        "OK"@
    } else {
        "Missing"@
    });
    simple_check(
        "User Hardware Permissions"@,
        render && video,
        text,
        text,
        "Add user to render and video groups: 'sudo usermod -a -G render,video $USER' and log back in."@,
    )
}

/// All checks, in order.
pub open spec fn all_checks(p: SystemProbe) -> Seq<Check> {
    seq![
        cpu_check(p.cpu_info@),
        simple_check(
            "AMDGPU DRM Render Node (/dev/dri/renderD128)"@,
            p.has_render_node,
            "Present"@,
            "Not found"@,
            "Ensure amdgpu kernel driver is loaded: 'modprobe amdgpu'"@,
        ),
        simple_check(
            "AMDGPU KFD Compute Node (/dev/kfd)"@,
            p.has_kfd,
            "Present (ROCm/HIP Compute Ready)"@,
            "Not found"@,
            "ROCm compute requires /dev/kfd. Ensure user is in 'render' or 'kfd' group."@,
        ),
        simple_check(
            "AMD XDNA 2 NPU Node (/dev/accel/accel0)"@,
            p.has_accel,
            "Present (amdxdna driver active)"@,
            "Not found (Fallback to UAPI Mock)"@,
            "NPU requires amdxdna driver. Check 'dmesg | grep -i amdxdna' or load amdxdna kernel module."@,
        ),
        simple_check(
            "ROCm / HIP Runtime Libraries"@,
            p.has_rocm,
            "Installed"@,
            "Not found in standard paths"@,
            "Install ROCm runtime: 'sudo apt install rocm-hip-runtime' or consult https://rocm.docs.amd.com"@,
        ),
        permission_check(p.groups@),
    ]
}

/// Results as mathematical values.
pub open spec fn checks_of(v: Seq<CheckResult>) -> Seq<Check> {
    v.map_values(|c: CheckResult| c@)
}

/// Judges what was found on the system.
pub fn run_diagnostics(probe: &SystemProbe) -> (r: Vec<CheckResult>)
    ensures
        checks_of(r@) == all_checks(*probe),
{
    let cpu = probe.cpu_info.as_str();
    let has_avx512: bool = contains(cpu, "avx512f") || contains(cpu, "avx512");
    let name = read_cpu_name(cpu);
    let found = name.clone().concat(" (AVX-512: ").concat("Supported").concat(")");
    let missing = name.concat(" (AVX-512: ").concat("Missing").concat(")");
    let in_render: bool = contains(probe.groups.as_str(), "render");
    let in_video: bool = contains(probe.groups.as_str(), "video");
    let render: &str = if in_render {
        "OK"
    } else {
        "Missing"
    };
    let video: &str = if in_video {
        "OK"
    } else {
        "Missing"
    };
    let groups = "render: ".to_owned().concat(render).concat(", video: ").concat(video);
    let results: Vec<CheckResult> = vec![
        make_check(
            "Zen 5 CPU & AVX-512 SIMD",
            has_avx512,
            found.as_str(),
            missing.as_str(),
            "AMD Zen 4 or Zen 5 CPU with AVX-512 is recommended for optimal sampler/CPU performance.",
        ),
        make_check(
            "AMDGPU DRM Render Node (/dev/dri/renderD128)",
            probe.has_render_node,
            "Present",
            "Not found",
            "Ensure amdgpu kernel driver is loaded: 'modprobe amdgpu'",
        ),
        make_check(
            "AMDGPU KFD Compute Node (/dev/kfd)",
            probe.has_kfd,
            "Present (ROCm/HIP Compute Ready)",
            "Not found",
            "ROCm compute requires /dev/kfd. Ensure user is in 'render' or 'kfd' group.",
        ),
        make_check(
            "AMD XDNA 2 NPU Node (/dev/accel/accel0)",
            probe.has_accel,
            "Present (amdxdna driver active)",
            "Not found (Fallback to UAPI Mock)",
            "NPU requires amdxdna driver. Check 'dmesg | grep -i amdxdna' or load amdxdna kernel module.",
        ),
        make_check(
            "ROCm / HIP Runtime Libraries",
            probe.has_rocm,
            "Installed",
            "Not found in standard paths",
            "Install ROCm runtime: 'sudo apt install rocm-hip-runtime' or consult https://rocm.docs.amd.com",
        ),
        make_check(
            "User Hardware Permissions",
            in_render && in_video,
            groups.as_str(),
            groups.as_str(),
            "Add user to render and video groups: 'sudo usermod -a -G render,video $USER' and log back in.",
        ),
    ];
    assert(checks_of(results@) =~= all_checks(*probe));
    results
}

// ---------------------------------------------------------------------------
// The report
// ---------------------------------------------------------------------------

/// A ruler across the report.
pub const RULER: &'static str = "============================================================\n";

/// One check as part of the report.
pub open spec fn check_text(c: Check) -> Seq<char> {
    (if c.status {
        "\u{1b}[32m[ PASS ]\u{1b}[0m"@
    } else {
        "\u{1b}[31m[ FAIL ]\u{1b}[0m"@
    }) + " "@ + c.name + ": "@ + c.details + "\n"@ + match c.recommendation {
        Some(s) => "         \u{1b}[33mRecommendation: "@ + s + "\u{1b}[0m\n"@,
        None => Seq::empty(),
    }
}

/// The first `n` checks as part of the report.
pub open spec fn checks_text(cs: Seq<Check>, n: nat) -> Seq<char>
    decreases n,
{
    if n == 0 {
        Seq::empty()
    } else {
        checks_text(cs, (n - 1) as nat) + check_text(cs[n - 1])
    }
}

/// Every check is passed.
pub open spec fn all_passed(cs: Seq<Check>) -> bool {
    forall|i: int| 0 <= i < cs.len() ==> (#[trigger] cs[i]).status
}

/// The report on a sequence of checks.
pub open spec fn report_of(cs: Seq<Check>) -> Seq<char> {
    RULER@ + " AMD Ryzen AI APU Hardware & Runtime Diagnostic (Doctor)\n"@ + RULER@ + checks_text(
        cs,
        cs.len(),
    ) + RULER@ + (if all_passed(cs) {
        "\u{1b}[32mStatus: All checks passed. System ready for zero-copy APU inference!\u{1b}[0m\n"@
    } else {
        "\u{1b}[33mStatus: Some checks failed. Zero-copy runner will fall back to CPU or mock.\u{1b}[0m\n"@
    }) + RULER@
}

/// The report on the checks.
pub fn doctor_report(checks: &[CheckResult]) -> (r: String)
    ensures
        r@ == report_of(checks_of(checks@)),
{
    let ghost cs = checks_of(checks@);
    let mut body = String::new();
    let mut all_ok: bool = true;
    let mut i: usize = 0;
    while i < checks.len()
        invariant
            i <= checks@.len(),
            cs == checks_of(checks@),
            body@ == checks_text(cs, i as nat),
            all_ok <==> forall|k: int| 0 <= k < i ==> (#[trigger] cs[k]).status,
        decreases checks@.len() - i,
    {
        let c: &CheckResult = &checks[i];
        assert(cs[i as int] == c@);
        let mark: &str = if c.status {
            "\u{1b}[32m[ PASS ]\u{1b}[0m"
        } else {
            "\u{1b}[31m[ FAIL ]\u{1b}[0m"
        };
        if !c.status {
            all_ok = false;
        }
        let advice: String = match &c.recommendation {
            Some(s) => "         \u{1b}[33mRecommendation: ".to_owned().concat(s.as_str()).concat(
                "\u{1b}[0m\n",
            ),
            None => String::new(),
        };
        assert(advice@ =~= match c@.recommendation {
            Some(s) => "         \u{1b}[33mRecommendation: "@ + s + "\u{1b}[0m\n"@,
            None => Seq::empty(),
        });
        let text = mark.to_owned().concat(" ").concat(c.name).concat(": ").concat(
            c.details.as_str(),
        ).concat("\n").concat(advice.as_str());
        assert(text@ == check_text(c@));
        body.append(text.as_str());
        i = i + 1;
    }
    let status: &str = if all_ok {
        "\u{1b}[32mStatus: All checks passed. System ready for zero-copy APU inference!\u{1b}[0m\n"
    } else {
        "\u{1b}[33mStatus: Some checks failed. Zero-copy runner will fall back to CPU or mock.\u{1b}[0m\n"
    };
    RULER.to_owned().concat(" AMD Ryzen AI APU Hardware & Runtime Diagnostic (Doctor)\n").concat(
        RULER,
    ).concat(body.as_str()).concat(RULER).concat(status).concat(RULER)
}

/// A check comes with advice exactly where it is not passed.
pub proof fn law_advice_only_for_failed_checks(p: SystemProbe, i: int)
    requires
        0 <= i < 6,
    ensures
        all_checks(p).len() == 6,
        all_checks(p)[i].status <==> all_checks(p)[i].recommendation is None,
{
}

} // verus!
