//! What holds of diagnoses and of the texts of the command line as a whole.

use vstd::prelude::*;
use vstd::string::*;

use crate::container::converter::bad_extension_text;
use crate::container::dtype::{dtype_name, dtype_of, refusal_text, TensorDType};
use crate::container::xclbin_builder::{bad_model_text, RouterSramPlan};
use crate::container::ModelHyperparameters;
use crate::doctor::{
    all_checks, all_passed, check_text, checks_text, cpu_name, first_line, first_of, line_starts,
    line_value, report_of, Check, SystemProbe, RULER,
};
use crate::memory::strix_halo_tuning::{count_from, lists_wide_bus};
use crate::model_cli::{
    container_info_text, convert_banner_text, gguf_info_text, known_target, model_line_text,
    padded_left, padded_right, quantizer_argument_list, router_info_text, spaces, structure_lines,
};
use crate::text::{decimal, has_text, occurs_at, trimmed};

verus! {

// ---------------------------------------------------------------------------
// Checks
// ---------------------------------------------------------------------------

/// Each check is passed exactly where what it looks for was found.
pub proof fn law_checks_follow_what_was_found(p: SystemProbe)
    ensures
        ({
            let c = all_checks(p);
            &&& c.len() == 6
            &&& c[0].status <==> has_text(p.cpu_info@, "avx512"@)
            &&& c[1].status <==> p.has_render_node
            &&& c[2].status <==> p.has_kfd
            &&& c[3].status <==> p.has_accel
            &&& c[4].status <==> p.has_rocm
            &&& c[5].status <==> has_text(p.groups@, "render"@) && has_text(p.groups@, "video"@)
            &&& all_passed(c) <==> c[0].status && c[1].status && c[2].status && c[3].status
                && c[4].status && c[5].status
        }),
{
    let s = p.cpu_info@;
    reveal_strlit("avx512f");
    reveal_strlit("avx512");
    if has_text(s, "avx512f"@) {
        let i = choose|i: int| occurs_at(s, "avx512f"@, i);
        let t = s.subrange(i, i + "avx512f"@.len());
        assert(s.subrange(i, i + "avx512"@.len()) =~= t.take(6));
        assert("avx512f"@.take(6) =~= "avx512"@);
        assert(occurs_at(s, "avx512"@, i));
    }
    let c = all_checks(p);
    assert(c.len() == 6);
    if c[0].status && c[1].status && c[2].status && c[3].status && c[4].status && c[5].status {
        assert forall|i: int| 0 <= i < c.len() implies (#[trigger] c[i]).status by {
            assert(i == 0 || i == 1 || i == 2 || i == 3 || i == 4 || i == 5);
        }
    }
}

/// No line of the text before a place begins with the words that name the processor.
pub open spec fn unnamed_before(s: Seq<char>, n: int) -> bool {
    forall|i: int| 0 <= i < n ==> !#[trigger] line_starts(s, "model name"@, i)
}

/// The text has neither a colon nor a line break.
pub open spec fn within_a_field(s: Seq<char>) -> bool {
    forall|i: int| 0 <= i < s.len() ==> s[i] != ':' && s[i] != '\n'
}

proof fn lemma_first_of(s: Seq<char>, i: int, j: int)
    requires
        0 <= i <= j <= s.len(),
        j < s.len() ==> s[j] == ':' || s[j] == '\n',
        forall|k: int| i <= k < j ==> s[k] != ':' && s[k] != '\n',
    ensures
        first_of(s, ':', '\n', i) == j,
    decreases j - i,
{
    if i < j {
        lemma_first_of(s, i + 1, j);
    }
}

proof fn lemma_first_line(s: Seq<char>, i: int, j: int)
    requires
        0 <= i <= j < s.len(),
        line_starts(s, "model name"@, j),
        unnamed_before(s, j),
    ensures
        first_line(s, "model name"@, i) == Some(j),
    decreases j - i,
{
    if i < j {
        lemma_first_line(s, i + 1, j);
    }
}

/// The processor is called what the first line of that meaning says behind its colon.
pub proof fn law_processor_is_called_by_its_line(
    before: Seq<char>,
    gap: Seq<char>,
    value: Seq<char>,
    after: Seq<char>,
)
    requires
        before.len() == 0 || before.last() == '\n',
        within_a_field(gap),
        within_a_field(value),
        after.len() == 0 || after[0] == '\n' || after[0] == ':',
        unnamed_before(before + "model name"@ + gap + ":"@ + value + after, before.len() as int),
    ensures
        cpu_name(before + "model name"@ + gap + ":"@ + value + after) == trimmed(value),
{
    let s = before + "model name"@ + gap + ":"@ + value + after;
    reveal_strlit("model name");
    reveal_strlit(":");
    let i = before.len() as int;
    assert(s.subrange(i, i + "model name"@.len()) =~= "model name"@);
    assert(line_starts(s, "model name"@, i));
    lemma_first_line(s, 0, i);
    let colon = i + 10 + gap.len();
    assert(s[colon] == ':');
    assert forall|k: int| i <= k < colon implies s[k] != ':' && s[k] != '\n' by {
        if k < i + 10 {
            assert(s[k] == "model name"@[k - i]);
        } else {
            assert(s[k] == gap[k - i - 10]);
        }
    }
    lemma_first_of(s, i, colon);
    let end = colon + 1 + value.len();
    assert forall|k: int| colon + 1 <= k < end implies s[k] != ':' && s[k] != '\n' by {
        assert(s[k] == value[k - colon - 1]);
    }
    if end < s.len() {
        assert(s[end] == after[0]);
    }
    lemma_first_of(s, colon + 1, end);
    assert(s.subrange(colon + 1, end) =~= value);
    assert(line_value(s, i) == trimmed(value));
}

/// A processor that no line names is not known.
pub proof fn law_processor_without_a_line(s: Seq<char>)
    requires
        unnamed_before(s, s.len() as int),
    ensures
        cpu_name(s) == "Unknown CPU"@,
{
    lemma_no_line(s, 0);
}

proof fn lemma_no_line(s: Seq<char>, i: int)
    requires
        0 <= i <= s.len(),
        unnamed_before(s, s.len() as int),
    ensures
        first_line(s, "model name"@, i) is None,
    decreases s.len() - i,
{
    if i < s.len() {
        assert(!line_starts(s, "model name"@, i));
        lemma_no_line(s, i + 1);
    }
}

proof fn lemma_between(before: Seq<char>, x: Seq<char>, after: Seq<char>)
    ensures
        has_text(before + x + after, x),
{
    let all = before + x + after;
    assert(all.subrange(before.len() as int, (before.len() + x.len()) as int) =~= x);
    assert(occurs_at(all, x, before.len() as int));
}

proof fn lemma_checks_begin(cs: Seq<Check>, j: nat, n: nat) -> (rest: Seq<char>)
    requires
        j <= n,
    ensures
        checks_text(cs, n) == checks_text(cs, j) + rest,
    decreases n,
{
    if j == n {
        assert(checks_text(cs, n) =~= checks_text(cs, j) + Seq::empty());
        Seq::empty()
    } else {
        let r = lemma_checks_begin(cs, j, (n - 1) as nat);
        assert(checks_text(cs, n) =~= checks_text(cs, j) + (r + check_text(cs[n - 1])));
        r + check_text(cs[n - 1])
    }
}

proof fn lemma_report_shape(r: Seq<char>, t: Seq<char>, body: Seq<char>, status: Seq<char>)
    ensures
        r + t + r + body + r + status + r == (r + t + r) + body + (r + status + r),
{
    assert(r + t + r + body + r + status + r =~= (r + t + r) + body + (r + status + r));
}

proof fn lemma_report_parts(
    head: Seq<char>,
    before: Seq<char>,
    line: Seq<char>,
    advice: Seq<char>,
    rest: Seq<char>,
    end: Seq<char>,
)
    ensures
        ({
            let all = head + (before + (line + advice) + rest) + end;
            &&& has_text(all, line)
            &&& has_text(all, line + advice)
        }),
{
    let all = head + (before + (line + advice) + rest) + end;
    assert(all =~= (head + before) + line + (advice + rest + end));
    lemma_between(head + before, line, advice + rest + end);
    assert(all =~= (head + before) + (line + advice) + (rest + end));
    lemma_between(head + before, line + advice, rest + end);
}

/// Every check stands in the report: how it came out, what it is called and what was found. One
/// that was not passed is followed by its advice.
pub proof fn law_each_check_is_reported(cs: Seq<Check>, i: int)
    requires
        0 <= i < cs.len(),
    ensures
        ({
            let mark = if cs[i].status {
                "\u{1b}[32m[ PASS ]\u{1b}[0m"@
            } else {
                "\u{1b}[31m[ FAIL ]\u{1b}[0m"@
            };
            let line = mark + " "@ + cs[i].name + ": "@ + cs[i].details + "\n"@;
            &&& has_text(report_of(cs), line)
            &&& cs[i].recommendation is Some ==> has_text(
                report_of(cs),
                line + ("         \u{1b}[33mRecommendation: "@ + cs[i].recommendation->0
                    + "\u{1b}[0m\n"@),
            )
        }),
{
    let rest = lemma_checks_begin(cs, (i + 1) as nat, cs.len());
    let before = checks_text(cs, i as nat);
    let mark = if cs[i].status {
        "\u{1b}[32m[ PASS ]\u{1b}[0m"@
    } else {
        "\u{1b}[31m[ FAIL ]\u{1b}[0m"@
    };
    let line = mark + " "@ + cs[i].name + ": "@ + cs[i].details + "\n"@;
    let advice = match cs[i].recommendation {
        Some(s) => "         \u{1b}[33mRecommendation: "@ + s + "\u{1b}[0m\n"@,
        None => Seq::empty(),
    };
    assert(check_text(cs[i]) == line + advice);
    let head = RULER@ + " AMD Ryzen AI APU Hardware & Runtime Diagnostic (Doctor)\n"@ + RULER@;
    let tail = if all_passed(cs) {
        "\u{1b}[32mStatus: All checks passed. System ready for zero-copy APU inference!\u{1b}[0m\n"@
    } else {
        "\u{1b}[33mStatus: Some checks failed. Zero-copy runner will fall back to CPU or mock.\u{1b}[0m\n"@
    };
    let end = RULER@ + tail + RULER@;
    lemma_report_shape(
        RULER@,
        " AMD Ryzen AI APU Hardware & Runtime Diagnostic (Doctor)\n"@,
        checks_text(cs, cs.len()),
        tail,
    );
    assert(report_of(cs) == head + checks_text(cs, cs.len()) + end);
    assert(checks_text(cs, (i + 1) as nat) == before + check_text(cs[i]));
    lemma_report_parts(head, before, line, advice, rest, end);
}

/// A report ends with whether all checks were passed.
pub proof fn law_report_ends_with_the_status(cs: Seq<Check>)
    ensures
        ({
            let end = (if forall|i: int| 0 <= i < cs.len() ==> (#[trigger] cs[i]).status {
                "\u{1b}[32mStatus: All checks passed. System ready for zero-copy APU inference!\u{1b}[0m\n"@
            } else {
                "\u{1b}[33mStatus: Some checks failed. Zero-copy runner will fall back to CPU or mock.\u{1b}[0m\n"@
            }) + RULER@;
            &&& end.len() <= report_of(cs).len()
            &&& report_of(cs).skip(report_of(cs).len() - end.len()) == end
        }),
{
    let end = (if all_passed(cs) {
        "\u{1b}[32mStatus: All checks passed. System ready for zero-copy APU inference!\u{1b}[0m\n"@
    } else {
        "\u{1b}[33mStatus: Some checks failed. Zero-copy runner will fall back to CPU or mock.\u{1b}[0m\n"@
    }) + RULER@;
    assert(report_of(cs).skip(report_of(cs).len() - end.len()) =~= end);
}

// ---------------------------------------------------------------------------
// Processors
// ---------------------------------------------------------------------------

/// A text in which the word stands once before each of the gaps.
pub open spec fn listing(gaps: Seq<Seq<char>>) -> Seq<char>
    decreases gaps.len(),
{
    if gaps.len() == 0 {
        Seq::empty()
    } else {
        "processor"@ + gaps[0] + listing(gaps.skip(1))
    }
}

/// A gap does not hold the letter with which the word begins.
pub open spec fn without_p(s: Seq<char>) -> bool {
    forall|i: int| 0 <= i < s.len() ==> s[i] != 'p'
}

proof fn lemma_gap_is_passed(s: Seq<char>, i: int, j: int)
    requires
        0 <= i <= j <= s.len(),
        forall|k: int| i <= k < j ==> s[k] != 'p',
    ensures
        count_from(s, "processor"@, i) == count_from(s, "processor"@, j),
    decreases j - i,
{
    if i < j {
        reveal_strlit("processor");
        if occurs_at(s, "processor"@, i) {
            assert(s.subrange(i, i + 9)[0] == "processor"@[0]);
        }
        lemma_gap_is_passed(s, i + 1, j);
    }
}

proof fn lemma_listing(before: Seq<char>, gaps: Seq<Seq<char>>)
    requires
        forall|i: int| 0 <= i < gaps.len() ==> without_p(#[trigger] gaps[i]),
    ensures
        count_from(before + listing(gaps), "processor"@, before.len() as int) == gaps.len(),
    decreases gaps.len(),
{
    let s = before + listing(gaps);
    if gaps.len() > 0 {
        reveal_strlit("processor");
        let w = "processor"@;
        let i = before.len() as int;
        assert(s.subrange(i, i + 9) =~= w);
        assert(occurs_at(s, w, i));
        let more = before + w + gaps[0];
        let rest = gaps.skip(1);
        assert(s =~= more + listing(rest));
        assert forall|k: int| i + 9 <= k < more.len() implies s[k] != 'p' by {
            assert(without_p(gaps[0]));
            assert(s[k] == gaps[0][k - i - 9]);
        }
        lemma_gap_is_passed(s, i + 9, more.len() as int);
        assert forall|k: int| 0 <= k < rest.len() implies without_p(#[trigger] rest[k]) by {
            assert(rest[k] == gaps[k + 1]);
        }
        lemma_listing(more, rest);
    }
}

/// Processors are counted one by one, and a wide bus is taken for granted from 32 of them on.
pub proof fn law_processors_are_counted(head: Seq<char>, gaps: Seq<Seq<char>>, cpuinfo: &str)
    requires
        without_p(head),
        forall|i: int| 0 <= i < gaps.len() ==> without_p(#[trigger] gaps[i]),
        cpuinfo@ == head + listing(gaps),
    ensures
        count_from(cpuinfo@, "processor"@, 0) == gaps.len(),
        lists_wide_bus(Some(cpuinfo)) <==> gaps.len() >= 32,
        !lists_wide_bus(None),
{
    let s = head + listing(gaps);
    assert forall|k: int| 0 <= k < head.len() implies s[k] != 'p' by {
        assert(s[k] == head[k]);
    }
    lemma_gap_is_passed(s, 0, head.len() as int);
    lemma_listing(head, gaps);
}

// ---------------------------------------------------------------------------
// Command line
// ---------------------------------------------------------------------------

/// A text is filled up with spaces on one side, to a width that it does not pass otherwise.
pub proof fn law_texts_are_filled_up(s: Seq<char>, width: nat)
    ensures
        s.len() >= width ==> padded_right(s, width) == s && padded_left(s, width) == s,
        s.len() < width ==> {
            let r = padded_right(s, width);
            let l = padded_left(s, width);
            &&& r.len() == width
            &&& l.len() == width
            &&& r.take(s.len() as int) == s
            &&& l.skip(width - s.len()) == s
            &&& forall|i: int| s.len() <= i < width ==> #[trigger] r[i] == ' '
            &&& forall|i: int| 0 <= i < width - s.len() ==> #[trigger] l[i] == ' '
        },
{
    if s.len() < width {
        assert(padded_right(s, width).take(s.len() as int) =~= s);
        assert(padded_left(s, width).skip(width - s.len()) =~= s);
    }
}

proof fn lemma_line_of_five(
    a: Seq<char>,
    b: Seq<char>,
    c: Seq<char>,
    d: Seq<char>,
    e: Seq<char>,
    f: Seq<char>,
)
    ensures
        ({
            let all = a + b + c + d + e + f;
            &&& has_text(all, a)
            &&& has_text(all, b)
            &&& has_text(all, c)
            &&& has_text(all, d)
            &&& has_text(all, e)
            &&& has_text(all, f)
        }),
{
    let all = a + b + c + d + e + f;
    let none = Seq::<char>::empty();
    lemma_between(none, a, b + c + d + e + f);
    assert(none + a + (b + c + d + e + f) =~= all);
    lemma_between(a, b, c + d + e + f);
    assert(a + b + (c + d + e + f) =~= all);
    lemma_between(a + b, c, d + e + f);
    assert(a + b + c + (d + e + f) =~= all);
    lemma_between(a + b + c, d, e + f);
    assert(a + b + c + d + (e + f) =~= all);
    lemma_between(a + b + c + d, e, f);
    lemma_between(a + b + c + d + e, f, none);
    assert(a + b + c + d + e + f + none =~= all);
}

/// Each number of a model stands behind its own label.
pub proof fn law_structure_is_told(arch: Seq<char>, hp: ModelHyperparameters)
    ensures
        ({
            let s = structure_lines(arch, hp);
            &&& has_text(s, " Architecture      : "@ + arch + "\n"@)
            &&& has_text(s, " Hidden Dimension  : "@ + decimal(hp.hidden_dim as nat) + "\n"@)
            &&& has_text(s, " Attention Heads   : "@ + decimal(hp.num_heads as nat) + "\n"@)
            &&& has_text(s, " KV Heads          : "@ + decimal(hp.num_kv_heads as nat) + "\n"@)
            &&& has_text(s, " Layers            : "@ + decimal(hp.num_layers as nat) + "\n"@)
            &&& has_text(s, " Vocabulary Size   : "@ + decimal(hp.vocab_size as nat) + "\n"@)
        }),
{
    lemma_line_of_five(
        " Architecture      : "@ + arch + "\n"@,
        " Hidden Dimension  : "@ + decimal(hp.hidden_dim as nat) + "\n"@,
        " Attention Heads   : "@ + decimal(hp.num_heads as nat) + "\n"@,
        " KV Heads          : "@ + decimal(hp.num_kv_heads as nat) + "\n"@,
        " Layers            : "@ + decimal(hp.num_layers as nat) + "\n"@,
        " Vocabulary Size   : "@ + decimal(hp.vocab_size as nat) + "\n"@,
    );
}

proof fn lemma_short(a: Seq<char>, b: Seq<char>, c: Seq<char>, d: Seq<char>, e: Seq<char>)
    ensures
        has_text(a + b + c + d + e, b),
        has_text(a + b + c + d + e, c),
        has_text(a + b + c + d + e, d),
        has_text(a + b + c, b),
        has_text(a + b + c, c),
{
    let none = Seq::<char>::empty();
    lemma_line_of_five(a, b, c, d, e, none);
    assert(a + b + c + d + e + none =~= a + b + c + d + e);
    lemma_between(a, b, c);
    lemma_between(a + b, c, none);
    assert(a + b + c + none =~= a + b + c);
}

proof fn lemma_embedded(
    f: Seq<char>,
    b: Seq<char>,
    y: Seq<char>,
    p: Seq<char>,
    q: Seq<char>,
    r: Seq<char>,
)
    ensures
        ({
            let all = f + b + (y + p + q + r);
            &&& has_text(all, b)
            &&& has_text(all, y)
            &&& has_text(all, p + q + r)
        }),
{
    let all = f + b + (y + p + q + r);
    let none = Seq::<char>::empty();
    lemma_between(f, b, y + p + q + r);
    lemma_between(f + b, y, p + q + r);
    assert(f + b + y + (p + q + r) =~= all);
    lemma_between(f + b + y, p + q + r, none);
    assert(f + b + y + (p + q + r) + none =~= all);
}

/// What is told of a file holds its structure; of a GGUF file also its context and its tensors,
/// of a container whether it has an XCLBIN and how large that is.
pub proof fn law_files_are_told_of(
    arch: Seq<char>,
    hp: ModelHyperparameters,
    tensors: nat,
    embedded: bool,
    size: nat,
)
    ensures
        ({
            let g = gguf_info_text(arch, hp, tensors);
            &&& has_text(g, structure_lines(arch, hp))
            &&& has_text(g, " Context Length    : "@ + decimal(hp.context_length as nat) + "\n"@)
            &&& has_text(g, " Total Tensors     : "@ + decimal(tensors) + "\n"@)
        }),
        ({
            let c = container_info_text(arch, hp, embedded, size);
            &&& has_text(c, structure_lines(arch, hp))
            &&& embedded ==> has_text(c, " Embedded XCLBIN   : YES (Turnkey APU deployment)\n"@)
            &&& embedded ==> has_text(c, " XCLBIN Size       : "@ + decimal(size) + " bytes\n"@)
            &&& !embedded ==> has_text(c, " Embedded XCLBIN   : NO (Bare container)\n"@)
        }),
{
    let b = structure_lines(arch, hp);
    lemma_short(
        " Format            : GGUF v3\n"@,
        b,
        " Context Length    : "@ + decimal(hp.context_length as nat) + "\n"@,
        " Total Tensors     : "@ + decimal(tensors) + "\n"@,
        " Embedded XCLBIN   : None (Raw GGUF format)\n"@,
    );
    let f = " Format            : .q4nx Unified APU Container\n"@;
    if embedded {
        lemma_embedded(
            f,
            b,
            " Embedded XCLBIN   : YES (Turnkey APU deployment)\n"@,
            " XCLBIN Size       : "@,
            decimal(size),
            " bytes\n"@,
        );
    } else {
        lemma_short(f, b, " Embedded XCLBIN   : NO (Bare container)\n"@, b, b);
    }
}

proof fn lemma_opening_of_experts()
    ensures
        " MoE Architecture  : Active ("@ == " MoE Architecture  : "@ + "Active ("@,
{
    reveal_strlit(" MoE Architecture  : Active (");
    reveal_strlit(" MoE Architecture  : ");
    reveal_strlit("Active (");
    assert(" MoE Architecture  : Active ("@ =~= " MoE Architecture  : "@ + "Active ("@);
}

proof fn lemma_first_half(
    a0: Seq<char>,
    a1: Seq<char>,
    n: Seq<char>,
    a2: Seq<char>,
    c: Seq<char>,
    p: Seq<char>,
    d1: Seq<char>,
    t: Seq<char>,
    d2: Seq<char>,
)
    ensures
        (a0 + a1) + n + a2 + c + p + d1 + t + d2 == a0 + (a1 + n + a2) + c + (p + d1 + t + d2),
{
    assert((a0 + a1) + n + a2 + c + p + d1 + t + d2 =~= a0 + (a1 + n + a2) + c + (p + d1 + t
        + d2));
}

proof fn lemma_second_half(
    x: Seq<char>,
    k: Seq<char>,
    s: Seq<char>,
    m: Seq<char>,
    e: Seq<char>,
    f: Seq<char>,
)
    ensures
        x + k + s + m + e + f == x + (k + s + m + e) + f,
{
    assert(x + k + s + m + e + f =~= x + (k + s + m + e) + f);
}

/// What is told of router matrices: how many experts there are, how much of how much is pinned,
/// and whether the ceiling was met; of a model without experts, that there are none.
pub proof fn law_matrices_are_told_of(experts: u32, plan: RouterSramPlan)
    ensures
        ({
            let s = router_info_text(experts, plan);
            &&& experts == 0 ==> s == " MoE Architecture  : Dense (No routing matrices to pin)\n"@
            &&& experts > 0 ==> has_text(s, "Active ("@ + decimal(experts as nat)
                + " total experts)\n"@)
            &&& experts > 0 ==> has_text(
                s,
                decimal(plan.pinned_sram_bytes as nat / 1024) + " KB pinned of "@ + decimal(
                    plan.total_router_bytes as nat / 1024,
                ) + " KB total ("@,
            )
            &&& experts > 0 ==> has_text(
                s,
                decimal(plan.pinned_layer_count as nat) + "/"@ + decimal(plan.total_layers as nat)
                    + " layers in on-chip SRAM)\n"@,
            )
            &&& experts > 0 && plan.sram_exhaustion_prevented ==> has_text(
                s,
                "   Safety Ceiling  : ENFORCED (32 MB max allocated to prevent tile buffer exhaustion)\n"@,
            )
            &&& experts > 0 && !plan.sram_exhaustion_prevented ==> has_text(
                s,
                "   Safety Ceiling  : Within 32 MB limit (100% router matrices pinned)\n"@,
            )
        }),
{
    if experts > 0 {
        lemma_opening_of_experts();
        let a = " MoE Architecture  : "@;
        let b = "Active ("@ + decimal(experts as nat) + " total experts)\n"@;
        let c = " Router Matrix SRAM: "@;
        let d = decimal(plan.pinned_sram_bytes as nat / 1024) + " KB pinned of "@ + decimal(
            plan.total_router_bytes as nat / 1024,
        ) + " KB total ("@;
        let e = decimal(plan.pinned_layer_count as nat) + "/"@ + decimal(plan.total_layers as nat)
            + " layers in on-chip SRAM)\n"@;
        let f = if plan.sram_exhaustion_prevented {
            "   Safety Ceiling  : ENFORCED (32 MB max allocated to prevent tile buffer exhaustion)\n"@
        } else {
            "   Safety Ceiling  : Within 32 MB limit (100% router matrices pinned)\n"@
        };
        lemma_line_of_five(a, b, c, d, e, f);
        lemma_first_half(
            a,
            "Active ("@,
            decimal(experts as nat),
            " total experts)\n"@,
            c,
            decimal(plan.pinned_sram_bytes as nat / 1024),
            " KB pinned of "@,
            decimal(plan.total_router_bytes as nat / 1024),
            " KB total ("@,
        );
        lemma_second_half(
            a + b + c + d,
            decimal(plan.pinned_layer_count as nat),
            "/"@,
            decimal(plan.total_layers as nat),
            " layers in on-chip SRAM)\n"@,
            f,
        );
        assert(a + b + c + d + e + f == router_info_text(experts, plan));
    }
}

/// A model in a list: its name, its size in whole megabytes, and where it is.
pub proof fn law_models_are_listed(name: Seq<char>, bytes: nat, dir: Seq<char>)
    ensures
        ({
            let s = model_line_text(name, bytes, dir);
            &&& has_text(s, " - "@ + name)
            &&& has_text(s, decimal(bytes / 1048576) + " MB) ["@ + dir + "]\n"@)
        }),
{
    let s = model_line_text(name, bytes, dir);
    let none = Seq::<char>::empty();
    let digits = decimal(bytes / 1048576);
    let left = if digits.len() < 5 {
        spaces((5 - digits.len()) as nat)
    } else {
        none
    };
    let right = if name.len() < 45 {
        spaces((45 - name.len()) as nat)
    } else {
        none
    };
    assert(padded_left(digits, 5) =~= left + digits);
    assert(padded_right(name, 45) =~= name + right);
    let head = " - "@ + name;
    let tail = digits + " MB) ["@ + dir + "]\n"@;
    assert(s =~= none + head + (right + " ("@ + left + tail));
    lemma_between(none, head, right + " ("@ + left + tail);
    assert(s =~= (head + right + " ("@ + left) + tail + none);
    lemma_between(head + right + " ("@ + left, tail, none);
}

/// An option of a command line is followed by its value.
pub open spec fn has_option(args: Seq<Seq<char>>, option: Seq<char>, value: Seq<char>) -> bool {
    exists|i: int|
        0 <= i < args.len() - 1 && #[trigger] args[i] == option && args[i + 1] == value
}

/// The quantizer gets everything it was asked for: each value behind its option, and the options
/// that stand alone exactly where they were asked for.
pub proof fn law_quantizer_gets_its_arguments(
    model_dir: Seq<char>,
    output: Seq<char>,
    bare: bool,
    quant: Seq<char>,
    ratio: Seq<char>,
    no_rotation: bool,
    xclbin: Option<&str>,
)
    ensures
        ({
            let a = quantizer_argument_list(
                model_dir,
                output,
                bare,
                quant,
                ratio,
                no_rotation,
                xclbin,
            );
            &&& a.len() == 11 + (if no_rotation {
                1int
            } else {
                0
            }) + (if xclbin is Some {
                2int
            } else {
                0
            })
            &&& has_option(a, "--model-id"@, model_dir)
            &&& has_option(a, "--output"@, output)
            &&& has_option(
                a,
                "--format"@,
                if bare {
                    "bare"@
                } else {
                    "embedded"@
                },
            )
            &&& has_option(a, "--quant"@, quant)
            &&& has_option(a, "--salient-ratio"@, ratio)
            &&& no_rotation ==> a[11] == "--no-rotation"@
            &&& xclbin is Some ==> has_option(a, "--xclbin"@, xclbin->0@)
        }),
{
    let a = quantizer_argument_list(model_dir, output, bare, quant, ratio, no_rotation, xclbin);
    assert(a[1] == "--model-id"@ && a[2] == model_dir);
    assert(a[3] == "--output"@ && a[4] == output);
    assert(a[5] == "--format"@);
    assert(a[7] == "--quant"@ && a[8] == quant);
    assert(a[9] == "--salient-ratio"@ && a[10] == ratio);
    if xclbin is Some {
        assert(a[a.len() - 2] == "--xclbin"@ && a[a.len() - 1] == xclbin->0@);
    }
}

/// What types of elements are called, by their numbers; a number without a type is told.
pub proof fn law_types_are_called_by_their_names(n: u32)
    ensures
        n == 0 ==> dtype_name(dtype_of(n)) == "F32"@,
        n == 1 ==> dtype_name(dtype_of(n)) == "F16"@,
        n == 2 ==> dtype_name(dtype_of(n)) == "Q4_0"@,
        n == 3 ==> dtype_name(dtype_of(n)) == "Q4_1"@,
        n == 6 ==> dtype_name(dtype_of(n)) == "Q5_0"@,
        n == 7 ==> dtype_name(dtype_of(n)) == "Q5_1"@,
        n == 8 ==> dtype_name(dtype_of(n)) == "Q8_0"@,
        n == 9 ==> dtype_name(dtype_of(n)) == "Q8_1"@,
        n == 10 ==> dtype_name(dtype_of(n)) == "Q2_K"@,
        n == 11 ==> dtype_name(dtype_of(n)) == "Q3_K"@,
        n == 12 ==> dtype_name(dtype_of(n)) == "Q4_K"@,
        n == 13 ==> dtype_name(dtype_of(n)) == "Q5_K"@,
        n == 14 ==> dtype_name(dtype_of(n)) == "Q6_K"@,
        n == 15 ==> dtype_name(dtype_of(n)) == "Q8_K"@,
        n == 16 ==> dtype_name(dtype_of(n)) == "IQ2_XXS"@,
        n == 17 ==> dtype_name(dtype_of(n)) == "IQ2_XS"@,
        n == 18 ==> dtype_name(dtype_of(n)) == "IQ3_XXS"@,
        n == 19 ==> dtype_name(dtype_of(n)) == "IQ1_S"@,
        n == 20 ==> dtype_name(dtype_of(n)) == "IQ4_NL"@,
        n == 21 ==> dtype_name(dtype_of(n)) == "IQ3_S"@,
        n == 22 ==> dtype_name(dtype_of(n)) == "IQ2_S"@,
        n == 23 ==> dtype_name(dtype_of(n)) == "IQ4_XS"@,
        n == 24 ==> dtype_name(dtype_of(n)) == "I8"@,
        n == 25 ==> dtype_name(dtype_of(n)) == "I16"@,
        n == 26 ==> dtype_name(dtype_of(n)) == "I32"@,
        n == 27 ==> dtype_name(dtype_of(n)) == "I64"@,
        n == 28 ==> dtype_name(dtype_of(n)) == "F64"@,
        n == 29 ==> dtype_name(dtype_of(n)) == "IQ1_M"@,
        n == 30 ==> dtype_name(dtype_of(n)) == "BF16"@,
        n == 41 ==> dtype_name(dtype_of(n)) == "Q1_0"@,
        n == 42 ==> dtype_name(dtype_of(n)) == "BILLM"@,
        n == 4 || n == 5 || 31 <= n <= 40 || n >= 43 ==> dtype_name(dtype_of(n)) == "Unknown("@
            + decimal(n as nat) + ")"@,
{
}

/// A tensor that is refused is told by its name and by that of its type.
pub proof fn law_refusals_name_the_tensor(tensor: Seq<char>, d: TensorDType)
    ensures
        ({
            let s = refusal_text(tensor, d);
            let start = "Tensor '"@ + tensor + "' uses unsupported quantization format '"@
                + dtype_name(d) + "'. "@;
            &&& start.len() <= s.len()
            &&& s.take(start.len() as int) == start
        }),
{
    let s = refusal_text(tensor, d);
    let a = "Tensor '"@ + tensor + "' uses unsupported quantization format '"@ + dtype_name(d);
    let tail =
        "'. Sub-4-bit quantizations (IQ1, IQ2, Q2, IQ3, Q3) are not supported on AMD Ryzen AI APUs due to severe perplexity loss and non-aligned AIE2P hardware memory strides. Supported range is Q4 through Q16 (Q4_0, Q4_K, IQ4_NL, Q5_K, Q6_K, Q8_0, F16, BF16)."@;
    assert(s == a + tail);
    reveal_strlit("'. ");
    reveal_strlit(
        "'. Sub-4-bit quantizations (IQ1, IQ2, Q2, IQ3, Q3) are not supported on AMD Ryzen AI APUs due to severe perplexity loss and non-aligned AIE2P hardware memory strides. Supported range is Q4 through Q16 (Q4_0, Q4_K, IQ4_NL, Q5_K, Q6_K, Q8_0, F16, BF16).",
    );
    assert(tail.take(3) =~= "'. "@);
    let start = a + "'. "@;
    assert(s.take(start.len() as int) =~= a + tail.take(3));
}

/// What is said of files that are no models tells their extension.
pub proof fn law_extensions_are_told(ext: Seq<char>)
    ensures
        has_text(bad_extension_text(ext), "'"@ + ext + "'"@),
        has_text(bad_model_text(ext), ": "@ + ext + ". "@),
{
    reveal_strlit("Unsupported model file extension: '");
    reveal_strlit("Unsupported model file extension: ");
    reveal_strlit("'. Expected .q4nx or .gguf");
    reveal_strlit(". Expected .q4nx or .gguf");
    reveal_strlit("'");
    reveal_strlit("Invalid model extension: ");
    reveal_strlit("Invalid model extension");
    reveal_strlit(": ");
    reveal_strlit(". Expected .gguf or .q4nx");
    reveal_strlit("Expected .gguf or .q4nx");
    reveal_strlit(". ");
    let a = "Unsupported model file extension: "@;
    let b = "'"@ + ext + "'"@;
    let c = ". Expected .q4nx or .gguf"@;
    assert(bad_extension_text(ext) =~= a + b + c);
    lemma_between(a, b, c);
    let d = "Invalid model extension"@;
    let e = ": "@ + ext + ". "@;
    let f = "Expected .gguf or .q4nx"@;
    assert(bad_model_text(ext) =~= d + e + f);
    lemma_between(d, e, f);
}

/// Conversion knows its one target under three names.
pub proof fn law_names_of_the_known_target(s: Seq<char>)
    ensures
        known_target(s) <==> seq!["npu2-aie2p"@, "aie2p"@, "xdna2"@].contains(s),
{
    let l = seq!["npu2-aie2p"@, "aie2p"@, "xdna2"@];
    assert(l[0] == "npu2-aie2p"@ && l[1] == "aie2p"@ && l[2] == "xdna2"@);
    if l.contains(s) {
        let i = choose|i: int| 0 <= i < l.len() && l[i] == s;
        assert(i == 0 || i == 1 || i == 2);
    }
}

/// What is told of a conversion before it starts: each thing that was asked for, and of rotation
/// and salient weights only where those count.
pub proof fn law_conversions_are_announced(
    input: Seq<char>,
    target: Seq<char>,
    bare: bool,
    quant: Seq<char>,
    no_rotation: bool,
    ratio: Seq<char>,
)
    ensures
        forall|billm: bool|
            {
                let s = #[trigger] convert_banner_text(
                    input,
                    target,
                    bare,
                    quant,
                    billm,
                    no_rotation,
                    ratio,
                );
                &&& has_text(s, " Input Path : "@ + input + "\n"@)
                &&& has_text(s, " Target HW  : "@ + target + "\n"@)
                &&& has_text(
                    s,
                    " Container  : "@ + (if bare {
                        "Bare (requires companion .gguf)"@
                    } else {
                        "Embedded GGUF/Q4NX (Default)"@
                    }) + "\n"@,
                )
                &&& has_text(s, " Quantization: "@ + quant + "\n"@)
                &&& billm ==> has_text(
                    s,
                    " Orthogonal Rot. : "@ + (if no_rotation {
                        "DISABLED"@
                    } else {
                        "ENABLED (Block-RHT Walsh-Hadamard 128)"@
                    }) + "\n"@,
                )
                &&& billm ==> has_text(
                    s,
                    " Saliency Ratio  : "@ + ratio + "% isolated for scale factor\n"@,
                )
            },
{
    assert forall|billm: bool|
        {
            let s = #[trigger] convert_banner_text(
                input,
                target,
                bare,
                quant,
                billm,
                no_rotation,
                ratio,
            );
            &&& has_text(s, " Input Path : "@ + input + "\n"@)
            &&& has_text(s, " Target HW  : "@ + target + "\n"@)
            &&& has_text(
                s,
                " Container  : "@ + (if bare {
                    "Bare (requires companion .gguf)"@
                } else {
                    "Embedded GGUF/Q4NX (Default)"@
                }) + "\n"@,
            )
            &&& has_text(s, " Quantization: "@ + quant + "\n"@)
            &&& billm ==> has_text(
                s,
                " Orthogonal Rot. : "@ + (if no_rotation {
                    "DISABLED"@
                } else {
                    "ENABLED (Block-RHT Walsh-Hadamard 128)"@
                }) + "\n"@,
            )
            &&& billm ==> has_text(
                s,
                " Saliency Ratio  : "@ + ratio + "% isolated for scale factor\n"@,
            )
        } by {
        let a = " Converting Model to .q4nx Container\n"@;
        let b = " Input Path : "@ + input + "\n"@;
        let c = " Target HW  : "@ + target + "\n"@;
        let d = " Container  : "@ + (if bare {
            "Bare (requires companion .gguf)"@
        } else {
            "Embedded GGUF/Q4NX (Default)"@
        }) + "\n"@;
        let e = " Quantization: "@ + quant + "\n"@;
        let rotation = " Orthogonal Rot. : "@ + (if no_rotation {
            "DISABLED"@
        } else {
            "ENABLED (Block-RHT Walsh-Hadamard 128)"@
        }) + "\n"@;
        if billm {
            lemma_banner_end(
                a + b + c + d + e,
                rotation,
                " Saliency Ratio  : "@,
                ratio,
                "% isolated for scale factor\n"@,
            );
            let f = rotation + " Saliency Ratio  : "@ + ratio + "% isolated for scale factor\n"@;
            lemma_line_of_five(a, b, c, d, e, f);
        } else {
            lemma_line_of_five(a, b, c, d, e, Seq::empty());
        }
    }
}

proof fn lemma_banner_end(
    head: Seq<char>,
    r: Seq<char>,
    p: Seq<char>,
    q: Seq<char>,
    t: Seq<char>,
)
    ensures
        has_text(head + (r + p + q + t), r),
        has_text(head + (r + p + q + t), p + q + t),
{
    let all = head + (r + p + q + t);
    assert(all =~= head + r + (p + q + t));
    lemma_between(head, r, p + q + t);
    let none = Seq::<char>::empty();
    assert(all =~= (head + r) + (p + q + t) + none);
    lemma_between(head + r, p + q + t, none);
}

} // verus!
