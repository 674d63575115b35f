//! What holds of tensors as a whole: weights that were packed come out again, in the same order.

use vstd::arithmetic::power2::{lemma2_to64, pow2};
use vstd::prelude::*;

use crate::bytes::{lemma_le_four, lemma_le_two};
use crate::container::dtype::TensorDType;
use crate::container::half::widened;
use crate::container::tensor::{
    block_terms, count_of, is_dot_product, pair_terms, plain_at, product, quant_at, row_data,
    run_terms, scale_at, stored_elements, term, weight_at, RowTerms, Weight,
};

verus! {

// ---------------------------------------------------------------------------
// Packing
// ---------------------------------------------------------------------------

/// Types whose weights are packed in groups with a scale.
pub open spec fn is_packed_type(d: TensorDType) -> bool {
    d == TensorDType::Q8_0 || d == TensorDType::Q4_0 || d == TensorDType::IQ4_NL || d
        == TensorDType::Q1_0 || d == TensorDType::BILLM
}

/// Weights that share a scale.
pub open spec fn group_len(d: TensorDType) -> int {
    if d == TensorDType::Q1_0 || d == TensorDType::BILLM {
        128
    } else {
        32
    }
}

/// Bytes that hold the weights of one scale, and the scale.
pub open spec fn group_bytes(d: TensorDType) -> int {
    if d == TensorDType::Q8_0 {
        34
    } else {
        18
    }
}

/// The code of a non-linear four-bit weight; negative where no code stands for it.
pub open spec fn iq4_code(v: int) -> int {
    if v == -127 {
        0
    } else if v == -104 {
        1
    } else if v == -83 {
        2
    } else if v == -65 {
        3
    } else if v == -49 {
        4
    } else if v == -35 {
        5
    } else if v == -22 {
        6
    } else if v == -10 {
        7
    } else if v == 1 {
        8
    } else if v == 13 {
        9
    } else if v == 25 {
        10
    } else if v == 38 {
        11
    } else if v == 53 {
        12
    } else if v == 69 {
        13
    } else if v == 89 {
        14
    } else if v == 113 {
        15
    } else {
        -1
    }
}

/// The bit of a sign.
pub open spec fn sign_code(v: int) -> int {
    if v == 1 {
        1
    } else {
        0
    }
}

/// Scales stand at the start of their groups, low byte first.
pub open spec fn scales_packed(d: TensorDType, data: Seq<u8>, at: int, scales: Seq<u16>) -> bool {
    &&& 0 <= at
    &&& at + group_bytes(d) * scales.len() <= data.len()
    &&& forall|b: int|
        0 <= b < scales.len() ==> {
            let s = #[trigger] scales[b];
            &&& data[at + group_bytes(d) * b] == s % 256
            &&& data[at + group_bytes(d) * b + 1] == s / 256
        }
}

/// Eight-bit weights: one byte each, in two's complement.
pub open spec fn bytes_packed(data: Seq<u8>, at: int, q: Seq<int>) -> bool {
    forall|i: int|
        0 <= i < q.len() ==> {
            &&& -128 <= #[trigger] q[i] < 128
            &&& data[at + 34 * (i / 32) + 2 + i % 32] == if q[i] < 0 {
                q[i] + 256
            } else {
                q[i]
            }
        }
}

/// Four-bit weights: byte `j` of a group has the code of weight `j` in its low half and that of
/// weight `j + 16` in its high half.
pub open spec fn halves_packed(
    data: Seq<u8>,
    at: int,
    q: Seq<int>,
    code: spec_fn(int) -> int,
) -> bool {
    forall|i: int|
        0 <= i < q.len() ==> {
            &&& 0 <= code(#[trigger] q[i]) < 16
            &&& i % 32 < 16 ==> data[at + 18 * (i / 32) + 2 + i % 32] == code(q[i]) + 16 * code(
                q[i + 16],
            )
        }
}

/// Signs: bit `j` of byte `k` of a group is set where weight `8 * k + j` is one, and clear where
/// it is minus one.
pub open spec fn signs_packed(data: Seq<u8>, at: int, q: Seq<int>) -> bool {
    forall|i: int|
        0 <= i < q.len() ==> {
            &&& #[trigger] q[i] == 1 || q[i] == -1
            &&& i % 8 == 0 ==> data[at + 18 * (i / 128) + 2 + (i % 128) / 8] == sign_code(q[i])
                + 2 * sign_code(q[i + 1]) + 4 * sign_code(q[i + 2]) + 8 * sign_code(q[i + 3]) + 16
                * sign_code(q[i + 4]) + 32 * sign_code(q[i + 5]) + 64 * sign_code(q[i + 6]) + 128
                * sign_code(q[i + 7])
        }
}

/// Integer weights and their scales, packed from byte `at` on.
pub open spec fn packed(
    d: TensorDType,
    data: Seq<u8>,
    at: int,
    q: Seq<int>,
    scales: Seq<u16>,
) -> bool {
    &&& q.len() == group_len(d) * scales.len()
    &&& scales_packed(d, data, at, scales)
    &&& match d {
        TensorDType::Q8_0 => bytes_packed(data, at, q),
        TensorDType::Q4_0 => halves_packed(data, at, q, |v: int| v + 8),
        TensorDType::IQ4_NL => halves_packed(data, at, q, |v: int| iq4_code(v)),
        TensorDType::Q1_0 | TensorDType::BILLM => signs_packed(data, at, q),
        _ => false,
    }
}

proof fn lemma_packed_scale(
    d: TensorDType,
    data: Seq<u8>,
    q: Seq<int>,
    scales: Seq<u16>,
    b: int,
)
    requires
        packed(d, data, 0, q, scales),
        0 <= b < scales.len(),
    ensures
        scale_at(d, data, b) == widened(scales[b]),
{
    if d == TensorDType::Q8_0 {
        lemma_le_two(data, b * 34);
        assert(data[34 * b] == scales[b] % 256);
    } else {
        lemma_le_two(data, b * 18);
        assert(data[18 * b] == scales[b] % 256);
    }
}

proof fn lemma_packed_sign(data: Seq<u8>, q: Seq<int>, i: int)
    requires
        signs_packed(data, 0, q),
        0 <= i < q.len(),
        q.len() % 128 == 0,
    ensures
        crate::container::tensor::sign_bit(data[18 * (i / 128) + 2 + (i % 128) / 8], i % 8) == q[i],
{
    let i0 = i - i % 8;
    assert(i0 % 8 == 0);
    assert(i0 / 128 == i / 128 && (i0 % 128) / 8 == (i % 128) / 8);
    assert(i0 + 7 < q.len());
    let b = data[18 * (i / 128) + 2 + (i % 128) / 8];
    let j = i % 8;
    assert(q[i] == 1 || q[i] == -1);
    assert(q[i0] == 1 || q[i0] == -1);
    lemma_bits(
        b as int,
        sign_code(q[i0]),
        sign_code(q[i0 + 1]),
        sign_code(q[i0 + 2]),
        sign_code(q[i0 + 3]),
        sign_code(q[i0 + 4]),
        sign_code(q[i0 + 5]),
        sign_code(q[i0 + 6]),
        sign_code(q[i0 + 7]),
    );
    assert(i == i0 + j);
    lemma_sign_of_bit(b, j, q[i]);
}

/// The bits of a number.
proof fn lemma_bits(
    b: int,
    s0: int,
    s1: int,
    s2: int,
    s3: int,
    s4: int,
    s5: int,
    s6: int,
    s7: int,
)
    requires
        b == s0 + 2 * s1 + 4 * s2 + 8 * s3 + 16 * s4 + 32 * s5 + 64 * s6 + 128 * s7,
        0 <= s0 <= 1,
        0 <= s1 <= 1,
        0 <= s2 <= 1,
        0 <= s3 <= 1,
        0 <= s4 <= 1,
        0 <= s5 <= 1,
        0 <= s6 <= 1,
        0 <= s7 <= 1,
    ensures
        b % 2 == s0,
        (b / 2) % 2 == s1,
        (b / 4) % 2 == s2,
        (b / 8) % 2 == s3,
        (b / 16) % 2 == s4,
        (b / 32) % 2 == s5,
        (b / 64) % 2 == s6,
        (b / 128) % 2 == s7,
{
    let r6 = s6 + 2 * s7;
    let r5 = s5 + 2 * r6;
    let r4 = s4 + 2 * r5;
    let r3 = s3 + 2 * r4;
    let r2 = s2 + 2 * r3;
    let r1 = s1 + 2 * r2;
    assert(b / 2 == r1);
    assert(b / 4 == r2);
    assert(b / 8 == r3);
    assert(b / 16 == r4);
    assert(b / 32 == r5);
    assert(b / 64 == r6);
    assert(b / 128 == s7);
}

proof fn lemma_sign_of_bit(b: u8, j: int, v: int)
    requires
        0 <= j < 8,
        v == 1 || v == -1,
        j == 0 ==> b as int % 2 == sign_code(v),
        j == 1 ==> (b as int / 2) % 2 == sign_code(v),
        j == 2 ==> (b as int / 4) % 2 == sign_code(v),
        j == 3 ==> (b as int / 8) % 2 == sign_code(v),
        j == 4 ==> (b as int / 16) % 2 == sign_code(v),
        j == 5 ==> (b as int / 32) % 2 == sign_code(v),
        j == 6 ==> (b as int / 64) % 2 == sign_code(v),
        j == 7 ==> (b as int / 128) % 2 == sign_code(v),
    ensures
        crate::container::tensor::sign_bit(b, j) == v,
{
    lemma2_to64();
    let w = pow2(j as nat) as int;
    assert(w == if j == 0 {
        1
    } else if j == 1 {
        2
    } else if j == 2 {
        4
    } else if j == 3 {
        8
    } else if j == 4 {
        16
    } else if j == 5 {
        32
    } else if j == 6 {
        64
    } else {
        128int
    });
    assert((b as int / w) % 2 == sign_code(v));
}

proof fn lemma_packed_weight(
    d: TensorDType,
    data: Seq<u8>,
    q: Seq<int>,
    scales: Seq<u16>,
    i: int,
)
    requires
        packed(d, data, 0, q, scales),
        0 <= i < q.len(),
    ensures
        quant_at(d, data, i) == q[i],
{
    if d == TensorDType::Q8_0 {
        assert(data[34 * (i / 32) + 2 + i % 32] == if q[i] < 0 {
            q[i] + 256
        } else {
            q[i]
        });
    } else if d == TensorDType::Q4_0 || d == TensorDType::IQ4_NL {
        let low = if i % 32 < 16 {
            i
        } else {
            i - 16
        };
        assert(low / 32 == i / 32 && low % 32 == i % 16);
        assert(low + 16 < q.len());
        let b = data[18 * (i / 32) + 2 + i % 16] as int;
        if d == TensorDType::Q4_0 {
            assert(halves_packed(data, 0, q, |v: int| v + 8));
            assert(0 <= q[low] + 8 < 16);
            assert(0 <= q[low + 16] + 8 < 16);
            assert(b == (q[low] + 8) + 16 * (q[low + 16] + 8));
        } else {
            assert(halves_packed(data, 0, q, |v: int| iq4_code(v)));
            assert(0 <= iq4_code(q[low]) < 16);
            assert(0 <= iq4_code(q[low + 16]) < 16);
            assert(b == iq4_code(q[low]) + 16 * iq4_code(q[low + 16]));
        }
    } else {
        lemma_packed_sign(data, q, i);
    }
}

/// Packed weights come out as they went in: the weights of a tensor whose data was packed from
/// integers and scales are these integers, in the same order, each with the scale of its group.
/// The data holds as many weights as were packed.
pub proof fn law_packed_weights_come_out(
    d: TensorDType,
    data: Seq<u8>,
    q: Seq<int>,
    scales: Seq<u16>,
)
    requires
        packed(d, data, 0, q, scales),
    ensures
        forall|i: int|
            0 <= i < q.len() ==> #[trigger] weight_at(d, data, i) == (Weight::Scaled {
                q: q[i] as i8,
                scale: widened(scales[i / group_len(d)]),
            }),
        forall|i: int| 0 <= i < q.len() ==> -128 <= #[trigger] q[i] < 128,
        data.len() == group_bytes(d) * scales.len() ==> stored_elements(d, data.len()) == q.len(),
{
    assert forall|i: int| 0 <= i < q.len() implies #[trigger] weight_at(d, data, i)
        == (Weight::Scaled { q: q[i] as i8, scale: widened(scales[i / group_len(d)]) }) by {
        lemma_packed_weight(d, data, q, scales, i);
        lemma_packed_scale(d, data, q, scales, i / group_len(d));
    }
    assert forall|i: int| 0 <= i < q.len() implies -128 <= #[trigger] q[i] < 128 by {
        lemma_packed_weight(d, data, q, scales, i);
    }
    lemma_stored(d, scales.len());
}

proof fn lemma_stored(d: TensorDType, n: nat)
    requires
        is_packed_type(d),
    ensures
        stored_elements(d, (group_bytes(d) * n) as nat) == group_len(d) * n,
{
    assert((34 * n) / 34 == n);
    assert((18 * n) / 18 == n);
    match d {
        TensorDType::Q8_0 => {
            assert(stored_elements(d, 34 * n) == (34 * n) / 34 * 32);
        },
        TensorDType::Q1_0 | TensorDType::BILLM => {
            assert(stored_elements(d, 18 * n) == (18 * n) / 18 * 128);
        },
        _ => {
            assert(stored_elements(d, 18 * n) == (18 * n) / 18 * 32);
        },
    }
}

/// Numbers that were stored come out as they went in: single precision by its four bytes, low
/// byte first; the short single precision by the two high bytes; half precision by its two
/// bytes, widened.
pub proof fn law_stored_numbers_come_out(data: Seq<u8>, i: int, single: u32, half: u16)
    requires
        0 <= i,
    ensures
        4 * i + 4 <= data.len() && single == data[4 * i] + 256 * data[4 * i + 1] + 65536 * data[4
            * i + 2] + 16777216 * data[4 * i + 3] ==> weight_at(TensorDType::F32, data, i)
            == Weight::Single(single),
        2 * i + 2 <= data.len() && half == data[2 * i] + 256 * data[2 * i + 1] ==> {
            &&& weight_at(TensorDType::F16, data, i) == Weight::Single(widened(half))
            &&& weight_at(TensorDType::BF16, data, i) == Weight::Single((65536 * half) as u32)
        },
        stored_elements(TensorDType::F32, (4 * i) as nat) == i,
        stored_elements(TensorDType::F16, (2 * i) as nat) == i,
        stored_elements(TensorDType::BF16, (2 * i) as nat) == i,
{
    if 4 * i + 4 <= data.len() {
        lemma_le_four(data, 4 * i);
        lemma_le_two(data, 4 * i);
        lemma_le_two(data, 4 * i + 2);
    }
    if 2 * i + 2 <= data.len() {
        lemma_le_two(data, 2 * i);
    }
}

/// A tensor has as many elements as its dimensions multiply to, and none where it has none: one
/// more dimension multiplies the count by it.
pub proof fn law_elements_multiply(shape: Seq<usize>, n: usize)
    ensures
        count_of(Seq::empty()) == 0,
        count_of(seq![n]) == n,
        shape.len() > 0 ==> count_of(shape.push(n)) == count_of(shape) * n,
{
    assert(seq![n].drop_last() =~= Seq::empty());
    assert(shape.push(n).drop_last() =~= shape);
    assert(product(Seq::empty()) == 1);
    assert(product(seq![n]) == product(seq![n].drop_last()) * n as nat);
}

// ---------------------------------------------------------------------------
// Rows
// ---------------------------------------------------------------------------

/// Some term is that of the column.
pub open spec fn has_column(t: Seq<(usize, i8)>, c: int) -> bool {
    exists|k: int| 0 <= k < t.len() && (#[trigger] t[k]).0 == c
}

/// The terms are those of the columns from `lo` to `hi`: each column once, with its weight, and
/// no other.
pub open spec fn are_columns(t: Seq<(usize, i8)>, lo: int, hi: int, q: Seq<int>) -> bool {
    &&& t.len() == if lo <= hi {
        hi - lo
    } else {
        0
    }
    &&& t.no_duplicates()
    &&& forall|k: int|
        0 <= k < t.len() ==> {
            &&& lo <= (#[trigger] t[k]).0 < hi
            &&& t[k].1 == q[t[k].0 as int]
        }
    &&& forall|c: int| lo <= c < hi ==> #[trigger] has_column(t, c)
}

/// A sequence with one more column.
proof fn lemma_one_more_column(t: Seq<(usize, i8)>, c: int, w: i8)
    requires
        0 <= c <= usize::MAX,
        t.no_duplicates(),
        forall|k: int| 0 <= k < t.len() ==> (#[trigger] t[k]).0 != c,
    ensures
        (t + seq![(c as usize, w)]).no_duplicates(),
{
    let s = t + seq![(c as usize, w)];
    assert forall|i: int, j: int| 0 <= i < s.len() && 0 <= j < s.len() && i != j implies s[i]
        != s[j] by {
        if i < t.len() {
            assert(s[i] == t[i]);
        }
        if j < t.len() {
            assert(s[j] == t[j]);
        }
    }
}

proof fn lemma_run(d: TensorDType, row: Seq<u8>, cols: int, base: int, n: nat, q: Seq<int>)
    requires
        0 <= base,
        base + n <= usize::MAX,
        forall|c: int| 0 <= c < cols ==> #[trigger] quant_at(d, row, c) == q[c],
    ensures
        are_columns(
            run_terms(d, row, cols, base, n),
            base,
            if base + n <= cols {
                base + n
            } else {
                cols
            },
            q,
        ),
    decreases n,
{
    if n > 0 {
        let c = base + n - 1;
        let before = run_terms(d, row, cols, base, (n - 1) as nat);
        let t = run_terms(d, row, cols, base, n);
        lemma_run(d, row, cols, base, (n - 1) as nat, q);
        if c < cols {
            assert(quant_at(d, row, c) == q[c]);
            lemma_one_more_column(before, c, quant_at(d, row, c));
            assert(t =~= before + seq![(c as usize, quant_at(d, row, c))]);
            assert forall|k: int| 0 <= k < t.len() implies {
                &&& base <= (#[trigger] t[k]).0 < base + n
                &&& t[k].1 == q[t[k].0 as int]
            } by {
                if k < before.len() {
                    assert(t[k] == before[k]);
                }
            }
            assert forall|x: int| base <= x < base + n implies #[trigger] has_column(t, x) by {
                if x == c {
                    assert(t[before.len() as int].0 == x);
                } else {
                    assert(has_column(before, x));
                    let k = choose|k: int| 0 <= k < before.len() && (#[trigger] before[k]).0 == x;
                    assert(t[k].0 == x);
                }
            }
        } else {
            assert(t =~= before);
        }
    }
}

/// The columns of two half groups, as far as they go.
spec fn in_pair(base: int, n: int, cols: int, c: int) -> bool {
    (base <= c < base + n || base + 16 <= c < base + 16 + n) && c < cols
}

proof fn lemma_pair(d: TensorDType, row: Seq<u8>, cols: int, base: int, n: nat, q: Seq<int>)
    requires
        0 <= base,
        n <= 16,
        base + 32 <= usize::MAX,
        forall|c: int| 0 <= c < cols ==> #[trigger] quant_at(d, row, c) == q[c],
    ensures
        ({
            let t = pair_terms(d, row, cols, base, n);
            let low = if base + n <= cols {
                n as int
            } else if base <= cols {
                cols - base
            } else {
                0
            };
            let high = if base + 16 + n <= cols {
                n as int
            } else if base + 16 <= cols {
                cols - base - 16
            } else {
                0
            };
            &&& t.len() == low + high
            &&& t.no_duplicates()
            &&& forall|k: int|
                0 <= k < t.len() ==> {
                    &&& in_pair(base, n as int, cols, (#[trigger] t[k]).0 as int)
                    &&& t[k].1 == q[t[k].0 as int]
                }
            &&& forall|c: int|
                #[trigger] in_pair(base, n as int, cols, c) ==> has_column(t, c)
        }),
    decreases n,
{
    if n > 0 {
        let m = (n - 1) as nat;
        let a = base + m;
        let b = base + 16 + m;
        let before = pair_terms(d, row, cols, base, m);
        let mid = before + term(d, row, cols, a);
        let t = pair_terms(d, row, cols, base, n);
        lemma_pair(d, row, cols, base, m, q);
        assert(t =~= mid + term(d, row, cols, b));
        if a < cols {
            assert(quant_at(d, row, a) == q[a]);
            lemma_one_more_column(before, a, quant_at(d, row, a));
        } else {
            assert(mid =~= before);
        }
        assert forall|k: int| 0 <= k < mid.len() implies (#[trigger] mid[k]).0 != b by {
            if k < before.len() {
                assert(mid[k] == before[k]);
            }
        }
        if b < cols {
            assert(quant_at(d, row, b) == q[b]);
            lemma_one_more_column(mid, b, quant_at(d, row, b));
        } else {
            assert(t =~= mid);
        }
        assert forall|k: int| 0 <= k < t.len() implies {
            &&& in_pair(base, n as int, cols, (#[trigger] t[k]).0 as int)
            &&& t[k].1 == q[t[k].0 as int]
        } by {
            if k < before.len() {
                assert(t[k] == before[k]);
            } else if k < mid.len() {
                assert(t[k] == mid[k]);
            }
        }
        assert forall|c: int| #[trigger] in_pair(base, n as int, cols, c) implies has_column(
            t,
            c,
        ) by {
            if c == a {
                assert(t[before.len() as int].0 == c);
            } else if c == b {
                assert(t[mid.len() as int].0 == c);
            } else {
                assert(in_pair(base, m as int, cols, c));
                assert(has_column(before, c));
                let k = choose|k: int| 0 <= k < before.len() && (#[trigger] before[k]).0 == c;
                assert(t[k].0 == c);
            }
        }
    }
}

proof fn lemma_block_columns(d: TensorDType, row: Seq<u8>, cols: int, b: int, q: Seq<int>)
    requires
        is_packed_type(d),
        0 <= b,
        group_len(d) * b + 128 <= usize::MAX,
        group_len(d) * b < cols,
        forall|c: int| 0 <= c < cols ==> #[trigger] quant_at(d, row, c) == q[c],
    ensures
        are_columns(
            block_terms(d, row, cols, b),
            group_len(d) * b,
            if group_len(d) * (b + 1) <= cols {
                group_len(d) * (b + 1)
            } else {
                cols
            },
            q,
        ),
{
    if d == TensorDType::Q4_0 || d == TensorDType::IQ4_NL {
        let base = b * 32;
        lemma_pair(d, row, cols, base, 16, q);
        let t = pair_terms(d, row, cols, base, 16);
        assert forall|c: int| base <= c < base + 32 && c < cols implies #[trigger] has_column(
            t,
            c,
        ) by {
            assert(in_pair(base, 16, cols, c));
        }
    } else if d == TensorDType::Q1_0 || d == TensorDType::BILLM {
        lemma_run(d, row, cols, b * 128, 128, q);
    } else {
        lemma_run(d, row, cols, b * 32, 32, q);
    }
}

/// Groups that a row of so many columns takes.
pub open spec fn groups_for(d: TensorDType, cols: int) -> int {
    if cols % group_len(d) == 0 {
        cols / group_len(d)
    } else {
        cols / group_len(d) + 1
    }
}

proof fn lemma_packed_within(
    d: TensorDType,
    data: Seq<u8>,
    at: int,
    q: Seq<int>,
    scales: Seq<u16>,
)
    requires
        packed(d, data, at, q, scales),
    ensures
        packed(
            d,
            data.subrange(at, at + group_bytes(d) * scales.len()),
            0,
            q,
            scales,
        ),
{
    let part = data.subrange(at, at + group_bytes(d) * scales.len());
    let n = scales.len() as int;
    if d == TensorDType::Q8_0 {
        assert forall|i: int| 0 <= i < q.len() implies {
            &&& -128 <= #[trigger] q[i] < 128
            &&& part[0 + 34 * (i / 32) + 2 + i % 32] == if q[i] < 0 {
                q[i] + 256
            } else {
                q[i]
            }
        } by {
            assert(i / 32 < n);
        }
    } else if d == TensorDType::Q4_0 {
        let code = |v: int| v + 8;
        assert forall|i: int| 0 <= i < q.len() implies {
            &&& 0 <= code(#[trigger] q[i]) < 16
            &&& i % 32 < 16 ==> part[0 + 18 * (i / 32) + 2 + i % 32] == code(q[i]) + 16 * code(
                q[i + 16],
            )
        } by {
            assert(i / 32 < n);
        }
    } else if d == TensorDType::IQ4_NL {
        let code = |v: int| iq4_code(v);
        assert forall|i: int| 0 <= i < q.len() implies {
            &&& 0 <= code(#[trigger] q[i]) < 16
            &&& i % 32 < 16 ==> part[0 + 18 * (i / 32) + 2 + i % 32] == code(q[i]) + 16 * code(
                q[i + 16],
            )
        } by {
            assert(i / 32 < n);
        }
    } else {
        assert forall|i: int| 0 <= i < q.len() implies {
            &&& #[trigger] q[i] == 1 || q[i] == -1
            &&& i % 8 == 0 ==> part[0 + 18 * (i / 128) + 2 + (i % 128) / 8] == sign_code(q[i])
                + 2 * sign_code(q[i + 1]) + 4 * sign_code(q[i + 2]) + 8 * sign_code(q[i + 3]) + 16
                * sign_code(q[i + 4]) + 32 * sign_code(q[i + 5]) + 64 * sign_code(q[i + 6]) + 128
                * sign_code(q[i + 7])
        } by {
            assert(i / 128 < n);
        }
    }
}

/// A packed row is multiplied by the weights that were packed: the terms of its dot product are
/// its columns, each once and with its own weight, in groups that each have their own scale. Rows
/// follow one another, each beginning a new group.
pub proof fn law_packed_rows_are_multiplied(
    t: RowTerms,
    d: TensorDType,
    shape: Seq<usize>,
    data: Seq<u8>,
    row: int,
    vec_len: int,
    q: Seq<int>,
    scales: Seq<u16>,
)
    requires
        is_dot_product(t, d, shape, data, row, vec_len),
        is_packed_type(d),
        shape.len() >= 2,
        0 <= row < shape[1],
        shape[0] <= vec_len,
        shape[0] <= isize::MAX,
        scales.len() == groups_for(d, shape[0] as int),
        packed(d, data, row * (group_bytes(d) * scales.len()), q, scales),
    ensures
        t is Blocks,
        t->Blocks_0@.len() == scales.len(),
        forall|b: int|
            0 <= b < scales.len() ==> {
                &&& (#[trigger] t->Blocks_0@[b]).scale == widened(scales[b])
                &&& are_columns(
                    t->Blocks_0@[b].terms@,
                    group_len(d) * b,
                    if group_len(d) * (b + 1) <= shape[0] {
                        group_len(d) * (b + 1)
                    } else {
                        shape[0] as int
                    },
                    q,
                )
            },
{
    let cols = shape[0] as int;
    let at = row * (group_bytes(d) * scales.len());
    let line = row_data(d, data, cols, row);
    lemma_packed_within(d, data, at, q, scales);
    assert(line =~= data.subrange(at, at + group_bytes(d) * scales.len()));
    assert forall|c: int| 0 <= c < cols implies #[trigger] quant_at(d, line, c) == q[c] by {
        lemma_packed_weight(d, line, q, scales, c);
    }
    assert forall|b: int| 0 <= b < scales.len() implies {
        &&& (#[trigger] t->Blocks_0@[b]).scale == widened(scales[b])
        &&& are_columns(
            t->Blocks_0@[b].terms@,
            group_len(d) * b,
            if group_len(d) * (b + 1) <= cols {
                group_len(d) * (b + 1)
            } else {
                cols
            },
            q,
        )
    } by {
        lemma_packed_scale(d, line, q, scales, b);
        lemma_block_columns(d, line, cols, b, q);
    }
}

/// A row of stored numbers is multiplied by these numbers, in the order of its columns.
pub proof fn law_stored_rows_are_multiplied(
    t: RowTerms,
    d: TensorDType,
    shape: Seq<usize>,
    data: Seq<u8>,
    row: int,
    vec_len: int,
)
    requires
        is_dot_product(t, d, shape, data, row, vec_len),
        d == TensorDType::F32 || d == TensorDType::F16 || d == TensorDType::BF16,
        shape.len() >= 2,
        0 <= row < shape[1],
        shape[0] <= vec_len,
    ensures
        t is Plain,
        t->Plain_0@.len() == shape[0],
        forall|c: int|
            0 <= c < shape[0] ==> weight_at(d, data, row * shape[0] + c) == Weight::Single(
                #[trigger] t->Plain_0@[c],
            ),
{
    assert forall|c: int| 0 <= c < shape[0] implies weight_at(d, data, row * shape[0] + c)
        == Weight::Single(#[trigger] t->Plain_0@[c]) by {
        assert(t->Plain_0@[c] == plain_at(d, data, row * shape[0] + c));
    }
}

/// A row that the tensor does not have, or that the vector is too short for, multiplies to zero.
pub proof fn law_missing_rows_are_zero(
    t: RowTerms,
    d: TensorDType,
    shape: Seq<usize>,
    data: Seq<u8>,
    row: int,
    vec_len: int,
)
    requires
        is_dot_product(t, d, shape, data, row, vec_len),
        shape.len() < 2 || row >= shape[1] || vec_len < shape[0],
    ensures
        t is Zero,
{
}

} // verus!
