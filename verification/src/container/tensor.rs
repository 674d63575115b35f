//! Tensors as shapes and bytes, and their weights as integers.
//!
//! A weight is handed out either as the bit pattern of a single-precision number or as a small
//! integer with the scale of its block; multiplying and adding up is left to the caller.

use vstd::prelude::*;
use vstd::string::*;

use crate::bytes::{le_at, read_u16, read_u32};
use crate::container::dtype::{dtype_name, TensorDType};
use crate::container::half::{f16_to_f32, widened};
use crate::container::{ContainerError, ContainerFault};
use crate::text::{decimal, decimal_text};

verus! {

/// Metadata of a single tensor inside the model file.
#[derive(Debug, Clone)]
pub struct TensorDescriptor {
    pub name: String,
    pub shape: Vec<usize>,
    pub dtype: TensorDType,
    pub offset_bytes: usize,
    pub size_bytes: usize,
}

/// Read-only view into the bytes of a tensor.
#[derive(Clone, Copy)]
pub struct TensorView<'a> {
    pub name: &'a str,
    pub shape: &'a [usize],
    pub dtype: TensorDType,
    pub data: &'a [u8],
}

/// One weight.
#[derive(Debug, Clone, Copy, PartialEq, Eq, Structural)]
pub enum Weight {
    /// A single-precision number, by its bit pattern.
    Single(u32),
    /// An integer to be multiplied by a single-precision scale, given by its bit pattern.
    Scaled { q: i8, scale: u32 },
}

/// The terms of one block of a row: columns and integer weights, in the order in which they are
/// added up, and the scale of their sum.
#[derive(Debug)]
pub struct BlockTerms {
    pub scale: u32,
    pub terms: Vec<(usize, i8)>,
}

/// What the dot product of a row with a vector is made of.
#[derive(Debug)]
pub enum RowTerms {
    /// The product is zero.
    Zero,
    /// One single-precision weight for each column, by its bit pattern.
    Plain(Vec<u32>),
    /// The blocks of the row.
    Blocks(Vec<BlockTerms>),
}

// ---------------------------------------------------------------------------
// Shapes
// ---------------------------------------------------------------------------

/// The product of the dimensions; one where there are none.
pub open spec fn product(shape: Seq<usize>) -> nat
    decreases shape.len(),
{
    if shape.len() == 0 {
        1
    } else {
        product(shape.drop_last()) * shape.last() as nat
    }
}

/// The number of elements of a tensor; none where it has no dimensions.
pub open spec fn count_of(shape: Seq<usize>) -> nat {
    if shape.len() == 0 {
        0
    } else {
        product(shape)
    }
}

/// The dimensions can be multiplied up in order.
pub open spec fn product_fits(shape: Seq<usize>) -> bool {
    forall|k: int| 0 <= k <= shape.len() ==> #[trigger] product(shape.take(k)) <= usize::MAX
}

/// The product of the dimensions, where it can be formed.
pub fn checked_product(shape: &[usize]) -> (r: Option<usize>)
    ensures
        match r {
            Some(n) => product_fits(shape@) && n == product(shape@),
            None => !product_fits(shape@),
        },
{
    let mut n: usize = 1;
    let mut i: usize = 0;
    while i < shape.len()
        invariant
            i <= shape@.len(),
            n == product(shape@.take(i as int)),
            forall|k: int| 0 <= k <= i ==> #[trigger] product(shape@.take(k)) <= usize::MAX,
        decreases shape@.len() - i,
    {
        proof {
            let t = shape@.take(i + 1);
            assert(t.drop_last() =~= shape@.take(i as int));
            assert(t.last() == shape@[i as int]);
            assert(product(t) == n * shape@[i as int]);
        }
        match n.checked_mul(shape[i]) {
            None => {
                assert(product(shape@.take(i + 1)) > usize::MAX);
                return None;
            },
            Some(m) => {
                n = m;
            },
        }
        i = i + 1;
    }
    assert(shape@.take(shape@.len() as int) =~= shape@);
    Some(n)
}

/// The number of elements of a shape.
fn count_elements(shape: &[usize]) -> (r: usize)
    requires
        product_fits(shape@),
    ensures
        r == count_of(shape@),
{
    if shape.len() == 0 {
        0
    } else {
        match checked_product(shape) {
            Some(n) => n,
            None => 0,
        }
    }
}

impl TensorDescriptor {
    /// The number of elements of the tensor.
    pub fn element_count(&self) -> (r: usize)
        requires
            product_fits(self.shape@),
        ensures
            r == count_of(self.shape@),
    {
        count_elements(self.shape.as_slice())
    }
}

// ---------------------------------------------------------------------------
// Weights
// ---------------------------------------------------------------------------

/// The byte read as a signed number.
pub open spec fn signed(b: u8) -> i8 {
    if b < 128 {
        b as i8
    } else {
        (b - 256) as i8
    }
}

/// The low half of a byte, or its high half.
pub open spec fn nibble(b: u8, high: bool) -> int {
    if high {
        b as int / 16
    } else {
        b as int % 16
    }
}

/// The code book of the non-linear four-bit type.
pub open spec fn kvalues_iq4nl() -> Seq<int> {
    seq![
        -127, -104, -83, -65, -49, -35, -22, -10, 1int, 13int, 25int, 38int, 53int, 69int, 89int,
        113int,
    ]
}

/// The value of a four-bit code.
pub open spec fn iq4nl_value(n: int) -> i8 {
    kvalues_iq4nl()[n] as i8
}

/// The weight of one sign bit.
pub open spec fn sign_bit(b: u8, j: int) -> i8 {
    if (b as int / vstd::arithmetic::power2::pow2(j as nat) as int) % 2 == 1 {
        1
    } else {
        (-1) as i8
    }
}

/// Elements in one block.
pub open spec fn block_len(d: TensorDType) -> int {
    match d {
        TensorDType::Q1_0 | TensorDType::BILLM => 128,
        _ => 32,
    }
}

/// Bytes in one block: two of scale, then the integers.
pub open spec fn block_bytes(d: TensorDType) -> int {
    match d {
        TensorDType::Q8_0 => 34,
        _ => 18,
    }
}

/// Types whose weights are integers with a scale for each block.
pub open spec fn is_block_type(d: TensorDType) -> bool {
    match d {
        TensorDType::Q8_0 | TensorDType::Q4_0 | TensorDType::IQ4_NL => true,
        TensorDType::Q1_0 | TensorDType::BILLM => true,
        _ => false,
    }
}

/// Types whose weights are single numbers.
pub open spec fn is_plain_type(d: TensorDType) -> bool {
    match d {
        TensorDType::F32 | TensorDType::F16 | TensorDType::BF16 => true,
        _ => false,
    }
}

/// Types that can be expanded to numbers.
pub open spec fn expands(d: TensorDType) -> bool {
    is_plain_type(d) || d == TensorDType::Q8_0 || d == TensorDType::Q4_0 || d
        == TensorDType::IQ4_NL
}

/// The integer weight of element `i` of block data.
pub open spec fn quant_at(d: TensorDType, data: Seq<u8>, i: int) -> i8 {
    let start = i / block_len(d) * block_bytes(d) + 2;
    let j = i % block_len(d);
    match d {
        TensorDType::Q8_0 => signed(data[start + j]),
        TensorDType::Q4_0 => (nibble(data[start + j % 16], j >= 16) - 8) as i8,
        TensorDType::IQ4_NL => iq4nl_value(nibble(data[start + j % 16], j >= 16)),
        _ => sign_bit(data[start + j / 8], j % 8),
    }
}

/// The scale of a block, as a single-precision bit pattern.
pub open spec fn scale_at(d: TensorDType, data: Seq<u8>, block: int) -> u32 {
    widened(le_at(data, block * block_bytes(d), 2) as u16)
}

/// The bit pattern of element `i` of plain data.
pub open spec fn plain_at(d: TensorDType, data: Seq<u8>, i: int) -> u32 {
    match d {
        TensorDType::F32 => le_at(data, 4 * i, 4) as u32,
        TensorDType::BF16 => (le_at(data, 2 * i, 2) * 0x1_0000) as u32,
        _ => widened(le_at(data, 2 * i, 2) as u16),
    }
}

/// The weight of element `i`.
pub open spec fn weight_at(d: TensorDType, data: Seq<u8>, i: int) -> Weight {
    if is_plain_type(d) {
        Weight::Single(plain_at(d, data, i))
    } else {
        Weight::Scaled { q: quant_at(d, data, i), scale: scale_at(d, data, i / block_len(d)) }
    }
}

/// The number of elements that so many bytes hold.
pub open spec fn stored_elements(d: TensorDType, bytes: nat) -> nat {
    match d {
        TensorDType::F32 => bytes / 4,
        TensorDType::F16 | TensorDType::BF16 => bytes / 2,
        _ => bytes / (block_bytes(d) as nat) * (block_len(d) as nat),
    }
}

fn signed_byte(b: u8) -> (r: i8)
    ensures
        r == signed(b),
{
    if b < 128 {
        b as i8
    } else {
        (b as i16 - 256) as i8
    }
}

fn code_book(n: u8) -> (r: i8)
    requires
        n < 16,
    ensures
        r == iq4nl_value(n as int),
{
    match n {
        0 => -127,
        1 => -104,
        2 => -83,
        3 => -65,
        4 => -49,
        5 => -35,
        6 => -22,
        7 => -10,
        8 => 1,
        9 => 13,
        10 => 25,
        11 => 38,
        12 => 53,
        13 => 69,
        14 => 89,
        _ => 113,
    }
}

fn sign_weight(b: u8, j: usize) -> (r: i8)
    requires
        j < 8,
    ensures
        r == sign_bit(b, j as int),
{
    let mut rest: u8 = b;
    let mut k: usize = 0;
    proof {
        vstd::arithmetic::power2::lemma2_to64();
    }
    while k < j
        invariant
            k <= j < 8,
            rest == b as int / vstd::arithmetic::power2::pow2(k as nat) as int,
        decreases j - k,
    {
        proof {
            vstd::arithmetic::power2::lemma2_to64();
            vstd::arithmetic::power2::lemma_pow2_pos(k as nat);
            vstd::arithmetic::power2::lemma_pow2_unfold((k + 1) as nat);
            vstd::arithmetic::div_mod::lemma_div_denominator(
                b as int,
                vstd::arithmetic::power2::pow2(k as nat) as int,
                2,
            );
        }
        rest = rest / 2;
        k = k + 1;
    }
    if rest % 2 == 1 {
        1
    } else {
        -1
    }
}

/// The block of element `i` lies within the data.
proof fn lemma_block_in_data(d: TensorDType, len: int, i: int)
    requires
        is_block_type(d),
        0 <= i,
        i < len / block_bytes(d) * block_len(d),
    ensures
        0 <= i / block_len(d),
        0 <= i / block_len(d) * block_bytes(d),
        i / block_len(d) * block_bytes(d) + block_bytes(d) <= len,
{
    let n = len / block_bytes(d);
    let b = i / block_len(d);
    if block_len(d) == 32 {
        assert(b < n);
    } else {
        assert(b < n);
    }
    if block_bytes(d) == 34 {
        assert(b * 34 + 34 <= len);
    } else {
        assert(b * 18 + 18 <= len);
    }
}

/// The integer weight of element `i`.
fn quant(d: TensorDType, data: &[u8], i: usize) -> (r: i8)
    requires
        is_block_type(d),
        i < data@.len() as int / block_bytes(d) * block_len(d),
    ensures
        r == quant_at(d, data@, i as int),
{
    proof {
        lemma_block_in_data(d, data@.len() as int, i as int);
        assert(data@.len() == data.len());
    }
    match d {
        TensorDType::Q8_0 => signed_byte(data[i / 32 * 34 + 2 + i % 32]),
        TensorDType::Q4_0 => {
            let j: usize = i % 32;
            let b: u8 = data[i / 32 * 18 + 2 + j % 16];
            if j >= 16 {
                (b / 16) as i8 - 8
            } else {
                (b % 16) as i8 - 8
            }
        },
        TensorDType::IQ4_NL => {
            let j: usize = i % 32;
            let b: u8 = data[i / 32 * 18 + 2 + j % 16];
            if j >= 16 {
                code_book(b / 16)
            } else {
                code_book(b % 16)
            }
        },
        _ => {
            let j: usize = i % 128;
            sign_weight(data[i / 128 * 18 + 2 + j / 8], j % 8)
        },
    }
}

/// The scale of a block.
fn block_scale(d: TensorDType, data: &[u8], block: usize) -> (r: u32)
    requires
        is_block_type(d),
        block * block_bytes(d) + block_bytes(d) <= data@.len(),
    ensures
        r == scale_at(d, data@, block as int),
{
    assert(data@.len() == data.len());
    let at: usize = match d {
        TensorDType::Q8_0 => block * 34,
        _ => block * 18,
    };
    f16_to_f32(read_u16(data, at))
}

/// The bit pattern of element `i` of plain data.
fn plain(d: TensorDType, data: &[u8], i: usize) -> (r: u32)
    requires
        is_plain_type(d),
        i < stored_elements(d, data@.len()),
    ensures
        r == plain_at(d, data@, i as int),
{
    assert(data@.len() == data.len());
    match d {
        TensorDType::F32 => read_u32(data, 4 * i),
        TensorDType::BF16 => read_u16(data, 2 * i) as u32 * 0x1_0000,
        _ => f16_to_f32(read_u16(data, 2 * i)),
    }
}

/// What is said of an output buffer that is too small.
pub open spec fn small_buffer_text(have: nat, need: nat) -> Seq<char> {
    "Output buffer too small: "@ + decimal(have) + " < "@ + decimal(need)
}

/// What is said of a type that cannot be expanded.
pub open spec fn no_expansion_text(name: Seq<char>, d: TensorDType) -> Seq<char> {
    "Unsupported dequantization format for tensor '"@ + name + "': "@ + dtype_name(d)
}

impl<'a> TensorView<'a> {
    /// The number of elements of the tensor.
    pub fn element_count(&self) -> (r: usize)
        requires
            product_fits(self.shape@),
        ensures
            r == count_of(self.shape@),
    {
        count_elements(self.shape)
    }

    /// The weights of the tensor, as many as the data holds, for an output buffer with room for
    /// `out_len` numbers.
    pub fn dequantize_to_f32(&self, out_len: usize) -> (r: Result<Vec<Weight>, ContainerError>)
        requires
            product_fits(self.shape@),
        ensures
            match r {
                Ok(w) => {
                    let held = stored_elements(self.dtype, self.data@.len());
                    &&& count_of(self.shape@) <= out_len
                    &&& expands(self.dtype)
                    &&& w@.len() == if held <= count_of(self.shape@) {
                        held
                    } else {
                        count_of(self.shape@)
                    }
                    &&& forall|i: int|
                        0 <= i < w@.len() ==> #[trigger] w@[i] == weight_at(
                            self.dtype,
                            self.data@,
                            i,
                        )
                },
                Err(e) => if out_len < count_of(self.shape@) {
                    e@ == ContainerFault::CorruptedHeader(
                        small_buffer_text(out_len as nat, count_of(self.shape@)),
                    )
                } else {
                    !expands(self.dtype) && e@ == ContainerFault::CorruptedHeader(
                        no_expansion_text(self.name@, self.dtype),
                    )
                },
            },
    {
        let expected: usize = self.element_count();
        if out_len < expected {
            let have = decimal_text(out_len as u64);
            let need = decimal_text(expected as u64);
            let text = "Output buffer too small: ".to_owned().concat(have.as_str()).concat(
                " < ",
            ).concat(need.as_str());
            return Err(ContainerError::CorruptedHeader(text));
        }
        let bytes: usize = self.data.len();
        let held: usize = match self.dtype {
            TensorDType::F32 => bytes / 4,
            TensorDType::F16 | TensorDType::BF16 => bytes / 2,
            TensorDType::Q8_0 => bytes / 34 * 32,
            TensorDType::Q4_0 | TensorDType::IQ4_NL => {
                // 18 bytes hold 32 elements, so the count may pass what a word holds.
                if bytes / 18 > usize::MAX / 32 {
                    usize::MAX
                } else {
                    bytes / 18 * 32
                }
            },
            _ => {
                let name = self.dtype.name();
                let text = "Unsupported dequantization format for tensor '".to_owned().concat(
                    self.name,
                ).concat("': ").concat(name.as_str());
                return Err(ContainerError::CorruptedHeader(text));
            },
        };
        let count: usize = if held <= expected {
            held
        } else {
            expected
        };
        let mut out: Vec<Weight> = Vec::new();
        let mut i: usize = 0;
        while i < count
            invariant
                i <= count,
                count <= stored_elements(self.dtype, self.data@.len()),
                expands(self.dtype),
                out@.len() == i,
                forall|k: int|
                    0 <= k < i ==> #[trigger] out@[k] == weight_at(self.dtype, self.data@, k),
            decreases count - i,
        {
            let w: Weight = match self.dtype {
                TensorDType::F32 | TensorDType::F16 | TensorDType::BF16 => Weight::Single(
                    plain(self.dtype, self.data, i),
                ),
                _ => {
                    proof {
                        lemma_block_in_data(self.dtype, self.data@.len() as int, i as int);
                    }
                    Weight::Scaled {
                        q: quant(self.dtype, self.data, i),
                        scale: block_scale(self.dtype, self.data, i / 32),
                    }
                },
            };
            out.push(w);
            i = i + 1;
        }
        Ok(out)
    }

    /// What the dot product of row `row_idx` with a vector of `vec_len` numbers is made of.
    /// The data is not expanded beyond that row.
    pub fn dot_product_row(&self, row_idx: usize, vec_len: usize) -> (r: RowTerms)
        requires
            row_asked(self.shape@, row_idx as int, vec_len as int) ==> row_in_data(
                self.dtype,
                self.shape@[0] as int,
                row_idx as int,
                self.data@.len() as int,
            ),
        ensures
            is_dot_product(
                r,
                self.dtype,
                self.shape@,
                self.data@,
                row_idx as int,
                vec_len as int,
            ),
    {
        if self.shape.len() < 2 {
            return RowTerms::Zero;
        }
        let cols: usize = self.shape[0];
        let rows: usize = self.shape[1];
        if row_idx >= rows || vec_len < cols {
            return RowTerms::Zero;
        }
        match self.dtype {
            TensorDType::F32 | TensorDType::F16 | TensorDType::BF16 => RowTerms::Plain(
                plain_row(self.dtype, self.data, cols, row_idx),
            ),
            TensorDType::Q8_0 | TensorDType::Q4_0 | TensorDType::IQ4_NL | TensorDType::Q1_0
            | TensorDType::BILLM => RowTerms::Blocks(
                block_row(self.dtype, self.data, cols, row_idx),
            ),
            _ => RowTerms::Zero,
        }
    }

    /// Whether the dot product of a row can be formed: where it is asked for, the data has to
    /// reach to the end of the row.
    pub fn has_row(&self, row_idx: usize, vec_len: usize) -> (r: bool)
        ensures
            r == (row_asked(self.shape@, row_idx as int, vec_len as int) ==> row_in_data(
                self.dtype,
                self.shape@[0] as int,
                row_idx as int,
                self.data@.len() as int,
            )),
    {
        if self.shape.len() < 2 {
            return true;
        }
        let cols: usize = self.shape[0];
        if row_idx >= self.shape[1] || vec_len < cols {
            return true;
        }
        if cols > isize::MAX as usize {
            return false;
        }
        match self.dtype {
            TensorDType::F32 => rows_fit(row_idx, cols, self.data.len() / 4),
            TensorDType::F16 | TensorDType::BF16 => rows_fit(row_idx, cols, self.data.len() / 2),
            TensorDType::Q8_0 => block_rows_fit(row_idx, (cols + 31) / 32, 34, self.data.len()),
            TensorDType::Q4_0 | TensorDType::IQ4_NL => block_rows_fit(
                row_idx,
                (cols + 31) / 32,
                18,
                self.data.len(),
            ),
            TensorDType::Q1_0 | TensorDType::BILLM => block_rows_fit(
                row_idx,
                (cols + 127) / 128,
                18,
                self.data.len(),
            ),
            _ => true,
        }
    }
}

/// Whether there is room for `row` rows of `width` and one more.
fn rows_fit(row: usize, width: usize, room: usize) -> (r: bool)
    requires
        row < usize::MAX,
    ensures
        r == (row * width + width <= room),
{
    assert((row + 1) * width == row * width + width) by (nonlinear_arith);
    match (row + 1).checked_mul(width) {
        Some(n) => n <= room,
        None => false,
    }
}

/// Whether there is room for `row` rows of so many blocks and one more.
fn block_rows_fit(row: usize, blocks: usize, bytes: usize, room: usize) -> (r: bool)
    requires
        row < usize::MAX,
    ensures
        r == (row * (blocks * bytes) + blocks * bytes <= room),
{
    match blocks.checked_mul(bytes) {
        Some(n) => rows_fit(row, n, room),
        None => {
            assert(0 <= row * (blocks * bytes)) by (nonlinear_arith)
                requires
                    0 <= row,
                    0 <= blocks * bytes,
            ;
            false
        },
    }
}

// ---------------------------------------------------------------------------
// Rows
// ---------------------------------------------------------------------------

/// The tensor has the row and the vector is long enough for it.
pub open spec fn row_asked(shape: Seq<usize>, row: int, vec_len: int) -> bool {
    shape.len() >= 2 && row < shape[1] && shape[0] <= vec_len
}

/// Blocks in a row of so many columns.
pub open spec fn blocks_per_row(d: TensorDType, cols: int) -> int {
    (cols + block_len(d) - 1) / block_len(d)
}

/// Bytes in a row of so many columns.
pub open spec fn row_bytes(d: TensorDType, cols: int) -> int {
    blocks_per_row(d, cols) * block_bytes(d)
}

/// The data reaches to the end of the row, and columns can be counted.
pub open spec fn row_in_data(d: TensorDType, cols: int, row: int, len: int) -> bool {
    &&& cols <= isize::MAX
    &&& is_plain_type(d) ==> row * cols + cols <= stored_elements(d, len as nat)
    &&& is_block_type(d) ==> row * row_bytes(d, cols) + row_bytes(d, cols) <= len
}

/// The bytes of a row of block data.
pub open spec fn row_data(d: TensorDType, data: Seq<u8>, cols: int, row: int) -> Seq<u8> {
    data.subrange(row * row_bytes(d, cols), row * row_bytes(d, cols) + row_bytes(d, cols))
}

/// The terms of the columns from `base` on, `n` of them, as far as the row has them.
pub open spec fn run_terms(d: TensorDType, row: Seq<u8>, cols: int, base: int, n: nat) -> Seq<
    (usize, i8),
>
    decreases n,
{
    if n == 0 {
        Seq::empty()
    } else {
        run_terms(d, row, cols, base, (n - 1) as nat) + term(d, row, cols, base + n - 1)
    }
}

/// The terms of two half blocks of sixteen columns, taken in turn.
pub open spec fn pair_terms(d: TensorDType, row: Seq<u8>, cols: int, base: int, n: nat) -> Seq<
    (usize, i8),
>
    decreases n,
{
    if n == 0 {
        Seq::empty()
    } else {
        pair_terms(d, row, cols, base, (n - 1) as nat) + term(d, row, cols, base + n - 1) + term(
            d,
            row,
            cols,
            base + n + 15,
        )
    }
}

/// The term of one column, where the row has it.
pub open spec fn term(d: TensorDType, row: Seq<u8>, cols: int, c: int) -> Seq<(usize, i8)> {
    if c < cols {
        seq![(c as usize, quant_at(d, row, c))]
    } else {
        Seq::empty()
    }
}

/// The terms of block `b` of a row, in the order in which they are added up.
pub open spec fn block_terms(d: TensorDType, row: Seq<u8>, cols: int, b: int) -> Seq<(usize, i8)> {
    match d {
        TensorDType::Q4_0 | TensorDType::IQ4_NL => pair_terms(d, row, cols, b * 32, 16),
        TensorDType::Q8_0 => run_terms(d, row, cols, b * 32, 32),
        _ => run_terms(d, row, cols, b * 128, 128),
    }
}

/// The terms are those of the dot product of the row.
pub open spec fn is_dot_product(
    t: RowTerms,
    d: TensorDType,
    shape: Seq<usize>,
    data: Seq<u8>,
    row: int,
    vec_len: int,
) -> bool {
    if !row_asked(shape, row, vec_len) {
        t is Zero
    } else {
        let cols = shape[0] as int;
        if is_plain_type(d) {
            t is Plain && t->Plain_0@ == Seq::new(
                cols as nat,
                |c: int| plain_at(d, data, row * cols + c),
            )
        } else if is_block_type(d) {
            let bytes = row_data(d, data, cols, row);
            &&& t is Blocks
            &&& t->Blocks_0@.len() == blocks_per_row(d, cols)
            &&& forall|b: int|
                0 <= b < t->Blocks_0@.len() ==> {
                    &&& (#[trigger] t->Blocks_0@[b]).scale == scale_at(d, bytes, b)
                    &&& t->Blocks_0@[b].terms@ == block_terms(d, bytes, cols, b)
                }
        } else {
            t is Zero
        }
    }
}

/// The bit patterns of a row of plain data.
fn plain_row(d: TensorDType, data: &[u8], cols: usize, row: usize) -> (r: Vec<u32>)
    requires
        is_plain_type(d),
        row_in_data(d, cols as int, row as int, data@.len() as int),
    ensures
        r@ == Seq::new(cols as nat, |c: int| plain_at(d, data@, row * cols + c)),
{
    assert(data@.len() == data.len());
    assert(0 <= row * cols) by (nonlinear_arith)
        requires
            0 <= row,
            0 <= cols,
    ;
    let start: usize = row * cols;
    let mut out: Vec<u32> = Vec::new();
    let mut c: usize = 0;
    while c < cols
        invariant
            c <= cols,
            is_plain_type(d),
            start == row * cols,
            start + cols <= stored_elements(d, data@.len()),
            start + cols <= usize::MAX,
            out@ == Seq::new(c as nat, |k: int| plain_at(d, data@, row * cols + k)),
        decreases cols - c,
    {
        out.push(plain(d, data, start + c));
        assert(out@ =~= Seq::new((c + 1) as nat, |k: int| plain_at(d, data@, row * cols + k)));
        c = c + 1;
    }
    out
}

/// Adds the term of one column, where the row has it.
fn push_term(
    out: &mut Vec<(usize, i8)>,
    d: TensorDType,
    row: &[u8],
    cols: usize,
    c: usize,
)
    requires
        is_block_type(d),
        row@.len() == row_bytes(d, cols as int),
    ensures
        final(out)@ == old(out)@ + term(d, row@, cols as int, c as int),
{
    if c < cols {
        proof {
            lemma_column_in_row(d, cols as int, c as int);
        }
        out.push((c, quant(d, row, c)));
    }
    assert(out@ =~= old(out)@ + term(d, row@, cols as int, c as int));
}

proof fn lemma_column_in_row(d: TensorDType, cols: int, c: int)
    requires
        is_block_type(d),
        0 <= c < cols,
    ensures
        c < row_bytes(d, cols) / block_bytes(d) * block_len(d),
{
    let n = blocks_per_row(d, cols);
    vstd::arithmetic::div_mod::lemma_div_by_multiple(n, block_bytes(d));
}

/// The blocks of a row.
fn block_row(d: TensorDType, data: &[u8], cols: usize, row: usize) -> (r: Vec<BlockTerms>)
    requires
        is_block_type(d),
        row_in_data(d, cols as int, row as int, data@.len() as int),
    ensures
        r@.len() == blocks_per_row(d, cols as int),
        forall|b: int|
            0 <= b < r@.len() ==> {
                &&& (#[trigger] r@[b]).scale == scale_at(
                    d,
                    row_data(d, data@, cols as int, row as int),
                    b,
                )
                &&& r@[b].terms@ == block_terms(
                    d,
                    row_data(d, data@, cols as int, row as int),
                    cols as int,
                    b,
                )
            },
{
    assert(data@.len() == data.len());
    let per_block: usize = match d {
        TensorDType::Q1_0 | TensorDType::BILLM => 128,
        _ => 32,
    };
    let bytes: usize = match d {
        TensorDType::Q8_0 => 34,
        _ => 18,
    };
    let blocks: usize = (cols + (per_block - 1)) / per_block;
    assert(blocks == blocks_per_row(d, cols as int));
    assert(0 <= row * row_bytes(d, cols as int)) by (nonlinear_arith)
        requires
            0 <= row,
            0 <= row_bytes(d, cols as int),
    ;
    let size: usize = blocks * bytes;
    let start: usize = row * size;
    let line: &[u8] = &data[start..start + size];
    assert(line@ =~= row_data(d, data@, cols as int, row as int));
    let mut out: Vec<BlockTerms> = Vec::new();
    let mut b: usize = 0;
    while b < blocks
        invariant
            b <= blocks,
            is_block_type(d),
            blocks == blocks_per_row(d, cols as int),
            cols <= isize::MAX,
            line@ == row_data(d, data@, cols as int, row as int),
            line@.len() == row_bytes(d, cols as int),
            out@.len() == b,
            forall|k: int|
                0 <= k < b ==> {
                    &&& (#[trigger] out@[k]).scale == scale_at(d, line@, k)
                    &&& out@[k].terms@ == block_terms(d, line@, cols as int, k)
                },
        decreases blocks - b,
    {
        let mut terms: Vec<(usize, i8)> = Vec::new();
        assert(b * block_bytes(d) + block_bytes(d) <= row_bytes(d, cols as int))
            by (nonlinear_arith)
            requires
                b + 1 <= blocks_per_row(d, cols as int),
                block_bytes(d) > 0,
                row_bytes(d, cols as int) == blocks_per_row(d, cols as int) * block_bytes(d),
        ;
        let scale: u32 = block_scale(d, line, b);
        let paired: bool = match d {
            TensorDType::Q4_0 | TensorDType::IQ4_NL => true,
            _ => false,
        };
        if paired {
            let base: usize = b * 32;
            let mut j: usize = 0;
            while j < 16
                invariant
                    j <= 16,
                    is_block_type(d),
                    base + 32 <= usize::MAX,
                    line@.len() == row_bytes(d, cols as int),
                    terms@ == pair_terms(d, line@, cols as int, base as int, j as nat),
                decreases 16 - j,
            {
                push_term(&mut terms, d, line, cols, base + j);
                push_term(&mut terms, d, line, cols, base + 16 + j);
                j = j + 1;
            }
        } else {
            let n: usize = match d {
                TensorDType::Q8_0 => 32,
                _ => 128,
            };
            let base: usize = b * n;
            let mut j: usize = 0;
            while j < n
                invariant
                    j <= n <= 128,
                    is_block_type(d),
                    base + 128 <= usize::MAX,
                    line@.len() == row_bytes(d, cols as int),
                    terms@ == run_terms(d, line@, cols as int, base as int, j as nat),
                decreases n - j,
            {
                push_term(&mut terms, d, line, cols, base + j);
                j = j + 1;
            }
        }
        out.push(BlockTerms { scale, terms });
        b = b + 1;
    }
    out
}

/// Where rows end on block boundaries, the weights that a row is multiplied by are those of the
/// expanded tensor.
pub proof fn law_row_weights_are_tensor_weights(
    d: TensorDType,
    data: Seq<u8>,
    cols: int,
    row: int,
    c: int,
)
    requires
        is_block_type(d),
        0 <= row,
        0 <= c < cols,
        cols % block_len(d) == 0,
        row * row_bytes(d, cols) + row_bytes(d, cols) <= data.len(),
    ensures
        quant_at(d, row_data(d, data, cols, row), c) == quant_at(d, data, row * cols + c),
        scale_at(d, row_data(d, data, cols, row), c / block_len(d)) == scale_at(
            d,
            data,
            (row * cols + c) / block_len(d),
        ),
{
    let n = cols / block_len(d);
    let bl = block_len(d);
    let bb = block_bytes(d);
    let line = row_data(d, data, cols, row);
    let i = row * cols + c;
    assert(blocks_per_row(d, cols) == n);
    assert(cols == n * bl);
    assert(row * cols == (row * n) * bl) by (nonlinear_arith)
        requires
            cols == n * bl,
    ;
    let b = c / bl;
    let start = row * row_bytes(d, cols);
    assert(start == (row * n) * bb) by (nonlinear_arith)
        requires
            start == row * (n * bb),
    ;
    assert(0 <= row * n) by (nonlinear_arith)
        requires
            0 <= row,
            0 <= n,
    ;
    assert(i / bl == row * n + b && i % bl == c % bl) by {
        vstd::arithmetic::div_mod::lemma_fundamental_div_mod_converse(
            i,
            bl,
            row * n + b,
            c % bl,
        );
    }
    assert((row * n + b) * bb == start + b * bb) by (nonlinear_arith)
        requires
            start == (row * n) * bb,
    ;
    assert(b < n);
    assert(0 <= b * bb && b * bb + bb <= n * bb) by (nonlinear_arith)
        requires
            0 <= b < n,
            bb > 0,
    ;
    assert(line.len() == n * bb);
    assert(line.subrange(b * bb, b * bb + 2) =~= data.subrange(
        start + b * bb,
        start + b * bb + 2,
    ));
}

} // verus!
