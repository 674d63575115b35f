//! Little-endian integers in byte sequences.

use vstd::prelude::*;

verus! {

/// The number that a byte sequence stands for, least significant byte first.
pub open spec fn le(b: Seq<u8>) -> nat
    decreases b.len(),
{
    if b.len() == 0 {
        0
    } else {
        b[0] as nat + 256 * le(b.skip(1))
    }
}

/// The number in the `k` bytes of `b` that start at `at`.
pub open spec fn le_at(b: Seq<u8>, at: int, k: int) -> nat {
    le(b.subrange(at, at + k))
}

/// The `k` low bytes of `n`, least significant byte first.
pub open spec fn le_bytes(n: nat, k: nat) -> Seq<u8>
    decreases k,
{
    if k == 0 {
        Seq::empty()
    } else {
        seq![(n % 256) as u8] + le_bytes(n / 256, (k - 1) as nat)
    }
}

/// The number of values that `k` bytes can hold.
pub open spec fn pow256(k: nat) -> nat
    decreases k,
{
    if k == 0 {
        1
    } else {
        256 * pow256((k - 1) as nat)
    }
}

/// `n` zero bytes.
pub open spec fn zeros(n: nat) -> Seq<u8> {
    Seq::new(n, |i: int| 0u8)
}

pub proof fn lemma_le_bytes_len(n: nat, k: nat)
    ensures
        le_bytes(n, k).len() == k,
    decreases k,
{
    if k > 0 {
        lemma_le_bytes_len(n / 256, (k - 1) as nat);
    }
}

/// Reading back what was written gives the number written, where it fits.
pub proof fn lemma_le_round_trip(n: nat, k: nat)
    requires
        n < pow256(k),
    ensures
        le(le_bytes(n, k)) == n,
        le_bytes(n, k).len() == k,
    decreases k,
{
    if k > 0 {
        let rest = le_bytes(n / 256, (k - 1) as nat);
        assert(n / 256 < pow256((k - 1) as nat)) by (nonlinear_arith)
            requires
                n < 256 * pow256((k - 1) as nat),
        ;
        lemma_le_round_trip(n / 256, (k - 1) as nat);
        assert(le_bytes(n, k).skip(1) =~= rest);
        assert(le_bytes(n, k)[0] == (n % 256) as u8);
    }
}

pub proof fn lemma_pow256()
    ensures
        pow256(2) == 0x1_0000,
        pow256(4) == 0x1_0000_0000,
        pow256(8) == 0x1_0000_0000_0000_0000,
{
    assert(pow256(4) == 0x1_0000_0000 && pow256(2) == 0x1_0000) by {
        reveal_with_fuel(pow256, 5);
    }
    assert(pow256(8) == 256 * (256 * (256 * (256 * pow256(4))))) by {
        reveal_with_fuel(pow256, 5);
    }
}

pub proof fn lemma_le_step(b: Seq<u8>, at: int, k: int)
    requires
        0 <= at,
        0 < k,
        at + k <= b.len(),
    ensures
        le_at(b, at, k) == b[at] as nat + 256 * le_at(b, at + 1, k - 1),
{
    let s = b.subrange(at, at + k);
    assert(s.skip(1) =~= b.subrange(at + 1, at + k));
    assert(s[0] == b[at]);
}

pub proof fn lemma_le_two(b: Seq<u8>, at: int)
    requires
        0 <= at,
        at + 2 <= b.len(),
    ensures
        le_at(b, at, 2) == b[at] as nat + 256 * b[at + 1] as nat,
        le_at(b, at, 2) < 0x1_0000,
{
    lemma_le_step(b, at, 2);
    lemma_le_step(b, at + 1, 1);
    assert(b.subrange(at + 2, at + 2) =~= Seq::empty());
}

pub proof fn lemma_le_four(b: Seq<u8>, at: int)
    requires
        0 <= at,
        at + 4 <= b.len(),
    ensures
        le_at(b, at, 4) == le_at(b, at, 2) + 0x1_0000 * le_at(b, at + 2, 2),
        le_at(b, at, 4) < 0x1_0000_0000,
{
    lemma_le_step(b, at, 4);
    lemma_le_step(b, at + 1, 3);
    lemma_le_two(b, at);
    lemma_le_two(b, at + 2);
}

pub proof fn lemma_le_eight(b: Seq<u8>, at: int)
    requires
        0 <= at,
        at + 8 <= b.len(),
    ensures
        le_at(b, at, 8) == le_at(b, at, 4) + 0x1_0000_0000 * le_at(b, at + 4, 4),
        le_at(b, at, 8) < 0x1_0000_0000_0000_0000,
{
    lemma_le_step(b, at, 8);
    lemma_le_step(b, at + 1, 7);
    lemma_le_step(b, at + 2, 6);
    lemma_le_step(b, at + 3, 5);
    lemma_le_two(b, at);
    lemma_le_two(b, at + 2);
    lemma_le_four(b, at);
    lemma_le_four(b, at + 4);
}

/// The 16-bit number at `at`.
pub fn read_u16(b: &[u8], at: usize) -> (r: u16)
    requires
        at + 2 <= b@.len(),
    ensures
        r as nat == le_at(b@, at as int, 2),
{
    proof {
        lemma_le_two(b@, at as int);
    }
    b[at] as u16 + b[at + 1] as u16 * 256
}

/// The 32-bit number at `at`.
pub fn read_u32(b: &[u8], at: usize) -> (r: u32)
    requires
        at + 4 <= b@.len(),
    ensures
        r as nat == le_at(b@, at as int, 4),
{
    assert(b@.len() == b.len());
    let lo: u32 = read_u16(b, at) as u32;
    let hi: u32 = read_u16(b, at + 2) as u32;
    proof {
        lemma_le_four(b@, at as int);
    }
    lo + hi * 0x1_0000
}

/// The 64-bit number at `at`.
pub fn read_u64(b: &[u8], at: usize) -> (r: u64)
    requires
        at + 8 <= b@.len(),
    ensures
        r as nat == le_at(b@, at as int, 8),
{
    assert(b@.len() == b.len());
    let lo: u64 = read_u32(b, at) as u64;
    let hi: u64 = read_u32(b, at + 4) as u64;
    proof {
        lemma_le_eight(b@, at as int);
    }
    lo + hi * 0x1_0000_0000
}

/// Appends the `k` low bytes of `n`.
pub fn push_le(out: &mut Vec<u8>, n: u64, k: usize)
    ensures
        final(out)@ == old(out)@ + le_bytes(n as nat, k as nat),
{
    let mut rest: u64 = n;
    let mut i: usize = k;
    while i > 0
        invariant
            i <= k,
            out@ + le_bytes(rest as nat, i as nat) == old(out)@ + le_bytes(n as nat, k as nat),
        decreases i,
    {
        let ghost before = out@;
        out.push((rest % 256) as u8);
        proof {
            assert(out@ + le_bytes((rest / 256) as nat, (i - 1) as nat) =~= before + le_bytes(
                rest as nat,
                i as nat,
            ));
        }
        rest = rest / 256;
        i = i - 1;
    }
    proof {
        assert(out@ + le_bytes(rest as nat, 0) =~= out@);
    }
}

/// Appends all bytes of `b`.
pub fn push_bytes(out: &mut Vec<u8>, b: &[u8])
    ensures
        final(out)@ == old(out)@ + b@,
{
    let mut i: usize = 0;
    proof {
        assert(out@ + b@.take(0) =~= out@);
    }
    while i < b.len()
        invariant
            i <= b@.len(),
            out@ == old(out)@ + b@.take(i as int),
        decreases b@.len() - i,
    {
        out.push(b[i]);
        proof {
            assert(out@ =~= old(out)@ + b@.take(i + 1));
        }
        i = i + 1;
    }
    proof {
        assert(b@.take(b@.len() as int) =~= b@);
    }
}

/// Appends `n` zero bytes.
pub fn push_zeros(out: &mut Vec<u8>, n: usize)
    ensures
        final(out)@ == old(out)@ + zeros(n as nat),
{
    let mut i: usize = 0;
    proof {
        assert(out@ + zeros(0) =~= out@);
    }
    while i < n
        invariant
            i <= n,
            out@ == old(out)@ + zeros(i as nat),
        decreases n - i,
    {
        out.push(0);
        proof {
            assert(out@ =~= old(out)@ + zeros((i + 1) as nat));
        }
        i = i + 1;
    }
}

/// A copy of the bytes of `b` from `from` up to `to`.
pub fn copy_range(b: &[u8], from: usize, to: usize) -> (r: Vec<u8>)
    requires
        from <= to <= b@.len(),
    ensures
        r@ == b@.subrange(from as int, to as int),
{
    let mut out: Vec<u8> = Vec::new();
    push_bytes(&mut out, &b[from..to]);
    proof {
        assert(Seq::<u8>::empty() + b@.subrange(from as int, to as int) =~= b@.subrange(
            from as int,
            to as int,
        ));
    }
    out
}

/// `n` rounded up to a multiple of 64.
pub open spec fn align64(n: int) -> int {
    (n + 63) / 64 * 64
}

/// Rounds up to a multiple of 64.
pub fn align_up_64(n: u64) -> (r: u64)
    requires
        n + 63 <= u64::MAX,
    ensures
        r == align64(n as int),
        r % 64 == 0,
        n <= r < n + 64,
{
    (n + 63) / 64 * 64
}

} // verus!
