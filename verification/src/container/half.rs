//! IEEE 754 half precision, widened to single precision as bit patterns.

use vstd::arithmetic::power2::{lemma2_to64, lemma_pow2_adds, lemma_pow2_unfold, pow2};
use vstd::prelude::*;

verus! {

/// How often a fraction is doubled until it has an eleventh bit.
pub open spec fn doublings(frac: nat) -> nat
    decreases 2048 - frac,
{
    if frac >= 1024 || frac == 0 {
        0
    } else {
        1 + doublings(2 * frac)
    }
}

/// The single-precision bit pattern of a half-precision bit pattern.
pub open spec fn widened(h: u16) -> u32 {
    let sign = (h / 32768) as int;
    let exp = (h / 1024 % 32) as int;
    let frac = (h % 1024) as int;
    let high = sign * 0x8000_0000;
    if exp == 0 && frac == 0 {
        high as u32
    } else if exp == 0 {
        let k = doublings(frac as nat);
        (high + (113 - k) * 0x80_0000 + (frac * pow2(k) - 1024) * 0x2000) as u32
    } else if exp == 31 {
        (high + 255 * 0x80_0000 + frac * 0x2000) as u32
    } else {
        (high + (exp + 112) * 0x80_0000 + frac * 0x2000) as u32
    }
}

proof fn lemma_doublings(frac: nat)
    requires
        0 < frac < 1024,
    ensures
        1 <= doublings(frac) <= 10,
        1024 <= frac * pow2(doublings(frac)) < 2048,
{
    reveal_with_fuel(doublings, 11);
    lemma2_to64();
    lemma_doublings_range(frac);
}

proof fn lemma_doublings_range(frac: nat)
    requires
        0 < frac < 2048,
    ensures
        1024 <= frac * pow2(doublings(frac)) < 2048,
    decreases 2048 - frac,
{
    lemma2_to64();
    if frac < 1024 {
        lemma_doublings_range(2 * frac);
        let k = doublings(2 * frac);
        lemma_pow2_unfold(k + 1);
        assert(frac * (2 * pow2(k)) == (2 * frac) * pow2(k)) by (nonlinear_arith);
    } else {
        assert(frac * pow2(0) == frac);
    }
}

/// The single-precision bit pattern of the half-precision number with bit pattern `h`.
pub fn f16_to_f32(h: u16) -> (r: u32)
    ensures
        r == widened(h),
{
    let sign: u32 = (h / 32768) as u32;
    let exp: u32 = (h / 1024 % 32) as u32;
    let frac: u32 = (h % 1024) as u32;
    let high: u32 = sign * 0x8000_0000;
    if exp == 0 {
        if frac == 0 {
            high
        } else {
            let mut k: u32 = 0;
            let mut f: u32 = frac;
            proof {
                lemma2_to64();
                lemma_doublings(frac as nat);
                assert(frac * pow2(0) == frac);
            }
            while f < 1024
                invariant
                    0 < f < 2048,
                    f == frac * pow2(k as nat),
                    k + doublings(f as nat) == doublings(frac as nat),
                    doublings(frac as nat) <= 10,
                decreases 2048 - f,
            {
                proof {
                    lemma_pow2_unfold((k + 1) as nat);
                    assert(frac * (2 * pow2(k as nat)) == 2 * (frac * pow2(k as nat)))
                        by (nonlinear_arith);
                }
                f = f * 2;
                k = k + 1;
            }
            high + (113 - k) * 0x80_0000 + (f - 1024) * 0x2000
        }
    } else if exp == 31 {
        high + 255 * 0x80_0000 + frac * 0x2000
    } else {
        high + (exp + 112) * 0x80_0000 + frac * 0x2000
    }
}

/// The magnitude of a finite half-precision number, in units of its smallest positive value.
pub open spec fn half_units(h: u16) -> nat {
    let exp = h / 1024 % 32;
    let frac = h % 1024;
    if exp == 0 {
        frac as nat
    } else {
        ((1024 + frac) * pow2((exp - 1) as nat)) as nat
    }
}

/// The magnitude of a finite single-precision number, in units of its smallest positive value.
pub open spec fn single_units(w: u32) -> nat {
    let exp = w / 0x80_0000 % 256;
    let frac = w % 0x80_0000;
    if exp == 0 {
        frac as nat
    } else {
        ((0x80_0000 + frac) * pow2((exp - 1) as nat)) as nat
    }
}

/// Widening keeps the sign, keeps infinities and not-a-numbers apart from finite numbers and
/// from each other, and keeps the value of every finite number: the unit of half precision
/// is 2 to the 125 units of single precision.
pub proof fn law_widening_keeps_the_value(h: u16)
    ensures
        widened(h) / 0x8000_0000 == h / 32768,
        h / 1024 % 32 == 31 <==> widened(h) / 0x80_0000 % 256 == 255,
        h / 1024 % 32 == 31 ==> (h % 1024 == 0 <==> widened(h) % 0x80_0000 == 0),
        h / 1024 % 32 != 31 ==> single_units(widened(h)) == half_units(h) * pow2(125),
{
    let exp = (h / 1024 % 32) as int;
    let frac = (h % 1024) as int;
    lemma2_to64();
    if exp == 0 && frac != 0 {
        let k = doublings(frac as nat);
        lemma_doublings(frac as nat);
        let f = frac * pow2(k);
        let w = widened(h);
        assert(w / 0x80_0000 % 256 == 113 - k);
        assert(w % 0x80_0000 == (f - 1024) * 0x2000);
        assert(single_units(w) == (f * 0x2000) * pow2((112 - k) as nat));
        lemma_pow2_adds(13, (112 - k) as nat);
        lemma_pow2_adds(k, (125 - k) as nat);
        assert((f * 0x2000) * pow2((112 - k) as nat) == f * pow2((125 - k) as nat))
            by (nonlinear_arith)
            requires
                pow2((125 - k) as nat) == 0x2000 * pow2((112 - k) as nat),
        ;
        assert(f * pow2((125 - k) as nat) == frac * pow2(125)) by (nonlinear_arith)
            requires
                f == frac * pow2(k),
                pow2(125) == pow2(k) * pow2((125 - k) as nat),
        ;
    } else if exp != 0 && exp != 31 {
        let w = widened(h);
        assert(w / 0x80_0000 % 256 == exp + 112);
        assert(w % 0x80_0000 == frac * 0x2000);
        lemma_pow2_adds(13, (exp + 111) as nat);
        lemma_pow2_adds((exp - 1) as nat, 125);
        assert(((1024 + frac) * 0x2000) * pow2((exp + 111) as nat) == ((1024 + frac) * pow2(
            (exp - 1) as nat,
        )) * pow2(125)) by (nonlinear_arith)
            requires
                pow2((exp + 124) as nat) == 0x2000 * pow2((exp + 111) as nat),
                pow2((exp + 124) as nat) == pow2((exp - 1) as nat) * pow2(125),
        ;
    }
}

} // verus!
