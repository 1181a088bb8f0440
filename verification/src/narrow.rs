//! Explicit numeric narrowing. The wire format carries loosely-typed
//! numbers; every field is narrowed into its declared domain by a bounded
//! check, never by a blind cast.

use vstd::arithmetic::power2::pow2;
use vstd::prelude::*;

verus! {

/// Narrows to the stack-count domain. Succeeds exactly on `0 ..= 255`.
pub fn narrow_u8(v: i64) -> (r: Option<u8>)
    ensures
        r matches Some(x) ==> x as int == v as int && 0 <= v <= 255,
        r is None <==> !(0 <= v <= 255),
{
    if 0 <= v && v <= 255 {
        Some(v as u8)
    } else {
        None
    }
}

/// Narrows to a 16-bit unsigned domain. Succeeds exactly on `0 ..= 65535`.
pub fn narrow_u16(v: i64) -> (r: Option<u16>)
    ensures
        r matches Some(x) ==> x as int == v as int && 0 <= v <= 65535,
        r is None <==> !(0 <= v <= 65535),
{
    if 0 <= v && v <= 65535 {
        Some(v as u16)
    } else {
        None
    }
}

/// Narrows to a 32-bit unsigned domain.
pub fn narrow_u32(v: i64) -> (r: Option<u32>)
    ensures
        r matches Some(x) ==> x as int == v as int && 0 <= v <= u32::MAX,
        r is None <==> !(0 <= v <= u32::MAX),
{
    if 0 <= v && v <= u32::MAX as i64 {
        Some(v as u32)
    } else {
        None
    }
}

/// Narrows to a 32-bit signed domain.
pub fn narrow_i32(v: i64) -> (r: Option<i32>)
    ensures
        r matches Some(x) ==> x as int == v as int && i32::MIN <= v <= i32::MAX,
        r is None <==> !(i32::MIN <= v <= i32::MAX),
{
    if i32::MIN as i64 <= v && v <= i32::MAX as i64 {
        Some(v as i32)
    } else {
        None
    }
}

/// The integer part of the 32-bit binary floating-point value whose raw bits
/// are `bits`, truncated toward zero and saturated to the 32-bit signed
/// domain; an undefined (not-a-number) value yields zero. Stated over the
/// sign, exponent and fraction fields of the bit pattern.
pub open spec fn float_trunc(bits: u32) -> int {
    let sign: int = bits as int / 0x8000_0000;
    let exp: int = (bits as int / 0x80_0000) % 0x100;
    let frac: int = bits as int % 0x80_0000;
    if exp == 0xFF {
        if frac != 0 {
            0
        } else if sign == 1 {
            -0x8000_0000
        } else {
            0x7FFF_FFFF
        }
    } else if exp < 127 {
        0
    } else {
        let m = frac + 0x80_0000;
        let e = exp - 127;
        let mag: int = if e <= 23 {
            m / (pow2((23 - e) as nat) as int)
        } else {
            m * (pow2((e - 23) as nat) as int)
        };
        if sign == 1 {
            if mag >= 0x8000_0000 {
                -0x8000_0000
            } else {
                -mag
            }
        } else {
            if mag > 0x7FFF_FFFF {
                0x7FFF_FFFF
            } else {
                mag
            }
        }
    }
}

/// Whether the 32-bit float with raw bits `bits` truncates into the 32-bit
/// signed domain without saturating: its magnitude is below `2^31`, or it is
/// exactly `-2^31`, or it is the undefined (not-a-number) value, which
/// truncates to zero. Infinities and larger magnitudes do not fit.
pub open spec fn float_in_i32(bits: u32) -> bool {
    let sign: int = bits as int / 0x8000_0000;
    let exp: int = (bits as int / 0x80_0000) % 0x100;
    let frac: int = bits as int % 0x80_0000;
    if exp == 0xFF {
        frac != 0
    } else if exp <= 157 {
        true
    } else if exp == 158 {
        sign == 1 && frac == 0
    } else {
        false
    }
}

/// Decides [`float_in_i32`].
pub fn float_bits_in_i32(bits: u32) -> (r: bool)
    ensures
        r == float_in_i32(bits),
{
    let sign: u32 = bits / 0x8000_0000;
    let exp: u32 = (bits / 0x80_0000) % 0x100;
    let frac: u32 = bits % 0x80_0000;
    if exp == 0xFF {
        frac != 0
    } else if exp <= 157 {
        true
    } else if exp == 158 {
        sign == 1 && frac == 0
    } else {
        false
    }
}

/// Truncates a 32-bit float, given as raw bits, to the 32-bit signed domain
/// exactly as [`float_trunc`] denotes — in pure integer arithmetic.
pub fn float_bits_to_i32(bits: u32) -> (r: i32)
    ensures
        r as int == float_trunc(bits),
{
    let sign: u32 = bits / 0x8000_0000;
    let exp: u32 = (bits / 0x80_0000) % 0x100;
    let frac: u32 = bits % 0x80_0000;
    if exp == 0xFF {
        if frac != 0 {
            0
        } else if sign == 1 {
            i32::MIN
        } else {
            i32::MAX
        }
    } else if exp < 127 {
        0
    } else {
        let m: u64 = (frac + 0x80_0000) as u64;
        let e: u32 = exp - 127;
        let mag: u64;
        if e <= 23 {
            let mut k: u32 = 23 - e;
            let mut div: u64 = 1;
            proof {
                vstd::arithmetic::power2::lemma2_to64();
            }
            while k > 0
                invariant
                    k <= 23 - e,
                    div == pow2((23 - e - k) as nat),
                decreases k,
            {
                proof {
                    let j = (23 - e - k) as nat;
                    vstd::arithmetic::power2::lemma_pow2_unfold((j + 1) as nat);
                    vstd::arithmetic::power2::lemma2_to64();
                    if j < 23 {
                        vstd::arithmetic::power2::lemma_pow2_strictly_increases(j, 23);
                    }
                    assert(pow2(j) <= pow2(23));
                }
                div = div * 2;
                k = k - 1;
            }
            proof {
                vstd::arithmetic::power2::lemma_pow2_pos((23 - e) as nat);
            }
            mag = m / div;
        } else if e <= 31 {
            let mut k: u32 = e - 23;
            let mut f: u64 = 1;
            proof {
                vstd::arithmetic::power2::lemma2_to64();
            }
            while k > 0
                invariant
                    k <= e - 23,
                    e <= 31,
                    f == pow2((e - 23 - k) as nat),
                decreases k,
            {
                proof {
                    let j = (e - 23 - k) as nat;
                    vstd::arithmetic::power2::lemma_pow2_unfold((j + 1) as nat);
                    vstd::arithmetic::power2::lemma2_to64();
                    if j < 8 {
                        vstd::arithmetic::power2::lemma_pow2_strictly_increases(j, 8);
                    }
                    assert(pow2(j) <= pow2(8));
                }
                f = f * 2;
                k = k - 1;
            }
            proof {
                let j = (e - 23) as nat;
                vstd::arithmetic::power2::lemma2_to64();
                if j < 8 {
                    vstd::arithmetic::power2::lemma_pow2_strictly_increases(j, 8);
                }
                assert(pow2(j) <= pow2(8));
                assert(m * f <= 0x100_0000 * 0x100) by (nonlinear_arith)
                    requires
                        m <= 0x100_0000,
                        f <= 0x100,
                ;
            }
            mag = m * f;
        } else {
            // The magnitude is at least 2^23 * 2^9 = 2^32, so the result
            // saturates for either sign.
            proof {
                let j = (e - 23) as nat;
                vstd::arithmetic::power2::lemma2_to64();
                if 9 < j {
                    vstd::arithmetic::power2::lemma_pow2_strictly_increases(9, j);
                }
                assert(pow2(9) <= pow2(j));
                assert(m as int * (pow2(j) as int) >= 0x80_0000 * 0x200) by (nonlinear_arith)
                    requires
                        m >= 0x80_0000,
                        pow2(j) as int >= 0x200,
                ;
            }
            return if sign == 1 {
                i32::MIN
            } else {
                i32::MAX
            };
        }
        if sign == 1 {
            if mag >= 0x8000_0000 {
                i32::MIN
            } else {
                -(mag as i32)
            }
        } else {
            if mag > 0x7FFF_FFFF {
                i32::MAX
            } else {
                mag as i32
            }
        }
    }
}

} // verus!
