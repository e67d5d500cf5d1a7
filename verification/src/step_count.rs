use vstd::arithmetic::div_mod::lemma_fundamental_div_mod;
use vstd::arithmetic::power2::{
    lemma2_to64, lemma2_to64_rest, lemma_pow2_adds, lemma_pow2_pos, lemma_pow2_strictly_increases,
    pow2,
};
use vstd::prelude::*;

verus! {

// The step-count rule demands that the quotient `tt * 60 / t` be an integer
// within a tolerance of 1e-9: the run is rejected when
// `(x - x.round()).abs() > 1e-9` on the `f64` quotient. That comparison is
// decided here exactly, on the quotient's bit pattern, in integer
// arithmetic. It is equivalent to the floating-point computation: a finite
// binary64 value is exactly `m / 2^k` for its integer significand `m` and
// scale `k`; `x.round()` (half away from zero) is exact; the subtraction
// `x - x.round()` is exact (for `|x| >= 0.5` by Sterbenz's lemma, since the
// two operands are within a factor of two of each other, and below 0.5 the
// rounded value is zero); and the tolerance literal `1e-9` denotes the
// binary64 value `TOLERANCE_SIGNIFICAND / 2^82`, so the comparison
// cross-multiplies to integers. A non-finite quotient passes the test, as it
// does in floating point, where a NaN difference compares false against the
// tolerance.

/// Exponent field of a binary64 bit pattern: bits 62..52.
pub open spec fn exp_field(bits: u64) -> u64 {
    (bits >> 52) & 0x7FF
}

/// Significand field of a binary64 bit pattern: bits 51..0.
pub open spec fn sig_field(bits: u64) -> u64 {
    bits & 0xF_FFFF_FFFF_FFFF
}

/// Integer significand of the encoded magnitude: the implicit leading bit is
/// present exactly when the exponent field is nonzero.
pub open spec fn significand(bits: u64) -> int {
    if exp_field(bits) == 0 {
        sig_field(bits) as int
    } else {
        sig_field(bits) as int + 0x10_0000_0000_0000
    }
}

/// Binary scale of the encoded magnitude: the magnitude is
/// `significand(bits) / pow2(frac_scale(bits))` whenever the scale is
/// positive; a scale of zero or less means the value is an integer.
pub open spec fn frac_scale(bits: u64) -> int {
    if exp_field(bits) == 0 {
        1074
    } else {
        1075 - exp_field(bits) as int
    }
}

/// Significand of the binary64 value that the literal `1e-9` denotes: that
/// value is exactly this over `2^82` (bit pattern `0x3E11_2E0B_E826_D695`).
pub const TOLERANCE_SIGNIFICAND: u64 = 0x11_2E0B_E826_D695;

/// Whether the quotient encoded by `bits` counts as an integer number of
/// steps: its distance to the nearest integer (half away from zero) is at
/// most the tolerance. The sign bit is ignored, as rounding and distance are
/// symmetric; a non-finite value passes.
pub open spec fn ratio_is_integral(bits: u64) -> bool {
    if exp_field(bits) == 0x7FF {
        true
    } else if frac_scale(bits) <= 0 {
        true
    } else {
        let m = significand(bits);
        let k = frac_scale(bits) as nat;
        let s = pow2(k) as int;
        let n = (2 * m + s) / (2 * s);
        let diff = if m >= n * s {
            m - n * s
        } else {
            n * s - m
        };
        diff * pow2(82) <= TOLERANCE_SIGNIFICAND * pow2(k)
    }
}

/// `2^k` as a `u128`.
fn pow2_u128(k: u64) -> (s: u128)
    requires
        k <= 82,
    ensures
        s == pow2(k as nat),
{
    proof {
        lemma_pow2_value_82();
        lemma2_to64();
    }
    let mut s: u128 = 1;
    let mut i: u64 = 0;
    while i < k
        invariant
            i <= k,
            k <= 82,
            s == pow2(i as nat),
            pow2(82) == 0x4_0000_0000_0000_0000_0000u128,
        decreases k - i,
    {
        proof {
            lemma_pow2_adds(i as nat, 1);
            lemma2_to64();
            if i as nat + 1 < 82 {
                lemma_pow2_strictly_increases(i as nat + 1, 82);
            }
        }
        s = s * 2;
        i += 1;
    }
    s
}

/// `pow2(82)`, numerically.
proof fn lemma_pow2_value_82()
    ensures
        pow2(82) == 0x4_0000_0000_0000_0000_0000u128,
{
    lemma_pow2_adds(64, 18);
    lemma2_to64();
    lemma2_to64_rest();
}

/// A value whose scale is 83 or more is smaller than the tolerance, so it
/// rounds to zero and passes the integrality test.
proof fn lemma_tiny_ratio_is_integral(bits: u64)
    requires
        exp_field(bits) != 0x7FF,
        frac_scale(bits) >= 83,
    ensures
        ratio_is_integral(bits),
{
    let m = significand(bits);
    let k = frac_scale(bits) as nat;
    let s = pow2(k) as int;
    assert(sig_field(bits) <= 0xF_FFFF_FFFF_FFFF) by (bit_vector);
    assert(m < 0x20_0000_0000_0000);
    lemma_pow2_value_82();
    lemma2_to64();
    lemma_pow2_adds(82, 1);
    assert(pow2(83) == 0x8_0000_0000_0000_0000_0000);
    if k > 83 {
        lemma_pow2_strictly_increases(83, k);
    }
    assert(s >= 0x8_0000_0000_0000_0000_0000);
    // The quotient of (2m + s) by 2s is zero, because 2m < s.
    let n = (2 * m + s) / (2 * s);
    lemma_fundamental_div_mod(2 * m + s, 2 * s);
    assert(0 <= (2 * m + s) % (2 * s) < 2 * s);
    assert(n == 0) by (nonlinear_arith)
        requires
            n == (2 * m + s) / (2 * s),
            (2 * m + s) == (2 * s) * n + (2 * m + s) % (2 * s),
            0 <= (2 * m + s) % (2 * s) < 2 * s,
            0 <= 2 * m < s,
    ;
    // The distance is m itself, and m * 2^82 < 2^53 * 2^82 = 2 * 2^52 * 2^82
    // <= 2 * TOLERANCE_SIGNIFICAND * 2^82 <= TOLERANCE_SIGNIFICAND * 2^83
    // <= TOLERANCE_SIGNIFICAND * 2^k.
    lemma2_to64_rest();
    assert(TOLERANCE_SIGNIFICAND >= pow2(52));
    assert(m * pow2(82) <= TOLERANCE_SIGNIFICAND * pow2(k)) by (nonlinear_arith)
        requires
            0 <= m < 0x20_0000_0000_0000,
            pow2(82) == 0x4_0000_0000_0000_0000_0000,
            TOLERANCE_SIGNIFICAND >= 0x10_0000_0000_0000u64,
            pow2(k) >= 0x8_0000_0000_0000_0000_0000,
    ;
}

/// Decides `ratio_is_integral` on the quotient's bit pattern, in exact
/// integer arithmetic.
pub fn steps_integral(ratio_bits: u64) -> (r: bool)
    ensures
        r == ratio_is_integral(ratio_bits),
{
    let e: u64 = (ratio_bits >> 52) & 0x7FF;
    if e == 0x7FF {
        return true;
    }
    if e >= 1075 {
        return true;
    }
    let k: u64 = if e == 0 {
        1074
    } else {
        1075 - e
    };
    if k >= 83 {
        proof {
            lemma_tiny_ratio_is_integral(ratio_bits);
        }
        return true;
    }
    let sig: u64 = ratio_bits & 0xF_FFFF_FFFF_FFFF;
    proof {
        assert(ratio_bits & 0xF_FFFF_FFFF_FFFF <= 0xF_FFFF_FFFF_FFFF) by (bit_vector);
    }
    let m: u128 = if e == 0 {
        sig as u128
    } else {
        sig as u128 + 0x10_0000_0000_0000
    };
    let s: u128 = pow2_u128(k);
    proof {
        lemma_pow2_value_82();
        lemma_pow2_pos(k as nat);
        if (k as nat) < 82 {
            lemma_pow2_strictly_increases(k as nat, 82);
        }
        assert(1 <= s <= 0x4_0000_0000_0000_0000_0000);
    }
    let n: u128 = (2 * m + s) / (2 * s);
    proof {
        lemma_fundamental_div_mod((2 * m + s) as int, (2 * s) as int);
        assert(0 <= (2 * m + s) as int % ((2 * s) as int) < 2 * s);
        // n * s <= m + s, and the distance to n * s is at most s / 2.
        assert(n * s <= m as int + s && 2 * ((m as int) - (n * s)) <= s && 2 * ((n * s)
            - m as int) <= s) by (nonlinear_arith)
            requires
                n == (2 * m + s) as int / ((2 * s) as int),
                (2 * m + s) as int == ((2 * s) as int) * (n as int) + (2 * m + s) as int % ((2
                    * s) as int),
                0 <= (2 * m + s) as int % ((2 * s) as int) < 2 * s,
                s >= 1,
                m >= 0,
        ;
    }
    let ns: u128 = n * s;
    let diff: u128 = if m >= ns {
        m - ns
    } else {
        ns - m
    };
    let scale_up: u128 = pow2_u128(82 - k);
    proof {
        // diff * pow2(82 - k) <= (s / 2) * pow2(82 - k) <= pow2(81).
        lemma_pow2_adds(k as nat, (82 - k) as nat);
        lemma_pow2_pos((82 - k) as nat);
        assert(s * scale_up == 0x4_0000_0000_0000_0000_0000) by (nonlinear_arith)
            requires
                s == pow2(k as nat),
                scale_up == pow2((82 - k) as nat),
                pow2(k as nat) * pow2((82 - k) as nat) == pow2(82),
                pow2(82) == 0x4_0000_0000_0000_0000_0000,
        ;
        assert(2 * diff <= s);
        assert(diff * scale_up <= 0x2_0000_0000_0000_0000_0000) by (nonlinear_arith)
            requires
                2 * diff <= s,
                s * scale_up == 0x4_0000_0000_0000_0000_0000,
                diff >= 0,
                scale_up >= 1,
        ;
        // Scaling both sides of the spec's comparison by pow2(k) is harmless.
        assert((diff * pow2(82)) as int == (diff * scale_up) as int * (s as int) && (
        TOLERANCE_SIGNIFICAND * pow2(k as nat)) as int == (TOLERANCE_SIGNIFICAND as int) * (s
            as int))
            by (nonlinear_arith)
            requires
                scale_up == pow2((82 - k) as nat),
                s == pow2(k as nat),
                pow2(82) == pow2(k as nat) * pow2((82 - k) as nat),
        ;
        assert(diff * scale_up <= TOLERANCE_SIGNIFICAND as u128 <==> diff * pow2(82)
            <= TOLERANCE_SIGNIFICAND * pow2(k as nat)) by (nonlinear_arith)
            requires
                (diff * pow2(82)) as int == (diff * scale_up) as int * (s as int),
                (TOLERANCE_SIGNIFICAND * pow2(k as nat)) as int == (TOLERANCE_SIGNIFICAND as int)
                    * (s as int),
                s >= 1,
        ;
    }
    diff * scale_up <= TOLERANCE_SIGNIFICAND as u128
}

/// Sign bit of a binary64 bit pattern.
pub open spec fn sign_field(bits: u64) -> bool {
    bits >> 63 == 1u64
}

/// The magnitude of a finite value, rounded half away from zero.
pub open spec fn rounded_magnitude(bits: u64) -> int {
    if frac_scale(bits) <= 0 {
        significand(bits) * pow2((0 - frac_scale(bits)) as nat)
    } else {
        let s = pow2(frac_scale(bits) as nat) as int;
        (2 * significand(bits) + s) / (2 * s)
    }
}

/// The number of time steps the quotient denotes: its value rounded half
/// away from zero and clamped to `usize` — exactly what `x.round() as usize`
/// yields. NaN and every negative value give 0; positive infinity saturates.
pub open spec fn spec_step_count(bits: u64) -> usize {
    if exp_field(bits) == 0x7FF {
        if sig_field(bits) == 0 && !sign_field(bits) {
            usize::MAX
        } else {
            0
        }
    } else if sign_field(bits) {
        0
    } else if rounded_magnitude(bits) > usize::MAX {
        usize::MAX
    } else {
        rounded_magnitude(bits) as usize
    }
}

/// A value whose scale is 83 or more rounds to zero.
proof fn lemma_tiny_rounds_to_zero(bits: u64)
    requires
        exp_field(bits) != 0x7FF,
        frac_scale(bits) >= 83,
    ensures
        rounded_magnitude(bits) == 0,
{
    let m = significand(bits);
    let k = frac_scale(bits) as nat;
    let s = pow2(k) as int;
    assert(sig_field(bits) <= 0xF_FFFF_FFFF_FFFF) by (bit_vector);
    assert(m < 0x20_0000_0000_0000);
    lemma_pow2_value_82();
    lemma2_to64();
    lemma_pow2_adds(82, 1);
    if k > 83 {
        lemma_pow2_strictly_increases(83, k);
    }
    assert(s >= 0x8_0000_0000_0000_0000_0000);
    lemma_fundamental_div_mod(2 * m + s, 2 * s);
    assert((2 * m + s) / (2 * s) == 0) by (nonlinear_arith)
        requires
            (2 * m + s) == (2 * s) * ((2 * m + s) / (2 * s)) + (2 * m + s) % (2 * s),
            0 <= (2 * m + s) % (2 * s) < 2 * s,
            0 <= 2 * m < s,
    ;
}

/// Computes `spec_step_count` on the quotient's bit pattern, in exact
/// integer arithmetic.
pub fn step_count(ratio_bits: u64) -> (n: usize)
    ensures
        n == spec_step_count(ratio_bits),
{
    let e: u64 = (ratio_bits >> 52) & 0x7FF;
    let sign: bool = (ratio_bits >> 63) == 1;
    let sig: u64 = ratio_bits & 0xF_FFFF_FFFF_FFFF;
    proof {
        assert(ratio_bits & 0xF_FFFF_FFFF_FFFF <= 0xF_FFFF_FFFF_FFFF) by (bit_vector);
    }
    if e == 0x7FF {
        if sig == 0 && !sign {
            return usize::MAX;
        }
        return 0;
    }
    if sign {
        return 0;
    }
    if e >= 1075 {
        // The value is the integer m * 2^(e - 1075).
        let shift: u64 = e - 1075;
        let m: u64 = sig + 0x10_0000_0000_0000;
        if shift >= 12 {
            // m * 2^shift >= 2^52 * 2^12 = 2^64, beyond any usize.
            proof {
                lemma2_to64_rest();
                lemma_pow2_adds(52, 12);
                if shift > 12 {
                    lemma_pow2_strictly_increases(12, shift as nat);
                }
                assert(m as int * pow2(shift as nat) >= 0x1_0000_0000_0000_0000)
                    by (nonlinear_arith)
                    requires
                        m >= 0x10_0000_0000_0000u64,
                        pow2(shift as nat) >= 0x1000,
                        0x10_0000_0000_0000u64 * 0x1000 == 0x1_0000_0000_0000_0000u128,
                ;
                assert(usize::MAX < 0x1_0000_0000_0000_0000u128);
            }
            return usize::MAX;
        }
        let scale: u128 = pow2_u128(shift);
        proof {
            lemma2_to64();
            if shift < 12 {
                lemma_pow2_strictly_increases(shift as nat, 12);
            }
            assert(pow2(12) == 0x1000);
            assert(m as u128 * scale < 0x20_0000_0000_0000_0000) by (nonlinear_arith)
                requires
                    m < 0x20_0000_0000_0000u64,
                    scale <= 0x1000,
            ;
        }
        let v: u128 = (m as u128) * scale;
        if v > usize::MAX as u128 {
            return usize::MAX;
        }
        return v as usize;
    }
    let k: u64 = if e == 0 {
        1074
    } else {
        1075 - e
    };
    if k >= 83 {
        proof {
            lemma_tiny_rounds_to_zero(ratio_bits);
        }
        return 0;
    }
    let m: u128 = if e == 0 {
        sig as u128
    } else {
        sig as u128 + 0x10_0000_0000_0000
    };
    let s: u128 = pow2_u128(k);
    proof {
        lemma_pow2_value_82();
        lemma_pow2_pos(k as nat);
        if (k as nat) < 82 {
            lemma_pow2_strictly_increases(k as nat, 82);
        }
        assert(1 <= s <= 0x4_0000_0000_0000_0000_0000);
        lemma_fundamental_div_mod((2 * m + s) as int, (2 * s) as int);
        assert(0 <= (2 * m + s) as int % ((2 * s) as int) < 2 * s);
        assert((2 * m + s) as int / ((2 * s) as int) * (s as int) <= m as int + s)
            by (nonlinear_arith)
            requires
                (2 * m + s) as int == ((2 * s) as int) * ((2 * m + s) as int / ((2 * s) as int))
                    + (2 * m + s) as int % ((2 * s) as int),
                0 <= (2 * m + s) as int % ((2 * s) as int) < 2 * s,
                s >= 1,
                m >= 0,
        ;
    }
    let n128: u128 = (2 * m + s) / (2 * s);
    if n128 > usize::MAX as u128 {
        return usize::MAX;
    }
    n128 as usize
}

} // verus!
