//! The nodata tolerance, decided exactly on bit patterns.
//!
//! One millionth is `1 / (15625 * 2^6)`, and a finite pattern stands for a
//! whole number of steps of `2^-1074`. So two samples differ by less than
//! one millionth exactly when 15625 times their distance in steps is below
//! `2^1068`.

use vstd::prelude::*;
use vstd::arithmetic::power2::{
    lemma2_to64, lemma2_to64_rest, lemma_pow2_adds, lemma_pow2_pos, lemma_pow2_strictly_increases,
    lemma_pow2_unfold, pow2,
};
use crate::sample::{
    exponent_of, fraction_of, is_finite, is_finite_bits, magnitude_of, magnitude_orders_size,
    scale_of, scaled_size, scaled_value, sign_of, significand_of, Sample,
};

verus! {

/// The distance of two finite patterns, in steps of `2^-1074`.
pub open spec fn distance(a: u64, b: u64) -> int {
    if scaled_value(a) >= scaled_value(b) {
        scaled_value(a) - scaled_value(b)
    } else {
        scaled_value(b) - scaled_value(a)
    }
}

/// Whether two patterns are finite and the numbers they stand for differ by
/// less than one millionth.
pub open spec fn near_spec(a: u64, b: u64) -> bool {
    is_finite_bits(a) && is_finite_bits(b) && 15625 * distance(a, b) < pow2(1068)
}

/// Two to the power `k`.
fn power_of_two(k: u64) -> (p: u128)
    requires
        k <= 100,
    ensures
        p == pow2(k as nat),
        p >= 1,
{
    let mut p: u128 = 1;
    let mut i: u64 = 0;
    proof {
        lemma2_to64();
        pow2_100_fits();
    }
    while i < k
        invariant
            i <= k,
            k <= 100,
            p == pow2(i as nat),
            p >= 1,
            p <= pow2(100),
        decreases k - i,
    {
        proof {
            lemma_pow2_unfold((i + 1) as nat);
            if i + 1 < 100 {
                lemma_pow2_strictly_increases((i + 1) as nat, 100);
            }
            pow2_100_fits();
        }
        p = p * 2;
        i = i + 1;
    }
    p
}

/// Some powers of two written out.
proof fn pow2_100_fits()
    ensures
        pow2(100) == 0x10_0000_0000_0000_0000_0000_0000,
        pow2(67) == 0x8_0000_0000_0000_0000,
        pow2(68) == 0x10_0000_0000_0000_0000,
{
    lemma2_to64();
    lemma2_to64_rest();
    lemma_pow2_adds(64, 36);
    lemma_pow2_adds(64, 3);
    lemma_pow2_adds(64, 4);
}

/// The significand and the scale of a finite pattern.
fn parts(bits: u64) -> (r: (u64, u64))
    ensures
        r.0 == significand_of(bits),
        r.1 == scale_of(bits),
        r.0 < 0x20_0000_0000_0000,
        r.1 <= 2046,
        r.1 >= 1 ==> r.0 >= 0x10_0000_0000_0000,
{
    let exp: u64 = (bits >> 52) & 0x7ff;
    let frac: u64 = bits & 0xf_ffff_ffff_ffff;
    assert(exp <= 0x7ff && frac < 0x10_0000_0000_0000) by (bit_vector)
        requires
            exp == (bits >> 52) & 0x7ff,
            frac == bits & 0xf_ffff_ffff_ffff,
    ;
    if exp == 0 {
        (frac, 0)
    } else {
        (frac + 0x10_0000_0000_0000, exp - 1)
    }
}

/// The distance of two patterns from their sizes: the difference where the
/// signs agree, the sum where they do not.
proof fn distance_by_sizes(hi: u64, lo: u64)
    requires
        0 <= scaled_size(lo) <= scaled_size(hi),
    ensures
        distance(hi, lo) == distance(lo, hi),
        sign_of(hi) == sign_of(lo) ==> distance(hi, lo) == scaled_size(hi) - scaled_size(lo),
        sign_of(hi) != sign_of(lo) ==> distance(hi, lo) == scaled_size(hi) + scaled_size(lo),
{
}

/// Sizes of finite patterns follow their magnitude fields.
proof fn sizes_follow_magnitudes(hi: u64, lo: u64)
    requires
        is_finite_bits(hi),
        is_finite_bits(lo),
        magnitude_of(hi) >= magnitude_of(lo),
    ensures
        0 <= scaled_size(lo) <= scaled_size(hi),
        scale_of(lo) <= scale_of(hi),
        magnitude_of(hi) == magnitude_of(lo) <==> scaled_size(hi) == scaled_size(lo),
{
    assert(magnitude_of(hi) == ((hi >> 52) & 0x7ff) * 0x10_0000_0000_0000 + (hi
        & 0xf_ffff_ffff_ffff) && (hi & 0xf_ffff_ffff_ffff) < 0x10_0000_0000_0000) by (bit_vector)
        requires
            magnitude_of(hi) == hi & 0x7fff_ffff_ffff_ffff,
    ;
    assert(magnitude_of(lo) == ((lo >> 52) & 0x7ff) * 0x10_0000_0000_0000 + (lo
        & 0xf_ffff_ffff_ffff) && (lo & 0xf_ffff_ffff_ffff) < 0x10_0000_0000_0000) by (bit_vector)
        requires
            magnitude_of(lo) == lo & 0x7fff_ffff_ffff_ffff,
    ;
    assert(magnitude_of(hi) == exponent_of(hi) * 0x10_0000_0000_0000 + fraction_of(hi));
    assert(magnitude_of(lo) == exponent_of(lo) * 0x10_0000_0000_0000 + fraction_of(lo));
    if magnitude_of(hi) > magnitude_of(lo) {
        magnitude_orders_size(lo, hi);
    } else {
        assert(exponent_of(hi) == exponent_of(lo));
        assert(fraction_of(hi) == fraction_of(lo));
        lemma_pow2_pos(scale_of(lo));
        assert(0 <= significand_of(lo) * pow2(scale_of(lo))) by (nonlinear_arith)
            requires
                significand_of(lo) >= 0,
                pow2(scale_of(lo)) > 0,
        ;
    }
}

/// Far apart: the larger number is at least `2^-5` and the smaller one is
/// below `2^-6`.
proof fn far_by_scale(m_hi: int, m_lo: int, s_hi: nat, s_lo: nat, dist: int)
    requires
        s_hi >= 1069,
        s_lo <= 1067,
        m_hi >= 0x10_0000_0000_0000,
        0 <= m_lo < 0x20_0000_0000_0000,
        dist >= m_hi * pow2(s_hi) - m_lo * pow2(s_lo),
    ensures
        15625 * dist >= pow2(1068),
{
    lemma_pow2_pos(1067);
    lemma_pow2_pos(s_lo);
    lemma_pow2_unfold(1068);
    lemma_pow2_unfold(1069);
    if s_hi > 1069 {
        lemma_pow2_strictly_increases(1069, s_hi);
    }
    if s_lo < 1067 {
        lemma_pow2_strictly_increases(s_lo, 1067);
    }
    let u = pow2(1067) as int;
    let ph = pow2(s_hi) as int;
    let pl = pow2(s_lo) as int;
    assert(ph >= 4 * u);
    assert(pl <= u);
    assert(15625 * (m_hi * ph - m_lo * pl) >= 2 * u) by (nonlinear_arith)
        requires
            ph >= 4 * u,
            0 < pl <= u,
            m_hi >= 0x10_0000_0000_0000,
            0 <= m_lo < 0x20_0000_0000_0000,
            u > 0,
    ;
    assert(15625 * dist >= 15625 * (m_hi * ph - m_lo * pl)) by (nonlinear_arith)
        requires
            dist >= m_hi * ph - m_lo * pl,
    ;
}

/// Near: both numbers are below `2^-21`.
proof fn near_by_scale(m_hi: int, m_lo: int, s_hi: nat, s_lo: nat, dist: int)
    requires
        s_hi <= 1000,
        s_lo <= s_hi,
        0 <= m_hi < 0x20_0000_0000_0000,
        0 <= m_lo < 0x20_0000_0000_0000,
        dist <= m_hi * pow2(s_hi) + m_lo * pow2(s_lo),
    ensures
        15625 * dist < pow2(1068),
{
    lemma_pow2_pos(s_lo);
    if s_lo < s_hi {
        lemma_pow2_strictly_increases(s_lo, s_hi);
    }
    if s_hi < 1000 {
        lemma_pow2_strictly_increases(s_hi, 1000);
    }
    lemma_pow2_adds(68, 1000);
    pow2_100_fits();
    let ph = pow2(s_hi) as int;
    let pl = pow2(s_lo) as int;
    let t = pow2(1000) as int;
    assert(15625 * (m_hi * ph + m_lo * pl) < 0x10_0000_0000_0000_0000 * t) by (nonlinear_arith)
        requires
            0 < pl <= ph,
            ph <= t,
            0 <= m_hi < 0x20_0000_0000_0000,
            0 <= m_lo < 0x20_0000_0000_0000,
    ;
    assert(15625 * dist <= 15625 * (m_hi * ph + m_lo * pl)) by (nonlinear_arith)
        requires
            dist <= m_hi * ph + m_lo * pl,
    ;
}

/// With the larger scale at most 1068, the test comes down to integers of
/// moderate size: with `d` the difference of the scales and `q` what the
/// larger scale lacks to 1068, `15625 * dist < 2^1068` exactly when
/// `15625 * (m_hi * 2^d ± m_lo) < 2^q * 2^d`.
proof fn reduce_to_common_scale(
    m_hi: int,
    m_lo: int,
    s_hi: nat,
    s_lo: nat,
    same_sign: bool,
    dist: int,
)
    requires
        s_lo <= s_hi <= 1068,
        dist == if same_sign {
            m_hi * pow2(s_hi) - m_lo * pow2(s_lo)
        } else {
            m_hi * pow2(s_hi) + m_lo * pow2(s_lo)
        },
    ensures
        15625 * dist < pow2(1068) <==> (if same_sign {
            15625 * m_hi * pow2((s_hi - s_lo) as nat) - 15625 * m_lo
        } else {
            15625 * m_hi * pow2((s_hi - s_lo) as nat) + 15625 * m_lo
        }) < pow2((1068 - s_hi) as nat) * pow2((s_hi - s_lo) as nat),
{
    let d = (s_hi - s_lo) as nat;
    let q = (1068 - s_hi) as nat;
    lemma_pow2_adds(d, s_lo);
    lemma_pow2_adds(q, s_hi);
    lemma_pow2_pos(s_lo);
    let pl = pow2(s_lo) as int;
    let pd = pow2(d) as int;
    let pq = pow2(q) as int;
    assert(pow2(s_hi) == pd * pl);
    assert(pow2(1068) == pq * (pd * pl));
    let n = if same_sign {
        15625 * m_hi * pd - 15625 * m_lo
    } else {
        15625 * m_hi * pd + 15625 * m_lo
    };
    assert(15625 * dist == n * pl) by (nonlinear_arith)
        requires
            dist == if same_sign {
                m_hi * (pd * pl) - m_lo * pl
            } else {
                m_hi * (pd * pl) + m_lo * pl
            },
            n == if same_sign {
                15625 * m_hi * pd - 15625 * m_lo
            } else {
                15625 * m_hi * pd + 15625 * m_lo
            },
    ;
    assert(pq * (pd * pl) == (pq * pd) * pl) by (nonlinear_arith);
    assert((n * pl < (pq * pd) * pl) <==> (n < pq * pd)) by (nonlinear_arith)
        requires
            pl > 0,
    ;
}

/// Whether `w < z * p`, for a positive `p`, by one division.
proof fn below_product(w: int, z: int, p: int)
    requires
        w >= 0,
        z >= 0,
        p > 0,
    ensures
        (w < z * p) <==> (w / p < z),
{
    assert(w == p * (w / p) + w % p && 0 <= w % p < p) by (nonlinear_arith)
        requires
            p > 0,
    ;
    let k = w / p;
    let r = w % p;
    assert((p * k + r < z * p) <==> (k < z)) by (nonlinear_arith)
        requires
            0 <= r < p,
    ;
}

/// Whether two patterns are finite and stand for numbers less than one
/// millionth apart.
pub fn within_tolerance(a: u64, b: u64) -> (near: bool)
    ensures
        near == near_spec(a, b),
{
    if !is_finite(a) || !is_finite(b) {
        return false;
    }
    let mag_a: u64 = a & 0x7fff_ffff_ffff_ffff;
    let mag_b: u64 = b & 0x7fff_ffff_ffff_ffff;
    let a_first: bool = mag_a >= mag_b;
    let hi: u64 = if a_first { a } else { b };
    let lo: u64 = if a_first { b } else { a };
    let same_sign: bool = (a >> 63 == 1) == (b >> 63 == 1);
    let (m_hi, s_hi) = parts(hi);
    let (m_lo, s_lo) = parts(lo);
    let same_magnitude: bool = mag_a == mag_b;
    proof {
        sizes_follow_magnitudes(hi, lo);
        distance_by_sizes(hi, lo);
        lemma_pow2_pos(s_hi as nat);
        lemma_pow2_pos(s_lo as nat);
    }
    let ghost dist = distance(a, b);
    assert(dist == if same_sign {
        m_hi * pow2(s_hi as nat) - m_lo * pow2(s_lo as nat)
    } else {
        m_hi * pow2(s_hi as nat) + m_lo * pow2(s_lo as nat)
    });
    if s_hi <= 1000 {
        proof {
            assert(m_lo * pow2(s_lo as nat) >= 0) by (nonlinear_arith)
                requires
                    m_lo >= 0,
                    pow2(s_lo as nat) > 0,
            ;
            near_by_scale(m_hi as int, m_lo as int, s_hi as nat, s_lo as nat, dist);
        }
        return true;
    }
    if s_lo >= 1068 {
        proof {
            if same_sign && same_magnitude {
                lemma_pow2_pos(1068);
            } else {
                // The distance is a positive multiple of the smaller step.
                let d = (s_hi - s_lo) as nat;
                lemma_pow2_adds(d, s_lo as nat);
                lemma_pow2_pos(d);
                if s_lo > 1068 {
                    lemma_pow2_strictly_increases(1068, s_lo as nat);
                }
                let pl = pow2(s_lo as nat) as int;
                let pd = pow2(d) as int;
                let n = if same_sign {
                    m_hi * pd - m_lo
                } else {
                    m_hi * pd + m_lo
                };
                assert(dist == n * pl) by (nonlinear_arith)
                    requires
                        dist == if same_sign {
                            m_hi * (pd * pl) - m_lo * pl
                        } else {
                            m_hi * (pd * pl) + m_lo * pl
                        },
                        n == if same_sign {
                            m_hi * pd - m_lo
                        } else {
                            m_hi * pd + m_lo
                        },
                ;
                assert(m_hi * pow2(s_hi as nat) > 0) by (nonlinear_arith)
                    requires
                        m_hi >= 0x10_0000_0000_0000,
                        pow2(s_hi as nat) > 0,
                ;
                assert(dist > 0);
                assert(n >= 1) by (nonlinear_arith)
                    requires
                        dist == n * pl,
                        dist > 0,
                        pl > 0,
                ;
                assert(15625 * dist >= pl) by (nonlinear_arith)
                    requires
                        dist == n * pl,
                        n >= 1,
                        pl > 0,
                ;
            }
        }
        return same_sign && same_magnitude;
    }
    if s_hi >= 1069 {
        proof {
            assert(m_lo * pow2(s_lo as nat) >= 0) by (nonlinear_arith)
                requires
                    m_lo >= 0,
                    pow2(s_lo as nat) > 0,
            ;
            far_by_scale(m_hi as int, m_lo as int, s_hi as nat, s_lo as nat, dist);
        }
        return false;
    }
    // Here the larger scale lies between 1001 and 1068.
    let q: u64 = 1068 - s_hi;
    let d: u64 = s_hi - s_lo;
    proof {
        reduce_to_common_scale(
            m_hi as int,
            m_lo as int,
            s_hi as nat,
            s_lo as nat,
            same_sign,
            dist,
        );
        pow2_100_fits();
        lemma_pow2_pos(d as nat);
        if q < 67 {
            lemma_pow2_strictly_increases(q as nat, 67);
        }
        if d > 67 {
            lemma_pow2_strictly_increases(67, d as nat);
        }
    }
    let x: u128 = 15625 * (m_hi as u128);
    let y: u128 = power_of_two(q);
    let w: u128 = 15625 * (m_lo as u128);
    let ghost pd = pow2(d as nat) as int;
    assert(15625 * m_hi * pd == x * pd) by (nonlinear_arith)
        requires
            x == 15625 * m_hi,
    ;
    if same_sign {
        // near exactly when x * 2^d - w < y * 2^d
        if x < y {
            proof {
                assert(x * pd - w < y * pd) by (nonlinear_arith)
                    requires
                        x < y,
                        pd > 0,
                        w >= 0,
                ;
            }
            true
        } else if x == y {
            w > 0
        } else if d >= 67 {
            proof {
                assert(x * pd - w >= y * pd) by (nonlinear_arith)
                    requires
                        x >= y + 1,
                        pd >= 0x8_0000_0000_0000_0000,
                        w < 0x8_0000_0000_0000_0000,
                ;
            }
            false
        } else if w == 0 {
            proof {
                assert(x * pd - w >= y * pd) by (nonlinear_arith)
                    requires
                        x >= y,
                        pd > 0,
                        w == 0,
                ;
            }
            false
        } else {
            let p: u128 = power_of_two(d);
            let z: u128 = x - y;
            proof {
                // z * p < w exactly when z * p <= w - 1, that is not (w - 1 < z * p)
                below_product(w - 1, z as int, p as int);
                assert(x * pd - w < y * pd <==> z * pd < w) by (nonlinear_arith)
                    requires
                        z == x - y,
                ;
            }
            (w - 1) / p >= z
        }
    } else {
        // near exactly when x * 2^d + w < y * 2^d
        if y <= x {
            proof {
                assert(x * pd + w >= y * pd) by (nonlinear_arith)
                    requires
                        x >= y,
                        pd > 0,
                        w >= 0,
                ;
            }
            false
        } else if d >= 67 {
            proof {
                assert(x * pd + w < y * pd) by (nonlinear_arith)
                    requires
                        y >= x + 1,
                        pd >= 0x8_0000_0000_0000_0000,
                        0 <= w < 0x8_0000_0000_0000_0000,
                ;
            }
            true
        } else {
            let p: u128 = power_of_two(d);
            let z: u128 = y - x;
            proof {
                below_product(w as int, z as int, p as int);
                assert(x * pd + w < y * pd <==> w < z * pd) by (nonlinear_arith)
                    requires
                        z == y - x,
                ;
            }
            w / p < z
        }
    }
}

/// The sample that a pattern makes in a band with this nodata value.
pub open spec fn sample_of(bits: u64, nodata: Option<u64>) -> Sample {
    Sample {
        bits,
        near_nodata: match nodata {
            Some(nd) => near_spec(bits, nd),
            None => false,
        },
    }
}

impl Sample {
    /// Makes a sample from its pattern and the band's nodata value, given
    /// as a pattern too where the band declares one.
    pub fn of(bits: u64, nodata: Option<u64>) -> (s: Sample)
        ensures
            s == sample_of(bits, nodata),
    {
        let near_nodata: bool = match nodata {
            Some(nd) => within_tolerance(bits, nd),
            None => false,
        };
        Sample { bits, near_nodata }
    }
}

/// A sample is as near to a value as the value is to the sample, and every
/// finite sample is near itself.
pub proof fn nearness_is_symmetric(a: u64, b: u64)
    ensures
        near_spec(a, b) == near_spec(b, a),
        is_finite_bits(a) ==> near_spec(a, a),
{
    lemma_pow2_pos(1068);
}

} // verus!
