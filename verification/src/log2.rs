use vstd::prelude::*;
use vstd::arithmetic::div_mod::{
    lemma_div_is_ordered, lemma_div_multiples_vanish, lemma_multiply_divide_lt,
};
use vstd::arithmetic::power2::{
    lemma2_to64, lemma_pow2_pos, lemma_pow2_strictly_increases, lemma_pow2_unfold, pow2,
};

verus! {

/// The integer part of the base-2 logarithm of the ratio `p / q`.
pub open spec fn log2_int(p: int, q: int) -> int
    decreases p - q,
    when 1 <= q <= p
{
    if p < 2 * q {
        0
    } else {
        1 + log2_int(p, 2 * q)
    }
}

/// The integer part of the logarithm is nonnegative and brackets the ratio:
/// `q * 2^e <= p < q * 2^(e + 1)` for `e = log2_int(p, q)`.
pub proof fn lemma_log2_int_bounds(p: int, q: int)
    requires
        1 <= q <= p,
    ensures
        0 <= log2_int(p, q),
        q * pow2(log2_int(p, q) as nat) <= p,
        p < q * pow2((log2_int(p, q) + 1) as nat),
    decreases p - q,
{
    if p < 2 * q {
        assert(pow2(0) == 1 && pow2(1) == 2) by {
            lemma2_to64();
        }
        assert(log2_int(p, q) == 0);
        assert(q * pow2(0) == q && q * pow2(1) == 2 * q) by (nonlinear_arith)
            requires
                pow2(0) == 1,
                pow2(1) == 2,
        ;
    } else {
        lemma_log2_int_bounds(p, 2 * q);
        let e1 = log2_int(p, 2 * q);
        lemma_pow2_unfold((e1 + 1) as nat);
        lemma_pow2_unfold((e1 + 2) as nat);
        assert(q * pow2((e1 + 1) as nat) == (2 * q) * pow2(e1 as nat)) by (nonlinear_arith)
            requires
                pow2((e1 + 1) as nat) == 2 * pow2(e1 as nat),
        ;
        assert(q * pow2((e1 + 2) as nat) == (2 * q) * pow2((e1 + 1) as nat)) by (nonlinear_arith)
            requires
                pow2((e1 + 2) as nat) == 2 * pow2((e1 + 1) as nat),
        ;
    }
}

/// The ratio `p / q`, normalized into `[1, 2)` by `log2_int(p, q)` halvings,
/// in fixed point with 32 fractional bits: a value in `[2^32, 2^33)`.
pub open spec fn mantissa(p: int, q: int) -> int {
    (p * 0x1_0000_0000) / (q * pow2(log2_int(p, q) as nat) as int)
}

/// `i` rounds of the square-and-compare digit recurrence for the fractional
/// bits of the base-2 logarithm of `m / 2^32`, most significant bit first.
pub open spec fn frac_bits(m: int, i: nat) -> int
    decreases i,
{
    if i == 0 {
        0
    } else {
        let s = (m * m) / 0x1_0000_0000;
        if s >= 0x2_0000_0000 {
            pow2((i - 1) as nat) + frac_bits(s / 2, (i - 1) as nat)
        } else {
            frac_bits(s, (i - 1) as nat)
        }
    }
}

/// The fractional bits form a value below `2^i`.
pub proof fn lemma_frac_bits_bounds(m: int, i: nat)
    ensures
        0 <= frac_bits(m, i) < pow2(i),
    decreases i,
{
    if i == 0 {
        assert(pow2(0) == 1) by {
            lemma2_to64();
        }
    } else {
        let s = (m * m) / 0x1_0000_0000;
        lemma_frac_bits_bounds(s / 2, (i - 1) as nat);
        lemma_frac_bits_bounds(s, (i - 1) as nat);
        lemma_pow2_unfold(i);
    }
}

/// A mantissa of exactly one yields no fractional bits.
pub proof fn lemma_frac_bits_of_one(i: nat)
    ensures
        frac_bits(0x1_0000_0000, i) == 0,
    decreases i,
{
    if i > 0 {
        assert((0x1_0000_0000int * 0x1_0000_0000) / 0x1_0000_0000 == 0x1_0000_0000int) by {
            lemma_div_multiples_vanish(0x1_0000_0000, 0x1_0000_0000);
        }
        lemma_frac_bits_of_one((i - 1) as nat);
    }
}

/// The base-2 logarithm of `p / q` in fixed point: the result stands for
/// `log2(p / q)` scaled by 1024, with 10 binary digits of the fraction.
pub open spec fn log2_fixed_spec(p: int, q: int) -> int {
    log2_int(p, q) * 1024 + frac_bits(mantissa(p, q), 10)
}

/// Computes `log2_fixed_spec(p, q)`: the integer part by repeated doubling of
/// the denominator, then 10 fractional bits by the square-and-compare digit
/// recurrence on the normalized mantissa.
pub fn log2_fixed(p: u64, q: u64) -> (r: u64)
    requires
        1 <= q <= p,
    ensures
        r as int == log2_fixed_spec(p as int, q as int),
        log2_int(p as int, q as int) <= 63,
        r <= 63 * 1024 + 1023,
        p == q ==> r == 0,
{
    proof {
        lemma2_to64();
    }
    let ghost pi: int = p as int;
    let ghost qi: int = q as int;
    let mut e: u64 = 0;
    let mut q2: u128 = q as u128;
    while 2 * q2 <= p as u128
        invariant
            1 <= qi <= pi,
            pi == p as int,
            qi == q as int,
            q2 as int == qi * pow2(e as nat),
            1 <= q2 as int <= pi,
            log2_int(pi, qi) == e + log2_int(pi, q2 as int),
            e <= 63,
        decreases pi - q2 as int,
    {
        proof {
            lemma_pow2_unfold((e + 1) as nat);
            lemma_pow2_pos((e + 1) as nat);
            assert(qi * pow2((e + 1) as nat) == 2 * (qi * pow2(e as nat))) by (nonlinear_arith)
                requires
                    pow2((e + 1) as nat) == 2 * pow2(e as nat),
            ;
            // unfold one step of the integer logarithm at the doubled denominator
            assert(log2_int(pi, q2 as int) == 1 + log2_int(pi, 2 * (q2 as int)));
            // the doubled denominator still fits under p < 2^64, so e + 1 <= 63
            assert(pow2((e + 1) as nat) <= qi * pow2((e + 1) as nat)) by (nonlinear_arith)
                requires
                    qi >= 1,
                    pow2((e + 1) as nat) > 0,
            ;
            assert(pow2(64) == 0x1_0000_0000_0000_0000) by {
                lemma2_to64();
            }
            if e + 1 > 63 {
                if e + 1 > 64 {
                    lemma_pow2_strictly_increases(64, (e + 1) as nat);
                }
                assert(false);
            }
        }
        q2 = 2 * q2;
        e = e + 1;
    }
    proof {
        assert(log2_int(pi, q2 as int) == 0);
        lemma_pow2_pos(e as nat);
    }
    let num: u128 = (p as u128) * 0x1_0000_0000;
    let m0: u128 = num / q2;
    proof {
        let d = q2 as int;
        assert(d >= 1) by (nonlinear_arith)
            requires
                d == qi * pow2(e as nat),
                qi >= 1,
                pow2(e as nat) > 0,
        ;
        assert(d * 0x1_0000_0000 <= pi * 0x1_0000_0000) by (nonlinear_arith)
            requires
                d <= pi,
        ;
        assert((d * 0x1_0000_0000) / d == 0x1_0000_0000int) by {
            lemma_div_multiples_vanish(0x1_0000_0000, d);
        }
        lemma_div_is_ordered(d * 0x1_0000_0000, pi * 0x1_0000_0000, d);
        assert(pi * 0x1_0000_0000 < d * 0x2_0000_0000) by (nonlinear_arith)
            requires
                pi < 2 * d,
        ;
        lemma_multiply_divide_lt(pi * 0x1_0000_0000, d, 0x2_0000_0000);
        assert(m0 as int == mantissa(pi, qi));
    }
    let ghost mg: int = m0 as int;
    let mut m: u128 = m0;
    let mut res: u64 = 0;
    let mut i: u64 = 0;
    while i < 10
        invariant
            i <= 10,
            0x1_0000_0000 <= m < 0x2_0000_0000,
            res < pow2(i as nat),
            frac_bits(mg, 10) == res * pow2((10 - i) as nat) + frac_bits(m as int, (10 - i) as nat),
        decreases 10 - i,
    {
        proof {
            assert((m as int) * (m as int) < 0x4_0000_0000_0000_0000) by (nonlinear_arith)
                requires
                    (m as int) < 0x2_0000_0000,
                    (m as int) >= 0,
            ;
            assert((m as int) * (m as int) >= 0x1_0000_0000_0000_0000) by (nonlinear_arith)
                requires
                    (m as int) >= 0x1_0000_0000,
            ;
            // res stays below 2^9 before the last doubling
            assert(pow2(9) == 512 && pow2(10) == 1024) by {
                lemma2_to64();
            }
            if i < 9 {
                lemma_pow2_strictly_increases(i as nat, 9);
            }
        }
        let s: u128 = (m * m) / 0x1_0000_0000;
        proof {
            let mm = (m as int) * (m as int);
            assert(0x1_0000_0000_0000_0000int == 0x1_0000_0000int * 0x1_0000_0000);
            assert((0x1_0000_0000int * 0x1_0000_0000) / 0x1_0000_0000 == 0x1_0000_0000int) by {
                lemma_div_multiples_vanish(0x1_0000_0000, 0x1_0000_0000);
            }
            lemma_div_is_ordered(0x1_0000_0000int * 0x1_0000_0000, mm, 0x1_0000_0000);
            assert(mm < 0x1_0000_0000int * 0x4_0000_0000);
            lemma_multiply_divide_lt(mm, 0x1_0000_0000, 0x4_0000_0000);
        }
        let ghost res_pre: u64 = res;
        let ghost m_pre: u128 = m;
        let ghost k: nat = (10 - i) as nat;
        if s >= 0x2_0000_0000 {
            res = 2 * res + 1;
            m = s / 2;
        } else {
            res = 2 * res;
            m = s;
        }
        i = i + 1;
        proof {
            assert(pow2(k) == 2 * pow2((k - 1) as nat)) by {
                lemma_pow2_unfold(k);
            }
            lemma_pow2_unfold((i) as nat);
            let s_spec = ((m_pre as int) * (m_pre as int)) / 0x1_0000_0000;
            assert(s as int == s_spec);
            if s_spec >= 0x2_0000_0000 {
                assert(frac_bits(m_pre as int, k) == pow2((k - 1) as nat) + frac_bits(
                    s_spec / 2,
                    (k - 1) as nat,
                ));
                assert((2 * res_pre + 1) * pow2((k - 1) as nat) == res_pre * pow2(k) + pow2(
                    (k - 1) as nat,
                )) by (nonlinear_arith)
                    requires
                        pow2(k) == 2 * pow2((k - 1) as nat),
                ;
            } else {
                assert(frac_bits(m_pre as int, k) == frac_bits(s_spec, (k - 1) as nat));
                assert((2 * res_pre) * pow2((k - 1) as nat) == res_pre * pow2(k))
                    by (nonlinear_arith)
                    requires
                        pow2(k) == 2 * pow2((k - 1) as nat),
                ;
            }
            assert(frac_bits(mg, 10) == res * pow2((10 - i) as nat) + frac_bits(
                m as int,
                (10 - i) as nat,
            ));
        }
    }
    proof {
        assert(pow2(0) == 1) by {
            lemma2_to64();
        }
        assert(frac_bits(m as int, 0) == 0);
        assert(res * pow2(0) == res) by (nonlinear_arith)
            requires
                pow2(0) == 1,
        ;
        assert(res as int == frac_bits(mg, 10));
        lemma_frac_bits_bounds(mg, 10);
        assert(pow2(10) == 1024) by {
            lemma2_to64();
        }
        if p == q {
            assert(mg == (pi * 0x1_0000_0000) / qi);
            assert((qi * 0x1_0000_0000) / qi == 0x1_0000_0000int) by {
                lemma_div_multiples_vanish(0x1_0000_0000, qi);
            }
            lemma_frac_bits_of_one(10);
        }
    }
    let r: u64 = e * 1024 + res;
    r
}

} // verus!
