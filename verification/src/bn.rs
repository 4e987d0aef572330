//! Wide unsigned integer arithmetic.
//!
//! Intermediate products in the pricing formulas exceed 128 bits, so they are
//! carried in a pair of `u128` words holding a 256-bit value
//! (`hi * 2^128 + lo`). The helpers here compute exact 256-bit products and
//! quotients of such pairs; the callers decide at which width (192 or 256
//! bits) an intermediate value must still fit.

use vstd::arithmetic::div_mod::{lemma_fundamental_div_mod, lemma_fundamental_div_mod_converse};
use vstd::arithmetic::mul::lemma_mul_basics;
use vstd::arithmetic::power2::{
    lemma2_to64, lemma2_to64_rest, lemma_pow2_adds, lemma_pow2_strictly_increases, pow2,
};
use vstd::prelude::*;

use crate::error::{ClearingHouseResult, ErrorCode};

verus! {

/// `2^64` as a mathematical integer.
pub open spec fn pow64() -> int {
    0x1_0000_0000_0000_0000
}

/// `2^127` as a mathematical integer.
pub open spec fn pow127() -> int {
    0x8000_0000_0000_0000_0000_0000_0000_0000u128 as int
}

/// `2^128` as a mathematical integer.
pub open spec fn pow128() -> int {
    0xffff_ffff_ffff_ffff_ffff_ffff_ffff_ffffu128 as int + 1
}

/// `2^192` as a mathematical integer.
pub open spec fn pow192() -> int {
    pow64() * pow128()
}

/// `2^256` as a mathematical integer.
pub open spec fn pow256() -> int {
    pow128() * pow128()
}

/// The value held by a `(hi, lo)` pair of 128-bit words.
pub open spec fn wide(hi: u128, lo: u128) -> int {
    hi * pow128() + lo
}

/// Values of `pow2` at the exponents the division loop needs.
proof fn lemma_pow2_values()
    ensures
        pow2(0) == 1,
        pow2(1) == 2,
        pow2(128) == pow128(),
        pow2(255) == pow127() * pow128(),
        pow2(256) == pow256(),
{
    lemma2_to64();
    lemma2_to64_rest();
    lemma_pow2_adds(64, 63);
    lemma_pow2_adds(64, 64);
    assert(pow2(127) == pow2(64) * pow2(63));
    assert(pow2(128) == pow2(64) * pow2(64));
    assert(pow2(64) * pow2(64) == pow128()) by (nonlinear_arith)
        requires
            pow2(64) == 0x1_0000_0000_0000_0000,
    ;
    assert(pow2(64) * pow2(63) == pow127()) by (nonlinear_arith)
        requires
            pow2(64) == 0x1_0000_0000_0000_0000,
            pow2(63) == 0x8000_0000_0000_0000,
    ;
    lemma_pow2_adds(127, 128);
    lemma_pow2_adds(128, 128);
}

/// A left shift of the 256-bit register `(ah, al)` by one bit: the bit
/// shifted out carries weight `2^256`.
proof fn lemma_shift_register(
    ah0: int,
    al0: int,
    ah1: int,
    al1: int,
    bit: int,
    lo_top: int,
)
    by (nonlinear_arith)
    requires
        ah1 == 2 * (ah0 - bit * pow127()) + lo_top,
        al1 == 2 * (al0 - lo_top * pow127()),
    ensures
        ah1 * pow128() + al1 == 2 * (ah0 * pow128() + al0) - bit * pow256(),
{
}

/// Feeding one more dividend bit into the consumed prefix `x` keeps the
/// decomposition of `n0` exact.
proof fn lemma_advance(
    n0: int,
    p2i: int,
    p2i1: int,
    x0: int,
    x1: int,
    reg0: int,
    reg1: int,
    bit: int,
)
    by (nonlinear_arith)
    requires
        n0 * p2i == x0 * pow256() + reg0,
        p2i1 == 2 * p2i,
        x1 == 2 * x0 + bit,
        reg1 == 2 * reg0 - bit * pow256(),
    ensures
        n0 * p2i1 == x1 * pow256() + reg1,
{
}

/// One step of long division: doubling the quotient and conditionally
/// subtracting the divisor keeps `x == q * d + r`.
proof fn lemma_quotient_step(
    q0: int,
    q1: int,
    qbit: int,
    d: int,
    x0: int,
    x1: int,
    r0: int,
    r1: int,
    bit: int,
)
    by (nonlinear_arith)
    requires
        x0 == q0 * d + r0,
        x1 == 2 * x0 + bit,
        q1 == 2 * q0 + qbit,
        qbit == 0 || qbit == 1,
        if qbit == 1 {
            r1 == 2 * r0 + bit - d
        } else {
            r1 == 2 * r0 + bit
        },
    ensures
        x1 == q1 * d + r1,
{
}

/// A left shift of the quotient pair by one bit, with the new bit added in.
proof fn lemma_quotient_pair(qh0: int, ql0: int, qh1: int, ql1: int, qbit: int, q_top: int)
    by (nonlinear_arith)
    requires
        qh1 == 2 * qh0 + q_top,
        ql1 == 2 * (ql0 - q_top * pow127()) + qbit,
    ensures
        qh1 * pow128() + ql1 == 2 * (qh0 * pow128() + ql0) + qbit,
{
}

/// The high word of a pair below `m * 2^128` is below `m`.
proof fn lemma_hi_word_bound(hi: int, lo: int, m: int)
    by (nonlinear_arith)
    requires
        hi * pow128() + lo < m * pow128(),
        lo >= 0,
    ensures
        hi < m,
{
}

/// A nonnegative quotient is no larger than quotient times divisor.
proof fn lemma_le_times(q: int, d: int)
    by (nonlinear_arith)
    requires
        d >= 1,
        q >= 0,
    ensures
        q <= q * d,
{
}

/// A `(hi, lo)` pair of 128-bit words holds a value in `[0, 2^256)`.
pub proof fn lemma_wide_range(hi: u128, lo: u128)
    by (nonlinear_arith)
    ensures
        0 <= wide(hi, lo) < pow256(),
        hi >= 1 ==> wide(hi, lo) >= pow128(),
{
}

/// Exact widening multiplication: the full 256-bit product of two `u128`
/// values, as a `(hi, lo)` pair.
pub fn mul_u128_wide(x: u128, y: u128) -> (r: (u128, u128))
    ensures
        wide(r.0, r.1) == x * y,
{
    let xh = x / 0x1_0000_0000_0000_0000u128;
    let xl = x % 0x1_0000_0000_0000_0000u128;
    let yh = y / 0x1_0000_0000_0000_0000u128;
    let yl = y % 0x1_0000_0000_0000_0000u128;
    proof {
        lemma_fundamental_div_mod(x as int, 0x1_0000_0000_0000_0000);
        lemma_fundamental_div_mod(y as int, 0x1_0000_0000_0000_0000);
        assert(xh < 0x1_0000_0000_0000_0000 && yh < 0x1_0000_0000_0000_0000);
        assert(xl * yl <= 0xffff_ffff_ffff_ffff * 0xffff_ffff_ffff_ffff && xl * yh
            <= 0xffff_ffff_ffff_ffff * 0xffff_ffff_ffff_ffff && xh * yl <= 0xffff_ffff_ffff_ffff
            * 0xffff_ffff_ffff_ffff && xh * yh <= 0xffff_ffff_ffff_ffff * 0xffff_ffff_ffff_ffff)
            by (nonlinear_arith)
            requires
                0 <= xl < 0x1_0000_0000_0000_0000,
                0 <= xh < 0x1_0000_0000_0000_0000,
                0 <= yl < 0x1_0000_0000_0000_0000,
                0 <= yh < 0x1_0000_0000_0000_0000,
        ;
    }
    let p00 = xl * yl;
    let p01 = xl * yh;
    let p10 = xh * yl;
    let p11 = xh * yh;
    proof {
        lemma_fundamental_div_mod(p00 as int, 0x1_0000_0000_0000_0000);
    }
    let dp00 = p00 / 0x1_0000_0000_0000_0000u128;
    let mp00 = p00 % 0x1_0000_0000_0000_0000u128;
    let mid1 = p01 + dp00;
    proof {
        lemma_fundamental_div_mod(mid1 as int, 0x1_0000_0000_0000_0000);
    }
    let dm1 = mid1 / 0x1_0000_0000_0000_0000u128;
    let mm1 = mid1 % 0x1_0000_0000_0000_0000u128;
    let mid2 = p10 + mm1;
    proof {
        lemma_fundamental_div_mod(mid2 as int, 0x1_0000_0000_0000_0000);
    }
    let dm2 = mid2 / 0x1_0000_0000_0000_0000u128;
    let mm2 = mid2 % 0x1_0000_0000_0000_0000u128;
    let lo = mp00 + mm2 * 0x1_0000_0000_0000_0000u128;
    let hi = p11 + dm1 + dm2;
    proof {
        assert(hi * pow128() + lo == x * y) by (nonlinear_arith)
            requires
                x == xh * 0x1_0000_0000_0000_0000 + xl,
                y == yh * 0x1_0000_0000_0000_0000 + yl,
                p00 == xl * yl,
                p01 == xl * yh,
                p10 == xh * yl,
                p11 == xh * yh,
                p00 == dp00 * 0x1_0000_0000_0000_0000 + mp00,
                mid1 == p01 + dp00,
                mid1 == dm1 * 0x1_0000_0000_0000_0000 + mm1,
                mid2 == p10 + mm1,
                mid2 == dm2 * 0x1_0000_0000_0000_0000 + mm2,
                lo == mp00 + mm2 * 0x1_0000_0000_0000_0000,
                hi == p11 + dm1 + dm2,
        ;
    }
    (hi, lo)
}

/// Exact division of a 256-bit value (as a `(hi, lo)` pair) by a nonzero
/// `u128` divisor, by shift-and-subtract long division over all 256 bits.
/// Returns the full 256-bit quotient as a `(hi, lo)` pair.
pub fn div_wide(n_hi: u128, n_lo: u128, d: u128) -> (r: (u128, u128))
    requires
        d != 0,
    ensures
        wide(r.0, r.1) == wide(n_hi, n_lo) / (d as int),
{
    let mut a_hi = n_hi;
    let mut a_lo = n_lo;
    let mut q_hi: u128 = 0;
    let mut q_lo: u128 = 0;
    let mut rem: u128 = 0;
    let mut i: usize = 0;
    let ghost n0: int = wide(n_hi, n_lo);
    let ghost mut x: int = 0;
    proof {
        lemma_pow2_values();
        lemma_mul_basics(n0);
        lemma_mul_basics(pow256());
        lemma_mul_basics(pow128());
        lemma_mul_basics(d as int);
    }
    while i < 256
        invariant
            i <= 256,
            d > 0,
            n0 == wide(n_hi, n_lo),
            n0 * pow2(i as nat) == x * pow256() + wide(a_hi, a_lo),
            x == wide(q_hi, q_lo) * (d as int) + rem,
            rem < d,
            0 <= x < pow2(i as nat),
        decreases 256 - i,
    {
        proof {
            lemma_pow2_values();
            assert(pow2((i + 1) as nat) == 2 * pow2(i as nat)) by {
                lemma_pow2_adds(i as nat, 1);
                vstd::arithmetic::mul::lemma_mul_is_commutative(
                    pow2(i as nat) as int,
                    pow2(1) as int,
                );
            }
            // bound the quotient so that doubling its words cannot overflow
            lemma_le_times(wide(q_hi, q_lo), d as int);
            assert(pow2(i as nat) <= pow2(255)) by {
                if i < 255 {
                    lemma_pow2_strictly_increases(i as nat, 255);
                }
            }
            lemma_hi_word_bound(q_hi as int, q_lo as int, pow127());
        }
        // shift the register left one bit; `bit` is the bit shifted out
        let bit: u128 = if a_hi >= 0x8000_0000_0000_0000_0000_0000_0000_0000u128 {
            1
        } else {
            0
        };
        let lo_top: u128 = if a_lo >= 0x8000_0000_0000_0000_0000_0000_0000_0000u128 {
            1
        } else {
            0
        };
        let a_hi_low = if a_hi >= 0x8000_0000_0000_0000_0000_0000_0000_0000u128 {
            a_hi - 0x8000_0000_0000_0000_0000_0000_0000_0000u128
        } else {
            a_hi
        };
        let a_lo_low = if a_lo >= 0x8000_0000_0000_0000_0000_0000_0000_0000u128 {
            a_lo - 0x8000_0000_0000_0000_0000_0000_0000_0000u128
        } else {
            a_lo
        };
        let ghost ah0: int = a_hi as int;
        let ghost al0: int = a_lo as int;
        a_hi = a_hi_low * 2 + lo_top;
        a_lo = a_lo_low * 2;
        proof {
            lemma_shift_register(ah0, al0, a_hi as int, a_lo as int, bit as int, lo_top as int);
        }
        // divide step: the true running remainder is 2*rem + bit, which may
        // carry into bit 128
        let rem_top = rem >= 0x8000_0000_0000_0000_0000_0000_0000_0000u128;
        let rem_low = if rem_top {
            rem - 0x8000_0000_0000_0000_0000_0000_0000_0000u128
        } else {
            rem
        };
        let rem2 = rem_low * 2 + bit;
        let qbit: u128 = if rem_top || rem2 >= d {
            1
        } else {
            0
        };
        let new_rem: u128 = if rem_top {
            // true remainder is 2^128 + rem2 >= d; the difference is below d
            rem2 + (u128::MAX - d) + 1
        } else if rem2 >= d {
            rem2 - d
        } else {
            rem2
        };
        // double the quotient and append the new quotient bit
        let q_top: u128 = if q_lo >= 0x8000_0000_0000_0000_0000_0000_0000_0000u128 {
            1
        } else {
            0
        };
        let q_lo_low = if q_lo >= 0x8000_0000_0000_0000_0000_0000_0000_0000u128 {
            q_lo - 0x8000_0000_0000_0000_0000_0000_0000_0000u128
        } else {
            q_lo
        };
        let ghost qh0: int = q_hi as int;
        let ghost ql0: int = q_lo as int;
        let ghost x0: int = x;
        let ghost r0: int = rem as int;
        q_lo = q_lo_low * 2 + qbit;
        q_hi = q_hi * 2 + q_top;
        rem = new_rem;
        proof {
            x = 2 * x0 + bit;
            lemma_quotient_pair(qh0, ql0, q_hi as int, q_lo as int, qbit as int, q_top as int);
            lemma_quotient_step(
                qh0 * pow128() + ql0,
                q_hi as int * pow128() + q_lo as int,
                qbit as int,
                d as int,
                x0,
                x,
                r0,
                rem as int,
                bit as int,
            );
            lemma_advance(
                n0,
                pow2(i as nat) as int,
                pow2((i + 1) as nat) as int,
                x0,
                x,
                ah0 * pow128() + al0,
                a_hi as int * pow128() + a_lo as int,
                bit as int,
            );
        }
        i = i + 1;
    }
    proof {
        lemma_pow2_values();
        lemma_wide_range(a_hi, a_lo);
        // all 256 bits consumed: the register must be zero and x == n0
        assert(wide(a_hi, a_lo) == (n0 - x) * pow256()) by (nonlinear_arith)
            requires
                n0 * pow256() == x * pow256() + wide(a_hi, a_lo),
        ;
        if x < n0 {
            assert((n0 - x) * pow256() >= pow256()) by (nonlinear_arith)
                requires
                    n0 - x >= 1,
            ;
        }
        if x > n0 {
            assert((n0 - x) * pow256() <= -pow256()) by (nonlinear_arith)
                requires
                    n0 - x <= -1,
            ;
        }
        assert(x == n0);
        lemma_fundamental_div_mod_converse(n0, d as int, wide(q_hi, q_lo), rem as int);
    }
    (q_hi, q_lo)
}

/// Checked 256-bit multiplication of two `(hi, lo)` pairs: `None` exactly
/// when the true product does not fit in 256 bits.
pub fn checked_mul_wide(a_hi: u128, a_lo: u128, b_hi: u128, b_lo: u128) -> (r: Option<
    (u128, u128),
>)
    ensures
        match r {
            Some(p) => wide(a_hi, a_lo) * wide(b_hi, b_lo) < pow256() && wide(p.0, p.1) == wide(
                a_hi,
                a_lo,
            ) * wide(b_hi, b_lo),
            None => wide(a_hi, a_lo) * wide(b_hi, b_lo) >= pow256(),
        },
{
    if a_hi != 0 && b_hi != 0 {
        proof {
            assert(wide(a_hi, a_lo) * wide(b_hi, b_lo) >= pow256()) by (nonlinear_arith)
                requires
                    a_hi >= 1,
                    b_hi >= 1,
                    a_lo >= 0,
                    b_lo >= 0,
                    wide(a_hi, a_lo) == a_hi * pow128() + a_lo,
                    wide(b_hi, b_lo) == b_hi * pow128() + b_lo,
            ;
        }
        return None;
    }
    // at most one of the high words is nonzero, so the middle part is a
    // single 128x128 product
    let (m_hi, m_lo) = if a_hi != 0 {
        mul_u128_wide(a_hi, b_lo)
    } else {
        mul_u128_wide(b_hi, a_lo)
    };
    proof {
        assert(wide(m_hi, m_lo) == a_hi * b_lo + a_lo * b_hi) by (nonlinear_arith)
            requires
                a_hi == 0 || b_hi == 0,
                wide(m_hi, m_lo) == if a_hi != 0 {
                    a_hi * b_lo
                } else {
                    b_hi * a_lo
                },
        ;
    }
    if m_hi != 0 {
        proof {
            lemma_wide_range(m_hi, m_lo);
            assert(wide(a_hi, a_lo) * wide(b_hi, b_lo) >= pow256()) by (nonlinear_arith)
                requires
                    a_hi == 0 || b_hi == 0,
                    a_hi >= 0,
                    b_hi >= 0,
                    a_lo >= 0,
                    b_lo >= 0,
                    a_hi * b_lo + a_lo * b_hi >= pow128(),
                    wide(a_hi, a_lo) == a_hi * pow128() + a_lo,
                    wide(b_hi, b_lo) == b_hi * pow128() + b_lo,
            ;
        }
        return None;
    }
    let (l_hi, l_lo) = mul_u128_wide(a_lo, b_lo);
    proof {
        assert(wide(a_hi, a_lo) * wide(b_hi, b_lo) == (m_lo + l_hi as int) * pow128() + l_lo)
            by (nonlinear_arith)
            requires
                a_hi == 0 || b_hi == 0,
                a_hi * b_lo + a_lo * b_hi == m_lo,
                wide(l_hi, l_lo) == a_lo * b_lo,
                wide(l_hi, l_lo) == l_hi * pow128() + l_lo,
                wide(a_hi, a_lo) == a_hi * pow128() + a_lo,
                wide(b_hi, b_lo) == b_hi * pow128() + b_lo,
        ;
    }
    match l_hi.checked_add(m_lo) {
        Some(h) => {
            proof {
                assert((m_lo + l_hi as int) * pow128() + l_lo < pow256() && (m_lo + l_hi as int)
                    * pow128() + l_lo == wide(h, l_lo)) by (nonlinear_arith)
                    requires
                        h == m_lo + l_hi,
                        h < pow128(),
                        0 <= l_lo < pow128(),
                        wide(h, l_lo) == h * pow128() + l_lo,
                ;
            }
            Some((h, l_lo))
        },
        None => {
            proof {
                assert((m_lo + l_hi as int) * pow128() + l_lo >= pow256()) by (nonlinear_arith)
                    requires
                        m_lo + l_hi >= pow128(),
                        l_lo >= 0,
                ;
            }
            None
        },
    }
}

/// An unsigned 256-bit integer, carried as two 128-bit words.
#[derive(Clone, Copy, Debug, PartialEq, Eq, Structural)]
pub struct U256 {
    hi: u128,
    lo: u128,
}

impl U256 {
    /// The mathematical value of this 256-bit integer.
    pub closed spec fn as_int(self) -> int {
        wide(self.hi, self.lo)
    }

    /// The two words of this value, low word first.
    pub fn words(self) -> (r: (u128, u128))
        ensures
            self.as_int() == wide(r.1, r.0),
    {
        (self.lo, self.hi)
    }

    /// Widening conversion from a native `u128`.
    pub fn from_u128(v: u128) -> (r: U256)
        ensures
            r.as_int() == v,
    {
        proof {
            lemma_mul_basics(pow128());
        }
        U256 { hi: 0, lo: v }
    }

    /// Narrowing conversion back to `u128`; fails if the value does not fit.
    pub fn try_to_u128(self) -> (r: ClearingHouseResult<u128>)
        ensures
            match r {
                Ok(v) => self.as_int() < pow128() && v == self.as_int(),
                Err(_) => self.as_int() >= pow128(),
            },
    {
        proof {
            lemma_wide_range(self.hi, self.lo);
            lemma_mul_basics(pow128());
        }
        if self.hi == 0 {
            Ok(self.lo)
        } else {
            Err(ErrorCode::MathError)
        }
    }
}

} // verus!
