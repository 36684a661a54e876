//! Unsigned 256-bit integers, held as two 128-bit halves.
//!
//! Addition, subtraction and comparison are verified here; the full product,
//! floor division and floor square root are obtained from the `uint` crate
//! (through `primitive-types`) behind contracts stated over the mathematical
//! value of the halves.

use vstd::prelude::*;

verus! {

/// An unsigned 256-bit integer: `lo + hi * 2^128`.
#[derive(Clone, Copy, PartialEq, Eq, Structural, Debug)]
pub struct U256 {
    pub lo: u128,
    pub hi: u128,
}

/// 2^256, the first value that does not fit in a `U256`.
pub open spec fn pow256() -> nat {
    0x10000000000000000000000000000000000000000000000000000000000000000nat
}

/// `r` is the floor square root of `n`.
pub open spec fn is_sqrt(n: nat, r: nat) -> bool {
    r * r <= n && n < (r + 1) * (r + 1)
}

/// The floor square root of `n`.
pub open spec fn sqrt_nat(n: nat) -> nat {
    choose|r: nat| is_sqrt(n, r)
}

/// Floor square root by counting up; used only to show that one exists.
spec fn sqrt_rec(n: nat) -> nat
    decreases n,
{
    if n == 0 {
        0
    } else {
        let s = sqrt_rec((n - 1) as nat);
        if (s + 1) * (s + 1) <= n {
            s + 1
        } else {
            s
        }
    }
}

proof fn lemma_sqrt_rec(n: nat)
    ensures
        is_sqrt(n, sqrt_rec(n)),
    decreases n,
{
    if n > 0 {
        lemma_sqrt_rec((n - 1) as nat);
        let s = sqrt_rec((n - 1) as nat);
        assert(is_sqrt((n - 1) as nat, s));
        if (s + 1) * (s + 1) <= n {
            assert(sqrt_rec(n) == s + 1);
            assert(n - 1 < (s + 1) * (s + 1));
            assert(n < (s + 2) * (s + 2)) by (nonlinear_arith)
                requires
                    n <= (s + 1) * (s + 1),
            ;
            assert(is_sqrt(n, (s + 1) as nat));
        } else {
            assert(sqrt_rec(n) == s);
            assert(is_sqrt(n, s));
        }
    } else {
        assert(sqrt_rec(0nat) == 0);
        assert((0nat + 1) * (0nat + 1) == 1) by (nonlinear_arith);
        assert(is_sqrt(0, 0));
    }
}

/// Two floor square roots of the same number are equal.
proof fn lemma_sqrt_unique(n: nat, r1: nat, r2: nat)
    requires
        is_sqrt(n, r1),
        is_sqrt(n, r2),
    ensures
        r1 == r2,
{
    if r1 < r2 {
        assert((r1 + 1) * (r1 + 1) <= r2 * r2) by (nonlinear_arith)
            requires
                r1 + 1 <= r2,
        ;
    }
    if r2 < r1 {
        assert((r2 + 1) * (r2 + 1) <= r1 * r1) by (nonlinear_arith)
            requires
                r2 + 1 <= r1,
        ;
    }
}

/// Any value with a floor square root witness equals `sqrt_nat` of it.
pub proof fn lemma_is_sqrt_is_sqrt_nat(n: nat, r: nat)
    requires
        is_sqrt(n, r),
    ensures
        sqrt_nat(n) == r,
{
    assert(is_sqrt(n, sqrt_nat(n))) by {
        assert(is_sqrt(n, choose|x: nat| is_sqrt(n, x)));
    }
    lemma_sqrt_unique(n, sqrt_nat(n), r);
}

/// The floor square root always exists.
pub proof fn lemma_sqrt_nat_is_sqrt(n: nat)
    ensures
        is_sqrt(n, sqrt_nat(n)),
{
    lemma_sqrt_rec(n);
    assert(is_sqrt(n, sqrt_rec(n)));
    assert(is_sqrt(n, choose|x: nat| is_sqrt(n, x)));
}

/// The floor square root of a 256-bit value fits in 128 bits.
pub proof fn lemma_sqrt_fits_128(n: nat)
    requires
        n < pow256(),
    ensures
        sqrt_nat(n) < 0x100000000000000000000000000000000,
{
    lemma_sqrt_nat_is_sqrt(n);
    let r = sqrt_nat(n);
    if r >= 0x100000000000000000000000000000000 {
        assert(r * r >= 0x100000000000000000000000000000000nat
            * 0x100000000000000000000000000000000nat) by (nonlinear_arith)
            requires
                r >= 0x100000000000000000000000000000000nat,
        ;
    }
}

/// The floor square root never decreases.
pub proof fn lemma_sqrt_monotone(a: nat, b: nat)
    requires
        a <= b,
    ensures
        sqrt_nat(a) <= sqrt_nat(b),
{
    lemma_sqrt_nat_is_sqrt(a);
    lemma_sqrt_nat_is_sqrt(b);
    let ra = sqrt_nat(a);
    let rb = sqrt_nat(b);
    if ra > rb {
        assert((rb + 1) * (rb + 1) <= ra * ra) by (nonlinear_arith)
            requires
                rb + 1 <= ra,
        ;
    }
}

impl U256 {
    /// The mathematical value of this integer.
    pub open spec fn as_nat(self) -> nat {
        (self.lo + self.hi * 0x100000000000000000000000000000000int) as nat
    }

    pub fn zero() -> (r: U256)
        ensures
            r.as_nat() == 0,
    {
        U256 { lo: 0, hi: 0 }
    }

    pub fn from_u64(x: u64) -> (r: U256)
        ensures
            r.as_nat() == x,
    {
        U256 { lo: x as u128, hi: 0 }
    }

    pub fn from_u128(x: u128) -> (r: U256)
        ensures
            r.as_nat() == x,
    {
        U256 { lo: x, hi: 0 }
    }

    pub fn is_zero(&self) -> (r: bool)
        ensures
            r <==> self.as_nat() == 0,
    {
        self.lo == 0 && self.hi == 0
    }

    /// `self < other` on the mathematical values.
    pub fn lt(&self, other: &U256) -> (r: bool)
        ensures
            r <==> self.as_nat() < other.as_nat(),
    {
        self.hi < other.hi || (self.hi == other.hi && self.lo < other.lo)
    }

    /// `self <= other` on the mathematical values.
    pub fn le(&self, other: &U256) -> (r: bool)
        ensures
            r <==> self.as_nat() <= other.as_nat(),
    {
        self.hi < other.hi || (self.hi == other.hi && self.lo <= other.lo)
    }

    /// `self == other` on the mathematical values.
    pub fn eq_val(&self, other: &U256) -> (r: bool)
        ensures
            r <==> self.as_nat() == other.as_nat(),
    {
        self.le(other) && other.le(self)
    }

    /// Sum, or `None` when it does not fit in 256 bits.
    pub fn checked_add(&self, other: &U256) -> (r: Option<U256>)
        ensures
            self.as_nat() + other.as_nat() < pow256() ==> (r matches Some(c) && c.as_nat()
                == self.as_nat() + other.as_nat()),
            self.as_nat() + other.as_nat() >= pow256() ==> r is None,
    {
        let (lo, carry): (u128, u128) = if self.lo <= u128::MAX - other.lo {
            (self.lo + other.lo, 0)
        } else {
            (self.lo - (u128::MAX - other.lo) - 1, 1)
        };
        if self.hi <= u128::MAX - carry && self.hi + carry <= u128::MAX - other.hi {
            Some(U256 { lo, hi: self.hi + carry + other.hi })
        } else {
            None
        }
    }

    /// Difference, or `None` when `other` exceeds `self`.
    pub fn checked_sub(&self, other: &U256) -> (r: Option<U256>)
        ensures
            self.as_nat() >= other.as_nat() ==> (r matches Some(c) && c.as_nat() == self.as_nat()
                - other.as_nat()),
            self.as_nat() < other.as_nat() ==> r is None,
    {
        if self.lt(other) {
            None
        } else {
            let (lo, borrow): (u128, u128) = if self.lo >= other.lo {
                (self.lo - other.lo, 0)
            } else {
                ((u128::MAX - other.lo) + self.lo + 1, 1)
            };
            Some(U256 { lo, hi: self.hi - other.hi - borrow })
        }
    }

    /// Product, or `None` when it does not fit in 256 bits.
    ///
    /// Relies on `primitive_types::U256::checked_mul` (generated by the
    /// `uint` crate): the full product when it fits, `None` on overflow.
    #[verifier::external_body]
    pub fn checked_mul(&self, other: &U256) -> (r: Option<U256>)
        ensures
            r matches Some(c) ==> c.as_nat() == self.as_nat() * other.as_nat(),
            r is Some <==> self.as_nat() * other.as_nat() < pow256(),
    {
        let x = primitive_types::U256([self.lo as u64, (self.lo >> 64) as u64, self.hi as u64, (self.hi >> 64) as u64]);
        let y = primitive_types::U256([other.lo as u64, (other.lo >> 64) as u64, other.hi as u64, (other.hi >> 64) as u64]);
        x.checked_mul(y).map(|z| U256 {
            lo: (z.0[0] as u128) | ((z.0[1] as u128) << 64),
            hi: (z.0[2] as u128) | ((z.0[3] as u128) << 64),
        })
    }

    /// Floor quotient.
    ///
    /// Relies on `primitive_types::U256::div_mod` (generated by the `uint`
    /// crate): floor division, defined whenever the divisor is non-zero.
    #[verifier::external_body]
    pub fn div(&self, other: &U256) -> (r: U256)
        requires
            other.as_nat() > 0,
        ensures
            r.as_nat() == self.as_nat() / other.as_nat(),
    {
        let x = primitive_types::U256([self.lo as u64, (self.lo >> 64) as u64, self.hi as u64, (self.hi >> 64) as u64]);
        let y = primitive_types::U256([other.lo as u64, (other.lo >> 64) as u64, other.hi as u64, (other.hi >> 64) as u64]);
        let q = x.div_mod(y).0;
        U256 {
            lo: (q.0[0] as u128) | ((q.0[1] as u128) << 64),
            hi: (q.0[2] as u128) | ((q.0[3] as u128) << 64),
        }
    }

    /// Floor square root.
    pub fn integer_sqrt(&self) -> (r: U256)
        ensures
            r.as_nat() == sqrt_nat(self.as_nat()),
    {
        let r = self.sqrt_raw();
        proof {
            lemma_is_sqrt_is_sqrt_nat(self.as_nat(), r.as_nat());
        }
        r
    }

    /// Relies on `primitive_types::U256::integer_sqrt` (generated by the
    /// `uint` crate): the highest `r` with `r * r <= self`.
    #[verifier::external_body]
    fn sqrt_raw(&self) -> (r: U256)
        ensures
            is_sqrt(self.as_nat(), r.as_nat()),
    {
        let x = primitive_types::U256([self.lo as u64, (self.lo >> 64) as u64, self.hi as u64, (self.hi >> 64) as u64]);
        let r = x.integer_sqrt();
        U256 {
            lo: (r.0[0] as u128) | ((r.0[1] as u128) << 64),
            hi: (r.0[2] as u128) | ((r.0[3] as u128) << 64),
        }
    }
}

} // verus!
