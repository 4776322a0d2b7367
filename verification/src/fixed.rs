//! Fixed-point scalars with sixteen fractional bits.
//!
//! Every operation is total: a result that leaves the representable range is
//! clamped to its nearest end, and a quotient or product that falls between
//! two representable values is rounded toward zero.
use vstd::prelude::*;

verus! {

/// Raw value that stands for the scalar one.
pub const ONE_RAW: i64 = 65536;

/// Largest raw value; it doubles as the stand-in for "unbounded".
pub const MAX_RAW: i64 = 0x7fff_ffff_ffff_ffff;

/// Absolute value of an integer.
pub open spec fn abs(x: int) -> int {
    if x < 0 {
        -x
    } else {
        x
    }
}

/// `x` clamped to the symmetric range `[-MAX_RAW, MAX_RAW]`.
pub open spec fn sat(x: int) -> int {
    if x > MAX_RAW {
        MAX_RAW as int
    } else if x < -MAX_RAW {
        -(MAX_RAW as int)
    } else {
        x
    }
}

/// Quotient of `n` by `d`, rounded toward zero.
pub open spec fn tdiv(n: int, d: int) -> int
    recommends
        d != 0,
{
    if (n >= 0) == (d > 0) {
        abs(n) / abs(d)
    } else {
        -(abs(n) / abs(d))
    }
}

/// Whether `r` is the integer square root of `n`: the largest integer whose
/// square does not exceed `n`.
pub open spec fn is_isqrt(n: int, r: int) -> bool {
    0 <= r && r * r <= n && n < (r + 1) * (r + 1)
}

/// Integer square root of a non-negative integer.
pub open spec fn isqrt(n: int) -> int {
    choose|r: int| is_isqrt(n, r)
}

/// A signed fixed-point number; its value is `raw / 65536`.
#[derive(Clone, Copy, Debug, PartialEq, Eq, Structural)]
pub struct Fixed {
    pub raw: i64,
}

/// At most one integer is the integer square root of `n`.
pub proof fn lemma_isqrt_unique(n: int, r1: int, r2: int)
    by (nonlinear_arith)
    requires
        is_isqrt(n, r1),
        is_isqrt(n, r2),
    ensures
        r1 == r2,
{
}

/// Every non-negative integer has an integer square root.
pub proof fn lemma_isqrt_exists(n: int)
    requires
        n >= 0,
    ensures
        is_isqrt(n, isqrt(n)),
    decreases n,
{
    if n == 0 {
        assert(is_isqrt(0, 0));
    } else {
        lemma_isqrt_exists(n - 1);
        let r = isqrt(n - 1);
        if (r + 1) * (r + 1) <= n {
            assert((r + 2) * (r + 2) > (r + 1) * (r + 1)) by (nonlinear_arith)
                requires
                    r >= 0,
            ;
            assert(is_isqrt(n, r + 1));
        } else {
            assert(is_isqrt(n, r));
        }
    }
}

/// The integer square root is determined by its defining bounds.
pub proof fn lemma_isqrt_is(n: int, r: int)
    requires
        is_isqrt(n, r),
    ensures
        isqrt(n) == r,
{
    lemma_isqrt_unique(n, r, isqrt(n));
}

/// Rounding toward zero keeps the order of the dividends, for a positive
/// divisor.
pub proof fn lemma_tdiv_monotone(n1: int, n2: int, d: int)
    requires
        n1 <= n2,
        d > 0,
    ensures
        tdiv(n1, d) <= tdiv(n2, d),
{
    if n1 >= 0 {
        vstd::arithmetic::div_mod::lemma_div_is_ordered(n1, n2, d);
    } else if n2 >= 0 {
        vstd::arithmetic::div_mod::lemma_div_pos_is_pos(-n1, d);
        vstd::arithmetic::div_mod::lemma_div_pos_is_pos(n2, d);
    } else {
        vstd::arithmetic::div_mod::lemma_div_is_ordered(-n2, -n1, d);
    }
}

/// A quotient keeps the sign of its dividend, for a positive divisor.
pub proof fn lemma_tdiv_sign(n: int, d: int)
    requires
        d > 0,
    ensures
        n >= 0 ==> tdiv(n, d) >= 0,
        n <= 0 ==> tdiv(n, d) <= 0,
{
    if n >= 0 {
        vstd::arithmetic::div_mod::lemma_div_pos_is_pos(n, d);
    } else {
        vstd::arithmetic::div_mod::lemma_div_pos_is_pos(-n, d);
    }
}

/// `x` clamped into the raw range.
fn clamp_raw(x: i128) -> (r: i64)
    ensures
        r == sat(x as int),
{
    if x > 0x7fff_ffff_ffff_ffffi128 {
        MAX_RAW
    } else if x < -0x7fff_ffff_ffff_ffffi128 {
        -MAX_RAW
    } else {
        x as i64
    }
}

/// Quotient rounded toward zero, on machine integers.
fn tdiv_i128(n: i128, d: i128) -> (q: i128)
    requires
        d != 0,
        n > i128::MIN,
        d > i128::MIN,
    ensures
        q == tdiv(n as int, d as int),
{
    let un: u128 = if n >= 0 { n as u128 } else { (-n) as u128 };
    let ud: u128 = if d >= 0 { d as u128 } else { (-d) as u128 };
    let uq: u128 = un / ud;
    assert(uq <= un) by (nonlinear_arith)
        requires
            uq == un / ud,
            ud >= 1,
    ;
    if (n >= 0) == (d > 0) {
        uq as i128
    } else {
        -(uq as i128)
    }
}

/// Largest integer whose square does not exceed `n`.
fn isqrt_u128(n: u128) -> (r: u128)
    requires
        n < 0x1_0000_0000_0000_0000_0000u128,
    ensures
        is_isqrt(n as int, r as int),
{
    let mut lo: u128 = 0;
    let mut hi: u128 = 0x100_0000_0000u128;
    assert(0x100_0000_0000int * 0x100_0000_0000int == 0x1_0000_0000_0000_0000_0000int) by (nonlinear_arith);
    while hi - lo > 1
        invariant
            lo < hi <= 0x100_0000_0000u128,
            lo * lo <= n < hi * hi,
        decreases hi - lo,
    {
        let mid: u128 = lo + (hi - lo) / 2;
        assert(mid * mid < 0x1_0000_0000_0000_0000_0000int) by (nonlinear_arith)
            requires
                0 <= mid < 0x100_0000_0000int,
        ;
        if mid * mid <= n {
            lo = mid;
        } else {
            hi = mid;
        }
    }
    lo
}

impl Fixed {
    /// The scalar zero.
    pub open spec fn spec_zero() -> Fixed {
        Fixed { raw: 0 }
    }

    /// The scalar one.
    pub open spec fn spec_one() -> Fixed {
        Fixed { raw: ONE_RAW }
    }

    /// The largest scalar.
    pub open spec fn spec_max_value() -> Fixed {
        Fixed { raw: MAX_RAW }
    }

    /// The scalar with the given raw value.
    pub open spec fn spec_from_raw(raw: i64) -> Fixed {
        Fixed { raw }
    }

    /// The scalar that equals the integer `n`.
    pub open spec fn spec_from_int(n: i32) -> Fixed {
        Fixed { raw: (n * ONE_RAW) as i64 }
    }

    /// The scalar that equals the unsigned integer `n`.
    pub open spec fn spec_from_u32(n: u32) -> Fixed {
        Fixed { raw: (n * ONE_RAW) as i64 }
    }

    /// The scalar that equals the size `n`, clamped to the representable
    /// range.
    pub open spec fn spec_from_usize(n: usize) -> Fixed {
        Fixed { raw: sat(n * ONE_RAW) as i64 }
    }

    /// The whole part of the scalar, rounded toward zero and limited to the
    /// range of a byte.
    pub open spec fn spec_to_u8(self) -> u8 {
        let whole = tdiv(self.raw as int, ONE_RAW as int);
        if whole < 0 {
            0u8
        } else if whole > 255 {
            255u8
        } else {
            whole as u8
        }
    }

    /// The quotient of the integers `num` and `den`, as `spec_div` rounds
    /// it.
    pub open spec fn spec_from_ratio(num: i32, den: i32) -> Fixed {
        Fixed::spec_from_int(num).spec_div(Fixed::spec_from_int(den))
    }

    /// Sum, clamped to the representable range.
    pub open spec fn spec_add(self, rhs: Fixed) -> Fixed {
        Fixed { raw: sat(self.raw + rhs.raw) as i64 }
    }

    /// Difference, clamped to the representable range.
    pub open spec fn spec_sub(self, rhs: Fixed) -> Fixed {
        Fixed { raw: sat(self.raw - rhs.raw) as i64 }
    }

    /// Negation, clamped to the representable range.
    pub open spec fn spec_neg(self) -> Fixed {
        Fixed { raw: sat(-self.raw) as i64 }
    }

    /// Product, rounded toward zero and clamped.
    pub open spec fn spec_mul(self, rhs: Fixed) -> Fixed {
        Fixed { raw: sat(tdiv(self.raw * rhs.raw, ONE_RAW as int)) as i64 }
    }

    /// Quotient, rounded toward zero and clamped. A quotient by zero is the
    /// end of the range on the side of the dividend's sign, and zero for a
    /// zero dividend.
    pub open spec fn spec_div(self, rhs: Fixed) -> Fixed {
        if rhs.raw == 0 {
            if self.raw > 0 {
                Fixed { raw: MAX_RAW }
            } else if self.raw < 0 {
                Fixed { raw: (-MAX_RAW) as i64 }
            } else {
                Fixed { raw: 0 }
            }
        } else {
            Fixed { raw: sat(tdiv(self.raw * ONE_RAW, rhs.raw as int)) as i64 }
        }
    }

    /// Square root, rounded down; zero for a negative scalar.
    pub open spec fn spec_sqrt(self) -> Fixed {
        if self.raw <= 0 {
            Fixed { raw: 0 }
        } else {
            Fixed { raw: isqrt(self.raw * ONE_RAW) as i64 }
        }
    }

    /// The smaller of two scalars.
    pub open spec fn spec_min(self, rhs: Fixed) -> Fixed {
        if self.raw <= rhs.raw {
            self
        } else {
            rhs
        }
    }

    /// The larger of two scalars.
    pub open spec fn spec_max(self, rhs: Fixed) -> Fixed {
        if self.raw >= rhs.raw {
            self
        } else {
            rhs
        }
    }

    /// The product of `n` copies of the scalar, multiplied in from the left;
    /// one for `n == 0`.
    pub open spec fn spec_powi(self, n: u32) -> Fixed
        decreases n,
    {
        if n == 0 {
            Fixed::spec_one()
        } else {
            self.spec_powi((n - 1) as u32).spec_mul(self)
        }
    }

    /// The scalar zero.
    #[verifier::when_used_as_spec(spec_zero)]
    pub fn zero() -> (r: Fixed)
        ensures
            r == Fixed::spec_zero(),
    {
        Fixed { raw: 0 }
    }

    /// The scalar one.
    #[verifier::when_used_as_spec(spec_one)]
    pub fn one() -> (r: Fixed)
        ensures
            r == Fixed::spec_one(),
    {
        Fixed { raw: ONE_RAW }
    }

    /// The largest scalar, which stands in for "unbounded".
    #[verifier::when_used_as_spec(spec_max_value)]
    pub fn max_value() -> (r: Fixed)
        ensures
            r == Fixed::spec_max_value(),
    {
        Fixed { raw: MAX_RAW }
    }

    /// The scalar with the given raw value.
    #[verifier::when_used_as_spec(spec_from_raw)]
    pub fn from_raw(raw: i64) -> (r: Fixed)
        ensures
            r == Fixed::spec_from_raw(raw),
    {
        Fixed { raw }
    }

    /// The scalar that equals the integer `n`.
    #[verifier::when_used_as_spec(spec_from_int)]
    pub fn from_int(n: i32) -> (r: Fixed)
        ensures
            r == Fixed::spec_from_int(n),
            r.raw == n * 65536,
    {
        let wide: i64 = n as i64;
        Fixed { raw: wide * ONE_RAW }
    }

    /// The scalar that equals the unsigned integer `n`.
    #[verifier::when_used_as_spec(spec_from_u32)]
    pub fn from_u32(n: u32) -> (r: Fixed)
        ensures
            r == Fixed::spec_from_u32(n),
            r.raw == n * 65536,
    {
        let wide: i64 = n as i64;
        Fixed { raw: wide * ONE_RAW }
    }

    /// The scalar that equals the size `n`, clamped to the representable
    /// range.
    #[verifier::when_used_as_spec(spec_from_usize)]
    pub fn from_usize(n: usize) -> (r: Fixed)
        ensures
            r == Fixed::spec_from_usize(n),
    {
        Fixed { raw: clamp_raw(n as i128 * 65536) }
    }

    /// The whole part of the scalar, rounded toward zero and limited to the
    /// range of a byte.
    #[verifier::when_used_as_spec(spec_to_u8)]
    pub fn to_u8(self) -> (r: u8)
        ensures
            r == self.spec_to_u8(),
    {
        if self.raw <= 0 {
            proof {
                lemma_tdiv_sign(self.raw as int, ONE_RAW as int);
            }
            0
        } else {
            let whole: i64 = self.raw / 65536;
            if whole > 255 {
                255
            } else {
                whole as u8
            }
        }
    }

    /// The quotient of the integers `num` and `den`.
    #[verifier::when_used_as_spec(spec_from_ratio)]
    pub fn from_ratio(num: i32, den: i32) -> (r: Fixed)
        ensures
            r == Fixed::spec_from_ratio(num, den),
    {
        Fixed::from_int(num).div(Fixed::from_int(den))
    }

    /// Sum, clamped to the representable range.
    #[verifier::when_used_as_spec(spec_add)]
    pub fn add(self, rhs: Fixed) -> (r: Fixed)
        ensures
            r == self.spec_add(rhs),
    {
        Fixed { raw: clamp_raw(self.raw as i128 + rhs.raw as i128) }
    }

    /// Difference, clamped to the representable range.
    #[verifier::when_used_as_spec(spec_sub)]
    pub fn sub(self, rhs: Fixed) -> (r: Fixed)
        ensures
            r == self.spec_sub(rhs),
    {
        Fixed { raw: clamp_raw(self.raw as i128 - rhs.raw as i128) }
    }

    /// Negation, clamped to the representable range.
    #[verifier::when_used_as_spec(spec_neg)]
    pub fn neg(self) -> (r: Fixed)
        ensures
            r == self.spec_neg(),
    {
        Fixed { raw: clamp_raw(-(self.raw as i128)) }
    }

    /// Product, rounded toward zero and clamped.
    #[verifier::when_used_as_spec(spec_mul)]
    pub fn mul(self, rhs: Fixed) -> (r: Fixed)
        ensures
            r == self.spec_mul(rhs),
    {
        let a: i128 = self.raw as i128;
        let b: i128 = rhs.raw as i128;
        assert(-0x4000_0000_0000_0000_0000_0000_0000_0000int <= a * b
            <= 0x4000_0000_0000_0000_0000_0000_0000_0000int) by (nonlinear_arith)
            requires
                -0x8000_0000_0000_0000int <= a <= 0x8000_0000_0000_0000int,
                -0x8000_0000_0000_0000int <= b <= 0x8000_0000_0000_0000int,
        ;
        Fixed { raw: clamp_raw(tdiv_i128(a * b, 65536)) }
    }

    /// Quotient, rounded toward zero and clamped; see `spec_div` for a zero divisor.
    #[verifier::when_used_as_spec(spec_div)]
    pub fn div(self, rhs: Fixed) -> (r: Fixed)
        ensures
            r == self.spec_div(rhs),
    {
        if rhs.raw == 0 {
            if self.raw > 0 {
                Fixed { raw: MAX_RAW }
            } else if self.raw < 0 {
                Fixed { raw: -MAX_RAW }
            } else {
                Fixed { raw: 0 }
            }
        } else {
            Fixed { raw: clamp_raw(tdiv_i128(self.raw as i128 * 65536, rhs.raw as i128)) }
        }
    }

    /// Square root, rounded down; zero for a negative scalar.
    #[verifier::when_used_as_spec(spec_sqrt)]
    pub fn sqrt(self) -> (r: Fixed)
        ensures
            r == self.spec_sqrt(),
            self.raw > 0 ==> is_isqrt(self.raw * ONE_RAW, r.raw as int),
    {
        if self.raw <= 0 {
            Fixed { raw: 0 }
        } else {
            let n: u128 = self.raw as u128 * 65536;
            let root: u128 = isqrt_u128(n);
            proof {
                lemma_isqrt_is(n as int, root as int);
                assert(root < 0x100_0000_0000int) by (nonlinear_arith)
                    requires
                        0 <= root,
                        root * root <= n,
                        n < 0x1_0000_0000_0000_0000_0000int,
                ;
            }
            Fixed { raw: root as i64 }
        }
    }

    /// The scalar raised to the power `n` by repeated multiplication.
    #[verifier::when_used_as_spec(spec_powi)]
    pub fn powi(self, n: u32) -> (r: Fixed)
        ensures
            r == self.spec_powi(n),
    {
        let mut acc = Fixed::one();
        let mut i: u32 = 0;
        while i < n
            invariant
                i <= n,
                acc == self.spec_powi(i),
            decreases n - i,
        {
            acc = acc.mul(self);
            i += 1;
        }
        acc
    }

    /// The smaller of two scalars.
    #[verifier::when_used_as_spec(spec_min)]
    pub fn min(self, rhs: Fixed) -> (r: Fixed)
        ensures
            r == self.spec_min(rhs),
    {
        if self.raw <= rhs.raw {
            self
        } else {
            rhs
        }
    }

    /// The larger of two scalars.
    #[verifier::when_used_as_spec(spec_max)]
    pub fn max(self, rhs: Fixed) -> (r: Fixed)
        ensures
            r == self.spec_max(rhs),
    {
        if self.raw >= rhs.raw {
            self
        } else {
            rhs
        }
    }
}

/// A square root is never negative, and for a positive scalar its raw value
/// is the integer square root of the scaled raw value.
pub proof fn lemma_sqrt_bounds(x: Fixed)
    ensures
        x.sqrt().raw >= 0,
        x.raw > 0 ==> is_isqrt(x.raw * ONE_RAW, x.sqrt().raw as int),
{
    if x.raw > 0 {
        let n = x.raw * ONE_RAW;
        lemma_isqrt_exists(n);
        let r = isqrt(n);
        assert(r < 0x100_0000_0000int) by (nonlinear_arith)
            requires
                0 <= r,
                r * r <= n,
                n < 0x1_0000_0000_0000_0000_0000int,
        ;
    }
}

/// A square is never negative.
pub proof fn lemma_square_nonnegative(x: Fixed)
    ensures
        x.mul(x).raw >= 0,
{
    assert(x.raw * x.raw >= 0) by (nonlinear_arith);
    lemma_tdiv_sign(x.raw * x.raw, ONE_RAW as int);
}

/// A quotient always has a negation.
pub proof fn lemma_div_has_negation(x: Fixed, d: Fixed)
    ensures
        x.div(d).raw > i64::MIN,
{
}

/// Negating a factor negates the product, for a factor that has a
/// negation.
pub proof fn lemma_mul_neg(x: Fixed, y: Fixed)
    requires
        y.raw > i64::MIN,
    ensures
        x.mul(y.neg()) == x.mul(y).neg(),
{
    assert(x.raw * (-y.raw) == -(x.raw * y.raw)) by (nonlinear_arith);
}

/// Multiplication by a scalar that is not negative keeps the order of the
/// other factors, and multiplication by one that is not positive reverses
/// it.
pub proof fn lemma_mul_monotone(x: Fixed, y: Fixed, k: Fixed)
    requires
        x.raw <= y.raw,
    ensures
        k.raw >= 0 ==> x.mul(k).raw <= y.mul(k).raw,
        k.raw <= 0 ==> x.mul(k).raw >= y.mul(k).raw,
{
    if k.raw >= 0 {
        assert(x.raw * k.raw <= y.raw * k.raw) by (nonlinear_arith)
            requires
                x.raw <= y.raw,
                k.raw >= 0,
        ;
        lemma_tdiv_monotone(x.raw * k.raw, y.raw * k.raw, ONE_RAW as int);
    }
    if k.raw <= 0 {
        assert(y.raw * k.raw <= x.raw * k.raw) by (nonlinear_arith)
            requires
                x.raw <= y.raw,
                k.raw <= 0,
        ;
        lemma_tdiv_monotone(y.raw * k.raw, x.raw * k.raw, ONE_RAW as int);
    }
}

/// Division by a scalar that is not negative keeps the order of the
/// dividends.
pub proof fn lemma_div_monotone(x: Fixed, y: Fixed, d: Fixed)
    requires
        x.raw <= y.raw,
        d.raw >= 0,
    ensures
        x.div(d).raw <= y.div(d).raw,
{
    if d.raw > 0 {
        lemma_tdiv_monotone(x.raw * ONE_RAW, y.raw * ONE_RAW, d.raw as int);
    }
}

} // verus!
