//! Fixed-point scalars: signed decimal numbers with five fractional digits.
//!
//! Every operation is total. A result that does not fit is moved to the
//! nearest representable value, and a quotient is rounded toward zero.

use vstd::prelude::*;

verus! {

/// Number of raw units in the value one.
pub const SCALE: i32 = 100_000;

/// A signed fixed-point number that counts hundred-thousandths.
#[derive(Clone, Copy, Debug, PartialEq, Eq, Structural)]
pub struct Fixed {
    /// The number of hundred-thousandths.
    pub raw: i32,
}

/// The representable count nearest to `v`.
pub open spec fn clamp(v: int) -> int {
    if v < i32::MIN {
        i32::MIN as int
    } else if v > i32::MAX {
        i32::MAX as int
    } else {
        v
    }
}

/// The quotient of `n` by a positive `d`, rounded toward zero.
pub open spec fn quot(n: int, d: int) -> int {
    if n >= 0 {
        n / d
    } else {
        -((-n) / d)
    }
}

/// The fixed-point number nearest to `v` hundred-thousandths.
pub open spec fn fixed(v: int) -> Fixed {
    Fixed { raw: clamp(v) as i32 }
}

/// The quotient of two raw counts as a fixed-point number. A division by
/// zero gives the extreme value on the dividend's side, and zero for zero.
pub open spec fn fixed_div(n: int, d: int) -> Fixed {
    if d > 0 {
        fixed(quot(n * SCALE, d))
    } else if d < 0 {
        fixed(quot(-n * SCALE, -d))
    } else if n > 0 {
        fixed(i32::MAX as int)
    } else if n < 0 {
        fixed(i32::MIN as int)
    } else {
        fixed(0)
    }
}

/// The rounded quotient grows with the dividend.
pub proof fn lemma_quot_monotone(m: int, n: int, d: int)
    requires
        m <= n,
        0 < d,
    ensures
        quot(m, d) <= quot(n, d),
{
    if m >= 0 {
        vstd::arithmetic::div_mod::lemma_div_is_ordered(m, n, d);
    } else if n >= 0 {
        vstd::arithmetic::div_mod::lemma_div_pos_is_pos(-m, d);
        vstd::arithmetic::div_mod::lemma_div_pos_is_pos(n, d);
    } else {
        vstd::arithmetic::div_mod::lemma_div_is_ordered(-n, -m, d);
    }
}

/// Shows the solver a product with the scale as a product with its value.
pub proof fn lemma_scaled(v: int)
    ensures
        v * SCALE == v * 100_000,
        SCALE * v == v * 100_000,
{
    assert(v * SCALE == v * 100_000 && SCALE * v == v * 100_000) by (nonlinear_arith)
        requires
            SCALE == 100_000,
    ;
}

/// The count `v` of whole units in hundred-thousandths.
pub(crate) fn scale_up(v: i128) -> (res: i128)
    requires
        -0x1_0000_0000_0000_0000_0000_0000 <= v <= 0x1_0000_0000_0000_0000_0000_0000,
    ensures
        res == v * SCALE,
{
    proof {
        lemma_scaled(v as int);
    }
    v * 100_000
}

/// Moves a wide count into the representable range.
pub fn saturate(v: i128) -> (res: Fixed)
    ensures
        res == fixed(v as int),
{
    if v < i32::MIN as i128 {
        Fixed { raw: i32::MIN }
    } else if v > i32::MAX as i128 {
        Fixed { raw: i32::MAX }
    } else {
        Fixed { raw: v as i32 }
    }
}

impl Fixed {
    /// The number of hundred-thousandths that this value stands for.
    pub open spec fn view(self) -> int {
        self.raw as int
    }

    /// The sum `self + rhs`, moved into range.
    pub open spec fn spec_add(self, rhs: Fixed) -> Fixed {
        fixed(self@ + rhs@)
    }

    /// The difference `self - rhs`, moved into range.
    pub open spec fn spec_sub(self, rhs: Fixed) -> Fixed {
        fixed(self@ - rhs@)
    }

    /// The negation `-self`, moved into range.
    pub open spec fn spec_neg(self) -> Fixed {
        fixed(-self@)
    }

    /// The product `self * rhs`, rounded toward zero and moved into range.
    pub open spec fn spec_mul(self, rhs: Fixed) -> Fixed {
        fixed(quot(self@ * rhs@, SCALE as int))
    }

    /// The quotient `self / rhs`, rounded toward zero and moved into range.
    pub open spec fn spec_div(self, rhs: Fixed) -> Fixed {
        fixed_div(self@, rhs@)
    }

    /// The value that counts `raw` hundred-thousandths.
    pub fn from_raw(raw: i32) -> (res: Fixed)
        ensures
            res@ == raw,
    {
        Fixed { raw }
    }

    /// The number of hundred-thousandths in this value.
    pub fn raw(self) -> (res: i32)
        ensures
            res == self@,
    {
        self.raw
    }

    /// The whole number `n`, or the nearest representable value.
    pub fn from_int(n: i32) -> (res: Fixed)
        ensures
            res == fixed(n * SCALE),
    {
        saturate(scale_up(n as i128))
    }

    /// The number zero.
    pub fn zero() -> (res: Fixed)
        ensures
            res@ == 0,
    {
        Fixed { raw: 0 }
    }

    /// The number one.
    pub fn one() -> (res: Fixed)
        ensures
            res@ == SCALE,
    {
        Fixed { raw: SCALE }
    }

    /// The number one half.
    pub fn half() -> (res: Fixed)
        ensures
            res@ == 50_000,
    {
        Fixed { raw: 50_000 }
    }

    /// The largest representable number.
    pub fn max_value() -> (res: Fixed)
        ensures
            res@ == i32::MAX,
    {
        Fixed { raw: i32::MAX }
    }

    /// The quotient `num / den` of two counts, rounded toward zero. With
    /// `den == 0` it is the largest number, or zero where `num` is zero too.
    pub fn ratio(num: usize, den: usize) -> (res: Fixed)
        ensures
            res == fixed_div(num as int, den as int),
    {
        if den == 0 {
            if num > 0 {
                Fixed { raw: i32::MAX }
            } else {
                Fixed { raw: 0 }
            }
        } else {
            saturate(scale_up(num as i128) / den as i128)
        }
    }

    /// Maps 32 uniform bits to a number in `[0, 1)`: the fraction
    /// `bits / 2^32`, rounded down.
    pub fn from_fraction(bits: u32) -> (res: Fixed)
        ensures
            res@ == (bits * SCALE) / 0x1_0000_0000,
            0 <= res@ < SCALE,
    {
        let q: i128 = scale_up(bits as i128) / 0x1_0000_0000i128;
        Fixed { raw: q as i32 }
    }
}

impl core::ops::Add for Fixed {
    type Output = Fixed;

    /// The sum, moved into range.
    fn add(self, rhs: Fixed) -> (res: Fixed) {
        saturate(self.raw as i128 + rhs.raw as i128)
    }
}

impl vstd::std_specs::ops::AddSpecImpl for Fixed {
    open spec fn obeys_add_spec() -> bool {
        true
    }

    open spec fn add_req(self, rhs: Fixed) -> bool {
        true
    }

    open spec fn add_spec(self, rhs: Fixed) -> Fixed {
        self + rhs
    }
}

impl core::ops::Sub for Fixed {
    type Output = Fixed;

    /// The difference, moved into range.
    fn sub(self, rhs: Fixed) -> (res: Fixed) {
        saturate(self.raw as i128 - rhs.raw as i128)
    }
}

impl vstd::std_specs::ops::SubSpecImpl for Fixed {
    open spec fn obeys_sub_spec() -> bool {
        true
    }

    open spec fn sub_req(self, rhs: Fixed) -> bool {
        true
    }

    open spec fn sub_spec(self, rhs: Fixed) -> Fixed {
        self - rhs
    }
}

impl core::ops::Neg for Fixed {
    type Output = Fixed;

    /// The negation, moved into range.
    fn neg(self) -> (res: Fixed) {
        saturate(-(self.raw as i128))
    }
}

impl vstd::std_specs::ops::NegSpecImpl for Fixed {
    open spec fn obeys_neg_spec() -> bool {
        true
    }

    open spec fn neg_req(self) -> bool {
        true
    }

    open spec fn neg_spec(self) -> Fixed {
        -self
    }
}

impl core::ops::Mul for Fixed {
    type Output = Fixed;

    /// The product, rounded toward zero and moved into range.
    fn mul(self, rhs: Fixed) -> (res: Fixed) {
        let a: i128 = self.raw as i128;
        let b: i128 = rhs.raw as i128;
        assert(-0x4000_0000_0000_0000 <= a * b <= 0x4000_0000_0000_0000) by (nonlinear_arith)
            requires
                -0x8000_0000 <= a <= 0x8000_0000,
                -0x8000_0000 <= b <= 0x8000_0000,
        ;
        saturate((a * b) / 100_000i128)
    }
}

impl vstd::std_specs::ops::MulSpecImpl for Fixed {
    open spec fn obeys_mul_spec() -> bool {
        true
    }

    open spec fn mul_req(self, rhs: Fixed) -> bool {
        true
    }

    open spec fn mul_spec(self, rhs: Fixed) -> Fixed {
        self * rhs
    }
}

impl core::ops::Div for Fixed {
    type Output = Fixed;

    /// The quotient, rounded toward zero and moved into range; a division
    /// by zero gives the extreme value on the dividend's side.
    fn div(self, rhs: Fixed) -> (res: Fixed) {
        let n: i128 = self.raw as i128;
        let d: i128 = rhs.raw as i128;
        if d > 0 {
            saturate(scale_up(n) / d)
        } else if d < 0 {
            saturate(scale_up(-n) / (-d))
        } else if n > 0 {
            Fixed { raw: i32::MAX }
        } else if n < 0 {
            Fixed { raw: i32::MIN }
        } else {
            Fixed { raw: 0 }
        }
    }
}

impl vstd::std_specs::ops::DivSpecImpl for Fixed {
    open spec fn obeys_div_spec() -> bool {
        true
    }

    open spec fn div_req(self, rhs: Fixed) -> bool {
        true
    }

    open spec fn div_spec(self, rhs: Fixed) -> Fixed {
        self.spec_div(rhs)
    }
}

} // verus!
