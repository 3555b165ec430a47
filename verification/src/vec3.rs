//! Three-component vectors, used for points, directions and colours.

use crate::fixed::{fixed, quot, saturate, scale_up, Fixed, SCALE};
use crate::root::{isqrt, root};
use vstd::prelude::*;

verus! {

/// A vector of three fixed-point numbers: `(x, y, z)` in space, or
/// `(r, g, b)` as a colour.
#[derive(Clone, Copy, Debug, PartialEq, Eq, Structural)]
pub struct Vec3(pub Fixed, pub Fixed, pub Fixed);

/// The exact dot product of two vectors, in squared raw units.
pub open spec fn dot_raw(a: Vec3, b: Vec3) -> int {
    a.0@ * b.0@ + a.1@ * b.1@ + a.2@ * b.2@
}

/// The exact length of a vector in raw units, rounded down.
pub open spec fn length_raw(v: Vec3) -> int {
    root(dot_raw(v, v))
}

/// The exact length of a vector in hundred-thousandths of a raw unit,
/// rounded down.
pub open spec fn fine_length(v: Vec3) -> int {
    root(dot_raw(v, v) * SCALE * SCALE)
}

/// The vector of length one along `v`: each component divided by the
/// length and rounded toward zero. The zero vector has no direction and
/// is its own unit vector.
pub open spec fn unit_of(v: Vec3) -> Vec3 {
    let len = fine_length(v);
    if len == 0 {
        v
    } else {
        Vec3(
            fixed(quot(v.0@ * SCALE * SCALE, len)),
            fixed(quot(v.1@ * SCALE * SCALE, len)),
            fixed(quot(v.2@ * SCALE * SCALE, len)),
        )
    }
}

/// The product of two vectors, component by component.
pub open spec fn pairwise(a: Vec3, b: Vec3) -> Vec3 {
    Vec3(a.0 * b.0, a.1 * b.1, a.2 * b.2)
}

/// The vector `v` taken `n` times.
pub open spec fn repeated(v: Vec3, n: usize) -> Vec3 {
    Vec3(fixed(v.0@ * n), fixed(v.1@ * n), fixed(v.2@ * n))
}

/// The exact product of two raw counts.
pub(crate) fn product(a: i32, b: i32) -> (res: i128)
    ensures
        res == a * b,
        -0x4000_0000_0000_0000 <= res <= 0x4000_0000_0000_0000,
        a == b ==> res >= 0,
{
    assert(-0x4000_0000_0000_0000 <= a * b <= 0x4000_0000_0000_0000 && (a == b ==> a * b >= 0))
        by (nonlinear_arith)
        requires
            -0x8000_0000 <= a <= 0x8000_0000,
            -0x8000_0000 <= b <= 0x8000_0000,
    ;
    a as i128 * b as i128
}

/// The exact dot product of two vectors, in squared raw units.
pub fn dot_wide(a: Vec3, b: Vec3) -> (res: i128)
    ensures
        res == dot_raw(a, b),
        -0xC000_0000_0000_0000 <= res <= 0xC000_0000_0000_0000,
        a == b ==> res >= 0,
{
    product(a.0.raw, b.0.raw) + product(a.1.raw, b.1.raw) + product(a.2.raw, b.2.raw)
}

/// The dot product of two vectors, rounded toward zero.
pub fn dot(a: Vec3, b: Vec3) -> (res: Fixed)
    ensures
        res == fixed(quot(dot_raw(a, b), SCALE as int)),
{
    saturate(dot_wide(a, b) / 100_000i128)
}

impl Vec3 {
    /// The sum of two vectors, component by component.
    pub open spec fn spec_add(self, rhs: Vec3) -> Vec3 {
        Vec3(self.0 + rhs.0, self.1 + rhs.1, self.2 + rhs.2)
    }

    /// The difference of two vectors, component by component.
    pub open spec fn spec_sub(self, rhs: Vec3) -> Vec3 {
        Vec3(self.0 - rhs.0, self.1 - rhs.1, self.2 - rhs.2)
    }

    /// The vector scaled by the number `k`.
    pub open spec fn spec_mul(self, k: Fixed) -> Vec3 {
        Vec3(self.0 * k, self.1 * k, self.2 * k)
    }

    /// The vector with the given components.
    pub fn new(x: Fixed, y: Fixed, z: Fixed) -> (res: Vec3)
        ensures
            res == Vec3(x, y, z),
    {
        Vec3(x, y, z)
    }

    /// The vector whose components are all one: white, as a colour.
    pub open spec fn unit_spec() -> Vec3 {
        Vec3(fixed(100_000), fixed(100_000), fixed(100_000))
    }

    /// The vector whose components are all one: white, as a colour.
    #[verifier::when_used_as_spec(unit_spec)]
    pub fn unit() -> (res: Vec3)
        ensures
            res == Vec3::unit_spec(),
    {
        Vec3(Fixed::one(), Fixed::one(), Fixed::one())
    }

    /// The red channel.
    pub fn r(&self) -> (res: Fixed)
        ensures
            res == self.0,
    {
        self.0
    }

    /// The green channel.
    pub fn g(&self) -> (res: Fixed)
        ensures
            res == self.1,
    {
        self.1
    }

    /// The blue channel.
    pub fn b(&self) -> (res: Fixed)
        ensures
            res == self.2,
    {
        self.2
    }

    /// The first coordinate.
    pub fn x(&self) -> (res: Fixed)
        ensures
            res == self.0,
    {
        self.0
    }

    /// The second coordinate.
    pub fn y(&self) -> (res: Fixed)
        ensures
            res == self.1,
    {
        self.1
    }

    /// The third coordinate.
    pub fn z(&self) -> (res: Fixed)
        ensures
            res == self.2,
    {
        self.2
    }

    /// The squared magnitude, rounded toward zero.
    pub fn squared_length(&self) -> (res: Fixed)
        ensures
            res == fixed(quot(dot_raw(*self, *self), SCALE as int)),
    {
        dot(*self, *self)
    }

    /// The magnitude, rounded down.
    pub fn length(&self) -> (res: Fixed)
        ensures
            res == fixed(length_raw(*self)),
    {
        let len: u64 = isqrt(dot_wide(*self, *self) as u128);
        saturate(len as i128)
    }

    /// The vector of length one in the same direction. The zero vector
    /// has no direction and is returned as it is.
    pub fn as_unit(&self) -> (res: Vec3)
        ensures
            res == unit_of(*self),
    {
        let len: i128 = isqrt(scale_up(scale_up(dot_wide(*self, *self))) as u128) as i128;
        if len == 0 {
            *self
        } else {
            Vec3(
                saturate(scale_up(scale_up(self.0.raw as i128)) / len),
                saturate(scale_up(scale_up(self.1.raw as i128)) / len),
                saturate(scale_up(scale_up(self.2.raw as i128)) / len),
            )
        }
    }
}

impl core::ops::Add for Vec3 {
    type Output = Vec3;

    /// The sums of the components, each moved into range.
    fn add(self, rhs: Vec3) -> (res: Vec3) {
        Vec3(self.0 + rhs.0, self.1 + rhs.1, self.2 + rhs.2)
    }
}

impl vstd::std_specs::ops::AddSpecImpl for Vec3 {
    open spec fn obeys_add_spec() -> bool {
        true
    }

    open spec fn add_req(self, rhs: Vec3) -> bool {
        true
    }

    open spec fn add_spec(self, rhs: Vec3) -> Vec3 {
        self + rhs
    }
}

impl core::ops::Sub for Vec3 {
    type Output = Vec3;

    /// The differences of the components, each moved into range.
    fn sub(self, rhs: Vec3) -> (res: Vec3) {
        Vec3(self.0 - rhs.0, self.1 - rhs.1, self.2 - rhs.2)
    }
}

impl vstd::std_specs::ops::SubSpecImpl for Vec3 {
    open spec fn obeys_sub_spec() -> bool {
        true
    }

    open spec fn sub_req(self, rhs: Vec3) -> bool {
        true
    }

    open spec fn sub_spec(self, rhs: Vec3) -> Vec3 {
        self - rhs
    }
}

/// The product of two vectors, component by component.
impl core::ops::Mul<Vec3> for Vec3 {
    type Output = Vec3;

    /// The products of the components, each rounded toward zero and moved
    /// into range.
    fn mul(self, rhs: Vec3) -> (res: Vec3) {
        Vec3(self.0 * rhs.0, self.1 * rhs.1, self.2 * rhs.2)
    }
}

impl vstd::std_specs::ops::MulSpecImpl<Vec3> for Vec3 {
    open spec fn obeys_mul_spec() -> bool {
        true
    }

    open spec fn mul_req(self, rhs: Vec3) -> bool {
        true
    }

    open spec fn mul_spec(self, rhs: Vec3) -> Vec3 {
        pairwise(self, rhs)
    }
}

/// A vector times a number.
impl core::ops::Mul<Fixed> for Vec3 {
    type Output = Vec3;

    /// Each component times `rhs`, rounded toward zero and moved into range.
    fn mul(self, rhs: Fixed) -> (res: Vec3) {
        Vec3(self.0 * rhs, self.1 * rhs, self.2 * rhs)
    }
}

impl vstd::std_specs::ops::MulSpecImpl<Fixed> for Vec3 {
    open spec fn obeys_mul_spec() -> bool {
        true
    }

    open spec fn mul_req(self, rhs: Fixed) -> bool {
        true
    }

    open spec fn mul_spec(self, rhs: Fixed) -> Vec3 {
        self * rhs
    }
}

/// A number times a vector.
impl core::ops::Mul<Vec3> for Fixed {
    type Output = Vec3;

    /// Each component of `rhs` times the number, rounded toward zero and
    /// moved into range.
    fn mul(self, rhs: Vec3) -> (res: Vec3) {
        rhs * self
    }
}

impl vstd::std_specs::ops::MulSpecImpl<Vec3> for Fixed {
    open spec fn obeys_mul_spec() -> bool {
        true
    }

    open spec fn mul_req(self, rhs: Vec3) -> bool {
        true
    }

    open spec fn mul_spec(self, rhs: Vec3) -> Vec3 {
        rhs * self
    }
}

/// A vector times a count.
impl core::ops::Mul<usize> for Vec3 {
    type Output = Vec3;

    /// Each component taken `rhs` times, moved into range.
    fn mul(self, rhs: usize) -> (res: Vec3) {
        Vec3(times(self.0, rhs), times(self.1, rhs), times(self.2, rhs))
    }
}

impl vstd::std_specs::ops::MulSpecImpl<usize> for Vec3 {
    open spec fn obeys_mul_spec() -> bool {
        true
    }

    open spec fn mul_req(self, rhs: usize) -> bool {
        true
    }

    open spec fn mul_spec(self, rhs: usize) -> Vec3 {
        repeated(self, rhs)
    }
}

/// A count times a vector.
impl core::ops::Mul<Vec3> for usize {
    type Output = Vec3;

    /// Each component of `rhs` taken that many times, moved into range.
    fn mul(self, rhs: Vec3) -> (res: Vec3) {
        rhs * self
    }
}

impl vstd::std_specs::ops::MulSpecImpl<Vec3> for usize {
    open spec fn obeys_mul_spec() -> bool {
        true
    }

    open spec fn mul_req(self, rhs: Vec3) -> bool {
        true
    }

    open spec fn mul_spec(self, rhs: Vec3) -> Vec3 {
        repeated(rhs, self)
    }
}

/// The number `a` taken `n` times.
fn times(a: Fixed, n: usize) -> (res: Fixed)
    ensures
        res == fixed(a@ * n),
{
    let k: i128 = n as i128;
    let v: i128 = a.raw as i128;
    assert(-0x8000_0000_0000_0000_0000_0000 <= v * k <= 0x8000_0000_0000_0000_0000_0000)
        by (nonlinear_arith)
        requires
            -0x8000_0000 <= v <= 0x8000_0000,
            0 <= k <= 0x1_0000_0000_0000_0000,
    ;
    saturate(v * k)
}

} // verus!
