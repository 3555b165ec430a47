//! Spheres, and the quadratic that tells where a ray meets one.

use crate::fixed::{fixed, lemma_quot_monotone, lemma_scaled, quot, scale_up, Fixed, SCALE};
use crate::random::random_bits;
use crate::ray::{point_on, Ray};
use crate::root::{isqrt, lemma_root_exists, root};
use crate::surface::{lemma_nearest, nearest, Hit, HitSurface};
use crate::vec3::{dot_raw, dot_wide, product, unit_of, Vec3};
use vstd::prelude::*;

verus! {

/// The sphere of all points at distance `radius` from `center`.
pub struct Sphere {
    /// The middle of the sphere.
    pub center: Vec3,
    /// The radius; a sphere whose radius is not positive is never hit.
    pub radius: Fixed,
}

/// The vector from the sphere's centre to the ray's origin, each component
/// moved into range.
pub open spec fn offset(s: Sphere, ray: Ray) -> Vec3 {
    ray.0 - s.center
}

/// The leading coefficient `a = d . d` of the quadratic in `t`.
pub open spec fn quad_a(ray: Ray) -> int {
    dot_raw(ray.1, ray.1)
}

/// Half the linear coefficient: `h = (o - c) . d`.
pub open spec fn quad_h(s: Sphere, ray: Ray) -> int {
    dot_raw(offset(s, ray), ray.1)
}

/// The constant coefficient `(o - c) . (o - c) - r * r`.
pub open spec fn quad_c(s: Sphere, ray: Ray) -> int {
    dot_raw(offset(s, ray), offset(s, ray)) - s.radius@ * s.radius@
}

/// A quarter of the discriminant: `h * h - a * c`.
pub open spec fn discriminant(s: Sphere, ray: Ray) -> int {
    quad_h(s, ray) * quad_h(s, ray) - quad_a(ray) * quad_c(s, ray)
}

/// Whether the line of `ray` meets the sphere at all: the sphere has a
/// positive radius, the ray a direction, and the quadratic a real root.
pub open spec fn crosses(s: Sphere, ray: Ray) -> bool {
    s.radius@ > 0 && quad_a(ray) > 0 && discriminant(s, ray) >= 0
}

/// The smaller root `(-h - sqrt(h * h - a * c)) / a`, in raw units.
pub open spec fn near_root(s: Sphere, ray: Ray) -> int {
    quot((-quad_h(s, ray) - root(discriminant(s, ray))) * SCALE, quad_a(ray))
}

/// The larger root `(-h + sqrt(h * h - a * c)) / a`, in raw units.
pub open spec fn far_root(s: Sphere, ray: Ray) -> int {
    quot((-quad_h(s, ray) + root(discriminant(s, ray))) * SCALE, quad_a(ray))
}

/// The outward normal of the sphere at the point of `ray` at `t`.
pub open spec fn sphere_normal(s: Sphere, ray: Ray, t: int) -> Vec3 {
    unit_of(point_on(ray, fixed(t)) - s.center)
}

/// The coordinate in `[-1, 1)` that 32 uniform bits stand for: twice the
/// fraction `bits / 2^32`, less one.
pub open spec fn coordinate(bits: u32) -> Fixed {
    fixed(2 * ((bits * SCALE) / 0x1_0000_0000) - SCALE)
}

/// The point of the cube `[-1, 1)^3` that three draws stand for.
pub open spec fn cube_point(a: u32, b: u32, c: u32) -> Vec3 {
    Vec3(coordinate(a), coordinate(b), coordinate(c))
}

/// Whether `p` lies strictly inside the sphere of radius one around the
/// origin.
pub open spec fn inside_unit_sphere(p: Vec3) -> bool {
    dot_raw(p, p) < SCALE * SCALE
}

/// The origin lies strictly inside the unit sphere.
pub proof fn lemma_origin_inside()
    ensures
        inside_unit_sphere(Vec3(fixed(0), fixed(0), fixed(0))),
{
    let z = fixed(0)@;
    assert(z * z + z * z + z * z == 0) by (nonlinear_arith)
        requires
            z == 0,
    ;
    lemma_scaled(SCALE as int);
}

/// How often `random_point_in_unit_sphere` draws before it gives up.
pub const MAX_DRAWS: usize = 64;

/// A quarter of the discriminant of `a t^2 + 2 h t + c`, where it is not
/// negative.
fn quarter_discriminant(a: i128, h: i128, c: i128) -> (res: Option<u128>)
    requires
        0 <= a <= 0xC000_0000_0000_0000,
        -0xC000_0000_0000_0000 <= h <= 0xC000_0000_0000_0000,
        -0x4000_0000_0000_0000 <= c <= 0xC000_0000_0000_0000,
    ensures
        match res {
            Some(d) => d == h * h - a * c,
            None => h * h - a * c < 0,
        },
{
    let m: u128 = if h < 0 {
        (-h) as u128
    } else {
        h as u128
    };
    assert(m * m == h * h && m * m <= 0x9000_0000_0000_0000_0000_0000_0000_0000)
        by (nonlinear_arith)
        requires
            0 <= m <= 0xC000_0000_0000_0000,
            m == h || m == -h,
    ;
    let square: u128 = m * m;
    if c <= 0 {
        let k: u128 = (-c) as u128;
        let w: u128 = a as u128;
        assert(w * k == -(a * c) && 0 <= w * k <= 0x3000_0000_0000_0000_0000_0000_0000_0000)
            by (nonlinear_arith)
            requires
                0 <= w <= 0xC000_0000_0000_0000,
                0 <= k <= 0x4000_0000_0000_0000,
                w == a,
                k == -c,
        ;
        Some(square + w * k)
    } else {
        let k: u128 = c as u128;
        let w: u128 = a as u128;
        assert(w * k == a * c && 0 <= w * k <= 0x9000_0000_0000_0000_0000_0000_0000_0000)
            by (nonlinear_arith)
            requires
                0 <= w <= 0xC000_0000_0000_0000,
                0 <= k <= 0xC000_0000_0000_0000,
                w == a,
                k == c,
        ;
        let p: u128 = w * k;
        if square < p {
            None
        } else {
            Some(square - p)
        }
    }
}

impl Sphere {
    /// The sphere around `center` with the given radius.
    pub fn new(center: Vec3, radius: Fixed) -> (res: Sphere)
        ensures
            res.center == center,
            res.radius == radius,
    {
        Sphere { center, radius }
    }

    /// The coordinate in `[-1, 1)` that `bits` stand for.
    fn coordinate_of(bits: u32) -> (res: Fixed)
        ensures
            res == coordinate(bits),
            -SCALE <= res@ < SCALE,
    {
        let f: Fixed = Fixed::from_fraction(bits);
        Fixed::from_raw(2 * f.raw() - SCALE)
    }

    /// The point of the cube `[-1, 1)^3` that three draws stand for, if it
    /// lies strictly inside the unit sphere.
    pub fn candidate(a: u32, b: u32, c: u32) -> (res: Option<Vec3>)
        ensures
            res == if inside_unit_sphere(cube_point(a, b, c)) {
                Some(cube_point(a, b, c))
            } else {
                None::<Vec3>
            },
    {
        let point = Vec3::new(
            Sphere::coordinate_of(a),
            Sphere::coordinate_of(b),
            Sphere::coordinate_of(c),
        );
        proof {
            lemma_scaled(SCALE as int);
        }
        if dot_wide(point, point) < 10_000_000_000i128 {
            Some(point)
        } else {
            None
        }
    }

    /// A random point strictly inside the unit sphere around the origin,
    /// by rejection: points of the cube `[-1, 1)^3` are drawn until one
    /// lies inside. After `MAX_DRAWS` rejections in a row the centre of
    /// the sphere is returned.
    pub fn random_point_in_unit_sphere() -> (res: Vec3)
        ensures
            inside_unit_sphere(res),
            res == Vec3(fixed(0), fixed(0), fixed(0)) || exists|a: u32, b: u32, c: u32|
                res == #[trigger] cube_point(a, b, c),
    {
        let mut draws: usize = 0;
        while draws < MAX_DRAWS
            invariant
                draws <= MAX_DRAWS,
            decreases MAX_DRAWS - draws,
        {
            let a: u32 = random_bits();
            let b: u32 = random_bits();
            let c: u32 = random_bits();
            match Sphere::candidate(a, b, c) {
                Some(point) => {
                    assert(point == cube_point(a, b, c));
                    return point;
                },
                None => {},
            }
            draws = draws + 1;
        }
        proof {
            lemma_origin_inside();
        }
        Vec3::new(Fixed::zero(), Fixed::zero(), Fixed::zero())
    }

    /// The record of a meeting with `ray` at parameter `t`.
    fn record(&self, ray: Ray, t: Fixed) -> (res: Hit)
        ensures
            res.t == t,
            res.point == point_on(ray, t),
            res.normal == sphere_normal(*self, ray, t@),
    {
        let hit_point = ray.point_at(t);
        let hit_normal = (hit_point - self.center).as_unit();
        Hit::new(t, hit_point, hit_normal)
    }
}

impl HitSurface for Sphere {
    open spec fn meets(&self, ray: Ray, t: int) -> bool {
        crosses(*self, ray) && (t == near_root(*self, ray) || t == far_root(*self, ray))
    }

    open spec fn normal_at(&self, ray: Ray, t: int) -> Vec3 {
        sphere_normal(*self, ray, t)
    }

    /// Solves the quadratic for the ray's parameter and returns the first
    /// root, the near one before the far one, that lies strictly between
    /// `t_min` and `t_max`.
    fn hit(&self, ray: Ray, t_min: Fixed, t_max: Fixed) -> (res: Option<Hit>) {
        if self.radius.raw <= 0 {
            return None;
        }
        let oc = ray.origin() - self.center;
        let a: i128 = dot_wide(ray.direction(), ray.direction());
        if a == 0 {
            return None;
        }
        let h: i128 = dot_wide(oc, ray.direction());
        let c: i128 = dot_wide(oc, oc) - product(self.radius.raw, self.radius.raw);
        match quarter_discriminant(a, h, c) {
            None => None,
            Some(d) => {
                let s: i128 = isqrt(d) as i128;
                let near: i128 = scale_up(-h - s) / a;
                let far: i128 = scale_up(-h + s) / a;
                proof {
                    lemma_quot_monotone((-h - s) * SCALE, (-h + s) * SCALE, a as int);
                }
                if (t_min.raw as i128) < near && near < t_max.raw as i128 {
                    Some(self.record(ray, Fixed { raw: near as i32 }))
                } else if (t_min.raw as i128) < far && far < t_max.raw as i128 {
                    Some(self.record(ray, Fixed { raw: far as i32 }))
                } else {
                    None
                }
            },
        }
    }
}

/// Whether the line of `ray` cuts the sphere around `center` in two
/// points: the discriminant of the quadratic is positive.
pub fn hits_sphere(center: Vec3, radius: Fixed, ray: Ray) -> (res: bool)
    ensures
        res == (discriminant(Sphere { center, radius }, ray) > 0),
{
    let oc = ray.origin() - center;
    let a: i128 = dot_wide(ray.direction(), ray.direction());
    let h: i128 = dot_wide(oc, ray.direction());
    let c: i128 = dot_wide(oc, oc) - product(radius.raw, radius.raw);
    match quarter_discriminant(a, h, c) {
        None => false,
        Some(d) => d > 0,
    }
}

/// The squared length of the cross product of two vectors, exactly.
pub open spec fn cross_square(a: Vec3, b: Vec3) -> int {
    (a.1@ * b.2@ - a.2@ * b.1@) * (a.1@ * b.2@ - a.2@ * b.1@) + (a.2@ * b.0@ - a.0@ * b.2@) * (
    a.2@ * b.0@ - a.0@ * b.2@) + (a.0@ * b.1@ - a.1@ * b.0@) * (a.0@ * b.1@ - a.1@ * b.0@)
}

/// `(a a)(b b) = (a b)(a b)`.
proof fn lemma_square_of_product(a: int, b: int)
    ensures
        (a * a) * (b * b) == (a * b) * (a * b),
{
    assert((a * a) * (b * b) == (a * b) * (a * b)) by (nonlinear_arith);
}

/// `(a b)(c d) = (a d)(c b)`.
proof fn lemma_exchange(a: int, b: int, c: int, d: int)
    ensures
        (a * b) * (c * d) == (a * d) * (c * b),
{
    assert((a * b) * (c * d) == (a * d) * (c * b)) by (nonlinear_arith);
}

/// A number times a sum of three terms, multiplied out on either side.
proof fn lemma_distribute(x: int, y0: int, y1: int, y2: int)
    ensures
        x * (y0 + y1 + y2) == x * y0 + x * y1 + x * y2,
        (y0 + y1 + y2) * x == y0 * x + y1 * x + y2 * x,
{
    assert(x * (y0 + y1 + y2) == x * y0 + x * y1 + x * y2) by (nonlinear_arith);
    assert((y0 + y1 + y2) * x == y0 * x + y1 * x + y2 * x) by (nonlinear_arith);
}

/// The product of two sums of three terms, multiplied out.
proof fn lemma_product_of_sums(x0: int, x1: int, x2: int, y0: int, y1: int, y2: int)
    ensures
        (x0 + x1 + x2) * (y0 + y1 + y2) == x0 * y0 + x0 * y1 + x0 * y2 + x1 * y0 + x1 * y1 + x1
            * y2 + x2 * y0 + x2 * y1 + x2 * y2,
{
    lemma_distribute(y0 + y1 + y2, x0, x1, x2);
    lemma_distribute(x0, y0, y1, y2);
    lemma_distribute(x1, y0, y1, y2);
    lemma_distribute(x2, y0, y1, y2);
}

/// The square of a difference, multiplied out.
proof fn lemma_square_of_difference(p: int, q: int)
    ensures
        (p - q) * (p - q) == p * p - 2 * (p * q) + q * q,
{
    assert((p - q) * (p - q) == p * p - 2 * (p * q) + q * q) by (nonlinear_arith);
}

/// Lagrange's identity: `|a|^2 |b|^2 - (a . b)^2 = |a x b|^2`.
pub proof fn lemma_lagrange(a: Vec3, b: Vec3)
    ensures
        dot_raw(a, a) * dot_raw(b, b) - dot_raw(a, b) * dot_raw(a, b) == cross_square(a, b),
{
    let (a0, a1, a2) = (a.0@, a.1@, a.2@);
    let (b0, b1, b2) = (b.0@, b.1@, b.2@);
    lemma_product_of_sums(a0 * a0, a1 * a1, a2 * a2, b0 * b0, b1 * b1, b2 * b2);
    lemma_product_of_sums(a0 * b0, a1 * b1, a2 * b2, a0 * b0, a1 * b1, a2 * b2);
    lemma_square_of_product(a0, b0);
    lemma_square_of_product(a0, b1);
    lemma_square_of_product(a0, b2);
    lemma_square_of_product(a1, b0);
    lemma_square_of_product(a1, b1);
    lemma_square_of_product(a1, b2);
    lemma_square_of_product(a2, b0);
    lemma_square_of_product(a2, b1);
    lemma_square_of_product(a2, b2);
    lemma_square_of_difference(a1 * b2, a2 * b1);
    lemma_square_of_difference(a2 * b0, a0 * b2);
    lemma_square_of_difference(a0 * b1, a1 * b0);
    lemma_exchange(a1, b2, a2, b1);
    lemma_exchange(a2, b0, a0, b2);
    lemma_exchange(a0, b1, a1, b0);
    let (x, y, z) = (a0 * b0, a1 * b1, a2 * b2);
    assert(x * y == y * x && x * z == z * x && y * z == z * y) by (nonlinear_arith);
}

/// A ray that starts outside a sphere and runs toward its centre meets the
/// sphere first at the smaller root, which is not negative; `hit` reports
/// that meeting for every interval that holds the root.
pub proof fn lemma_central_ray_hits(s: Sphere, ray: Ray, t_min: Fixed, t_max: Fixed)
    requires
        s.radius@ > 0,
        quad_a(ray) > 0,
        cross_square(offset(s, ray), ray.1) == 0,
        quad_h(s, ray) < 0,
        quad_c(s, ray) > 0,
        t_min@ < near_root(s, ray) < t_max@,
    ensures
        crosses(s, ray),
        near_root(s, ray) >= 0,
        nearest(&s, ray, t_min, t_max) is Some,
        nearest(&s, ray, t_min, t_max)->0.t@ == near_root(s, ray),
{
    lemma_lagrange(offset(s, ray), ray.1);
    let a = quad_a(ray);
    let h = quad_h(s, ray);
    let n = dot_raw(offset(s, ray), offset(s, ray));
    let r2 = s.radius@ * s.radius@;
    let d = discriminant(s, ray);
    assert(d == a * r2 && d >= 0 && d < h * h) by (nonlinear_arith)
        requires
            d == h * h - a * (n - r2),
            n * a - h * h == 0,
            a > 0,
            n - r2 > 0,
            r2 == s.radius@ * s.radius@,
    ;
    lemma_root_exists(d);
    let r = root(d);
    assert(r < -h) by (nonlinear_arith)
        requires
            0 <= r,
            r * r <= d,
            d < h * h,
            h < 0,
    ;
    assert((-h - r) * SCALE >= 0 && (-h - r) * SCALE <= (-h + r) * SCALE) by (nonlinear_arith)
        requires
            r < -h,
            0 <= r,
            SCALE == 100_000,
    ;
    vstd::arithmetic::div_mod::lemma_div_pos_is_pos((-h - r) * SCALE, a);
    lemma_quot_monotone((-h - r) * SCALE, (-h + r) * SCALE, a);
    let near = near_root(s, ray);
    assert(s.meets(ray, near));
    lemma_nearest(&s, ray, t_min, t_max, None);
}

/// A ray misses every sphere that its line passes at more than the radius.
/// The distance of the line from the centre is `|(o - c) x d| / |d|`; where
/// it exceeds the radius, the ray meets the sphere at no parameter, and
/// `hit` reports nothing whatever the interval.
pub proof fn lemma_distant_line_misses(s: Sphere, ray: Ray, t_min: Fixed, t_max: Fixed)
    requires
        cross_square(offset(s, ray), ray.1) > s.radius@ * s.radius@ * quad_a(ray),
    ensures
        forall|t: int| !s.meets(ray, t),
        nearest(&s, ray, t_min, t_max) is None,
{
    lemma_lagrange(offset(s, ray), ray.1);
    let a = quad_a(ray);
    let h = quad_h(s, ray);
    let n = dot_raw(offset(s, ray), offset(s, ray));
    let r2 = s.radius@ * s.radius@;
    assert(h * h - a * (n - r2) == r2 * a - (n * a - h * h)) by (nonlinear_arith);
    assert(discriminant(s, ray) < 0);
}

} // verus!
