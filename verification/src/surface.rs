//! What a ray can hit: the record of a hit, and the surfaces that give one.

use crate::fixed::{fixed, Fixed};
use crate::ray::{point_on, Ray};
use crate::vec3::Vec3;
use vstd::prelude::*;

verus! {

/// Where a ray met a surface.
#[derive(Clone, Copy, Debug, PartialEq, Eq, Structural)]
pub struct Hit {
    /// Ray parameter at which the hit occurs.
    pub t: Fixed,
    /// Point at which the hit occurs.
    pub point: Vec3,
    /// Normal of the surface at that point.
    pub normal: Vec3,
}

impl Hit {
    /// The record of a hit at parameter `t`.
    pub fn new(t: Fixed, hit_point: Vec3, normal: Vec3) -> (res: Hit)
        ensures
            res == (Hit { t, point: hit_point, normal }),
    {
        Hit { t, point: hit_point, normal }
    }
}

/// A surface that a ray can be tested against.
pub trait HitSurface {
    /// Whether `ray` meets the surface at the parameter of `t` raw units.
    spec fn meets(&self, ray: Ray, t: int) -> bool;

    /// The normal that the surface records for a meeting at `t` raw units.
    spec fn normal_at(&self, ray: Ray, t: int) -> Vec3;

    /// The closest meeting of `ray` with the surface whose parameter lies
    /// strictly between `t_min` and `t_max`, if there is one.
    fn hit(&self, ray: Ray, t_min: Fixed, t_max: Fixed) -> (res: Option<Hit>)
        ensures
            match res {
                Some(h) => {
                    &&& t_min@ < h.t@ < t_max@
                    &&& self.meets(ray, h.t@)
                    &&& forall|u: int| t_min@ < u < h.t@ ==> !self.meets(ray, u)
                    &&& h.point == point_on(ray, h.t)
                    &&& h.normal == self.normal_at(ray, h.t@)
                },
                None => forall|u: int| t_min@ < u < t_max@ ==> !self.meets(ray, u),
            },
    ;
}

/// Whether `res` is what `hit` owes for the open interval from `t_min` to
/// `t_max`: the record of the earliest meeting in it, or nothing where the
/// ray meets the surface nowhere in it.
pub open spec fn is_nearest<S: HitSurface>(
    s: &S,
    ray: Ray,
    t_min: int,
    t_max: int,
    res: Option<Hit>,
) -> bool {
    match res {
        Some(h) => {
            &&& t_min < h.t@ < t_max
            &&& s.meets(ray, h.t@)
            &&& forall|u: int| t_min < u < h.t@ ==> !s.meets(ray, u)
            &&& h.point == point_on(ray, h.t)
            &&& h.normal == s.normal_at(ray, h.t@)
        },
        None => forall|u: int| t_min < u < t_max ==> !s.meets(ray, u),
    }
}

/// Whether `t` is the earliest parameter strictly between `t_min` and
/// `t_max` at which `ray` meets the surface.
pub open spec fn is_earliest<S: HitSurface>(s: &S, ray: Ray, t_min: int, t_max: int, t: int) -> bool {
    &&& t_min < t < t_max
    &&& s.meets(ray, t)
    &&& forall|u: int| t_min < u < t ==> !s.meets(ray, u)
}

/// The result of `hit` as a function of its arguments.
pub open spec fn nearest<S: HitSurface>(s: &S, ray: Ray, t_min: Fixed, t_max: Fixed) -> Option<
    Hit,
> {
    if exists|t: int| t_min@ < t < t_max@ && s.meets(ray, t) {
        let t = choose|t: int| is_earliest(s, ray, t_min@, t_max@, t);
        Some(Hit { t: fixed(t), point: point_on(ray, fixed(t)), normal: s.normal_at(ray, t) })
    } else {
        None
    }
}

/// Among the parameters from `lo` on there is an earliest meeting, where
/// there is one at `t` and none before `lo`.
proof fn lemma_search_earliest<S: HitSurface>(
    s: &S,
    ray: Ray,
    t_min: int,
    t_max: int,
    lo: int,
    t: int,
)
    requires
        t_min < lo <= t < t_max,
        s.meets(ray, t),
        forall|u: int| t_min < u < lo ==> !s.meets(ray, u),
    ensures
        exists|e: int| is_earliest(s, ray, t_min, t_max, e),
    decreases t - lo,
{
    if s.meets(ray, lo) {
        assert(is_earliest(s, ray, t_min, t_max, lo));
    } else {
        lemma_search_earliest(s, ray, t_min, t_max, lo + 1, t);
    }
}

/// `nearest` is the one result that `hit` may return: whatever meets the
/// contract of `hit` equals it, and it meets that contract itself.
pub proof fn lemma_nearest<S: HitSurface>(
    s: &S,
    ray: Ray,
    t_min: Fixed,
    t_max: Fixed,
    res: Option<Hit>,
)
    ensures
        is_nearest(s, ray, t_min@, t_max@, nearest(s, ray, t_min, t_max)),
        is_nearest(s, ray, t_min@, t_max@, res) ==> res == nearest(s, ray, t_min, t_max),
{
    let found = nearest(s, ray, t_min, t_max);
    if exists|t: int| t_min@ < t < t_max@ && s.meets(ray, t) {
        let w = choose|t: int| t_min@ < t < t_max@ && s.meets(ray, t);
        lemma_search_earliest(s, ray, t_min@, t_max@, t_min@ + 1, w);
        let e = choose|t: int| is_earliest(s, ray, t_min@, t_max@, t);
        assert(is_earliest(s, ray, t_min@, t_max@, e));
        assert(fixed(e)@ == e);
        if is_nearest(s, ray, t_min@, t_max@, res) {
            match res {
                Some(h) => {
                    assert(h.t@ == e);
                },
                None => {
                    assert(false);
                },
            }
        }
    } else {
        if is_nearest(s, ray, t_min@, t_max@, res) {
            match res {
                Some(h) => {
                    assert(false);
                },
                None => {},
            }
        }
    }
}

} // verus!
