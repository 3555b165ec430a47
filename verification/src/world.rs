//! The scene: a list of surfaces, the nearest hit among them, and the
//! colour that a ray brings back from it.

use crate::fixed::{fixed, quot, Fixed, SCALE};
use crate::ray::{point_on, Ray};
use crate::root::{is_root, lemma_root_unique, root};
use crate::sphere::{inside_unit_sphere, lemma_origin_inside, Sphere};
use crate::surface::{is_nearest, lemma_nearest, nearest, Hit, HitSurface};
use crate::vec3::{fine_length, unit_of, Vec3};
use vstd::prelude::*;

verus! {

/// A scene: the surfaces that a ray may hit, in the order in which they
/// are asked.
pub struct World<T> where T: HitSurface {
    entities: Vec<T>,
}

/// Whether surface `k` is the first in `s` that `ray` meets at `t`.
pub open spec fn first_met<T: HitSurface>(s: Seq<T>, ray: Ray, t: int, k: int) -> bool {
    &&& 0 <= k < s.len()
    &&& s[k].meets(ray, t)
    &&& forall|j: int| 0 <= j < k ==> !(#[trigger] s[j].meets(ray, t))
}

impl<T> World<T> where T: HitSurface {
    /// The surfaces of the scene, in order.
    pub closed spec fn view(&self) -> Seq<T> {
        self.entities@
    }

    /// The scene that holds `entities`.
    pub fn new(entities: Vec<T>) -> (res: Self)
        ensures
            res@ == entities@,
    {
        Self { entities }
    }
}

impl<T> HitSurface for World<T> where T: HitSurface {
    /// A ray meets the scene where it meets one of its surfaces.
    open spec fn meets(&self, ray: Ray, t: int) -> bool {
        exists|i: int| 0 <= i < self@.len() && #[trigger] self@[i].meets(ray, t)
    }

    /// The normal of the first surface that the ray meets at `t`.
    open spec fn normal_at(&self, ray: Ray, t: int) -> Vec3 {
        let k = choose|k: int| first_met(self@, ray, t, k);
        self@[k].normal_at(ray, t)
    }

    /// Asks every surface in turn for a hit closer than the closest one
    /// so far, and returns the closest of all.
    fn hit(&self, ray: Ray, t_min: Fixed, t_max: Fixed) -> (res: Option<Hit>) {
        let mut closest_hit: Option<Hit> = None;
        let mut closest_t_so_far = t_max;
        let ghost mut winner: int = 0;
        let mut i: usize = 0;
        while i < self.entities.len()
            invariant
                i <= self.entities.len(),
                self@ == self.entities@,
                closest_t_so_far@ <= t_max@,
                forall|j: int, u: int|
                    0 <= j < i && t_min@ < u < closest_t_so_far@ ==> !(#[trigger] self@[j].meets(
                        ray,
                        u,
                    )),
                match closest_hit {
                    Some(h) => {
                        &&& h.t == closest_t_so_far
                        &&& t_min@ < h.t@ < t_max@
                        &&& winner < i
                        &&& first_met(self@, ray, h.t@, winner)
                        &&& h.point == point_on(ray, h.t)
                        &&& h.normal == self@[winner].normal_at(ray, h.t@)
                    },
                    None => closest_t_so_far == t_max,
                },
            decreases self.entities.len() - i,
        {
            match self.entities[i].hit(ray, t_min, closest_t_so_far) {
                Some(hit) => {
                    proof {
                        winner = i as int;
                    }
                    closest_t_so_far = hit.t;
                    closest_hit = Some(hit);
                },
                None => {},
            }
            i = i + 1;
        }
        proof {
            match closest_hit {
                Some(h) => {
                    let k = choose|k: int| first_met(self@, ray, h.t@, k);
                    assert(first_met(self@, ray, h.t@, k));
                    assert(k == winner);
                },
                None => {},
            }
        }
        closest_hit
    }
}

/// The colour white.
pub open spec fn white() -> Vec3 {
    Vec3(fixed(100_000), fixed(100_000), fixed(100_000))
}

/// The blue of the sky straight above.
pub open spec fn sky_blue() -> Vec3 {
    Vec3(fixed(50_000), fixed(70_000), fixed(100_000))
}

/// The colour black.
pub open spec fn black() -> Vec3 {
    Vec3(fixed(0), fixed(0), fixed(0))
}

/// How far toward the sky's blue the background lies in the direction
/// of `ray`: half of the height of the unit direction, plus one.
pub open spec fn gradient_weight(ray: Ray) -> Fixed {
    (unit_of(ray.1).1 + fixed(100_000)) * fixed(50_000)
}

/// The mix of white and the sky's blue with weight `t` on the blue.
pub open spec fn blend(t: Fixed) -> Vec3 {
    white() * (fixed(100_000) - t) + sky_blue() * t
}

/// The colour of the sky in the direction of `ray`.
pub open spec fn background_of(ray: Ray) -> Vec3 {
    blend(gradient_weight(ray))
}

/// The smallest ray parameter at which a hit counts: one thousandth, which
/// keeps a scattered ray from hitting the surface that it leaves.
pub open spec fn nearest_admitted() -> Fixed {
    fixed(100)
}

/// The ray parameter before which a hit must lie.
pub open spec fn farthest_admitted() -> Fixed {
    fixed(i32::MAX as int)
}

/// The ray that leaves the hit `h` toward the point that lies `p` beyond
/// the tip of the normal.
pub open spec fn bounce(h: Hit, p: Vec3) -> Ray {
    Ray(h.point, (h.point + h.normal + p) - h.point)
}

/// The colour that `ray` brings back where the scattered rays are bent by
/// the points of `scatter`, in order: the background where the ray hits
/// nothing, else half of what the scattered ray brings back, and black
/// where `scatter` has been used up.
pub open spec fn shade<T: HitSurface>(w: &World<T>, ray: Ray, scatter: Seq<Vec3>) -> Vec3
    decreases scatter.len(),
{
    match nearest(w, ray, nearest_admitted(), farthest_admitted()) {
        None => background_of(ray),
        Some(h) => if scatter.len() == 0 {
            black()
        } else {
            shade(w, bounce(h, scatter[0]), scatter.skip(1)) * fixed(50_000)
        },
    }
}

/// Whether every point of `scatter` lies strictly inside the unit sphere.
pub open spec fn all_inside(scatter: Seq<Vec3>) -> bool {
    forall|i: int| 0 <= i < scatter.len() ==> inside_unit_sphere(#[trigger] scatter[i])
}

/// Whether `color` is what `ray` may bring back from the scene: what it
/// brings back for some choice of points inside the unit sphere, one for
/// each of `depth` scatterings.
pub open spec fn may_bring<T: HitSurface>(w: &World<T>, ray: Ray, depth: nat, color: Vec3) -> bool {
    exists|scatter: Seq<Vec3>|
        scatter.len() == depth && all_inside(scatter) && color == #[trigger] shade(w, ray, scatter)
}

/// How many times a ray is scattered before its colour is taken as black.
pub const MAX_DEPTH: usize = 50;

/// The colour of the sky in the direction of `ray`: white at the bottom,
/// the sky's blue at the top, and mixed in proportion in between.
pub fn background(ray: Ray) -> (res: Vec3)
    ensures
        res == background_of(ray),
{
    let unit = ray.direction().as_unit();
    let t = (unit.y() + Fixed::one()) * Fixed::half();
    let white = Vec3::new(Fixed::one(), Fixed::one(), Fixed::one());
    let blue = Vec3::new(Fixed::half(), Fixed::from_raw(70_000), Fixed::one());
    (Fixed::one() - t) * white + t * blue
}

impl<T> World<T> where T: HitSurface {
    /// The nearest hit of `ray` that counts for shading.
    fn first_hit(&self, ray: Ray) -> (res: Option<Hit>)
        ensures
            res == nearest(self, ray, nearest_admitted(), farthest_admitted()),
    {
        let res = self.hit(ray, Fixed::from_raw(100), Fixed::max_value());
        proof {
            lemma_nearest(self, ray, nearest_admitted(), farthest_admitted(), res);
        }
        res
    }

    /// The colour that `ray` brings back, with at most `depth` scatterings.
    fn trace(&self, ray: Ray, depth: usize) -> (res: Vec3)
        ensures
            may_bring(self, ray, depth as nat, res),
        decreases depth,
    {
        match self.first_hit(ray) {
            None => {
                proof {
                    lemma_origin_inside();
                    let scatter = Seq::new(depth as nat, |i: int| black());
                    assert(all_inside(scatter));
                    assert(background_of(ray) == shade(self, ray, scatter));
                }
                background(ray)
            },
            Some(hit) => {
                if depth == 0 {
                    proof {
                        let scatter = Seq::<Vec3>::empty();
                        assert(all_inside(scatter));
                        assert(black() == shade(self, ray, scatter));
                    }
                    Vec3::new(Fixed::zero(), Fixed::zero(), Fixed::zero())
                } else {
                    let point = Sphere::random_point_in_unit_sphere();
                    let target_pixel = hit.point + hit.normal + point;
                    let next = Ray::new(hit.point, target_pixel - hit.point);
                    let rest = self.trace(next, depth - 1);
                    proof {
                        let tail = choose|scatter: Seq<Vec3>|
                            scatter.len() == depth - 1 && all_inside(scatter) && rest
                                == #[trigger] shade(self, next, scatter);
                        let scatter = seq![point] + tail;
                        assert(scatter.skip(1) =~= tail);
                        assert(scatter[0] == point);
                        assert(all_inside(scatter)) by {
                            assert forall|i: int| 0 <= i < scatter.len() implies inside_unit_sphere(
                                #[trigger] scatter[i],
                            ) by {
                                if i > 0 {
                                    assert(scatter[i] == tail[i - 1]);
                                }
                            }
                        }
                        assert(rest * fixed(50_000) == shade(self, ray, scatter));
                    }
                    Fixed::half() * rest
                }
            },
        }
    }

    /// The colour that `ray` brings back from the scene: the background
    /// where it hits nothing, else half of the colour of a ray scattered
    /// at random from the hit. After `MAX_DEPTH` scatterings the colour
    /// is black.
    pub fn texel_color(&self, ray: Ray) -> (res: Vec3)
        ensures
            may_bring(self, ray, MAX_DEPTH as nat, res),
    {
        self.trace(ray, MAX_DEPTH)
    }

    /// The colour that `ray` brings back where the scattered rays are bent
    /// by the points of `scatter` from index `from` on.
    fn trace_along(&self, ray: Ray, scatter: &Vec<Vec3>, from: usize) -> (res: Vec3)
        requires
            from <= scatter.len(),
        ensures
            res == shade(self, ray, scatter@.skip(from as int)),
        decreases scatter.len() - from,
    {
        match self.first_hit(ray) {
            None => background(ray),
            Some(hit) => {
                if from == scatter.len() {
                    Vec3::new(Fixed::zero(), Fixed::zero(), Fixed::zero())
                } else {
                    let target_pixel = hit.point + hit.normal + scatter[from];
                    let next = Ray::new(hit.point, target_pixel - hit.point);
                    let rest = self.trace_along(next, scatter, from + 1);
                    proof {
                        let here = scatter@.skip(from as int);
                        assert(here[0] == scatter@[from as int]);
                        assert(here.skip(1) =~= scatter@.skip(from + 1));
                    }
                    Fixed::half() * rest
                }
            },
        }
    }

    /// The colour that `ray` brings back where the points of `scatter`
    /// take the place of the random ones, one for each scattering in
    /// order; black where they are used up.
    pub fn texel_color_along(&self, ray: Ray, scatter: &Vec<Vec3>) -> (res: Vec3)
        ensures
            res == shade(self, ray, scatter@),
    {
        assert(scatter@.skip(0) =~= scatter@);
        self.trace_along(ray, scatter, 0)
    }
}

/// Among the surfaces from `lo` on there is a first that `ray` meets at
/// `t`, where surface `i` is met and none before `lo` is.
proof fn lemma_search_first<T: HitSurface>(s: Seq<T>, ray: Ray, t: int, lo: int, i: int)
    requires
        0 <= lo <= i < s.len(),
        s[i].meets(ray, t),
        forall|j: int| 0 <= j < lo ==> !(#[trigger] s[j].meets(ray, t)),
    ensures
        exists|k: int| first_met(s, ray, t, k),
    decreases i - lo,
{
    if s[lo].meets(ray, t) {
        assert(first_met(s, ray, t, lo));
    } else {
        lemma_search_first(s, ray, t, lo + 1, i);
    }
}

/// The hit that a scene reports is the earliest of the hits that its
/// surfaces report when each is asked by itself with the same interval:
/// one of them reports that very hit, none reports an earlier one, and the
/// scene reports nothing exactly where every surface reports nothing.
pub proof fn lemma_world_hit_is_minimum<T: HitSurface>(
    w: &World<T>,
    ray: Ray,
    t_min: Fixed,
    t_max: Fixed,
)
    ensures
        match nearest(w, ray, t_min, t_max) {
            Some(h) => {
                &&& exists|k: int|
                    0 <= k < w@.len() && #[trigger] nearest(&w@[k], ray, t_min, t_max) == Some(h)
                &&& forall|j: int|
                    0 <= j < w@.len() ==> match #[trigger] nearest(&w@[j], ray, t_min, t_max) {
                        Some(g) => h.t@ <= g.t@,
                        None => true,
                    }
            },
            None => forall|j: int|
                0 <= j < w@.len() ==> (#[trigger] nearest(&w@[j], ray, t_min, t_max)) is None,
        },
{
    lemma_nearest(w, ray, t_min, t_max, None);
    assert forall|j: int| 0 <= j < w@.len() implies is_nearest(
        &w@[j],
        ray,
        t_min@,
        t_max@,
        #[trigger] nearest(&w@[j], ray, t_min, t_max),
    ) by {
        lemma_nearest(&w@[j], ray, t_min, t_max, None);
    }
    match nearest(w, ray, t_min, t_max) {
        Some(h) => {
            let i = choose|i: int| 0 <= i < w@.len() && #[trigger] w@[i].meets(ray, h.t@);
            lemma_search_first(w@, ray, h.t@, 0, i);
            let k = choose|k: int| first_met(w@, ray, h.t@, k);
            assert(first_met(w@, ray, h.t@, k));
            match nearest(&w@[k], ray, t_min, t_max) {
                Some(g) => {
                    assert(w@[k].meets(ray, g.t@));
                    assert(w.meets(ray, g.t@));
                    assert(g.t@ == h.t@);
                    assert(g.t == h.t);
                },
                None => {
                    assert(false);
                },
            }
            assert(nearest(&w@[k], ray, t_min, t_max) == Some(h));
            assert forall|j: int| 0 <= j < w@.len() implies match #[trigger] nearest(
                &w@[j],
                ray,
                t_min,
                t_max,
            ) {
                Some(g) => h.t@ <= g.t@,
                None => true,
            } by {
                match nearest(&w@[j], ray, t_min, t_max) {
                    Some(g) => {
                        assert(w@[j].meets(ray, g.t@));
                        assert(w.meets(ray, g.t@));
                    },
                    None => {},
                }
            }
        },
        None => {
            assert forall|j: int| 0 <= j < w@.len() implies (#[trigger] nearest(
                &w@[j],
                ray,
                t_min,
                t_max,
            )) is None by {
                match nearest(&w@[j], ray, t_min, t_max) {
                    Some(g) => {
                        assert(w@[j].meets(ray, g.t@));
                        assert(w.meets(ray, g.t@));
                    },
                    None => {},
                }
            }
        },
    }
}

/// A ray through a scene without surfaces brings back the background,
/// whatever the scattering.
pub proof fn lemma_empty_world<T: HitSurface>(w: &World<T>, ray: Ray, scatter: Seq<Vec3>)
    requires
        w@.len() == 0,
    ensures
        shade(w, ray, scatter) == background_of(ray),
        forall|depth: nat, color: Vec3| #[trigger]
            may_bring(w, ray, depth, color) ==> color == background_of(ray),
{
    assert forall|depth: nat, color: Vec3| #[trigger]
        may_bring(w, ray, depth, color) implies color == background_of(ray) by {
        let s = choose|s: Seq<Vec3>|
            s.len() == depth && all_inside(s) && color == #[trigger] shade(w, ray, s);
        assert(shade(w, ray, s) == background_of(ray));
    }
}

/// Straight up the background is the sky's blue.
pub proof fn lemma_background_up(ray: Ray)
    requires
        ray.1.0@ == 0,
        ray.1.1@ > 0,
        ray.1.2@ == 0,
    ensures
        background_of(ray) == sky_blue(),
{
    let k = ray.1.1@;
    let z = ray.1.0@;
    let s = SCALE as int;
    let len = k * s;
    assert(z * z + k * k + z * z == k * k && (k * k) * s * s == len * len && len * len < (len + 1)
        * (len + 1) && len > 0 && (k * s * s) / len == s && z * s * s == 0) by (nonlinear_arith)
        requires
            z == 0,
            k > 0,
            s == 100_000,
            len == k * s,
    ;
    assert(is_root((k * k) * s * s, len));
    lemma_root_unique((k * k) * s * s, len, root((k * k) * s * s));
    assert(fine_length(ray.1) == len);
    assert(unit_of(ray.1).1@ == 100_000);
    assert(SCALE == 100_000);
    assert(quot(200_000int * 50_000, 100_000) == 100_000);
    assert(gradient_weight(ray)@ == 100_000);
    assert(quot(100_000int * 0, 100_000) == 0);
    assert(quot(50_000int * 100_000, 100_000) == 50_000);
    assert(quot(70_000int * 100_000, 100_000) == 70_000);
    assert(quot(100_000int * 100_000, 100_000) == 100_000);
}

/// Straight down the background is white.
pub proof fn lemma_background_down(ray: Ray)
    requires
        ray.1.0@ == 0,
        ray.1.1@ < 0,
        ray.1.2@ == 0,
    ensures
        background_of(ray) == white(),
{
    let k = ray.1.1@;
    let z = ray.1.0@;
    let s = SCALE as int;
    let len = -k * s;
    assert(z * z + k * k + z * z == k * k && (k * k) * s * s == len * len && len * len < (len + 1)
        * (len + 1) && len > 0 && (-(k * s * s)) / len == s && k * s * s < 0 && z * s * s == 0)
        by (nonlinear_arith)
        requires
            z == 0,
            k < 0,
            s == 100_000,
            len == -k * s,
    ;
    assert(is_root((k * k) * s * s, len));
    lemma_root_unique((k * k) * s * s, len, root((k * k) * s * s));
    assert(fine_length(ray.1) == len);
    assert(unit_of(ray.1).1@ == -100_000);
    assert(SCALE == 100_000);
    assert(quot(0int * 50_000, 100_000) == 0);
    assert(gradient_weight(ray)@ == 0);
    assert(quot(100_000int * 100_000, 100_000) == 100_000);
    assert(quot(50_000int * 0, 100_000) == 0);
    assert(quot(70_000int * 0, 100_000) == 0);
    assert(quot(100_000int * 0, 100_000) == 0);
}

} // verus!
