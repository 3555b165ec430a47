//! Rendering: one colour for each place of an image.

use crate::camera::{ray_through, Camera};
use crate::fixed::{fixed, fixed_div, quot, saturate, scale_up, Fixed, SCALE};
use crate::p3::P3;
use crate::random::random_fraction;
use crate::ray::Ray;
use crate::sphere::{discriminant, hits_sphere, Sphere};
use crate::surface::HitSurface;
use crate::vec3::Vec3;
use crate::world::{background, background_of, lemma_empty_world, may_bring, World, MAX_DEPTH};
use vstd::prelude::*;

verus! {

/// The ray that gives the colour of column `x` in row `y` of an image of
/// the given size: the one through the bottom left corner of that place.
pub open spec fn ray_of_place(camera: Camera, x: int, y: int, width: usize, height: usize) -> Ray {
    ray_through(camera, fixed_div(x, width as int), fixed_div(y, height as int))
}

/// Whether `image` is a rendering of the scene: it has the given size, and
/// each of its colours is one that the ray of its place may bring back.
pub open spec fn rendered<T: HitSurface>(
    w: &World<T>,
    camera: Camera,
    width: usize,
    height: usize,
    image: P3,
) -> bool {
    &&& image.wf()
    &&& image.columns() == width
    &&& image.rows() == height
    &&& forall|x: int, y: int|
        0 <= x < width && 0 <= y < height ==> may_bring(
            w,
            ray_of_place(camera, x, y, width, height),
            MAX_DEPTH as nat,
            #[trigger] image.pixel(x, y),
        )
}

/// Renders the scene as the camera sees it, with one ray for each place
/// of an image of `width` by `height` colours.
pub fn render<T: HitSurface>(world: &World<T>, camera: &Camera, width: usize, height: usize) -> (res:
    P3)
    requires
        width * height <= usize::MAX,
    ensures
        rendered(world, *camera, width, height, res),
{
    let mut image = P3::new(width, height);
    let mut x: usize = 0;
    while x < width
        invariant
            x <= width,
            image.wf(),
            image.columns() == width,
            image.rows() == height,
            forall|a: int, b: int|
                0 <= a < x && 0 <= b < height ==> may_bring(
                    world,
                    ray_of_place(*camera, a, b, width, height),
                    MAX_DEPTH as nat,
                    #[trigger] image.pixel(a, b),
                ),
        decreases width - x,
    {
        let mut y: usize = 0;
        while y < height
            invariant
                x < width,
                y <= height,
                image.wf(),
                image.columns() == width,
                image.rows() == height,
                forall|a: int, b: int|
                    0 <= a < x && 0 <= b < height ==> may_bring(
                        world,
                        ray_of_place(*camera, a, b, width, height),
                        MAX_DEPTH as nat,
                        #[trigger] image.pixel(a, b),
                    ),
                forall|b: int|
                    0 <= b < y ==> may_bring(
                        world,
                        ray_of_place(*camera, x as int, b, width, height),
                        MAX_DEPTH as nat,
                        #[trigger] image.pixel(x as int, b),
                    ),
            decreases height - y,
        {
            let u = Fixed::ratio(x, width);
            let v = Fixed::ratio(y, height);
            let color = world.texel_color(camera.cast_ray(u, v));
            let ghost before = image;
            image.set_color_at(x, y, color);
            proof {
                assert forall|a: int, b: int| 0 <= a < width && 0 <= b < height implies (
                #[trigger] image.pixel(a, b)) == if a == x && b == y {
                    color
                } else {
                    before.pixel(a, b)
                } by {
                    before.lemma_set_then_get(image, x as int, y as int, color, a, b);
                }
            }
            y = y + 1;
        }
        x = x + 1;
    }
    image
}

/// A rendering of a scene without surfaces shows the background: each
/// colour is that of the sky in the direction of the ray of its place.
pub proof fn lemma_render_empty<T: HitSurface>(
    w: &World<T>,
    camera: Camera,
    width: usize,
    height: usize,
    image: P3,
)
    requires
        w@.len() == 0,
        rendered(w, camera, width, height, image),
    ensures
        forall|x: int, y: int|
            0 <= x < width && 0 <= y < height ==> (#[trigger] image.pixel(x, y)) == background_of(
                ray_of_place(camera, x, y, width, height),
            ),
{
    assert forall|x: int, y: int| 0 <= x < width && 0 <= y < height implies (#[trigger] image.pixel(
        x,
        y,
    )) == background_of(ray_of_place(camera, x, y, width, height)) by {
        lemma_empty_world(w, ray_of_place(camera, x, y, width, height), Seq::empty());
    }
}

/// The sphere of radius one half that the flat colouring shows, one unit
/// in front of the eye.
pub open spec fn marker() -> Sphere {
    Sphere { center: Vec3(fixed(0), fixed(0), fixed(-100_000)), radius: fixed(50_000) }
}

/// The colour of `ray` without light or shadow: red where its line cuts
/// the marker sphere in two points, and the sky's colour elsewhere.
pub open spec fn flat_color(ray: Ray) -> Vec3 {
    if discriminant(marker(), ray) > 0 {
        Vec3(fixed(100_000), fixed(0), fixed(0))
    } else {
        background_of(ray)
    }
}

/// The colour of `ray` without light or shadow: red where its line cuts
/// the marker sphere, and the sky's colour elsewhere.
pub fn texel_color(ray: Ray) -> (res: Vec3)
    ensures
        res == flat_color(ray),
{
    let center = Vec3::new(Fixed::zero(), Fixed::zero(), Fixed::from_raw(-100_000));
    if hits_sphere(center, Fixed::half(), ray) {
        return Vec3::new(Fixed::one(), Fixed::zero(), Fixed::zero());
    }
    background(ray)
}

/// Where a sample lies along one side of an image: the fraction
/// `(x + offset) / count` of the way, for the place `x` of `count` and an
/// offset within the place.
pub open spec fn sample_place(x: int, offset: Fixed, count: usize) -> Fixed {
    fixed(quot(x * SCALE + offset@, count as int))
}

/// The sum of the colours, channel by channel, in raw units.
pub open spec fn total(colors: Seq<Vec3>) -> (int, int, int)
    decreases colors.len(),
{
    if colors.len() == 0 {
        (0, 0, 0)
    } else {
        let rest = total(colors.drop_last());
        let c = colors.last();
        (rest.0 + c.0@, rest.1 + c.1@, rest.2 + c.2@)
    }
}

/// The mean of the colours, each channel rounded toward zero; black where
/// there is no colour.
pub open spec fn average(colors: Seq<Vec3>) -> Vec3 {
    if colors.len() == 0 {
        Vec3(fixed(0), fixed(0), fixed(0))
    } else {
        let sum = total(colors);
        let n = colors.len() as int;
        Vec3(fixed(quot(sum.0, n)), fixed(quot(sum.1, n)), fixed(quot(sum.2, n)))
    }
}

/// Whether `color` is one sample of the place in column `x` of row `y`:
/// what a ray through some point of that place may bring back.
pub open spec fn is_sample<T: HitSurface>(
    w: &World<T>,
    camera: Camera,
    x: int,
    y: int,
    width: usize,
    height: usize,
    color: Vec3,
) -> bool {
    exists|jx: Fixed, jy: Fixed|
        0 <= jx@ < SCALE && 0 <= jy@ < SCALE && #[trigger] may_bring(
            w,
            ray_through(camera, sample_place(x, jx, width), sample_place(y, jy, height)),
            MAX_DEPTH as nat,
            color,
        )
}

/// Whether `color` is the mean of `samples` samples of the place in
/// column `x` of row `y`.
pub open spec fn is_mean_of_samples<T: HitSurface>(
    w: &World<T>,
    camera: Camera,
    x: int,
    y: int,
    width: usize,
    height: usize,
    samples: usize,
    color: Vec3,
) -> bool {
    exists|colors: Seq<Vec3>|
        {
            &&& colors.len() == samples
            &&& forall|i: int|
                0 <= i < colors.len() ==> is_sample(w, camera, x, y, width, height, #[trigger] colors[i])
            &&& color == #[trigger] average(colors)
        }
}

/// Whether `image` is a rendering of the scene with `samples` samples for
/// each place.
pub open spec fn supersampled<T: HitSurface>(
    w: &World<T>,
    camera: Camera,
    width: usize,
    height: usize,
    samples: usize,
    image: P3,
) -> bool {
    &&& image.wf()
    &&& image.columns() == width
    &&& image.rows() == height
    &&& forall|x: int, y: int|
        0 <= x < width && 0 <= y < height ==> is_mean_of_samples(
            w,
            camera,
            x,
            y,
            width,
            height,
            samples,
            #[trigger] image.pixel(x, y),
        )
}

/// Where a sample lies along one side of an image.
pub fn sample_place_of(x: usize, offset: Fixed, count: usize) -> (res: Fixed)
    requires
        count > 0,
    ensures
        res == sample_place(x as int, offset, count),
{
    saturate((scale_up(x as i128) + offset.raw() as i128) / count as i128)
}

/// The mean of the colours, each channel rounded toward zero; black where
/// there is no colour.
pub fn average_color(colors: &Vec<Vec3>) -> (res: Vec3)
    ensures
        res == average(colors@),
{
    let n: usize = colors.len();
    if n == 0 {
        return Vec3::new(Fixed::zero(), Fixed::zero(), Fixed::zero());
    }
    let mut r: i128 = 0;
    let mut g: i128 = 0;
    let mut b: i128 = 0;
    let mut i: usize = 0;
    while i < n
        invariant
            n == colors.len(),
            i <= n,
            (r as int, g as int, b as int) == total(colors@.take(i as int)),
            -0x8000_0000 * i <= r <= 0x8000_0000 * i,
            -0x8000_0000 * i <= g <= 0x8000_0000 * i,
            -0x8000_0000 * i <= b <= 0x8000_0000 * i,
        decreases n - i,
    {
        let c = colors[i];
        proof {
            let next = colors@.take(i + 1);
            assert(next.drop_last() =~= colors@.take(i as int));
            assert(next.last() == c);
        }
        r = r + c.r().raw() as i128;
        g = g + c.g().raw() as i128;
        b = b + c.b().raw() as i128;
        i = i + 1;
    }
    assert(colors@.take(n as int) =~= colors@);
    Vec3::new(saturate(r / n as i128), saturate(g / n as i128), saturate(b / n as i128))
}

/// Renders the scene as the camera sees it, with `samples` rays through
/// random points of each place of an image of `width` by `height` colours;
/// the colour of a place is the mean of what its rays bring back.
pub fn render_samples<T: HitSurface>(
    world: &World<T>,
    camera: &Camera,
    width: usize,
    height: usize,
    samples: usize,
) -> (res: P3)
    requires
        width * height <= usize::MAX,
    ensures
        supersampled(world, *camera, width, height, samples, res),
{
    let mut image = P3::new(width, height);
    let mut x: usize = 0;
    while x < width
        invariant
            x <= width,
            image.wf(),
            image.columns() == width,
            image.rows() == height,
            forall|a: int, b: int|
                0 <= a < x && 0 <= b < height ==> is_mean_of_samples(
                    world,
                    *camera,
                    a,
                    b,
                    width,
                    height,
                    samples,
                    #[trigger] image.pixel(a, b),
                ),
        decreases width - x,
    {
        let mut y: usize = 0;
        while y < height
            invariant
                x < width,
                y <= height,
                image.wf(),
                image.columns() == width,
                image.rows() == height,
                forall|a: int, b: int|
                    0 <= a < x && 0 <= b < height ==> is_mean_of_samples(
                        world,
                        *camera,
                        a,
                        b,
                        width,
                        height,
                        samples,
                        #[trigger] image.pixel(a, b),
                    ),
                forall|b: int|
                    0 <= b < y ==> is_mean_of_samples(
                        world,
                        *camera,
                        x as int,
                        b,
                        width,
                        height,
                        samples,
                        #[trigger] image.pixel(x as int, b),
                    ),
            decreases height - y,
        {
            let mut colors: Vec<Vec3> = Vec::new();
            let mut k: usize = 0;
            while k < samples
                invariant
                    x < width,
                    y < height,
                    k <= samples,
                    colors.len() == k,
                    forall|i: int|
                        0 <= i < k ==> is_sample(
                            world,
                            *camera,
                            x as int,
                            y as int,
                            width,
                            height,
                            #[trigger] colors@[i],
                        ),
                decreases samples - k,
            {
                let jx = random_fraction();
                let jy = random_fraction();
                let u = sample_place_of(x, jx, width);
                let v = sample_place_of(y, jy, height);
                let color = world.texel_color(camera.cast_ray(u, v));
                assert(is_sample(world, *camera, x as int, y as int, width, height, color));
                colors.push(color);
                k = k + 1;
            }
            let color = average_color(&colors);
            assert(is_mean_of_samples(
                world,
                *camera,
                x as int,
                y as int,
                width,
                height,
                samples,
                color,
            ));
            let ghost before = image;
            image.set_color_at(x, y, color);
            proof {
                assert forall|a: int, b: int| 0 <= a < width && 0 <= b < height implies (
                #[trigger] image.pixel(a, b)) == if a == x && b == y {
                    color
                } else {
                    before.pixel(a, b)
                } by {
                    before.lemma_set_then_get(image, x as int, y as int, color, a, b);
                }
            }
            y = y + 1;
        }
        x = x + 1;
    }
    image
}

/// Whether `image` is the flat picture of the marker sphere: it has the
/// given size, and each of its colours is the flat colour of the ray of
/// its place.
pub open spec fn flat_picture(camera: Camera, width: usize, height: usize, image: P3) -> bool {
    &&& image.wf()
    &&& image.columns() == width
    &&& image.rows() == height
    &&& forall|x: int, y: int|
        0 <= x < width && 0 <= y < height ==> (#[trigger] image.pixel(x, y)) == flat_color(
            ray_of_place(camera, x, y, width, height),
        )
}

/// The flat picture of the marker sphere as the camera sees it, with one
/// ray for each place of an image of `width` by `height` colours.
pub fn render_flat(camera: &Camera, width: usize, height: usize) -> (res: P3)
    requires
        width * height <= usize::MAX,
    ensures
        flat_picture(*camera, width, height, res),
{
    let mut image = P3::new(width, height);
    let mut x: usize = 0;
    while x < width
        invariant
            x <= width,
            image.wf(),
            image.columns() == width,
            image.rows() == height,
            forall|a: int, b: int|
                0 <= a < x && 0 <= b < height ==> (#[trigger] image.pixel(a, b)) == flat_color(
                    ray_of_place(*camera, a, b, width, height),
                ),
        decreases width - x,
    {
        let mut y: usize = 0;
        while y < height
            invariant
                x < width,
                y <= height,
                image.wf(),
                image.columns() == width,
                image.rows() == height,
                forall|a: int, b: int|
                    0 <= a < x && 0 <= b < height ==> (#[trigger] image.pixel(a, b)) == flat_color(
                        ray_of_place(*camera, a, b, width, height),
                    ),
                forall|b: int|
                    0 <= b < y ==> (#[trigger] image.pixel(x as int, b)) == flat_color(
                        ray_of_place(*camera, x as int, b, width, height),
                    ),
            decreases height - y,
        {
            let u = Fixed::ratio(x, width);
            let v = Fixed::ratio(y, height);
            let color = texel_color(camera.cast_ray(u, v));
            let ghost before = image;
            image.set_color_at(x, y, color);
            proof {
                assert forall|a: int, b: int| 0 <= a < width && 0 <= b < height implies (
                #[trigger] image.pixel(a, b)) == if a == x && b == y {
                    color
                } else {
                    before.pixel(a, b)
                } by {
                    before.lemma_set_then_get(image, x as int, y as int, color, a, b);
                }
            }
            y = y + 1;
        }
        x = x + 1;
    }
    image
}

} // verus!
