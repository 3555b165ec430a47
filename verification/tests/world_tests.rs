use raytracer::fixed::Fixed;
use raytracer::ray::Ray;
use raytracer::sphere::Sphere;
use raytracer::surface::HitSurface;
use raytracer::vec3::Vec3;
use raytracer::world::{background, World, MAX_DEPTH};

fn fx(raw: i32) -> Fixed {
    Fixed::from_raw(raw)
}

fn v(x: i32, y: i32, z: i32) -> Vec3 {
    Vec3::new(Fixed::from_int(x), Fixed::from_int(y), Fixed::from_int(z))
}

fn raw(x: i32, y: i32, z: i32) -> Vec3 {
    Vec3::new(fx(x), fx(y), fx(z))
}

fn ball(z: i32) -> Sphere {
    Sphere::new(v(0, 0, z), Fixed::from_int(1))
}

fn forward() -> Ray {
    Ray::new(v(0, 0, 0), v(0, 0, -1))
}

#[test]
fn an_empty_scene_is_never_hit() {
    let world: World<Sphere> = World::new(Vec::new());
    assert!(world.hit(forward(), fx(i32::MIN), Fixed::max_value()).is_none());
}

#[test]
fn the_nearest_surface_wins_in_any_order() {
    for balls in [vec![ball(-3), ball(-6)], vec![ball(-6), ball(-3)], vec![ball(-6), ball(-3), ball(-9)]] {
        let world = World::new(balls);
        let hit = world.hit(forward(), fx(100), Fixed::max_value()).unwrap();
        assert_eq!(hit.t, Fixed::from_int(2));
        assert_eq!(hit.point, v(0, 0, -2));
        assert_eq!(hit.normal, v(0, 0, 1));
    }
}

#[test]
fn the_scene_reports_the_earliest_of_its_surfaces_hits() {
    let centres = [v(0, 0, -9), raw(20_000, 0, -400_000), v(5, 5, -5), raw(0, -30_000, -250_000)];
    let rays = [forward(), Ray::new(v(0, 0, 0), v(1, 1, -1)), Ray::new(v(0, 0, 0), v(0, 1, 0))];
    let bounds = [(100, i32::MAX), (200_000, 800_000), (350_000, i32::MAX), (100, 150_000)];
    for ray in rays {
        for (lo, hi) in bounds {
            let mut best: Option<raytracer::surface::Hit> = None;
            let mut balls = Vec::new();
            for c in centres {
                let s = Sphere::new(c, Fixed::from_int(1));
                if let Some(h) = s.hit(ray, fx(lo), fx(hi)) {
                    if best.map_or(true, |b| h.t < b.t) {
                        best = Some(h);
                    }
                }
                balls.push(s);
            }
            let world = World::new(balls);
            assert_eq!(world.hit(ray, fx(lo), fx(hi)), best);
        }
    }
}

#[test]
fn of_two_surfaces_hit_at_once_the_first_is_reported() {
    let big = Sphere::new(v(0, 0, -4), Fixed::from_int(2));
    let small = Sphere::new(v(0, 0, -3), Fixed::from_int(1));
    let ray = Ray::new(v(0, 0, 0), raw(0, 1, -100_000));
    let first = World::new(vec![big, small]).hit(ray, fx(100), Fixed::max_value()).unwrap();
    let big = Sphere::new(v(0, 0, -4), Fixed::from_int(2));
    assert_eq!(Some(first), big.hit(ray, fx(100), Fixed::max_value()));
    let big = Sphere::new(v(0, 0, -4), Fixed::from_int(2));
    let small = Sphere::new(v(0, 0, -3), Fixed::from_int(1));
    let second = World::new(vec![small, big]).hit(ray, fx(100), Fixed::max_value()).unwrap();
    let small = Sphere::new(v(0, 0, -3), Fixed::from_int(1));
    assert_eq!(Some(second), small.hit(ray, fx(100), Fixed::max_value()));
    assert_eq!(first.t, second.t);
}

#[test]
fn the_scene_keeps_to_the_interval() {
    let world = World::new(vec![ball(-3), ball(-6)]);
    assert!(world.hit(forward(), fx(100), Fixed::from_int(2)).is_none());
    let behind = world.hit(forward(), Fixed::from_int(2), Fixed::max_value()).unwrap();
    assert_eq!(behind.t, Fixed::from_int(4));
    let next = world.hit(forward(), Fixed::from_int(4), Fixed::max_value()).unwrap();
    assert_eq!(next.t, Fixed::from_int(5));
    assert!(world.hit(forward(), Fixed::from_int(7), Fixed::max_value()).is_none());
}

#[test]
fn a_scene_can_hold_scenes() {
    let inner = World::new(vec![ball(-6), ball(-3)]);
    let outer = World::new(vec![World::new(vec![ball(-9)]), inner]);
    let hit = outer.hit(forward(), fx(100), Fixed::max_value()).unwrap();
    assert_eq!(hit.t, Fixed::from_int(2));
}

#[test]
fn the_background_is_blue_above_and_white_below() {
    assert_eq!(background(Ray::new(v(0, 0, 0), v(0, 1, 0))), raw(50_000, 70_000, 100_000));
    assert_eq!(background(Ray::new(v(3, 1, 4), v(0, 7, 0))), raw(50_000, 70_000, 100_000));
    assert_eq!(background(Ray::new(v(0, 0, 0), raw(0, 1, 0))), raw(50_000, 70_000, 100_000));
    assert_eq!(background(Ray::new(v(0, 0, 0), v(0, -1, 0))), raw(100_000, 100_000, 100_000));
    assert_eq!(background(Ray::new(v(0, 0, 0), raw(0, i32::MIN, 0))), raw(100_000, 100_000, 100_000));
}

#[test]
fn the_background_is_mixed_in_between() {
    assert_eq!(background(Ray::new(v(0, 0, 0), v(1, 0, 0))), raw(75_000, 85_000, 100_000));
    assert_eq!(background(Ray::new(v(0, 0, 0), v(0, 0, -1))), raw(75_000, 85_000, 100_000));
    assert_eq!(background(Ray::new(v(0, 0, 0), v(0, 1, 1))), raw(57_322, 74_393, 100_000));
    assert_eq!(background(Ray::new(v(0, 0, 0), v(-1, -1, -1))), raw(89_434, 93_660, 100_000));
    assert_eq!(background(Ray::new(v(0, 0, 0), v(0, 0, 0))), raw(75_000, 85_000, 100_000));
}

#[test]
fn an_empty_scene_shows_the_background() {
    let world: World<Sphere> = World::new(Vec::new());
    for d in [v(0, 1, 0), v(0, -1, 0), v(1, 0, 0), v(-1, -1, -1), v(0, 1, 1)] {
        let ray = Ray::new(v(0, 0, 0), d);
        assert_eq!(world.texel_color(ray), background(ray));
        assert_eq!(world.texel_color_along(ray, &Vec::new()), background(ray));
    }
}

#[test]
fn a_miss_shows_the_background() {
    let world = World::new(vec![ball(-3)]);
    let ray = Ray::new(v(0, 0, 0), v(0, 1, 0));
    assert_eq!(world.texel_color(ray), raw(50_000, 70_000, 100_000));
}

#[test]
fn one_scattering_halves_the_colour() {
    let world = World::new(vec![ball(-3)]);
    let along_normal = vec![v(0, 0, 0)];
    assert_eq!(world.texel_color_along(forward(), &along_normal), raw(37_500, 42_500, 50_000));
    let upward = vec![v(0, 1, 0)];
    assert_eq!(world.texel_color_along(forward(), &upward), raw(28_661, 37_196, 50_000));
}

#[test]
fn two_scatterings_quarter_the_colour() {
    let shell = World::new(vec![Sphere::new(v(0, 0, 0), Fixed::from_int(10))]);
    let scatter = vec![v(0, 0, 2), v(0, 0, 0)];
    assert_eq!(shell.texel_color_along(forward(), &scatter), raw(18_750, 21_250, 25_000));
}

#[test]
fn the_colour_is_black_where_the_scatterings_run_out() {
    let world = World::new(vec![ball(-3)]);
    assert_eq!(world.texel_color_along(forward(), &Vec::new()), v(0, 0, 0));
    let shell = World::new(vec![Sphere::new(v(0, 0, 0), Fixed::from_int(10))]);
    assert_eq!(shell.texel_color_along(forward(), &vec![v(0, 0, 2)]), v(0, 0, 0));
}

#[test]
fn a_scattered_ray_does_not_hit_the_place_it_leaves() {
    let world = World::new(vec![ball(-3)]);
    let hit = world.hit(forward(), fx(100), Fixed::max_value()).unwrap();
    let leaving = Ray::new(hit.point, hit.normal);
    assert!(world.hit(leaving, fx(100), Fixed::max_value()).is_none());
    assert!(world.hit(leaving, fx(-1), Fixed::max_value()).is_some());
}

#[test]
fn a_traced_colour_is_no_brighter_than_the_sky() {
    assert_eq!(MAX_DEPTH, 50);
    let world = World::new(vec![ball(-3), Sphere::new(raw(0, -10_100_000, -300_000), Fixed::from_int(100))]);
    for _ in 0..200 {
        let c = world.texel_color(forward());
        for channel in [c.r(), c.g(), c.b()] {
            assert!(Fixed::zero() <= channel && channel <= fx(50_000));
        }
    }
}

#[test]
fn a_ray_shut_in_comes_back_black() {
    let shell = World::new(vec![Sphere::new(v(0, 0, 0), fx(50_000))]);
    let inside = Ray::new(v(0, 0, 0), v(0, 0, -1));
    let c = shell.texel_color(inside);
    for channel in [c.r(), c.g(), c.b()] {
        assert!(Fixed::zero() <= channel && channel <= fx(50_000));
    }
}
