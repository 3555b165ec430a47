//! The pinhole camera: from a place on the image to a ray into the scene.

use crate::fixed::{fixed, fixed_div, Fixed};
use crate::ray::Ray;
use crate::vec3::Vec3;
use vstd::prelude::*;

verus! {

/// A camera that looks along the negative z axis at an image plane one
/// unit away. The plane spans `x_space` and `y_space` from its bottom left
/// corner, which lies at `translation` from the eye.
pub struct Camera {
    /// Where the eye is, and every ray starts.
    pub origin: Vec3,
    /// The vector from the left edge of the image plane to the right.
    pub x_space: Vec3,
    /// The vector from the bottom edge of the image plane to the top.
    pub y_space: Vec3,
    /// The bottom left corner of the image plane.
    pub translation: Vec3,
}

/// The camera at `position` for a viewport of the given size. With the
/// aspect ratio `a = width / height` the image plane spans `(2a, 0, 0)` and
/// `(0, 2, 0)` from the corner `(-a, -1, -1)`.
pub open spec fn camera_at(position: Vec3, viewport_width: usize, viewport_height: usize) -> Camera {
    let a = fixed_div(viewport_width as int, viewport_height as int);
    Camera {
        origin: position,
        x_space: Vec3(fixed(200_000) * a, fixed(0), fixed(0)),
        y_space: Vec3(fixed(0), fixed(200_000), fixed(0)),
        translation: Vec3(fixed(-100_000) * a, fixed(-100_000), fixed(-100_000)),
    }
}

/// The ray from the eye of `c` through the place `(u, v)` of the image
/// plane, where `(0, 0)` is the bottom left corner and `(1, 1)` the top
/// right one.
pub open spec fn ray_through(c: Camera, u: Fixed, v: Fixed) -> Ray {
    Ray(c.origin, c.translation + c.x_space * u + c.y_space * v)
}

impl Camera {
    /// The camera at `position` for a viewport of the given size.
    pub fn new(position: Vec3, viewport_width: usize, viewport_height: usize) -> (res: Camera)
        ensures
            res == camera_at(position, viewport_width, viewport_height),
    {
        let aspect_ratio = Fixed::ratio(viewport_width, viewport_height);
        let x_space = Vec3::new(
            Fixed::from_raw(200_000) * aspect_ratio,
            Fixed::zero(),
            Fixed::zero(),
        );
        let y_space = Vec3::new(Fixed::zero(), Fixed::from_raw(200_000), Fixed::zero());
        let translation = Vec3::new(
            Fixed::from_raw(-100_000) * aspect_ratio,
            Fixed::from_raw(-100_000),
            Fixed::from_raw(-100_000),
        );
        Camera { origin: position, x_space, y_space, translation }
    }

    /// The ray from the eye through the place `(u, v)` of the image plane.
    pub fn cast_ray(&self, u: Fixed, v: Fixed) -> (res: Ray)
        ensures
            res == ray_through(*self, u, v),
    {
        Ray::new(self.origin, self.translation + u * self.x_space + v * self.y_space)
    }
}

} // verus!
