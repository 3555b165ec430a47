//! A small diffuse ray tracer over exact fixed-point arithmetic.
//!
//! Numbers are decimal fixed-point values with five fractional digits
//! (`fixed`), vectors and colours triples of them (`vec3`). A `ray` is cast
//! by the `camera` through each place of an image, meets the spheres of the
//! scene (`sphere`, `surface`, `world`), is scattered until it escapes to
//! the sky, and leaves its colour in the image (`render`), which is written
//! out as a plain pixmap (`p3`, `text`).
//!
//! Every function states what it computes over the integers that its
//! arguments stand for, and none of them can fail: results that do not fit
//! are moved to the nearest representable value.

pub mod camera;
pub mod fixed;
pub mod order;
pub mod p3;
pub mod random;
pub mod ray;
pub mod render;
pub mod root;
pub mod sphere;
pub mod surface;
pub mod text;
pub mod vec3;
pub mod world;
