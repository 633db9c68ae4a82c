//! The raster loop: one ray per pixel, cast from a pinhole camera at the
//! origin that looks down the negative z axis.
//!
//! The view plane lies at distance 1 in front of the camera and is 2 units
//! high; its width follows the aspect ratio of the image. The ray through
//! the centre of pixel `(x, y)` of a `width` by `height` image therefore has
//! the direction
//!
//! ```text
//! ( (2x + 1 - width) / height,  (2y + 1 - height) / height,  -1 )
//! ```
//!
//! Whether a ray hits does not depend on the length of its direction, so
//! the renderer casts the ray along `height` times that vector, which is
//! integral, and never divides by a length.
//! [`lemma_pixel_hit_is_hit_of_unit_ray`] proves that this decides the same
//! as casting the ray along the unit vector.

use vstd::prelude::*;
use vstd::arithmetic::div_mod::lemma_fundamental_div_mod_converse;
use crate::algebra::{
    lemma_real_factor_out, lemma_real_product_positive, lemma_real_quotient,
    lemma_real_root_of_positive, lemma_real_square_nonnegative,
};
use crate::reals::{lemma_hit_over_reals, real_discriminant, RealVec3};
use crate::sphere::{Color, Ray, Sphere};
use crate::vector::Vec3;

verus! {

/// The value of every channel of a pixel whose ray hits nothing.
pub const BACKGROUND: u8 = 255;

/// The one sphere of the scene: centre (0, 0, -5), radius 2.
pub open spec fn scene_sphere() -> Sphere {
    Sphere { center: Vec3 { x: 0, y: 0, z: -5i64 }, radius: 2, color: Color(0, 123, 255) }
}

/// Where the camera stands.
pub open spec fn camera_origin() -> Vec3 {
    Vec3 { x: 0, y: 0, z: 0 }
}

/// Horizontal offset on the view plane of the centre of column `x`: the
/// plane is `2 * width / height` wide and centred on the axis of the camera.
pub open spec fn view_plane_x(width: int, height: int, x: int) -> real {
    let viewport_width = 2real * (width as real / height as real);
    let u = (x as real + 1real / 2real) / width as real;
    u * viewport_width - viewport_width / 2real
}

/// Vertical offset on the view plane of the centre of row `y`: the plane is
/// 2 high and centred on the axis of the camera.
pub open spec fn view_plane_y(height: int, y: int) -> real {
    let viewport_height = 2real;
    let v = (y as real + 1real / 2real) / height as real;
    v * viewport_height - viewport_height / 2real
}

/// The vector from the camera to the centre of pixel `(x, y)` on the view
/// plane.
pub open spec fn view_plane_direction(width: int, height: int, x: int, y: int) -> RealVec3 {
    RealVec3 { x: view_plane_x(width, height, x), y: view_plane_y(height, y), z: -1real }
}

/// Direction of the ray through the centre of pixel `(x, y)`, scaled by
/// `height` to be integral.
pub open spec fn pixel_direction(width: int, height: int, x: int, y: int) -> Vec3 {
    Vec3 {
        x: (2 * x + 1 - width) as i64,
        y: (2 * y + 1 - height) as i64,
        z: (-height) as i64,
    }
}

/// The camera ray through the centre of pixel `(x, y)`.
pub open spec fn pixel_ray(width: int, height: int, x: int, y: int) -> Ray {
    Ray { origin: camera_origin(), direction: pixel_direction(width, height, x, y) }
}

/// The ray through pixel `(x, y)` hits the sphere of the scene.
pub open spec fn pixel_hit(width: int, height: int, x: int, y: int) -> bool {
    scene_sphere().hits(pixel_ray(width, height, x, y))
}

/// Byte `i` of the image: rows from the top, pixels from the left, three
/// channels per pixel.
pub open spec fn image_byte(width: int, height: int, i: int) -> u8 {
    let pixel = i / 3;
    if pixel_hit(width, height, pixel % width, pixel / width) {
        scene_sphere().color.channel(i % 3)
    } else {
        BACKGROUND
    }
}

/// The rendered image of the scene at the given size.
pub open spec fn image(width: int, height: int) -> Seq<u8> {
    Seq::new((width * height * 3) as nat, |i: int| image_byte(width, height, i))
}

/// The sphere of the scene, as a value.
pub fn build_scene() -> (sphere: Sphere)
    ensures
        sphere == scene_sphere(),
        sphere.in_range(),
{
    Sphere { center: Vec3::new(0, 0, -5), radius: 2, color: Color(0, 123, 255) }
}

/// The camera ray through the centre of pixel `(x, y)` of a `width` by
/// `height` image.
pub fn camera_ray(width: u32, height: u32, x: u32, y: u32) -> (ray: Ray)
    ensures
        ray == pixel_ray(width as int, height as int, x as int, y as int),
        x < width && y < height ==> ray.in_range(),
{
    let direction = Vec3::new(
        2 * (x as i64) + 1 - (width as i64),
        2 * (y as i64) + 1 - (height as i64),
        -(height as i64),
    );
    Ray { origin: Vec3::new(0, 0, 0), direction }
}

/// Renders the scene into a fresh frame buffer of `width * height` pixels.
///
/// A pixel whose ray hits the sphere takes the sphere's colour; every other
/// pixel keeps the background. An image without pixels is an empty buffer.
pub fn render(width: u32, height: u32) -> (img: Vec<u8>)
    requires
        width * height * 3 <= usize::MAX,
    ensures
        img@.len() == width * height * 3,
        img@ == image(width as int, height as int),
{
    let w = width as usize;
    let h = height as usize;
    assert(0 <= w * h <= w * h * 3) by (nonlinear_arith);
    let total = w * h * 3;
    let mut img = vec![BACKGROUND; total];
    let earth = build_scene();

    let mut y: u32 = 0;
    while y < height
        invariant
            y <= height,
            w == width,
            h == height,
            total == w * h * 3,
            img@.len() == total,
            earth == scene_sphere(),
            earth.in_range(),
            forall|i: int|
                0 <= i < total ==> #[trigger] img@[i] == (if i / 3 < y * w {
                    image_byte(width as int, height as int, i)
                } else {
                    BACKGROUND
                }),
        decreases height - y,
    {
        let mut x: u32 = 0;
        while x < width
            invariant
                y < height,
                x <= width,
                w == width,
                h == height,
                total == w * h * 3,
                img@.len() == total,
                earth == scene_sphere(),
                earth.in_range(),
                    forall|i: int|
                    0 <= i < total ==> #[trigger] img@[i] == (if i / 3 < y * w + x {
                        image_byte(width as int, height as int, i)
                    } else {
                        BACKGROUND
                    }),
            decreases width - x,
        {
            let ray = camera_ray(width, height, x, y);
            let ghost pixel: int = y * w + x;
            proof {
                assert(y * w + x < w * h) by (nonlinear_arith)
                    requires
                        0 <= x < w,
                        0 <= y < h,
                ;
                lemma_fundamental_div_mod_converse(pixel, w as int, y as int, x as int);
            }
            if let Some(_) = earth.intersect(&ray) {
                let idx = (y as usize * w + x as usize) * 3;
                img.set(idx, earth.color.0);
                img.set(idx + 1, earth.color.1);
                img.set(idx + 2, earth.color.2);
            }
            x += 1;
        }
        assert(y * w + w == (y + 1) * w) by (nonlinear_arith);
        y += 1;
    }
    assert(y * w == w * h) by (nonlinear_arith)
        requires
            y == h,
    ;
    assert(img@ =~= image(width as int, height as int));
    img
}

/// The direction that a pixel's ray is cast along is `height` times the
/// vector from the camera to the centre of the pixel on the view plane,
/// which lies at `z == -1`.
pub proof fn lemma_pixel_direction_on_view_plane(width: u32, height: u32, x: u32, y: u32)
    requires
        x < width,
        y < height,
    ensures
        ({
            let d = pixel_direction(width as int, height as int, x as int, y as int);
            &&& d.x as real == height as real * view_plane_x(width as int, height as int, x as int)
            &&& d.y as real == height as real * view_plane_y(height as int, y as int)
            &&& d.z as real == height as real * (-1real)
        }),
{
    let w = width as real;
    let h = height as real;
    let i = x as real;
    let j = y as real;
    assert(h * ((i + 1real / 2real) / w * (2real * (w / h)) - (2real * (w / h)) / 2real) == 2real
        * i + 1real - w) by (nonlinear_arith)
        requires
            w > 0real,
            h > 0real,
    ;
    assert(h * ((j + 1real / 2real) / h * 2real - 2real / 2real) == 2real * j + 1real - h)
        by (nonlinear_arith)
        requires
            h > 0real,
    ;
}

/// A pixel takes the colour of the sphere exactly when the ray from the
/// camera along the unit vector towards the centre of the pixel has a
/// discriminant that is not negative.
///
/// Here `len` is the length of the vector to the centre of the pixel, and
/// the discriminant is taken over the reals, for the direction divided by
/// `len`.
pub proof fn lemma_pixel_hit_is_hit_of_unit_ray(width: u32, height: u32, x: u32, y: u32, len: real)
    requires
        x < width,
        y < height,
        view_plane_direction(width as int, height as int, x as int, y as int).has_length(len),
    ensures
        len > 0real,
        pixel_hit(width as int, height as int, x as int, y as int) == (real_discriminant(
            camera_origin().to_real(),
            view_plane_direction(width as int, height as int, x as int, y as int).divided(len),
            scene_sphere().center.to_real(),
            scene_sphere().radius as real,
        ) >= 0real),
{
    let toward = view_plane_direction(width as int, height as int, x as int, y as int);
    let ray = pixel_ray(width as int, height as int, x as int, y as int);
    let h = height as real;
    assert(len > 0real) by {
        lemma_real_square_nonnegative(toward.x);
        lemma_real_square_nonnegative(toward.y);
        lemma_real_root_of_positive(len);
    }
    lemma_real_product_positive(h, len);
    let s = 1real / (h * len);
    lemma_real_quotient(1real, h * len);
    lemma_inverse_not_zero(s, h * len);
    lemma_pixel_direction_on_view_plane(width, height, x, y);
    let cast = ray.direction.to_real();
    let unit = toward.divided(len);
    assert(cast.scaled(s) == unit) by {
        lemma_rescaled(toward.x, h, len, s);
        lemma_rescaled(toward.y, h, len, s);
        lemma_rescaled(toward.z, h, len, s);
    }
    lemma_hit_over_reals(scene_sphere(), ray, s);
}

/// If `s * d == 1`, then `s` is not zero.
proof fn lemma_inverse_not_zero(s: real, d: real)
    requires
        s * d == 1real,
    ensures
        s != 0real,
{
    if s == 0real {
        lemma_real_factor_out(0real, 1real, d);
        assert(d * (0real * 1real) == 0real * (d * 1real));
    }
}

/// With `s == 1 / (h * len)`, stretching `h * v` by `s` divides `v` by
/// `len`.
proof fn lemma_rescaled(v: real, h: real, len: real, s: real)
    requires
        len != 0real,
        s * (h * len) == 1real,
    ensures
        s * (h * v) == v / len,
{
    let u = v / len;
    lemma_real_quotient(v, len);
    lemma_real_factor_out(u, len, h);
    lemma_real_factor_out(u, h * len, s);
}

/// The three bytes of pixel `(x, y)` start at offset `(y * width + x) * 3`
/// and hold the colour of the sphere if the pixel's ray hits it, the
/// background if not.
pub proof fn lemma_image_pixel(width: u32, height: u32, x: u32, y: u32, k: int)
    requires
        x < width,
        y < height,
        0 <= k < 3,
    ensures
        ({
            let at = (y * width + x) * 3 + k;
            &&& 0 <= at < image(width as int, height as int).len()
            &&& image(width as int, height as int)[at] == (if pixel_hit(
                width as int,
                height as int,
                x as int,
                y as int,
            ) {
                scene_sphere().color.channel(k)
            } else {
                BACKGROUND
            })
        }),
{
    let pixel: int = y * width + x;
    assert(0 <= pixel < width * height) by (nonlinear_arith)
        requires
            pixel == y * width + x,
            0 <= x < width,
            0 <= y < height,
    ;
    lemma_fundamental_div_mod_converse(pixel, width as int, y as int, x as int);
    lemma_fundamental_div_mod_converse(pixel * 3 + k, 3, pixel, k);
}

/// Rendering is a function of the size alone: two frame buffers rendered at
/// the same size are identical, byte for byte.
pub proof fn lemma_render_deterministic(first: Seq<u8>, second: Seq<u8>, width: u32, height: u32)
    requires
        first == image(width as int, height as int),
        second == image(width as int, height as int),
    ensures
        first.len() == width * height * 3,
        first == second,
{
    assert(0 <= width * height * 3) by (nonlinear_arith);
}

} // verus!
