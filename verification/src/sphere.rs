//! Rays, spheres and the ray-sphere intersection test.
//!
//! A point `origin + t * direction` of a ray lies on a sphere exactly when
//! `a*t^2 + b*t + c = 0`, with
//!
//! ```text
//! oc = origin - center
//! a  = direction . direction
//! b  = 2 * (oc . direction)
//! c  = oc . oc - radius^2
//! ```
//!
//! The line of the ray meets the sphere exactly when the discriminant
//! `b^2 - 4*a*c` is not negative. All four numbers are integers here, so the
//! test is decided without rounding.

use vstd::prelude::*;
use crate::algebra::{
    lemma_associate, lemma_distribute_three, lemma_factor_out, lemma_positive_factor_keeps_sign,
    lemma_product_bound, lemma_square_of_multiple,
};
use crate::vector::{lemma_dot_bound, Vec3};

verus! {

/// Largest magnitude of a sphere's radius and of the coordinates of a ray
/// origin or sphere centre that [`Sphere::intersect`] accepts (2^27).
pub const SCENE_LIMIT: i64 = 0x800_0000;

/// Largest magnitude of the components of a ray direction that
/// [`Sphere::intersect`] accepts (2^32).
pub const DIRECTION_LIMIT: i64 = 0x1_0000_0000;

/// Red, green and blue, eight bits each.
#[derive(Clone, Copy, Debug, PartialEq, Eq, Structural)]
pub struct Color(pub u8, pub u8, pub u8);

/// A directed line: the points `origin + t * direction`.
#[derive(Clone, Copy, Debug, PartialEq, Eq, Structural)]
pub struct Ray {
    pub origin: Vec3,
    pub direction: Vec3,
}

/// A sphere of one flat colour.
#[derive(Clone, Copy, Debug, PartialEq, Eq, Structural)]
pub struct Sphere {
    pub center: Vec3,
    pub radius: i64,
    pub color: Color,
}

/// The near intersection of a ray with a sphere, held exactly: the ray
/// parameter of the intersection is `(-b - sqrt(discriminant)) / (2 * a)`.
#[derive(Clone, Copy, Debug, PartialEq, Eq, Structural)]
pub struct Hit {
    /// Squared length of the ray direction.
    pub a: i128,
    /// Twice the dot product of `origin - center` with the direction.
    pub b: i128,
    /// `b^2 - 4*a*c`; never negative in a reported hit.
    pub discriminant: i128,
}

impl Color {
    /// Channel `k` of the colour: 0 red, 1 green, otherwise blue.
    pub open spec fn channel(self, k: int) -> u8 {
        if k == 0 {
            self.0
        } else if k == 1 {
            self.1
        } else {
            self.2
        }
    }
}

impl Ray {
    /// The components are small enough for the intersection test to be
    /// computed in 128 bits.
    pub open spec fn in_range(self) -> bool {
        &&& self.origin.within(SCENE_LIMIT as int)
        &&& self.direction.within(DIRECTION_LIMIT as int)
    }
}

impl Sphere {
    /// The components are small enough for the intersection test to be
    /// computed in 128 bits.
    pub open spec fn in_range(self) -> bool {
        &&& self.center.within(SCENE_LIMIT as int)
        &&& -SCENE_LIMIT <= self.radius <= SCENE_LIMIT
    }

    /// `origin - center`, componentwise.
    pub open spec fn offset(self, ray: Ray) -> (int, int, int) {
        (
            ray.origin.x - self.center.x,
            ray.origin.y - self.center.y,
            ray.origin.z - self.center.z,
        )
    }

    /// Coefficient `a`: the squared length of the direction.
    pub open spec fn quadratic_a(self, ray: Ray) -> int {
        ray.direction.norm_squared()
    }

    /// Coefficient `b`: twice the dot product of `origin - center` with the
    /// direction.
    pub open spec fn quadratic_b(self, ray: Ray) -> int {
        let oc = self.offset(ray);
        2 * (oc.0 * ray.direction.x + oc.1 * ray.direction.y + oc.2 * ray.direction.z)
    }

    /// Coefficient `c`: the squared distance of the origin from the centre,
    /// less the squared radius.
    pub open spec fn quadratic_c(self, ray: Ray) -> int {
        let oc = self.offset(ray);
        oc.0 * oc.0 + oc.1 * oc.1 + oc.2 * oc.2 - self.radius * self.radius
    }

    /// `b^2 - 4*a*c`.
    pub open spec fn discriminant(self, ray: Ray) -> int {
        let a = self.quadratic_a(ray);
        let b = self.quadratic_b(ray);
        let c = self.quadratic_c(ray);
        b * b - 4 * a * c
    }

    /// The line of the ray meets the sphere.
    pub open spec fn hits(self, ray: Ray) -> bool {
        self.discriminant(ray) >= 0
    }

    /// Tests the ray against the sphere.
    ///
    /// Reports a hit whenever the discriminant is not negative, whatever the
    /// sign of the near root: a sphere behind the origin of the ray is hit
    /// too, and so is one that surrounds it. A direction of zero length
    /// gives a hit with `a == 0`, for which the root is undefined.
    pub fn intersect(&self, ray: &Ray) -> (hit: Option<Hit>)
        requires
            self.in_range(),
            ray.in_range(),
        ensures
            hit is Some <==> self.hits(*ray),
            hit matches Some(h) ==> h.describes(*self, *ray),
    {
        let oc = Vec3::new(
            ray.origin.x - self.center.x,
            ray.origin.y - self.center.y,
            ray.origin.z - self.center.z,
        );
        proof {
            let far: int = 2 * SCENE_LIMIT;
            let wide: int = DIRECTION_LIMIT as int;
            assert(oc.within(far));
            lemma_dot_bound(ray.direction, ray.direction, wide, wide);
            lemma_dot_bound(oc, ray.direction, far, wide);
            lemma_dot_bound(oc, oc, far, far);
            lemma_product_bound(
                self.radius as int,
                self.radius as int,
                SCENE_LIMIT as int,
                SCENE_LIMIT as int,
            );
            assert(ray.direction.norm_squared() >= 0) by (nonlinear_arith);
            assert(oc.norm_squared() >= 0) by (nonlinear_arith);
            assert(self.radius * self.radius >= 0) by (nonlinear_arith);
        }
        let a = ray.direction.dot(ray.direction);
        let b = 2 * oc.dot(ray.direction);
        let c = oc.dot(oc) - (self.radius as i128) * (self.radius as i128);
        proof {
            let most_b: int = 6 * (2 * SCENE_LIMIT * DIRECTION_LIMIT);
            let most_a: int = 3 * (DIRECTION_LIMIT * DIRECTION_LIMIT);
            let most_c: int = 3 * (2 * SCENE_LIMIT * (2 * SCENE_LIMIT));
            lemma_product_bound(b as int, b as int, most_b, most_b);
            lemma_product_bound(a as int, c as int, most_a, most_c);
            assert(4 * a * c == 4 * (a * c)) by (nonlinear_arith);
        }
        let discriminant = b * b - 4 * a * c;
        if discriminant < 0 {
            None
        } else {
            Some(Hit { a, b, discriminant })
        }
    }
}

impl Hit {
    /// The hit holds the coefficients of `ray` against `sphere`.
    pub open spec fn describes(self, sphere: Sphere, ray: Ray) -> bool {
        &&& self.a == sphere.quadratic_a(ray)
        &&& self.b == sphere.quadratic_b(ray)
        &&& self.discriminant == sphere.discriminant(ray)
    }
}

/// Whether a ray hits does not depend on the length of its direction.
///
/// Stretching the direction by `k` multiplies the discriminant by `k^2`, so
/// for `k != 0` its sign is the same: a ray may be cast along any multiple of
/// a unit direction.
pub proof fn lemma_hit_ignores_direction_length(sphere: Sphere, ray: Ray, stretched: Ray, k: int)
    requires
        k != 0,
        stretched.origin == ray.origin,
        stretched.direction.x == k * ray.direction.x,
        stretched.direction.y == k * ray.direction.y,
        stretched.direction.z == k * ray.direction.z,
    ensures
        sphere.discriminant(stretched) == (k * k) * sphere.discriminant(ray),
        sphere.hits(stretched) == sphere.hits(ray),
{
    let oc = sphere.offset(ray);
    let (dx, dy, dz) = (ray.direction.x as int, ray.direction.y as int, ray.direction.z as int);
    let a = sphere.quadratic_a(ray);
    let b = sphere.quadratic_b(ray);
    let c = sphere.quadratic_c(ray);
    let m = k * k;
    assert(sphere.quadratic_a(stretched) == m * a) by {
        lemma_square_of_multiple(k, dx);
        lemma_square_of_multiple(k, dy);
        lemma_square_of_multiple(k, dz);
        lemma_distribute_three(m, dx * dx, dy * dy, dz * dz);
    }
    let half = oc.0 * dx + oc.1 * dy + oc.2 * dz;
    assert(sphere.quadratic_b(stretched) == k * b) by {
        lemma_factor_out(k, dx, oc.0);
        lemma_factor_out(k, dy, oc.1);
        lemma_factor_out(k, dz, oc.2);
        lemma_distribute_three(k, oc.0 * dx, oc.1 * dy, oc.2 * dz);
        lemma_factor_out(2, half, k);
    }
    assert(sphere.quadratic_c(stretched) == c);
    assert(sphere.discriminant(stretched) == m * (b * b - 4 * a * c)) by {
        lemma_square_of_multiple(k, b);
        lemma_associate(4, m, a);
        lemma_associate(m, 4, a);
        lemma_associate(m, 4 * a, c);
        lemma_distribute_three(m, b * b, -(4 * a * c), 0);
        lemma_factor_out(-1, 4 * a * c, m);
    }
    assert(m > 0) by (nonlinear_arith)
        requires
            m == k * k,
            k != 0,
    ;
    lemma_positive_factor_keeps_sign(m, sphere.discriminant(ray));
}

/// A ray aimed at the centre of a sphere hits it, whatever the radius: with
/// the direction `center - origin`, `b == -2*a` and the discriminant is
/// `4*a*radius^2`, which is never negative.
pub proof fn lemma_aimed_at_center_hits(sphere: Sphere, ray: Ray)
    requires
        ray.direction.x == sphere.center.x - ray.origin.x,
        ray.direction.y == sphere.center.y - ray.origin.y,
        ray.direction.z == sphere.center.z - ray.origin.z,
    ensures
        sphere.quadratic_b(ray) == -2 * sphere.quadratic_a(ray),
        sphere.discriminant(ray) == 4 * sphere.quadratic_a(ray) * (sphere.radius * sphere.radius),
        sphere.hits(ray),
{
    let (dx, dy, dz) = (ray.direction.x as int, ray.direction.y as int, ray.direction.z as int);
    let oc = sphere.offset(ray);
    assert(oc.0 == -dx && oc.1 == -dy && oc.2 == -dz);
    let a = sphere.quadratic_a(ray);
    let b = sphere.quadratic_b(ray);
    let c = sphere.quadratic_c(ray);
    let rr = sphere.radius * sphere.radius;
    assert((-dx) * dx == -(dx * dx) && (-dx) * (-dx) == dx * dx) by (nonlinear_arith);
    assert((-dy) * dy == -(dy * dy) && (-dy) * (-dy) == dy * dy) by (nonlinear_arith);
    assert((-dz) * dz == -(dz * dz) && (-dz) * (-dz) == dz * dz) by (nonlinear_arith);
    assert(b == -2 * a);
    assert(c == a - rr);
    assert(b * b - 4 * a * c == 4 * a * rr) by (nonlinear_arith)
        requires
            b == -2 * a,
            c == a - rr,
    ;
    assert(4 * a * rr >= 0) by (nonlinear_arith)
        requires
            a == dx * dx + dy * dy + dz * dz,
            rr == sphere.radius * sphere.radius,
    ;
}

} // verus!
