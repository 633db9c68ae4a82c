//! The same geometry over the real numbers.
//!
//! The library computes with integers. This module says what those
//! computations mean for vectors with real components, where a direction
//! can be divided by its length, and proves that the integer test decides
//! the same question.

use vstd::prelude::*;
use crate::algebra::{
    lemma_quadratic_root, lemma_real_associate, lemma_real_commute, lemma_real_distribute_three,
    lemma_real_factor_out, lemma_real_positive_factor_keeps_sign, lemma_real_product,
    lemma_real_quotient, lemma_real_square_of_multiple, lemma_real_square_of_sum,
    lemma_real_square_positive, lemma_smallest_root,
};
use crate::sphere::{lemma_aimed_at_center_hits, Hit, Ray, Sphere};
use crate::vector::Vec3;

verus! {

/// A vector with real components.
pub struct RealVec3 {
    pub x: real,
    pub y: real,
    pub z: real,
}

impl RealVec3 {
    /// Sum of the componentwise products.
    pub open spec fn dot(self, other: RealVec3) -> real {
        self.x * other.x + self.y * other.y + self.z * other.z
    }

    /// Every component multiplied by `s`.
    pub open spec fn scaled(self, s: real) -> RealVec3 {
        RealVec3 { x: s * self.x, y: s * self.y, z: s * self.z }
    }

    /// Every component divided by `len`.
    pub open spec fn divided(self, len: real) -> RealVec3 {
        RealVec3 { x: self.x / len, y: self.y / len, z: self.z / len }
    }

    /// The componentwise sum.
    pub open spec fn plus(self, other: RealVec3) -> RealVec3 {
        RealVec3 { x: self.x + other.x, y: self.y + other.y, z: self.z + other.z }
    }

    /// The componentwise difference.
    pub open spec fn minus(self, other: RealVec3) -> RealVec3 {
        RealVec3 { x: self.x - other.x, y: self.y - other.y, z: self.z - other.z }
    }

    /// `len` is the Euclidean norm of the vector.
    pub open spec fn has_length(self, len: real) -> bool {
        len >= 0real && len * len == self.dot(self)
    }
}

impl Hit {
    /// `q` is the square root of the discriminant.
    pub open spec fn is_root_of_discriminant(self, q: real) -> bool {
        q >= 0real && q * q == self.discriminant as real
    }

    /// The ray parameter of the near intersection, given the square root `q`
    /// of the discriminant: `(-b - q) / (2 * a)`.
    pub open spec fn near_root(self, q: real) -> real {
        (-(self.b as real) - q) / (2real * (self.a as real))
    }
}

impl Vec3 {
    /// The lattice vector as a real vector.
    pub open spec fn to_real(self) -> RealVec3 {
        RealVec3 { x: self.x as real, y: self.y as real, z: self.z as real }
    }
}

/// The discriminant `b^2 - 4*a*c` of the ray-sphere quadratic, over the
/// reals, with `oc = origin - center`, `a = direction . direction`,
/// `b = 2 * (oc . direction)` and `c = oc . oc - radius^2`.
pub open spec fn real_discriminant(
    origin: RealVec3,
    direction: RealVec3,
    center: RealVec3,
    radius: real,
) -> real {
    let oc = origin.minus(center);
    let a = direction.dot(direction);
    let b = 2real * oc.dot(direction);
    let c = oc.dot(oc) - radius * radius;
    b * b - 4real * a * c
}

/// The point of a ray at parameter `t`: `origin + t * direction`.
pub open spec fn point_at(origin: RealVec3, direction: RealVec3, t: real) -> RealVec3 {
    origin.plus(direction.scaled(t))
}

/// The square of the Euclidean distance between two points.
pub open spec fn distance_squared(p: RealVec3, q: RealVec3) -> real {
    p.minus(q).dot(p.minus(q))
}

/// The integer dot product is the real one.
pub proof fn lemma_dot_over_reals(u: Vec3, v: Vec3)
    ensures
        u.spec_dot(v) as real == u.to_real().dot(v.to_real()),
{
    lemma_real_product(u.x as int, v.x as int);
    lemma_real_product(u.y as int, v.y as int);
    lemma_real_product(u.z as int, v.z as int);
}

/// The square of the length of a lattice vector is its dot product with
/// itself: what [`Vec3::length_squared`] returns is the square of the
/// Euclidean norm.
pub proof fn lemma_length_squared_is_dot(v: Vec3, len: real)
    requires
        v.to_real().has_length(len),
    ensures
        len * len == v.spec_dot(v) as real,
        len * len == v.norm_squared() as real,
{
    lemma_dot_over_reals(v, v);
}

/// A vector that is not zero, divided by its length, has length one.
pub proof fn lemma_normalized_has_length_one(v: RealVec3, len: real)
    requires
        v.has_length(len),
        len > 0real,
    ensures
        v.divided(len).has_length(1real),
{
    let n = v.divided(len);
    assert((v.x / len) * (v.x / len) * (len * len) == v.x * v.x) by (nonlinear_arith)
        requires
            len > 0real,
    ;
    assert((v.y / len) * (v.y / len) * (len * len) == v.y * v.y) by (nonlinear_arith)
        requires
            len > 0real,
    ;
    assert((v.z / len) * (v.z / len) * (len * len) == v.z * v.z) by (nonlinear_arith)
        requires
            len > 0real,
    ;
    let s = n.dot(n);
    let m = len * len;
    assert(s * m == (v.x / len) * (v.x / len) * m + (v.y / len) * (v.y / len) * m + (v.z / len) * (
    v.z / len) * m) by (nonlinear_arith)
        requires
            s == (v.x / len) * (v.x / len) + (v.y / len) * (v.y / len) + (v.z / len) * (v.z / len),
    ;
    assert(s == 1real) by (nonlinear_arith)
        requires
            s * m == m,
            m == len * len,
            len > 0real,
    ;
}

/// Stretching the direction by `s` multiplies the discriminant by `s^2`.
pub proof fn lemma_real_discriminant_scales(
    origin: RealVec3,
    direction: RealVec3,
    center: RealVec3,
    radius: real,
    s: real,
)
    ensures
        real_discriminant(origin, direction.scaled(s), center, radius) == (s * s)
            * real_discriminant(origin, direction, center, radius),
{
    let oc = origin.minus(center);
    let d = direction;
    let a = d.dot(d);
    let half = oc.dot(d);
    let b = 2real * half;
    let c = oc.dot(oc) - radius * radius;
    let m = s * s;
    let stretched = d.scaled(s);
    let a2 = stretched.dot(stretched);
    let b2 = 2real * oc.dot(stretched);
    assert(a2 == m * a) by {
        lemma_real_square_of_multiple(s, d.x);
        lemma_real_square_of_multiple(s, d.y);
        lemma_real_square_of_multiple(s, d.z);
        lemma_real_distribute_three(m, d.x * d.x, d.y * d.y, d.z * d.z);
    }
    assert(b2 == s * b) by {
        lemma_real_factor_out(s, d.x, oc.x);
        lemma_real_factor_out(s, d.y, oc.y);
        lemma_real_factor_out(s, d.z, oc.z);
        lemma_real_distribute_three(s, oc.x * d.x, oc.y * d.y, oc.z * d.z);
        lemma_real_factor_out(2real, half, s);
    }
    assert(b2 * b2 == m * (b * b)) by {
        lemma_real_square_of_multiple(s, b);
    }
    assert(4real * a2 * c == m * (4real * a * c)) by {
        lemma_real_associate(4real, m * a, c);
        lemma_real_associate(m, a, c);
        lemma_real_associate(4real, a, c);
        lemma_real_factor_out(4real, a * c, m);
    }
    assert(m * (b * b) - m * (4real * a * c) == m * (b * b - 4real * a * c)) by {
        lemma_real_distribute_three(m, b * b, -(4real * a * c), 0real);
        lemma_real_factor_out(-1real, 4real * a * c, m);
    }
}

/// The integer coefficients of the quadratic of a ray against a sphere are
/// the real ones.
pub proof fn lemma_coefficients_over_reals(sphere: Sphere, ray: Ray)
    ensures
        ({
            let oc = ray.origin.to_real().minus(sphere.center.to_real());
            let d = ray.direction.to_real();
            let r = sphere.radius as real;
            &&& sphere.quadratic_a(ray) as real == d.dot(d)
            &&& sphere.quadratic_b(ray) as real == 2real * oc.dot(d)
            &&& sphere.quadratic_c(ray) as real == oc.dot(oc) - r * r
        }),
{
    let oc = sphere.offset(ray);
    let d = ray.direction;
    lemma_real_product(d.x as int, d.x as int);
    lemma_real_product(d.y as int, d.y as int);
    lemma_real_product(d.z as int, d.z as int);
    lemma_real_product(oc.0, d.x as int);
    lemma_real_product(oc.1, d.y as int);
    lemma_real_product(oc.2, d.z as int);
    lemma_real_product(oc.0, oc.0);
    lemma_real_product(oc.1, oc.1);
    lemma_real_product(oc.2, oc.2);
    lemma_real_product(sphere.radius as int, sphere.radius as int);
}

/// The integer discriminant of a ray against a sphere is the real one.
pub proof fn lemma_discriminant_over_reals(sphere: Sphere, ray: Ray)
    ensures
        sphere.discriminant(ray) as real == real_discriminant(
            ray.origin.to_real(),
            ray.direction.to_real(),
            sphere.center.to_real(),
            sphere.radius as real,
        ),
{
    lemma_coefficients_over_reals(sphere, ray);
    let a = sphere.quadratic_a(ray);
    let b = sphere.quadratic_b(ray);
    let c = sphere.quadratic_c(ray);
    lemma_real_product(b, b);
    lemma_real_product(4 * a, c);
}

/// The near root solves the quadratic: with `q` the square root of the
/// discriminant and `t` the near root, `a*t^2 + b*t + c == 0`.
pub proof fn lemma_near_root_solves_quadratic(sphere: Sphere, ray: Ray, hit: Hit, q: real)
    requires
        hit.describes(sphere, ray),
        hit.a != 0,
        hit.is_root_of_discriminant(q),
    ensures
        ({
            let t = hit.near_root(q);
            (hit.a as real) * t * t + (hit.b as real) * t + (sphere.quadratic_c(ray) as real)
                == 0real
        }),
{
    let a = hit.a as real;
    let b = hit.b as real;
    let c = sphere.quadratic_c(ray) as real;
    let t = hit.near_root(q);
    lemma_coefficients_over_reals(sphere, ray);
    lemma_discriminant_over_reals(sphere, ray);
    lemma_real_quotient(-b - q, 2real * a);
    assert(2real * a * t == t * (2real * a)) by (nonlinear_arith);
    lemma_quadratic_root(a, b, c, q, t);
}

/// The quadratic measures how far a point of the ray is from the surface
/// of the sphere: at parameter `t`, the squared distance of the point from
/// the centre, less the squared radius, is `a*t^2 + b*t + c`.
pub proof fn lemma_quadratic_measures_distance(sphere: Sphere, ray: Ray, t: real)
    ensures
        distance_squared(
            point_at(ray.origin.to_real(), ray.direction.to_real(), t),
            sphere.center.to_real(),
        ) - (sphere.radius as real) * (sphere.radius as real) == (sphere.quadratic_a(ray) as real)
            * t * t + (sphere.quadratic_b(ray) as real) * t + (sphere.quadratic_c(ray) as real),
{
    lemma_coefficients_over_reals(sphere, ray);
    let oc = ray.origin.to_real().minus(sphere.center.to_real());
    let d = ray.direction.to_real();
    let a = d.dot(d);
    let half = oc.dot(d);
    let tt = t * t;
    let w = point_at(ray.origin.to_real(), d, t).minus(sphere.center.to_real());
    assert(w.x == oc.x + t * d.x && w.y == oc.y + t * d.y && w.z == oc.z + t * d.z);
    lemma_real_square_of_sum(oc.x, t * d.x);
    lemma_real_square_of_sum(oc.y, t * d.y);
    lemma_real_square_of_sum(oc.z, t * d.z);
    lemma_real_factor_out(t, d.x, oc.x);
    lemma_real_factor_out(t, d.y, oc.y);
    lemma_real_factor_out(t, d.z, oc.z);
    lemma_real_square_of_multiple(t, d.x);
    lemma_real_square_of_multiple(t, d.y);
    lemma_real_square_of_multiple(t, d.z);
    lemma_real_distribute_three(t, oc.x * d.x, oc.y * d.y, oc.z * d.z);
    lemma_real_distribute_three(tt, d.x * d.x, d.y * d.y, d.z * d.z);
    assert(w.dot(w) == oc.dot(oc) + 2real * (t * half) + tt * a);
    lemma_real_associate(a, t, t);
    lemma_real_commute(a, tt);
    lemma_real_commute(2real * half, t);
    lemma_real_factor_out(2real, half, t);
}

/// The reported intersection lies on the surface of the sphere: the point
/// of the ray at the near root is at distance `radius` from the centre.
pub proof fn lemma_near_root_meets_surface(sphere: Sphere, ray: Ray, hit: Hit, q: real)
    requires
        hit.describes(sphere, ray),
        hit.a != 0,
        hit.is_root_of_discriminant(q),
    ensures
        distance_squared(
            point_at(ray.origin.to_real(), ray.direction.to_real(), hit.near_root(q)),
            sphere.center.to_real(),
        ) == (sphere.radius as real) * (sphere.radius as real),
{
    lemma_near_root_solves_quadratic(sphere, ray, hit, q);
    lemma_quadratic_measures_distance(sphere, ray, hit.near_root(q));
}

/// The reported intersection is the nearest along the ray: no point of the
/// ray's line on the surface of the sphere has a smaller ray parameter than
/// the near root.
pub proof fn lemma_near_root_is_nearest(sphere: Sphere, ray: Ray, hit: Hit, q: real, other: real)
    requires
        hit.describes(sphere, ray),
        hit.a != 0,
        hit.is_root_of_discriminant(q),
        distance_squared(
            point_at(ray.origin.to_real(), ray.direction.to_real(), other),
            sphere.center.to_real(),
        ) == (sphere.radius as real) * (sphere.radius as real),
    ensures
        hit.near_root(q) <= other,
{
    let a = hit.a as real;
    let b = hit.b as real;
    let c = sphere.quadratic_c(ray) as real;
    let t = hit.near_root(q);
    lemma_quadratic_measures_distance(sphere, ray, other);
    assert(ray.direction.norm_squared() >= 0) by (nonlinear_arith);
    lemma_coefficients_over_reals(sphere, ray);
    lemma_discriminant_over_reals(sphere, ray);
    lemma_real_quotient(-b - q, 2real * a);
    assert(2real * a * t == t * (2real * a)) by (nonlinear_arith);
    lemma_smallest_root(a, b, c, q, t, other);
}

/// Whether the line of a ray meets a sphere, decided over the reals, is
/// what the integer test decides, however the direction is stretched: for
/// any `s` that is not zero, in particular for one that makes the direction
/// a unit vector.
pub proof fn lemma_hit_over_reals(sphere: Sphere, ray: Ray, s: real)
    requires
        s != 0real,
    ensures
        sphere.hits(ray) == (real_discriminant(
            ray.origin.to_real(),
            ray.direction.to_real().scaled(s),
            sphere.center.to_real(),
            sphere.radius as real,
        ) >= 0real),
{
    lemma_discriminant_over_reals(sphere, ray);
    lemma_real_discriminant_scales(
        ray.origin.to_real(),
        ray.direction.to_real(),
        sphere.center.to_real(),
        sphere.radius as real,
        s,
    );
    let exact = real_discriminant(
        ray.origin.to_real(),
        ray.direction.to_real(),
        sphere.center.to_real(),
        sphere.radius as real,
    );
    lemma_real_square_positive(s);
    lemma_real_positive_factor_keeps_sign(s * s, exact);
}

/// A ray aimed at the centre of a sphere travels the distance to the centre
/// less the radius before it hits.
///
/// For a ray whose direction is `center - origin`, of length `len`, the
/// square root of the discriminant is `2*radius*len`, and the near root `t`
/// covers the Euclidean distance `t * len == len - radius`.
pub proof fn lemma_aimed_at_center_distance(sphere: Sphere, ray: Ray, hit: Hit, len: real)
    requires
        ray.direction.x == sphere.center.x - ray.origin.x,
        ray.direction.y == sphere.center.y - ray.origin.y,
        ray.direction.z == sphere.center.z - ray.origin.z,
        hit.describes(sphere, ray),
        sphere.radius >= 0,
        ray.direction.to_real().has_length(len),
        len > 0real,
    ensures
        hit.is_root_of_discriminant(2real * (sphere.radius as real) * len),
        hit.near_root(2real * (sphere.radius as real) * len) * len == len - sphere.radius as real,
{
    lemma_aimed_at_center_hits(sphere, ray);
    lemma_dot_over_reals(ray.direction, ray.direction);
    let a = hit.a as real;
    let b = hit.b as real;
    let r = sphere.radius as real;
    let q = 2real * r * len;
    lemma_real_product(sphere.radius as int, sphere.radius as int);
    lemma_real_product(4 * hit.a, sphere.radius * sphere.radius);
    assert(hit.discriminant as real == 4real * a * (r * r));
    assert(q * q == 4real * a * (r * r)) by (nonlinear_arith)
        requires
            q == 2real * r * len,
            len * len == a,
    ;
    assert(q >= 0real) by (nonlinear_arith)
        requires
            q == 2real * r * len,
            r >= 0real,
            len > 0real,
    ;
    let t = hit.near_root(q);
    assert(a != 0real) by (nonlinear_arith)
        requires
            len * len == a,
            len > 0real,
    ;
    lemma_real_quotient(-b - q, 2real * a);
    assert(t * (2real * a) == 2real * a - 2real * r * len);
    assert(len * (2real * (t * len) - 2real * len + 2real * r) == 0real) by (nonlinear_arith)
        requires
            t * (2real * a) == 2real * a - 2real * r * len,
            len * len == a,
    ;
    assert(2real * (t * len) - 2real * len + 2real * r == 0real) by (nonlinear_arith)
        requires
            len * (2real * (t * len) - 2real * len + 2real * r) == 0real,
            len > 0real,
    ;
}

} // verus!
