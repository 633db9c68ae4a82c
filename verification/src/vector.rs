//! Three-dimensional lattice vectors.

use vstd::prelude::*;
use crate::algebra::lemma_product_bound;

verus! {

/// Largest component magnitude for which [`Vec3::dot`] is guaranteed to fit
/// in 128 bits (2^62).
pub const COMPONENT_LIMIT: i64 = 0x4000_0000_0000_0000;

/// A vector with integer components. A value type: every operation returns
/// a new vector or scalar.
#[derive(Clone, Copy, Debug, PartialEq, Eq, Structural)]
pub struct Vec3 {
    pub x: i64,
    pub y: i64,
    pub z: i64,
}

impl Vec3 {
    /// Every component has magnitude at most `limit`.
    pub open spec fn within(self, limit: int) -> bool {
        &&& -limit <= self.x <= limit
        &&& -limit <= self.y <= limit
        &&& -limit <= self.z <= limit
    }

    /// The dot product as a mathematical integer.
    pub open spec fn spec_dot(self, other: Vec3) -> int {
        self.x * other.x + self.y * other.y + self.z * other.z
    }

    /// The square of the Euclidean norm.
    pub open spec fn norm_squared(self) -> int {
        self.spec_dot(self)
    }

    /// The vector with the given components.
    pub fn new(x: i64, y: i64, z: i64) -> (v: Vec3)
        ensures
            v.x == x,
            v.y == y,
            v.z == z,
    {
        Vec3 { x, y, z }
    }

    /// Sum of the componentwise products, for vectors whose components do
    /// not exceed [`COMPONENT_LIMIT`] in magnitude.
    pub fn dot(self, other: Vec3) -> (r: i128)
        requires
            self.within(COMPONENT_LIMIT as int),
            other.within(COMPONENT_LIMIT as int),
        ensures
            r == self.spec_dot(other),
    {
        proof {
            let limit = COMPONENT_LIMIT as int;
            lemma_product_bound(self.x as int, other.x as int, limit, limit);
            lemma_product_bound(self.y as int, other.y as int, limit, limit);
            lemma_product_bound(self.z as int, other.z as int, limit, limit);
        }
        let xx: i128 = (self.x as i128) * (other.x as i128);
        let yy: i128 = (self.y as i128) * (other.y as i128);
        let zz: i128 = (self.z as i128) * (other.z as i128);
        xx + yy + zz
    }

    /// The Euclidean norm, held exactly by its square: `dot(v, v)`, for any
    /// vector. Zero for the zero vector.
    pub fn length_squared(self) -> (r: u128)
        ensures
            r == self.norm_squared(),
            r == self.spec_dot(self),
    {
        proof {
            let top: int = 0x8000_0000_0000_0000;
            lemma_product_bound(self.x as int, self.x as int, top, top);
            lemma_product_bound(self.y as int, self.y as int, top, top);
            lemma_product_bound(self.z as int, self.z as int, top, top);
            assert(self.x * self.x >= 0 && self.y * self.y >= 0 && self.z * self.z >= 0)
                by (nonlinear_arith);
        }
        let xx: i128 = (self.x as i128) * (self.x as i128);
        let yy: i128 = (self.y as i128) * (self.y as i128);
        let zz: i128 = (self.z as i128) * (self.z as i128);
        (xx as u128) + (yy as u128) + (zz as u128)
    }
}

/// A dot product is bounded by three times the product of the component
/// bounds of its operands.
pub proof fn lemma_dot_bound(u: Vec3, v: Vec3, m: int, n: int)
    requires
        u.within(m),
        v.within(n),
    ensures
        -3 * (m * n) <= u.spec_dot(v) <= 3 * (m * n),
{
    lemma_product_bound(u.x as int, v.x as int, m, n);
    lemma_product_bound(u.y as int, v.y as int, m, n);
    lemma_product_bound(u.z as int, v.z as int, m, n);
}

} // verus!
