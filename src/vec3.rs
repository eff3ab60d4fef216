//! Three-component vectors over `Fixed`.
use vstd::prelude::*;
use crate::fixed::{fx, fx_add, fx_div, fx_from_int, fx_mul, fx_neg, fx_sqrt, fx_sub, Fixed};

verus! {

#[derive(Clone, Copy, Debug, PartialEq, Eq, Structural)]
pub struct Vec3 {
    pub x: Fixed,
    pub y: Fixed,
    pub z: Fixed,
}

pub type Point3 = Vec3;

pub type Color = Vec3;

pub open spec fn v3(x: Fixed, y: Fixed, z: Fixed) -> Vec3 {
    Vec3 { x, y, z }
}

pub open spec fn v_add(a: Vec3, b: Vec3) -> Vec3 {
    v3(fx_add(a.x, b.x), fx_add(a.y, b.y), fx_add(a.z, b.z))
}

pub open spec fn v_sub(a: Vec3, b: Vec3) -> Vec3 {
    v3(fx_sub(a.x, b.x), fx_sub(a.y, b.y), fx_sub(a.z, b.z))
}

pub open spec fn v_neg(a: Vec3) -> Vec3 {
    v3(fx_neg(a.x), fx_neg(a.y), fx_neg(a.z))
}

pub open spec fn v_scale(k: Fixed, a: Vec3) -> Vec3 {
    v3(fx_mul(k, a.x), fx_mul(k, a.y), fx_mul(k, a.z))
}

/// Component-wise product.
pub open spec fn v_mul(a: Vec3, b: Vec3) -> Vec3 {
    v3(fx_mul(a.x, b.x), fx_mul(a.y, b.y), fx_mul(a.z, b.z))
}

pub open spec fn v_div(a: Vec3, k: Fixed) -> Vec3 {
    v3(fx_div(a.x, k), fx_div(a.y, k), fx_div(a.z, k))
}

pub open spec fn v_dot(a: Vec3, b: Vec3) -> Fixed {
    fx(fx_mul(a.x, b.x).raw + fx_mul(a.y, b.y).raw + fx_mul(a.z, b.z).raw)
}

pub open spec fn v_cross(a: Vec3, b: Vec3) -> Vec3 {
    v3(
        fx_sub(fx_mul(a.y, b.z), fx_mul(a.z, b.y)),
        fx_sub(fx_mul(a.z, b.x), fx_mul(a.x, b.z)),
        fx_sub(fx_mul(a.x, b.y), fx_mul(a.y, b.x)),
    )
}

pub open spec fn v_length_squared(a: Vec3) -> Fixed {
    v_dot(a, a)
}

pub open spec fn v_length(a: Vec3) -> Fixed {
    fx_sqrt(v_length_squared(a))
}

pub open spec fn v_normalize(a: Vec3) -> Vec3 {
    v_div(a, v_length(a))
}

pub open spec fn v_is_zero(a: Vec3) -> bool {
    a.x.raw == 0 && a.y.raw == 0 && a.z.raw == 0
}

impl Vec3 {
    pub open spec fn wf(self) -> bool {
        self.x.wf() && self.y.wf() && self.z.wf()
    }

    pub fn new(x: Fixed, y: Fixed, z: Fixed) -> (r: Vec3)
        ensures
            r == v3(x, y, z),
    {
        Vec3 { x, y, z }
    }

    pub fn zero() -> (r: Vec3)
        ensures
            r == v3(fx(0), fx(0), fx(0)),
    {
        Vec3 { x: Fixed::zero(), y: Fixed::zero(), z: Fixed::zero() }
    }

    /// The vector with the three integer components given.
    pub fn from_ints(x: i32, y: i32, z: i32) -> (r: Vec3)
        ensures
            r == v3(fx_from_int(x as int), fx_from_int(y as int), fx_from_int(z as int)),
    {
        Vec3 { x: Fixed::from_int(x as i64), y: Fixed::from_int(y as i64), z: Fixed::from_int(z as i64) }
    }

    pub fn add(self, o: Vec3) -> (r: Vec3)
        ensures
            r == v_add(self, o),
    {
        Vec3 { x: self.x.add(o.x), y: self.y.add(o.y), z: self.z.add(o.z) }
    }

    pub fn sub(self, o: Vec3) -> (r: Vec3)
        ensures
            r == v_sub(self, o),
    {
        Vec3 { x: self.x.sub(o.x), y: self.y.sub(o.y), z: self.z.sub(o.z) }
    }

    pub fn neg(self) -> (r: Vec3)
        ensures
            r == v_neg(self),
    {
        Vec3 { x: self.x.neg(), y: self.y.neg(), z: self.z.neg() }
    }

    /// Each component multiplied by `k`.
    pub fn scale(self, k: Fixed) -> (r: Vec3)
        ensures
            r == v_scale(k, self),
    {
        Vec3 { x: k.mul(self.x), y: k.mul(self.y), z: k.mul(self.z) }
    }

    /// Component-wise product.
    pub fn mul(self, o: Vec3) -> (r: Vec3)
        ensures
            r == v_mul(self, o),
    {
        Vec3 { x: self.x.mul(o.x), y: self.y.mul(o.y), z: self.z.mul(o.z) }
    }

    pub fn div(self, k: Fixed) -> (r: Vec3)
        ensures
            r == v_div(self, k),
    {
        Vec3 { x: self.x.div(k), y: self.y.div(k), z: self.z.div(k) }
    }

    pub fn dot(self, o: Vec3) -> (r: Fixed)
        ensures
            r == v_dot(self, o),
    {
        Fixed::sum3(self.x.mul(o.x), self.y.mul(o.y), self.z.mul(o.z))
    }

    pub fn cross(self, o: Vec3) -> (r: Vec3)
        ensures
            r == v_cross(self, o),
    {
        Vec3 {
            x: self.y.mul(o.z).sub(self.z.mul(o.y)),
            y: self.z.mul(o.x).sub(self.x.mul(o.z)),
            z: self.x.mul(o.y).sub(self.y.mul(o.x)),
        }
    }

    pub fn length_squared(self) -> (r: Fixed)
        ensures
            r == v_length_squared(self),
    {
        self.dot(self)
    }

    pub fn length(self) -> (r: Fixed)
        ensures
            r == v_length(self),
    {
        self.length_squared().sqrt()
    }

    /// The vector divided by its length; the zero vector stays zero.
    pub fn normalize(self) -> (r: Vec3)
        ensures
            r == v_normalize(self),
    {
        self.div(self.length())
    }

    /// Every component is below 1e-8 in magnitude; at the resolution of
    /// `Fixed` that leaves only zero.
    pub fn near_zero(self) -> (r: bool)
        ensures
            r == v_is_zero(self),
    {
        self.x.raw == 0 && self.y.raw == 0 && self.z.raw == 0
    }
}

} // verus!
