//! Three numbers in a row: a point, a direction or a colour.

use vstd::prelude::*;
use crate::scalar::Scalar;

verus! {

/// The encoding of 1e-8, the bound under which a component counts as zero.
pub const NEAR_ZERO_BITS: u64 = 0x3e45_798e_e230_8c3a;

#[derive(Clone, Copy, Debug)]
pub struct Vec3 {
    pub e0: Scalar,
    pub e1: Scalar,
    pub e2: Scalar,
}

pub type Point3 = Vec3;

impl Vec3 {
    /// The component at `i`.
    pub open spec fn component(self, i: int) -> Scalar
        recommends
            0 <= i < 3,
    {
        if i == 0 {
            self.e0
        } else if i == 1 {
            self.e1
        } else {
            self.e2
        }
    }

    pub open spec fn spec_new_empty() -> Vec3 {
        Vec3 { e0: Scalar::spec_zero(), e1: Scalar::spec_zero(), e2: Scalar::spec_zero() }
    }

    /// The vector with every sign flipped.
    pub open spec fn spec_neg(self) -> Vec3 {
        Vec3 { e0: self.e0.spec_neg(), e1: self.e1.spec_neg(), e2: self.e2.spec_neg() }
    }

    /// Every component lies strictly within 1e-8 of zero.
    pub open spec fn spec_near_zero(&self) -> bool {
        let s = Scalar { bits: NEAR_ZERO_BITS };
        self.e0.spec_abs().spec_lt(s) && self.e1.spec_abs().spec_lt(s) && self.e2.spec_abs().spec_lt(s)
    }

    pub fn new(x: Scalar, y: Scalar, z: Scalar) -> (v: Vec3)
        ensures
            v == (Vec3 { e0: x, e1: y, e2: z }),
    {
        Vec3 { e0: x, e1: y, e2: z }
    }

    /// The zero vector.
    #[verifier::when_used_as_spec(spec_new_empty)]
    pub fn new_empty() -> (v: Vec3)
        ensures
            v == Vec3::spec_new_empty(),
    {
        Vec3 { e0: Scalar::zero(), e1: Scalar::zero(), e2: Scalar::zero() }
    }

    pub fn get(&self, i: usize) -> (s: Scalar)
        requires
            i < 3,
        ensures
            s == self.component(i as int),
    {
        if i == 0 {
            self.e0
        } else if i == 1 {
            self.e1
        } else {
            self.e2
        }
    }

    /// The component at `i`, to be written: the other two stay.
    pub fn get_mut(&mut self, i: usize) -> (s: &mut Scalar)
        requires
            i < 3,
        ensures
            *s == old(self).component(i as int),
            final(self).component(i as int) == *final(s),
            forall|j: int| 0 <= j < 3 && j != i ==> final(self).component(j) == old(self).component(j),
    {
        if i == 0 {
            &mut self.e0
        } else if i == 1 {
            &mut self.e1
        } else {
            &mut self.e2
        }
    }

    pub fn x(&self) -> (s: Scalar)
        ensures
            s == self.e0,
    {
        self.e0
    }

    pub fn y(&self) -> (s: Scalar)
        ensures
            s == self.e1,
    {
        self.e1
    }

    pub fn z(&self) -> (s: Scalar)
        ensures
            s == self.e2,
    {
        self.e2
    }

    /// `-self`, exact in every component.
    #[verifier::when_used_as_spec(spec_neg)]
    pub fn neg(self) -> (v: Vec3)
        ensures
            v == self.spec_neg(),
    {
        Vec3 { e0: self.e0.neg(), e1: self.e1.neg(), e2: self.e2.neg() }
    }

    /// Whether the vector is too short to serve as a direction.
    #[verifier::when_used_as_spec(spec_near_zero)]
    pub fn near_zero(&self) -> (r: bool)
        ensures
            r == self.spec_near_zero(),
    {
        let s = Scalar::from_bits(NEAR_ZERO_BITS);
        self.e0.abs().lt(s) && self.e1.abs().lt(s) && self.e2.abs().lt(s)
    }
}

} // verus!
