//! The sphere, and where a ray meets it.

use vstd::prelude::*;
use crate::scalar::Scalar;
use crate::vec3::{Point3, Vec3};
use crate::ray::{HitRecord, Hittable, SetFaceNormal};
use crate::interval::Interval;
use crate::material::Material;

verus! {

/// A sphere. Its radius is never below zero.
#[derive(Clone, Copy, Debug)]
pub struct Sphere<'a> {
    center: Point3,
    radius: Scalar,
    mat: &'a Material,
}

/// What the quadratic of a ray against a sphere came to: its discriminant,
/// and the two parameters at which the ray crosses the surface, the one that
/// subtracts the root of the discriminant first. The far one is never below
/// the near one.
#[derive(Clone, Copy, Debug)]
pub struct Roots {
    discriminant: Scalar,
    near: Scalar,
    far: Scalar,
}

impl Roots {
    pub closed spec fn spec_discriminant(&self) -> Scalar {
        self.discriminant
    }

    pub closed spec fn spec_near(&self) -> Scalar {
        self.near
    }

    pub closed spec fn spec_far(&self) -> Scalar {
        self.far
    }

    /// The far root is not below the near one (of two numbers; a NaN is in
    /// no order, and is never inside a range).
    #[verifier::type_invariant]
    pub open spec fn ordered(&self) -> bool {
        !self.spec_far().spec_lt(self.spec_near())
    }

    /// The parameter of the hit inside `ray_t`: none under a negative
    /// discriminant; else the near root where `ray_t` surrounds it; else the
    /// far one where `ray_t` surrounds that; else none.
    pub open spec fn first_inside(self, ray_t: Interval) -> Option<Scalar> {
        if self.spec_discriminant().spec_lt(Scalar::spec_zero()) {
            None
        } else if ray_t.spec_surrounds(self.spec_near()) {
            Some(self.spec_near())
        } else if ray_t.spec_surrounds(self.spec_far()) {
            Some(self.spec_far())
        } else {
            None
        }
    }

    /// The roots, unless `far` is below `near`.
    pub fn new(discriminant: Scalar, near: Scalar, far: Scalar) -> (r: Option<Roots>)
        ensures
            r is Some <==> !far.spec_lt(near),
            r matches Some(roots) ==> roots.spec_discriminant() == discriminant && roots.spec_near()
                == near && roots.spec_far() == far,
    {
        if far.lt(near) {
            None
        } else {
            Some(Roots { discriminant, near, far })
        }
    }

    #[verifier::when_used_as_spec(spec_discriminant)]
    pub fn discriminant(&self) -> (d: Scalar)
        ensures
            d == self.spec_discriminant(),
    {
        self.discriminant
    }

    #[verifier::when_used_as_spec(spec_near)]
    pub fn near(&self) -> (t: Scalar)
        ensures
            t == self.spec_near(),
    {
        self.near
    }

    #[verifier::when_used_as_spec(spec_far)]
    pub fn far(&self) -> (t: Scalar)
        ensures
            t == self.spec_far(),
            self.ordered(),
    {
        proof {
            use_type_invariant(self);
        }
        self.far
    }
}

impl<'a> Sphere<'a> {
    /// The radius that a sphere keeps of `radius`: itself where it is zero
    /// or more, else zero.
    pub open spec fn clamped_radius(radius: Scalar) -> Scalar {
        if Scalar::spec_zero().spec_le(radius) {
            radius
        } else {
            Scalar::spec_zero()
        }
    }

    pub closed spec fn spec_center(&self) -> Point3 {
        self.center
    }

    pub closed spec fn spec_radius(&self) -> Scalar {
        self.radius
    }

    pub closed spec fn spec_material(&self) -> &'a Material {
        self.mat
    }

    #[verifier::type_invariant]
    spec fn radius_not_negative(&self) -> bool {
        Scalar::spec_zero().spec_le(self.radius)
    }

    pub fn new(center: Point3, radius: Scalar, mat: &'a Material) -> (s: Sphere<'a>)
        ensures
            s.spec_center() == center,
            s.spec_radius() == Sphere::clamped_radius(radius),
            Scalar::spec_zero().spec_le(s.spec_radius()),
            s.spec_material() == mat,
    {
        let r = if Scalar::zero().le(radius) {
            radius
        } else {
            Scalar::zero()
        };
        Sphere { center, radius: r, mat }
    }

    #[verifier::when_used_as_spec(spec_center)]
    pub fn center(&self) -> (p: Point3)
        ensures
            p == self.spec_center(),
    {
        self.center
    }

    #[verifier::when_used_as_spec(spec_radius)]
    pub fn radius(&self) -> (r: Scalar)
        ensures
            r == self.spec_radius(),
            Scalar::spec_zero().spec_le(r),
    {
        proof {
            use_type_invariant(self);
        }
        self.radius
    }

    #[verifier::when_used_as_spec(spec_material)]
    pub fn material(&self) -> (m: &'a Material)
        ensures
            m == self.spec_material(),
    {
        self.mat
    }

    /// The record of a hit on this sphere at parameter `t`. `p` is the point
    /// of the ray at `t` and `outward_normal` the unit vector from the centre
    /// to `p`; `facing` is the product of the ray's direction with
    /// `outward_normal`. The normal of the record is turned against the ray,
    /// and its material is this sphere's.
    pub fn record(&self, t: Scalar, p: Point3, outward_normal: &Vec3, facing: Scalar) -> (rec: HitRecord<'a>)
        ensures
            rec.t == t,
            rec.p == p,
            rec.front_face == facing.spec_lt(Scalar::spec_zero()),
            rec.normal == (if rec.front_face {
                *outward_normal
            } else {
                outward_normal.spec_neg()
            }),
            rec.mat == Some(self.spec_material()),
    {
        let mut rec = HitRecord::new_empty();
        rec.t = t;
        rec.p = p;
        rec.set_face_normal(facing, outward_normal);
        rec.mat = Some(self.mat);
        rec
    }
}

impl<'a> Hittable for Sphere<'a> {
    type Solved = Roots;

    type Hit = Scalar;

    open spec fn fits(&self, roots: &Roots) -> bool {
        true
    }

    /// The parameter at which the ray meets this sphere inside `ray_t`, if
    /// it does. `roots` is the quadratic of the ray against this sphere.
    fn hit(&self, roots: &Roots, ray_t: &Interval) -> (t: Option<Scalar>)
        ensures
            t == roots.first_inside(*ray_t),
    {
        if roots.discriminant().lt(Scalar::zero()) {
            return None;
        }
        let mut root = roots.near();
        if !ray_t.surrounds(root) {
            root = roots.far();
            if !ray_t.surrounds(root) {
                return None;
            }
        }
        Some(root)
    }
}

/// Of the two crossings of a sphere, a ray meets the near one where that
/// lies in range. Where the near one lies at or before the start of the
/// range, as it does for a ray that starts inside the sphere, the ray meets
/// the far one, and that is then the only crossing in range.
pub proof fn lemma_first_crossing(roots: Roots, ray_t: Interval)
    requires
        roots.ordered(),
        !roots.spec_discriminant().spec_lt(Scalar::spec_zero()),
    ensures
        ray_t.spec_surrounds(roots.spec_near()) ==> roots.first_inside(ray_t) == Some(
            roots.spec_near(),
        ),
        roots.spec_near().spec_le(ray_t.min) && ray_t.spec_surrounds(roots.spec_far())
            ==> roots.first_inside(ray_t) == Some(roots.spec_far()) && !ray_t.spec_surrounds(
            roots.spec_near(),
        ),
        roots.first_inside(ray_t) matches Some(t) ==> ray_t.spec_surrounds(t) && (t
            == roots.spec_near() || t == roots.spec_far()),
        roots.first_inside(ray_t) is None ==> !ray_t.spec_surrounds(roots.spec_near())
            && !ray_t.spec_surrounds(roots.spec_far()),
{
}

} // verus!
