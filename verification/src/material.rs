//! What a surface does to the light that meets it.

use vstd::prelude::*;
use crate::scalar::{Scalar, Extended};
use crate::vec3::Vec3;
use crate::color::Color;
use crate::ray::{Ray, HitRecord};

verus! {

/// A matte surface: scatters about the normal, tinted by `albedo`.
#[derive(Clone, Copy, Debug)]
pub struct Lambertian {
    pub albedo: Color,
}

/// A mirror, blurred by `fuzz`, which is never above 1.
#[derive(Clone, Copy, Debug)]
pub struct Metal {
    pub albedo: Color,
    pub fuzz: Scalar,
}

/// Clear glass with the given index of refraction.
#[derive(Clone, Copy, Debug)]
pub struct Dielectric {
    pub refraction_idx: Scalar,
}

#[derive(Clone, Copy, Debug)]
pub enum Material {
    Lambertian(Lambertian),
    Metal(Metal),
    Dielectric(Dielectric),
}

/// What leaves a surface: the ray, and how much of each colour it keeps.
#[derive(Clone, Copy, Debug)]
pub struct Scattered {
    pub attenuation: Color,
    pub ray: Ray,
}

impl Lambertian {
    pub fn new(color: Color) -> (m: Lambertian)
        ensures
            m.albedo == color,
    {
        Lambertian { albedo: color }
    }

    /// The direction a matte surface scatters in. `candidate` is the normal
    /// plus a random unit vector; where the two nearly cancel, the normal
    /// itself serves.
    pub open spec fn direction(rec: HitRecord, candidate: Vec3) -> Vec3 {
        if candidate.spec_near_zero() {
            rec.normal
        } else {
            candidate
        }
    }

    /// Always scatters: from the point of the hit, in `direction`, and keeps
    /// of each colour exactly what the albedo gives.
    pub fn scatter(&self, hit_rec: &HitRecord, candidate: Vec3) -> (s: Scattered)
        ensures
            s.attenuation == self.albedo,
            s.ray.origin == hit_rec.p,
            s.ray.dir == Lambertian::direction(*hit_rec, candidate),
    {
        let scatter_direction = if candidate.near_zero() {
            hit_rec.normal
        } else {
            candidate
        };
        Scattered { attenuation: self.albedo, ray: Ray::new(hit_rec.p, scatter_direction) }
    }
}

impl Metal {
    /// The fuzz that a metal keeps of `fuzz_factor`: itself below 1, else 1.
    pub open spec fn clamped_fuzz(fuzz_factor: Scalar) -> Scalar {
        if fuzz_factor.spec_lt(Scalar::spec_one()) {
            fuzz_factor
        } else {
            Scalar::spec_one()
        }
    }

    pub fn new(color: Color, fuzz_factor: Scalar) -> (m: Metal)
        ensures
            m.albedo == color,
            m.fuzz == Metal::clamped_fuzz(fuzz_factor),
            m.fuzz.spec_le(Scalar::spec_one()),
    {
        proof {
            crate::scalar::lemma_one_is_finite();
        }
        let result = if fuzz_factor.lt(Scalar::one()) {
            fuzz_factor
        } else {
            Scalar::one()
        };
        Metal { albedo: color, fuzz: result }
    }

    /// Scatters along `reflected`, the mirrored direction after the fuzz was
    /// added, unless that points into the surface: `facing` is the product
    /// of `reflected` with the normal, and the ray lives where it is above
    /// zero.
    pub fn scatter(&self, hit_rec: &HitRecord, reflected: Vec3, facing: Scalar) -> (s: Option<Scattered>)
        ensures
            s is Some <==> Scalar::spec_zero().spec_lt(facing),
            s matches Some(out) ==> out.attenuation == self.albedo && out.ray.origin == hit_rec.p
                && out.ray.dir == reflected,
    {
        if Scalar::zero().lt(facing) {
            Some(Scattered { attenuation: self.albedo, ray: Ray::new(hit_rec.p, reflected) })
        } else {
            None
        }
    }
}

impl Dielectric {
    pub fn new(refraction_idx: Scalar) -> (m: Dielectric)
        ensures
            m.refraction_idx == refraction_idx,
    {
        Dielectric { refraction_idx }
    }

    /// Whether the ray enters the glass, so that the ratio of the indices is
    /// one over this glass's index; leaving it, the ratio is the index.
    pub fn inverts_index(&self, hit_rec: &HitRecord) -> (r: bool)
        ensures
            r == hit_rec.front_face,
    {
        hit_rec.front_face
    }

    /// The cosine of the angle of incidence that the glass works with:
    /// `raw`, the product of the reversed unit direction with the normal,
    /// but never above 1.
    pub open spec fn spec_cosine(raw: Scalar) -> Scalar {
        if raw.spec_lt(Scalar::spec_one()) {
            raw
        } else {
            Scalar::spec_one()
        }
    }

    #[verifier::when_used_as_spec(spec_cosine)]
    pub fn cosine(raw: Scalar) -> (c: Scalar)
        ensures
            c == Dielectric::spec_cosine(raw),
            c.spec_le(Scalar::spec_one()),
    {
        proof {
            crate::scalar::lemma_one_is_finite();
        }
        if raw.lt(Scalar::one()) {
            raw
        } else {
            Scalar::one()
        }
    }

    /// Whether glass mirrors the ray. `bend` is the ratio of the indices
    /// times the sine of the angle of incidence: above 1 no refracted ray
    /// exists. Else the ray is mirrored where `reflectance` exceeds `draw`.
    pub open spec fn spec_reflects(bend: Scalar, reflectance: Scalar, draw: Scalar) -> bool {
        Scalar::spec_one().spec_lt(bend) || draw.spec_lt(reflectance)
    }

    #[verifier::when_used_as_spec(spec_reflects)]
    pub fn reflects(bend: Scalar, reflectance: Scalar, draw: Scalar) -> (r: bool)
        ensures
            r == Dielectric::spec_reflects(bend, reflectance, draw),
    {
        Scalar::one().lt(bend) || draw.lt(reflectance)
    }

    /// Always scatters, along the direction that the caller mirrored or
    /// refracted, and takes no light away.
    pub fn scatter(&self, hit_rec: &HitRecord, direction: Vec3) -> (s: Scattered)
        ensures
            s.attenuation == crate::color::spec_white(),
            s.ray.origin == hit_rec.p,
            s.ray.dir == direction,
    {
        Scattered { attenuation: crate::color::white(), ray: Ray::new(hit_rec.p, direction) }
    }
}

/// Past the critical angle glass only mirrors: no reflectance and no draw
/// lets the ray through.
pub proof fn lemma_total_internal_reflection(bend: Scalar, reflectance: Scalar, draw: Scalar)
    requires
        Scalar::spec_one().spec_lt(bend),
    ensures
        Dielectric::spec_reflects(bend, reflectance, draw),
{
}

} // verus!
