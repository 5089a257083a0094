//! Rays, the record of where one meets a surface, and the scene.

use vstd::prelude::*;
use crate::scalar::{Scalar, Extended};
use crate::vec3::{Vec3, Point3};
use crate::material::Material;
use crate::interval::Interval;
use crate::sphere::{Sphere, Roots};

verus! {

#[derive(Clone, Copy, Debug)]
pub struct Ray {
    pub origin: Point3,
    pub dir: Vec3,
}

impl Ray {
    pub fn new(orig: Point3, direction: Vec3) -> (r: Ray)
        ensures
            r.origin == orig,
            r.dir == direction,
    {
        Ray { origin: orig, dir: direction }
    }

    pub fn origin(&self) -> (p: Point3)
        ensures
            p == self.origin,
    {
        self.origin
    }

    pub fn dir(&self) -> (v: Vec3)
        ensures
            v == self.dir,
    {
        self.dir
    }
}

/// Where a ray met a surface: the point `p` at parameter `t`, the unit normal
/// turned against the ray, whether the ray came from outside, and the
/// material of the surface.
#[derive(Clone, Copy, Debug)]
pub struct HitRecord<'a> {
    pub p: Point3,
    pub normal: Vec3,
    pub t: Scalar,
    pub front_face: bool,
    pub mat: Option<&'a Material>,
}

/// The product of a ray's direction with a normal, after the normal was
/// turned against the ray: `facing` itself where it is below zero, else its
/// negation.
pub open spec fn against_ray(facing: Scalar) -> Scalar {
    if facing.spec_lt(Scalar::spec_zero()) {
        facing
    } else {
        facing.spec_neg()
    }
}

/// What a ray can meet. The caller solves the ray against the surface in
/// its own arithmetic and hands in what it solved; the surface says whether
/// that is a hit inside the range, and which.
pub trait Hittable {
    /// What the caller solved of a ray against this surface.
    type Solved;

    /// What a hit is known by.
    type Hit;

    /// Whether `solved` has the shape that this surface asks for.
    spec fn fits(&self, solved: &Self::Solved) -> bool;

    fn hit(&self, solved: &Self::Solved, ray_t: &Interval) -> (found: Option<Self::Hit>)
        requires
            self.fits(solved),
    ;
}

pub trait SetFaceNormal {
    /// Turns `outward_normal` against the ray. `facing` is the product of the
    /// ray's direction with `outward_normal`.
    fn set_face_normal(&mut self, facing: Scalar, outward_normal: &Vec3);
}

impl<'a> SetFaceNormal for HitRecord<'a> {
    fn set_face_normal(&mut self, facing: Scalar, outward_normal: &Vec3)
        ensures
            final(self).front_face == facing.spec_lt(Scalar::spec_zero()),
            final(self).normal == (if final(self).front_face {
                *outward_normal
            } else {
                outward_normal.spec_neg()
            }),
            final(self).p == old(self).p,
            final(self).t == old(self).t,
            final(self).mat == old(self).mat,
    {
        self.front_face = facing.lt(Scalar::zero());
        if self.front_face {
            self.normal = *outward_normal;
        } else {
            self.normal = outward_normal.neg();
        }
    }
}

impl<'a> HitRecord<'a> {
    /// A record of nothing: the origin, no normal, parameter zero, no
    /// material.
    pub fn new_empty() -> (r: HitRecord<'a>)
        ensures
            r.p == Vec3::spec_new_empty(),
            r.normal == Vec3::spec_new_empty(),
            r.t == Scalar::spec_zero(),
            !r.front_face,
            r.mat is None,
    {
        HitRecord {
            p: Vec3::new_empty(),
            normal: Vec3::new_empty(),
            t: Scalar::zero(),
            front_face: false,
            mat: None,
        }
    }
}

/// A normal that was turned against the ray never points along it. Turning
/// the normal flips the sign of every term of its product with the
/// direction, so the product after the turn is `against_ray(facing)`; and
/// that, whatever number `facing` is, is at most zero.
pub proof fn lemma_normal_opposes_ray(facing: Scalar)
    requires
        !facing.is_nan(),
    ensures
        against_ray(facing).spec_le(Scalar::spec_zero()),
        against_ray(facing)@ == (if facing@.lt(Extended::Finite(0)) { facing@ } else { facing@.neg() }),
{
}

/// The scene: the surfaces a ray may meet, in the order they were added.
pub struct HittableList<'a> {
    objects: Vec<Sphere<'a>>,
}

/// The surface a ray meets first, by its place in the scene, and the
/// parameter at which it does.
#[derive(Clone, Copy, Debug)]
pub struct Nearest {
    pub index: usize,
    pub t: Scalar,
}

/// No surface is met inside `ray_t`.
pub open spec fn all_miss(roots: Seq<Roots>, ray_t: Interval) -> bool {
    forall|j: int| 0 <= j < roots.len() ==> (#[trigger] roots[j]).first_inside(ray_t) is None
}

/// Surface `index` is met at `t` inside `ray_t`, no surface is met before
/// `t`, and none that was added earlier is met at `t` itself.
pub open spec fn is_nearest(roots: Seq<Roots>, ray_t: Interval, index: int, t: Scalar) -> bool {
    &&& 0 <= index < roots.len()
    &&& roots[index].first_inside(ray_t) == Some(t)
    &&& forall|j: int|
        0 <= j < roots.len() ==> ((#[trigger] roots[j]).first_inside(ray_t) matches Some(tj)
            ==> t.spec_le(tj))
    &&& forall|j: int|
        0 <= j < index ==> ((#[trigger] roots[j]).first_inside(ray_t) matches Some(tj)
            ==> t.spec_lt(tj))
}

impl<'a> View for HittableList<'a> {
    type V = Seq<Sphere<'a>>;

    closed spec fn view(&self) -> Seq<Sphere<'a>> {
        self.objects@
    }
}

impl<'a> HittableList<'a> {
    /// The empty scene.
    pub fn new() -> (world: HittableList<'a>)
        ensures
            world@ == Seq::<Sphere<'a>>::empty(),
    {
        HittableList { objects: Vec::new() }
    }

    /// Puts `object` behind the surfaces that are there.
    pub fn add(&mut self, object: Sphere<'a>)
        ensures
            final(self)@ == old(self)@.push(object),
    {
        self.objects.push(object);
    }

    pub fn len(&self) -> (n: usize)
        ensures
            n == self@.len(),
    {
        self.objects.len()
    }

    pub fn get(&self, i: usize) -> (object: &Sphere<'a>)
        requires
            i < self@.len(),
        ensures
            *object == self@[i as int],
    {
        &self.objects[i]
    }

}

impl<'a> Hittable for HittableList<'a> {
    type Solved = Vec<Roots>;

    type Hit = Nearest;

    /// One quadratic for each surface.
    open spec fn fits(&self, roots: &Vec<Roots>) -> bool {
        roots@.len() == self@.len()
    }

    /// The nearest hit inside `ray_t`. `roots[i]` is the quadratic of the ray
    /// against surface `i`. The scan keeps the nearest hit so far and lets a
    /// later surface in only below it.
    fn hit(&self, roots: &Vec<Roots>, ray_t: &Interval) -> (nearest: Option<Nearest>)
        ensures
            nearest matches Some(h) ==> is_nearest(roots@, *ray_t, h.index as int, h.t),
            nearest is None ==> all_miss(roots@, *ray_t),
    {
        let mut best: Option<Nearest> = None;
        let mut closest_so_far = ray_t.max;
        let n = self.objects.len();
        let mut i: usize = 0;
        while i < n
            invariant
                i <= n,
                n == self.objects@.len(),
                roots@.len() == n,
                closest_so_far == (match best {
                    Some(h) => h.t,
                    None => ray_t.max,
                }),
                best matches Some(h) ==> h.index < i && is_nearest(
                    roots@.subrange(0, i as int),
                    *ray_t,
                    h.index as int,
                    h.t,
                ),
                best is None ==> all_miss(roots@.subrange(0, i as int), *ray_t),
            decreases n - i,
        {
            let within = Interval::new(ray_t.min, closest_so_far);
            let candidate = &roots[i];
            let found = self.objects[i].hit(candidate, &within);
            proof {
                let before = roots@.subrange(0, i as int);
                let after = roots@.subrange(0, i + 1);
                use_type_invariant(candidate);
                assert(roots@[i as int].ordered());
                assert(after[i as int] == roots@[i as int]);
                assert forall|j: int| 0 <= j < i implies after[j] == before[j] by {}
                match found {
                    Some(t) => {
                        assert(is_nearest(after, *ray_t, i as int, t)) by {
                            assert forall|j: int| 0 <= j < after.len() implies ((
                            #[trigger] after[j]).first_inside(*ray_t) matches Some(tj)
                                ==> t.spec_le(tj)) by {
                                if j < i {
                                    assert(after[j] == before[j]);
                                }
                            }
                            assert forall|j: int| 0 <= j < i implies ((
                            #[trigger] after[j]).first_inside(*ray_t) matches Some(tj)
                                ==> t.spec_lt(tj)) by {
                                assert(after[j] == before[j]);
                            }
                        }
                    },
                    None => {
                        match best {
                            Some(h) => {
                                assert(after[h.index as int] == before[h.index as int]);
                                assert(is_nearest(after, *ray_t, h.index as int, h.t)) by {
                                    assert forall|j: int| 0 <= j < after.len() implies ((
                                    #[trigger] after[j]).first_inside(*ray_t) matches Some(tj)
                                        ==> h.t.spec_le(tj)) by {
                                        if j < i {
                                            assert(after[j] == before[j]);
                                        }
                                    }
                                    assert forall|j: int| 0 <= j < h.index implies ((
                                    #[trigger] after[j]).first_inside(*ray_t) matches Some(tj)
                                        ==> h.t.spec_lt(tj)) by {
                                        assert(after[j] == before[j]);
                                    }
                                }
                            },
                            None => {
                                assert forall|j: int| 0 <= j < after.len() implies (
                                #[trigger] after[j]).first_inside(*ray_t) is None by {
                                    if j < i {
                                        assert(after[j] == before[j]);
                                    }
                                }
                            },
                        }
                    },
                }
            }
            match found {
                Some(t) => {
                    closest_so_far = t;
                    best = Some(Nearest { index: i, t });
                },
                None => {},
            }
            i = i + 1;
        }
        proof {
            assert(roots@.subrange(0, n as int) == roots@);
        }
        best
    }
}

} // verus!
