use pathtracer::interval::Interval;
use pathtracer::material::{Lambertian, Material};
use pathtracer::ray::{HitRecord, Hittable, HittableList, Ray, SetFaceNormal};
use pathtracer::scalar::Scalar;
use pathtracer::sphere::{Roots, Sphere};
use pathtracer::vec3::Vec3;

fn s(x: f64) -> Scalar {
    Scalar::from_bits(x.to_bits())
}

fn f(x: Scalar) -> f64 {
    f64::from_bits(x.to_bits())
}

fn v(x: f64, y: f64, z: f64) -> Vec3 {
    Vec3::new(s(x), s(y), s(z))
}

fn xyz(a: Vec3) -> [f64; 3] {
    [f(a.x()), f(a.y()), f(a.z())]
}

fn dot(a: [f64; 3], b: [f64; 3]) -> f64 {
    a[0] * b[0] + a[1] * b[1] + a[2] * b[2]
}

fn sub(a: [f64; 3], b: [f64; 3]) -> [f64; 3] {
    [a[0] - b[0], a[1] - b[1], a[2] - b[2]]
}

fn matte() -> Material {
    Material::Lambertian(Lambertian::new(v(0.5, 0.5, 0.5)))
}

/// The quadratic of a ray against a sphere, in hardware arithmetic.
fn solve(center: [f64; 3], radius: f64, origin: [f64; 3], dir: [f64; 3]) -> Roots {
    let oc = sub(center, origin);
    let a = dot(dir, dir);
    let h = dot(dir, oc);
    let c = dot(oc, oc) - radius * radius;
    let discriminant = h * h - a * c;
    let sqrtd = discriminant.sqrt();
    Roots::new(s(discriminant), s((h - sqrtd) / a), s((h + sqrtd) / a)).unwrap()
}

fn forward() -> Interval {
    Interval::new(s(0.001), Scalar::infinity())
}

#[test]
fn vector_keeps_its_components() {
    let a = v(1.0, -2.0, 3.5);
    assert_eq!(xyz(a), [1.0, -2.0, 3.5]);
    assert_eq!(f(a.get(0)), 1.0);
    assert_eq!(f(a.get(1)), -2.0);
    assert_eq!(f(a.get(2)), 3.5);
    assert_eq!(xyz(Vec3::new_empty()), [0.0, 0.0, 0.0]);
}

#[test]
fn vector_component_can_be_written() {
    let mut a = v(1.0, 2.0, 3.0);
    *a.get_mut(1) = s(9.0);
    assert_eq!(xyz(a), [1.0, 9.0, 3.0]);
    *a.get_mut(0) = s(-1.0);
    *a.get_mut(2) = s(0.5);
    assert_eq!(xyz(a), [-1.0, 9.0, 0.5]);
}

#[test]
fn vector_negation_is_exact() {
    assert_eq!(xyz(v(1.0, -2.0, 0.0).neg()), [-1.0, 2.0, -0.0]);
    assert_eq!(v(0.0, 0.0, 0.0).neg().z().to_bits(), (-0.0f64).to_bits());
}

#[test]
fn near_zero_is_strictly_within_the_bound() {
    assert!(v(0.0, 0.0, 0.0).near_zero());
    assert!(v(9.9e-9, -9.9e-9, 1e-300).near_zero());
    assert!(!v(1e-8, 0.0, 0.0).near_zero());
    assert!(!v(0.0, -1e-8, 0.0).near_zero());
    assert!(!v(0.0, 0.0, 1.0).near_zero());
    assert!(!v(f64::NAN, 0.0, 0.0).near_zero());
}

#[test]
fn ray_keeps_origin_and_direction() {
    let r = Ray::new(v(1.0, 2.0, 3.0), v(0.0, 0.0, -1.0));
    assert_eq!(xyz(r.origin()), [1.0, 2.0, 3.0]);
    assert_eq!(xyz(r.dir()), [0.0, 0.0, -1.0]);
}

#[test]
fn interval_contains_its_bounds() {
    let i = Interval::new(s(1.0), s(2.0));
    assert!(i.contains(s(1.0)));
    assert!(i.contains(s(1.5)));
    assert!(i.contains(s(2.0)));
    assert!(!i.contains(s(0.999)));
    assert!(!i.contains(s(2.0000000000000004)));
    assert!(!i.contains(s(f64::NAN)));
}

#[test]
fn interval_surrounds_only_its_interior() {
    let i = Interval::new(s(1.0), s(2.0));
    assert!(i.surrounds(s(1.5)));
    assert!(i.surrounds(s(1.0000000000000002)));
    assert!(!i.surrounds(s(1.0)));
    assert!(!i.surrounds(s(2.0)));
    assert!(!i.surrounds(s(3.0)));
    assert!(!i.surrounds(s(0.0)));
    assert!(!i.surrounds(s(f64::NAN)));
}

#[test]
fn interval_clamps_to_its_bounds() {
    let i = Interval::new(s(0.0), s(0.999));
    assert_eq!(f(i.clamp(s(-3.0))), 0.0);
    assert_eq!(f(i.clamp(s(0.25))), 0.25);
    assert_eq!(f(i.clamp(s(0.999))), 0.999);
    assert_eq!(f(i.clamp(s(1.5))), 0.999);
    assert_eq!(f(i.clamp(s(f64::INFINITY))), 0.999);
    assert!(f(i.clamp(s(f64::NAN))).is_nan());
}

#[test]
fn empty_interval_holds_nothing_and_universe_everything() {
    let empty = Interval::new_empty();
    let all = Interval::universe();
    assert_eq!(f(empty.min), f64::INFINITY);
    assert_eq!(f(empty.max), f64::NEG_INFINITY);
    assert_eq!(f(all.min), f64::NEG_INFINITY);
    assert_eq!(f(all.max), f64::INFINITY);
    for x in [f64::NEG_INFINITY, -1e300, -1.0, 0.0, 1.0, 1e300, f64::INFINITY] {
        assert!(!empty.contains(s(x)));
        assert!(!empty.surrounds(s(x)));
        assert!(all.contains(s(x)));
    }
    assert!(all.surrounds(s(0.0)));
    assert!(!all.contains(s(f64::NAN)));
}

#[test]
fn sphere_radius_is_never_negative() {
    let m = matte();
    assert_eq!(f(Sphere::new(v(0.0, 0.0, 0.0), s(2.0), &m).radius()), 2.0);
    assert_eq!(f(Sphere::new(v(0.0, 0.0, 0.0), s(0.0), &m).radius()), 0.0);
    assert_eq!(f(Sphere::new(v(0.0, 0.0, 0.0), s(-2.0), &m).radius()), 0.0);
    assert_eq!(f(Sphere::new(v(0.0, 0.0, 0.0), s(f64::NAN), &m).radius()), 0.0);
    let sp = Sphere::new(v(1.0, 2.0, 3.0), s(4.0), &m);
    assert_eq!(xyz(sp.center()), [1.0, 2.0, 3.0]);
    assert!(matches!(sp.material(), Material::Lambertian(_)));
}

#[test]
fn roots_come_in_order_or_not_at_all() {
    assert!(Roots::new(s(1.0), s(1.0), s(2.0)).is_some());
    assert!(Roots::new(s(1.0), s(2.0), s(2.0)).is_some());
    assert!(Roots::new(s(1.0), s(2.0), s(1.0)).is_none());
    assert!(Roots::new(s(-1.0), s(f64::NAN), s(f64::NAN)).is_some());
    let r = Roots::new(s(4.0), s(0.5), s(1.5)).unwrap();
    assert_eq!(f(r.discriminant()), 4.0);
    assert_eq!(f(r.near()), 0.5);
    assert_eq!(f(r.far()), 1.5);
}

#[test]
fn ray_through_the_center_from_outside_meets_the_near_root() {
    let m = matte();
    let sp = Sphere::new(v(0.0, 0.0, -5.0), s(1.0), &m);
    let roots = solve([0.0, 0.0, -5.0], 1.0, [0.0, 0.0, 0.0], [0.0, 0.0, -1.0]);
    assert_eq!(f(roots.near()), 4.0);
    assert_eq!(f(roots.far()), 6.0);
    assert!(roots.near().lt(roots.far()));
    assert!(Scalar::zero().lt(roots.near()));
    assert_eq!(sp.hit(&roots, &forward()).map(f), Some(4.0));
}

#[test]
fn ray_from_inside_meets_the_far_root_only() {
    let m = matte();
    let sp = Sphere::new(v(0.0, 0.0, 0.0), s(2.0), &m);
    let roots = solve([0.0, 0.0, 0.0], 2.0, [0.5, 0.0, 0.0], [1.0, 0.0, 0.0]);
    assert_eq!(f(roots.near()), -2.5);
    assert_eq!(f(roots.far()), 1.5);
    let positive = [roots.near(), roots.far()].iter().filter(|t| forward().surrounds(**t)).count();
    assert_eq!(positive, 1);
    assert_eq!(sp.hit(&roots, &forward()).map(f), Some(1.5));
}

#[test]
fn ray_that_passes_by_meets_nothing() {
    let m = matte();
    let sp = Sphere::new(v(0.0, 0.0, -5.0), s(1.0), &m);
    let roots = solve([0.0, 0.0, -5.0], 1.0, [0.0, 3.0, 0.0], [0.0, 0.0, -1.0]);
    assert!(f(roots.discriminant()) < 0.0);
    assert!(sp.hit(&roots, &forward()).is_none());
}

#[test]
fn sphere_behind_the_ray_is_not_met() {
    let m = matte();
    let sp = Sphere::new(v(0.0, 0.0, 5.0), s(1.0), &m);
    let roots = solve([0.0, 0.0, 5.0], 1.0, [0.0, 0.0, 0.0], [0.0, 0.0, -1.0]);
    assert_eq!(f(roots.near()), -6.0);
    assert_eq!(f(roots.far()), -4.0);
    assert!(sp.hit(&roots, &forward()).is_none());
}

#[test]
fn roots_on_the_bounds_of_the_range_do_not_count() {
    let m = matte();
    let sp = Sphere::new(v(0.0, 0.0, 0.0), s(1.0), &m);
    let roots = Roots::new(s(1.0), s(1.0), s(3.0)).unwrap();
    assert_eq!(sp.hit(&roots, &Interval::new(s(1.0), s(4.0))).map(f), Some(3.0));
    assert_eq!(sp.hit(&roots, &Interval::new(s(1.0), s(3.0))).map(f), None);
    assert_eq!(sp.hit(&roots, &Interval::new(s(0.5), s(3.0))).map(f), Some(1.0));
    let negative = Roots::new(s(-1.0), s(1.0), s(3.0)).unwrap();
    assert_eq!(sp.hit(&negative, &Interval::new(s(0.0), s(4.0))).map(f), None);
}

#[test]
fn face_normal_turns_against_the_ray() {
    let outward = v(0.0, 0.0, 1.0);
    let mut rec = HitRecord::new_empty();
    rec.set_face_normal(s(-1.0), &outward);
    assert!(rec.front_face);
    assert_eq!(xyz(rec.normal), [0.0, 0.0, 1.0]);
    rec.set_face_normal(s(1.0), &outward);
    assert!(!rec.front_face);
    assert_eq!(xyz(rec.normal), [0.0, 0.0, -1.0]);
    rec.set_face_normal(s(0.0), &outward);
    assert!(!rec.front_face);
    assert_eq!(xyz(rec.normal), [0.0, 0.0, -1.0]);
}

#[test]
fn normal_opposes_the_ray_on_both_faces() {
    let m = matte();
    let center = [0.0, 0.0, 0.0];
    let sp = Sphere::new(v(0.0, 0.0, 0.0), s(2.0), &m);
    let rays = [
        ([0.0, 0.0, 5.0], [0.3, -0.2, -1.0]),
        ([0.5, 0.5, 0.0], [1.0, 2.0, -0.5]),
        ([-7.0, 1.0, 0.5], [1.0, 0.0, 0.0]),
        ([0.0, 0.0, 0.0], [0.0, 1.0, 0.0]),
    ];
    for (origin, dir) in rays {
        let roots = solve(center, 2.0, origin, dir);
        let t = sp.hit(&roots, &forward()).unwrap();
        let tf = f(t);
        let p = [origin[0] + tf * dir[0], origin[1] + tf * dir[1], origin[2] + tf * dir[2]];
        let outward = [(p[0] - center[0]) / 2.0, (p[1] - center[1]) / 2.0, (p[2] - center[2]) / 2.0];
        let facing = dot(dir, outward);
        let rec = sp.record(t, v(p[0], p[1], p[2]), &v(outward[0], outward[1], outward[2]), s(facing));
        assert!(dot(dir, xyz(rec.normal)) <= 0.0);
        assert_eq!(rec.front_face, facing < 0.0);
        assert_eq!(f(rec.t), tf);
        assert_eq!(xyz(rec.p), p);
        assert!(matches!(rec.mat, Some(Material::Lambertian(_))));
    }
}

#[test]
fn empty_record_holds_nothing() {
    let rec = HitRecord::new_empty();
    assert_eq!(xyz(rec.p), [0.0, 0.0, 0.0]);
    assert_eq!(xyz(rec.normal), [0.0, 0.0, 0.0]);
    assert_eq!(f(rec.t), 0.0);
    assert!(!rec.front_face);
    assert!(rec.mat.is_none());
}

#[test]
fn scene_returns_the_nearest_of_overlapping_spheres() {
    let m = matte();
    let centers = [-9.0, -3.0, -6.0, -3.5, -12.0];
    let mut world = HittableList::new();
    let mut roots = Vec::new();
    for z in centers {
        world.add(Sphere::new(v(0.0, 0.0, z), s(1.0), &m));
        roots.push(solve([0.0, 0.0, z], 1.0, [0.0, 0.0, 0.0], [0.0, 0.0, -1.0]));
    }
    assert_eq!(world.len(), 5);
    let hit = world.hit(&roots, &forward()).unwrap();
    assert_eq!(hit.index, 1);
    assert_eq!(f(hit.t), 2.0);
    for r in roots.iter() {
        assert!(f(hit.t) <= f(r.near()));
    }
    assert_eq!(xyz(world.get(hit.index).center()), [0.0, 0.0, -3.0]);
}

#[test]
fn scene_keeps_the_first_of_equal_hits() {
    let m = matte();
    let mut world = HittableList::new();
    let mut roots = Vec::new();
    for _ in 0..3 {
        world.add(Sphere::new(v(0.0, 0.0, -3.0), s(1.0), &m));
        roots.push(Roots::new(s(1.0), s(2.0), s(4.0)).unwrap());
    }
    let hit = world.hit(&roots, &forward()).unwrap();
    assert_eq!(hit.index, 0);
    assert_eq!(f(hit.t), 2.0);
}

#[test]
fn scene_respects_the_range() {
    let m = matte();
    let mut world = HittableList::new();
    let mut roots = Vec::new();
    for z in [-3.0, -9.0] {
        world.add(Sphere::new(v(0.0, 0.0, z), s(1.0), &m));
        roots.push(solve([0.0, 0.0, z], 1.0, [0.0, 0.0, 0.0], [0.0, 0.0, -1.0]));
    }
    let beyond = world.hit(&roots, &Interval::new(s(4.5), s(100.0))).unwrap();
    assert_eq!(beyond.index, 1);
    assert_eq!(f(beyond.t), 8.0);
    let inside_first = world.hit(&roots, &Interval::new(s(2.5), s(100.0))).unwrap();
    assert_eq!(inside_first.index, 0);
    assert_eq!(f(inside_first.t), 4.0);
    assert!(world.hit(&roots, &Interval::new(s(10.5), s(100.0))).is_none());
    assert!(world.hit(&roots, &Interval::new(s(0.001), s(2.0))).is_none());
}

#[test]
fn empty_scene_is_never_hit() {
    let world = HittableList::new();
    assert_eq!(world.len(), 0);
    assert!(world.hit(&Vec::new(), &forward()).is_none());
}

#[test]
fn scene_of_misses_is_a_miss() {
    let m = matte();
    let mut world = HittableList::new();
    let mut roots = Vec::new();
    for x in [3.0, -4.0, 10.0] {
        world.add(Sphere::new(v(x, 0.0, -5.0), s(1.0), &m));
        roots.push(solve([x, 0.0, -5.0], 1.0, [0.0, 0.0, 0.0], [0.0, 0.0, -1.0]));
    }
    assert!(world.hit(&roots, &forward()).is_none());
}
