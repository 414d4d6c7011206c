use raytracer::fixed::Fixed;
use raytracer::material::Lambertian;
use raytracer::material::Material;
use raytracer::math::Ray;
use raytracer::math::Vec3;
use raytracer::object::Hit;
use raytracer::object::Hittable;
use raytracer::object::HittableObjects;
use raytracer::object::Sphere;

fn fx(raw: i64) -> Fixed {
    Fixed::from_raw(raw)
}

fn v3(x: i64, y: i64, z: i64) -> Vec3 {
    Vec3::new(fx(x), fx(y), fx(z))
}

const ONE: i64 = 1_000_000_000;

fn grey() -> Material {
    Material::Lambertian(Lambertian::new(v3(ONE / 2, ONE / 2, ONE / 2)))
}

#[test]
fn ray_toward_sphere_hits_its_near_side() {
    let sphere = Sphere::new(v3(0, 0, -ONE), fx(ONE / 2), grey());
    let ray = Ray::new(v3(0, 0, 0), v3(0, 0, -ONE));
    let mut rec = Hit::new();
    assert!(sphere.hit(&ray, fx(10_000), Fixed::infinity(), &mut rec));
    assert_eq!(rec.t, fx(ONE / 2));
    assert_eq!(rec.p, v3(0, 0, -ONE / 2));
    assert_eq!(rec.normal, v3(0, 0, ONE));
    assert!(rec.front_face);
    assert!(rec.material.is_some());
}

#[test]
fn ray_beside_sphere_misses() {
    let sphere = Sphere::new(v3(0, 0, -ONE), fx(ONE / 2), grey());
    let ray = Ray::new(v3(0, 0, 0), v3(ONE, 0, 0));
    let mut rec = Hit::new();
    assert!(!sphere.hit(&ray, fx(10_000), Fixed::infinity(), &mut rec));
    assert_eq!(rec.t, fx(0));
    assert!(rec.material.is_none());
}

#[test]
fn ground_sphere_is_hit_from_above() {
    let mut scene = HittableObjects::new();
    scene.add(Sphere::new(v3(0, -1000 * ONE, 0), fx(1000 * ONE), grey()));
    let mut rec = Hit::new();

    let down = Ray::new(v3(0, 2 * ONE, 0), v3(0, -ONE, 0));
    assert!(scene.hit(&down, fx(10_000), Fixed::infinity(), &mut rec));
    assert_eq!(rec.t, fx(2 * ONE));
    assert_eq!(rec.p, v3(0, 0, 0));
    assert_eq!(rec.normal, v3(0, ONE, 0));
    assert!(rec.front_face);

    let fast = Ray::new(v3(0, 2 * ONE, 0), v3(0, -2 * ONE, 0));
    assert!(scene.hit(&fast, fx(10_000), Fixed::infinity(), &mut rec));
    assert_eq!(rec.t, fx(ONE));
    assert_eq!(rec.p, v3(0, 0, 0));
}

#[test]
fn ray_from_inside_hits_the_back_face() {
    let sphere = Sphere::new(v3(0, 0, 0), fx(ONE), grey());
    let ray = Ray::new(v3(0, 0, 0), v3(0, 0, -ONE));
    let mut rec = Hit::new();
    assert!(sphere.hit(&ray, fx(10_000), Fixed::infinity(), &mut rec));
    assert_eq!(rec.t, fx(ONE));
    assert_eq!(rec.p, v3(0, 0, -ONE));
    assert_eq!(rec.normal, v3(0, 0, ONE));
    assert!(!rec.front_face);
}

#[test]
fn oblique_ray_hits_with_a_normal_against_it() {
    let sphere = Sphere::new(v3(0, 0, -ONE), fx(ONE / 2), grey());
    let ray = Ray::new(v3(0, 0, 0), v3(ONE / 10, ONE / 10, -ONE));
    let mut rec = Hit::new();
    assert!(sphere.hit(&ray, fx(10_000), Fixed::infinity(), &mut rec));
    assert_eq!(rec.t, fx(505_129_426));
    assert_eq!(rec.p, v3(50_512_942, 50_512_942, -505_129_426));
    assert_eq!(rec.normal, v3(101_025_884, 101_025_884, 989_741_148));
    assert!(rec.front_face);
    assert!(ray.direction.dot(&rec.normal).raw <= 0);
}

#[test]
fn the_range_of_parameters_is_closed() {
    let sphere = Sphere::new(v3(0, 0, -2 * ONE), fx(ONE), grey());
    let ray = Ray::new(v3(0, 0, 0), v3(0, 0, -ONE));
    let mut rec = Hit::new();

    assert!(sphere.hit(&ray, fx(10_000), fx(ONE), &mut rec));
    assert_eq!(rec.t, fx(ONE));
    assert!(rec.front_face);

    let mut untouched = Hit::new();
    assert!(!sphere.hit(&ray, fx(10_000), fx(ONE - 1), &mut untouched));
    assert_eq!(untouched.t, fx(0));
    assert!(untouched.material.is_none());

    assert!(sphere.hit(&ray, fx(ONE + 1), fx(3 * ONE), &mut rec));
    assert_eq!(rec.t, fx(3 * ONE));
    assert_eq!(rec.p, v3(0, 0, -3 * ONE));
    assert_eq!(rec.normal, v3(0, 0, ONE));
    assert!(!rec.front_face);

    assert!(!sphere.hit(&ray, fx(ONE + 1), fx(3 * ONE - 1), &mut untouched));
    assert!(sphere.hit(&ray, fx(3 * ONE), fx(3 * ONE), &mut rec));
    assert_eq!(rec.t, fx(3 * ONE));
}

#[test]
fn a_ray_does_not_hit_the_surface_that_it_leaves() {
    let sphere = Sphere::new(v3(0, 0, -ONE), fx(ONE / 2), grey());
    let mut rec = Hit::new();

    let leaving = Ray::new(v3(0, 0, -ONE / 2), v3(0, 0, ONE));
    assert!(!sphere.hit(&leaving, fx(10_000), Fixed::infinity(), &mut rec));
    assert!(sphere.hit(&leaving, fx(0), Fixed::infinity(), &mut rec));
    assert_eq!(rec.t, fx(0));

    let entering = Ray::new(v3(0, 0, -ONE / 2), v3(0, 0, -ONE));
    assert!(sphere.hit(&entering, fx(10_000), Fixed::infinity(), &mut rec));
    assert_eq!(rec.t, fx(ONE));
    assert_eq!(rec.p, v3(0, 0, -3 * ONE / 2));
    assert!(!rec.front_face);
}

#[test]
fn a_ray_without_direction_hits_nothing_ahead() {
    let sphere = Sphere::new(v3(0, 0, -ONE), fx(ONE / 2), grey());
    let still = Ray::new(v3(0, 0, 0), v3(0, 0, 0));
    let mut rec = Hit::new();
    assert!(!sphere.hit(&still, fx(10_000), Fixed::infinity(), &mut rec));
}

#[test]
fn face_normal_opposes_the_ray() {
    let mut rec = Hit::new();
    let ray = Ray::new(v3(0, 0, 0), v3(0, 0, -ONE));
    rec.set_face_normal(&ray, &v3(0, 0, ONE));
    assert!(rec.front_face);
    assert_eq!(rec.normal, v3(0, 0, ONE));
    rec.set_face_normal(&ray, &v3(0, 0, -ONE));
    assert!(!rec.front_face);
    assert_eq!(rec.normal, v3(0, 0, ONE));
    rec.set_face_normal(&ray, &v3(ONE, 0, 0));
    assert!(!rec.front_face);
    assert_eq!(rec.normal, v3(-ONE, 0, 0));
    assert_eq!(rec.t, fx(0));
    assert!(rec.material.is_none());
}

#[test]
fn an_empty_record_is_blank() {
    let rec = Hit::new();
    assert_eq!(rec.p, v3(0, 0, 0));
    assert_eq!(rec.normal, v3(0, 0, 0));
    assert_eq!(rec.t, fx(0));
    assert!(rec.front_face);
    assert!(rec.material.is_none());
}

fn tinted(raw: i64) -> Material {
    Material::Lambertian(Lambertian::new(v3(raw, raw, raw)))
}

fn albedo_of(rec: &Hit) -> Vec3 {
    match rec.material {
        Some(Material::Lambertian(m)) => m.albedo,
        _ => panic!("the hit carries no diffuse material"),
    }
}

#[test]
fn the_closest_object_wins() {
    let far = Sphere::new(v3(0, 0, -2 * ONE), fx(ONE), tinted(1));
    let near = Sphere::new(v3(0, 0, -ONE), fx(ONE / 4), tinted(3));
    let ray = Ray::new(v3(0, 0, 0), v3(0, 0, -ONE));

    let mut scene = HittableObjects::new();
    scene.add(far);
    scene.add(near);
    let mut rec = Hit::new();
    assert!(scene.hit(&ray, fx(10_000), Fixed::infinity(), &mut rec));
    assert_eq!(rec.t, fx(750_000_000));
    assert_eq!(albedo_of(&rec), v3(3, 3, 3));

    let mut swapped = HittableObjects::new();
    swapped.add(near);
    swapped.add(far);
    let mut other = Hit::new();
    assert!(swapped.hit(&ray, fx(10_000), Fixed::infinity(), &mut other));
    assert_eq!(other.t, fx(750_000_000));
    assert_eq!(albedo_of(&other), v3(3, 3, 3));
}

#[test]
fn the_first_object_wins_a_tie() {
    let a = Sphere::new(v3(0, 0, -2 * ONE), fx(ONE), tinted(1));
    let b = Sphere::new(v3(0, 0, -2 * ONE), fx(ONE), tinted(2));
    let ray = Ray::new(v3(0, 0, 0), v3(0, 0, -ONE));
    let mut rec = Hit::new();

    let mut scene = HittableObjects::new();
    scene.add(a);
    scene.add(b);
    assert!(scene.hit(&ray, fx(10_000), Fixed::infinity(), &mut rec));
    assert_eq!(albedo_of(&rec), v3(1, 1, 1));

    let mut swapped = HittableObjects::new();
    swapped.add(b);
    swapped.add(a);
    assert!(swapped.hit(&ray, fx(10_000), Fixed::infinity(), &mut rec));
    assert_eq!(albedo_of(&rec), v3(2, 2, 2));
}

#[test]
fn a_hit_at_the_far_end_of_the_range_counts() {
    let mut scene = HittableObjects::new();
    scene.add(Sphere::new(v3(0, 0, -2 * ONE), fx(ONE), tinted(1)));
    let ray = Ray::new(v3(0, 0, 0), v3(0, 0, -ONE));
    let mut rec = Hit::new();
    assert!(scene.hit(&ray, fx(10_000), fx(ONE), &mut rec));
    assert_eq!(rec.t, fx(ONE));
    assert_eq!(albedo_of(&rec), v3(1, 1, 1));
}

#[test]
fn an_empty_or_cleared_scene_is_never_hit() {
    let ray = Ray::new(v3(0, 0, 0), v3(0, 0, -ONE));
    let mut rec = Hit::new();
    let mut scene: HittableObjects<Sphere> = HittableObjects::new();
    assert!(!scene.hit(&ray, fx(10_000), Fixed::infinity(), &mut rec));
    scene.add(Sphere::new(v3(0, 0, -2 * ONE), fx(ONE), tinted(1)));
    assert!(scene.hit(&ray, fx(10_000), Fixed::infinity(), &mut rec));
    scene.clear();
    let mut blank = Hit::new();
    assert!(!scene.hit(&ray, fx(10_000), Fixed::infinity(), &mut blank));
    assert_eq!(blank.t, fx(0));
    assert!(blank.material.is_none());
}

#[test]
fn a_miss_leaves_the_record_as_it_was() {
    let mut scene = HittableObjects::new();
    scene.add(Sphere::new(v3(0, 0, -2 * ONE), fx(ONE), tinted(1)));
    let away = Ray::new(v3(0, 0, 0), v3(0, ONE, 0));
    let mut rec = Hit::new();
    rec.t = fx(77);
    rec.p = v3(1, 2, 3);
    assert!(!scene.hit(&away, fx(10_000), Fixed::infinity(), &mut rec));
    assert_eq!(rec.t, fx(77));
    assert_eq!(rec.p, v3(1, 2, 3));
}
