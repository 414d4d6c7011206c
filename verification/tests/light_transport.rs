use raytracer::fixed::Fixed;
use raytracer::material::Dielectric;
use raytracer::material::Lambertian;
use raytracer::material::Material;
use raytracer::material::Metal;
use raytracer::material::ScatterSample;
use raytracer::math::Ray;
use raytracer::math::Vec3;
use raytracer::object::HittableObjects;
use raytracer::object::Sphere;
use raytracer::render::background;
use raytracer::render::ray_color;
use raytracer::render::ray_color_with;
use raytracer::render::sky_blue;
use raytracer::render::t_min;
use raytracer::render::white;

const ONE: i64 = 1_000_000_000;

fn fx(raw: i64) -> Fixed {
    Fixed::from_raw(raw)
}

fn v3(x: i64, y: i64, z: i64) -> Vec3 {
    Vec3::new(fx(x), fx(y), fx(z))
}

fn still(n: usize) -> Vec<ScatterSample> {
    vec![ScatterSample::new(v3(0, 0, 0), fx(0)); n]
}

fn grey_ball() -> HittableObjects<Sphere> {
    let mut scene = HittableObjects::new();
    let grey = Material::Lambertian(Lambertian::new(v3(ONE / 2, ONE / 2, ONE / 2)));
    scene.add(Sphere::new(v3(0, 0, -ONE), fx(ONE / 2), grey));
    scene
}

fn mirror_on_ground() -> HittableObjects<Sphere> {
    let mut scene = HittableObjects::new();
    let earth = Material::Lambertian(Lambertian::new(v3(800_000_000, 600_000_000, 400_000_000)));
    let mirror = Material::Metal(Metal::new(v3(900_000_000, 900_000_000, 900_000_000), fx(0)));
    scene.add(Sphere::new(v3(0, -1000 * ONE, 0), fx(1000 * ONE), earth));
    scene.add(Sphere::new(v3(0, ONE, 0), fx(ONE), mirror));
    scene
}

#[test]
fn constants_of_the_integrator() {
    assert_eq!(t_min(), fx(10_000));
    assert_eq!(sky_blue(), v3(100_000_000, 300_000_000, ONE));
    assert_eq!(white(), v3(ONE, ONE, ONE));
}

#[test]
fn the_background_blends_white_into_sky_blue() {
    let from = v3(0, 0, 0);
    assert_eq!(background(&Ray::new(from, v3(0, ONE, 0))), v3(100_000_000, 300_000_000, ONE));
    assert_eq!(background(&Ray::new(from, v3(0, -ONE, 0))), v3(ONE, ONE, ONE));
    assert_eq!(background(&Ray::new(from, v3(ONE, 0, 0))), v3(550_000_000, 650_000_000, ONE));
    assert_eq!(background(&Ray::new(from, v3(0, 5 * ONE, 0))), v3(100_000_000, 300_000_000, ONE));
    assert_eq!(background(&Ray::new(from, v3(ONE, ONE, 0))), v3(231_801_949, 402_512_627, ONE));
}

#[test]
fn no_bounces_left_means_black() {
    let scene = grey_ball();
    let toward = Ray::new(v3(0, 0, 0), v3(0, 0, -ONE));
    let away = Ray::new(v3(0, 0, 0), v3(0, ONE, 0));
    assert_eq!(ray_color_with(&toward, &scene, &still(0)), v3(0, 0, 0));
    assert_eq!(ray_color_with(&away, &scene, &still(0)), v3(0, 0, 0));
    assert_eq!(ray_color(&toward, &scene, 0), v3(0, 0, 0));
    assert_eq!(ray_color(&away, &scene, 0), v3(0, 0, 0));
    assert_eq!(ray_color(&away, &scene, -5), v3(0, 0, 0));
    assert_eq!(ray_color(&toward, &scene, i32::MIN), v3(0, 0, 0));
}

#[test]
fn a_miss_brings_the_background() {
    let scene = grey_ball();
    let away = Ray::new(v3(0, 0, 0), v3(0, ONE, 0));
    assert_eq!(ray_color_with(&away, &scene, &still(1)), v3(100_000_000, 300_000_000, ONE));
    assert_eq!(ray_color_with(&away, &scene, &still(50)), v3(100_000_000, 300_000_000, ONE));
    assert_eq!(ray_color(&away, &scene, 1), v3(100_000_000, 300_000_000, ONE));
    assert_eq!(ray_color(&away, &scene, 100), v3(100_000_000, 300_000_000, ONE));
}

#[test]
fn a_bounce_attenuates_what_comes_after_it() {
    let scene = grey_ball();
    let toward = Ray::new(v3(0, 0, 0), v3(0, 0, -ONE));
    assert_eq!(ray_color_with(&toward, &scene, &still(1)), v3(0, 0, 0));
    assert_eq!(ray_color_with(&toward, &scene, &still(2)), v3(275_000_000, 325_000_000, 500_000_000));
    assert_eq!(ray_color_with(&toward, &scene, &still(9)), v3(275_000_000, 325_000_000, 500_000_000));
}

#[test]
fn a_path_takes_one_sample_for_each_bounce() {
    let scene = mirror_on_ground();
    let ray = Ray::new(v3(0, 3 * ONE, 3 * ONE), v3(0, -ONE, -ONE));
    assert_eq!(ray_color_with(&ray, &scene, &still(0)), v3(0, 0, 0));
    assert_eq!(ray_color_with(&ray, &scene, &still(1)), v3(0, 0, 0));
    assert_eq!(ray_color_with(&ray, &scene, &still(2)), v3(0, 0, 0));
    assert_eq!(ray_color_with(&ray, &scene, &still(3)), v3(72_000_648, 162_000_378, 360_000_000));
    assert_eq!(ray_color_with(&ray, &scene, &still(4)), v3(72_000_648, 162_000_378, 360_000_000));

    let tilted = vec![ScatterSample::new(v3(300_000_000, 400_000_000, 0), fx(0)); 3];
    assert_eq!(ray_color_with(&ray, &scene, &tilted), v3(88_626_816, 171_698_976, 360_000_000));
}

#[test]
fn glass_passes_light_on_without_tint() {
    let mut scene = HittableObjects::new();
    let glass = Material::Dielectric(Dielectric::new(fx(1_500_000_000)));
    scene.add(Sphere::new(v3(0, 0, -2 * ONE), fx(ONE), glass));
    let ray = Ray::new(v3(0, 0, 0), v3(0, 0, -ONE));

    let reflecting = |n: usize| vec![ScatterSample::new(v3(0, 0, 0), fx(0)); n];
    let refracting = |n: usize| vec![ScatterSample::new(v3(0, 0, 0), fx(999_999_999)); n];
    assert_eq!(ray_color_with(&ray, &scene, &reflecting(1)), v3(0, 0, 0));
    assert_eq!(ray_color_with(&ray, &scene, &reflecting(2)), v3(550_000_000, 650_000_000, ONE));
    assert_eq!(ray_color_with(&ray, &scene, &refracting(2)), v3(0, 0, 0));
    assert_eq!(ray_color_with(&ray, &scene, &refracting(3)), v3(550_000_000, 650_000_000, ONE));
}

#[test]
fn random_paths_off_a_mirror_are_all_the_same() {
    let scene = mirror_on_ground();
    let up_the_mirror = Ray::new(v3(0, 3 * ONE, 3 * ONE), v3(0, -ONE, -ONE));
    let first = ray_color(&up_the_mirror, &scene, 1);
    assert_eq!(first, v3(0, 0, 0));
}

#[test]
fn random_paths_stay_within_the_light_of_the_sky() {
    let scene = grey_ball();
    let toward = Ray::new(v3(0, 0, 0), v3(0, 0, -ONE));
    for _ in 0..100 {
        let c = ray_color(&toward, &scene, 10);
        for channel in [c.x().raw, c.y().raw, c.z().raw] {
            assert!(0 <= channel && channel <= ONE / 2);
        }
    }
}

#[test]
fn a_ray_from_above_sees_the_ground_lit_by_the_sky() {
    let mut scene = HittableObjects::new();
    let grey = Material::Lambertian(Lambertian::new(v3(ONE / 2, ONE / 2, ONE / 2)));
    scene.add(Sphere::new(v3(0, -1000 * ONE, 0), fx(1000 * ONE), grey));
    let down = Ray::new(v3(0, 2 * ONE, 0), v3(0, -2 * ONE, 0));

    let mut rec = raytracer::object::Hit::new();
    assert!(scene.hit(&down, t_min(), Fixed::infinity(), &mut rec));
    assert_eq!(rec.t, fx(ONE));
    assert_eq!(rec.p, v3(0, 0, 0));
    assert_eq!(rec.normal, v3(0, ONE, 0));
    assert!(rec.front_face);

    assert_eq!(ray_color_with(&down, &scene, &still(1)), v3(0, 0, 0));
    assert_eq!(ray_color_with(&down, &scene, &still(2)), v3(50_000_000, 150_000_000, 500_000_000));
    assert_eq!(ray_color_with(&down, &scene, &still(100)), v3(50_000_000, 150_000_000, 500_000_000));
    for _ in 0..20 {
        let c = ray_color(&down, &scene, 50);
        for channel in [c.x().raw, c.y().raw, c.z().raw] {
            assert!(0 <= channel && channel <= ONE / 2);
        }
    }
}
