use raytracer::fixed::Fixed;
use raytracer::material::Material;
use raytracer::math::Ray;
use raytracer::math::Vec3;
use raytracer::object::Hit;
use raytracer::object::HittableObjects;
use raytracer::object::Sphere;
use raytracer::scene::clearing;
use raytracer::scene::gen_objs;
use raytracer::scene::gen_objs_with;
use raytracer::scene::ground;
use raytracer::scene::small_radius;
use raytracer::scene::small_sphere;
use raytracer::scene::CellDraw;
use raytracer::scene::CELLS;
use raytracer::scene::GRID;
use raytracer::scene::SIDE;

const ONE: i64 = 1_000_000_000;

fn fx(raw: i64) -> Fixed {
    Fixed::from_raw(raw)
}

fn v3(x: i64, y: i64, z: i64) -> Vec3 {
    Vec3::new(fx(x), fx(y), fx(z))
}

fn draw(kind: i64, offset_x: i64, offset_z: i64) -> CellDraw {
    CellDraw {
        kind: fx(kind),
        offset_x: fx(offset_x),
        offset_z: fx(offset_z),
        tint: v3(ONE / 2, ONE / 3, ONE / 8),
        shade: v3(ONE / 2, ONE / 4, ONE / 8),
        fuzz: fx(300_000_000),
    }
}

fn seen_from_above(scene: &HittableObjects<Sphere>, x: i64, z: i64) -> Hit {
    let down = Ray::new(v3(x, 5 * ONE, z), v3(0, -ONE, 0));
    let mut rec = Hit::new();
    assert!(scene.hit(&down, fx(10_000), Fixed::infinity(), &mut rec));
    rec
}

#[test]
fn constants_of_the_scene() {
    assert_eq!(GRID, 3);
    assert_eq!(SIDE, 6);
    assert_eq!(CELLS, 36);
    assert_eq!(small_radius(), fx(200_000_000));
    assert_eq!(clearing(), v3(4 * ONE, 200_000_000, 0));
    let g = ground();
    assert_eq!(g.center, v3(0, -1000 * ONE, 0));
    assert_eq!(g.radius, fx(1000 * ONE));
}

#[test]
fn a_small_sphere_is_diffuse_metal_or_glass_by_its_kind() {
    let diffuse = small_sphere(-3, -3, &draw(0, 0, 0)).unwrap();
    assert_eq!(diffuse.center, v3(-3 * ONE, 200_000_000, -3 * ONE));
    assert_eq!(diffuse.radius, fx(200_000_000));
    match diffuse.material {
        Material::Lambertian(m) => assert_eq!(m.albedo, v3(150_000_000, 49_999_999, 9_375_000)),
        _ => panic!("a kind below 0.8 is diffuse"),
    }
    match small_sphere(0, 0, &draw(799_999_999, 0, 0)).unwrap().material {
        Material::Lambertian(_) => {}
        _ => panic!("a kind below 0.8 is diffuse"),
    }

    let metal = small_sphere(2, -1, &draw(850_000_000, 100_000_000, 200_000_000)).unwrap();
    assert_eq!(metal.center, v3(2_100_000_000, 200_000_000, -800_000_000));
    match metal.material {
        Material::Metal(m) => {
            assert_eq!(m.albedo, v3(ONE / 2, ONE / 3, ONE / 8));
            assert_eq!(m.fuzz, fx(300_000_000));
        }
        _ => panic!("a kind from 0.8 and below 0.9 is metal"),
    }
    match small_sphere(0, 0, &draw(800_000_000, 0, 0)).unwrap().material {
        Material::Metal(_) => {}
        _ => panic!("a kind from 0.8 and below 0.9 is metal"),
    }

    let glass = small_sphere(2, 2, &draw(950_000_000, 899_999_999, 899_999_999)).unwrap();
    assert_eq!(glass.center, v3(2_899_999_999, 200_000_000, 2_899_999_999));
    match glass.material {
        Material::Dielectric(m) => assert_eq!(m.ir, fx(1_500_000_000)),
        _ => panic!("a kind from 0.9 is glass"),
    }
    match small_sphere(0, 0, &draw(900_000_000, 0, 0)).unwrap().material {
        Material::Dielectric(_) => {}
        _ => panic!("a kind from 0.9 is glass"),
    }
}

#[test]
fn no_small_sphere_stands_in_the_clearing() {
    assert!(small_sphere(3, 0, &draw(0, 100_000_000, 0)).is_none());
    assert!(small_sphere(4, 0, &draw(0, 0, 0)).is_none());
    assert!(small_sphere(4, -1, &draw(0, 0, 100_000_000)).is_none());
    assert!(small_sphere(3, 0, &draw(0, 899_999_999, 899_999_999)).is_some());
    assert!(small_sphere(3, 0, &draw(0, 99_999_990, 0)).is_some());
}

#[test]
fn the_scene_for_given_draws_holds_ground_grid_and_landmarks() {
    let mut scene = HittableObjects::new();
    let draws = vec![draw(0, 0, 0); 36];
    gen_objs_with(&mut scene, &draws);

    let glass = seen_from_above(&scene, 0, 0);
    assert_eq!(glass.t, fx(3 * ONE));
    assert!(matches!(glass.material, Some(Material::Dielectric(_))));

    let brown = seen_from_above(&scene, -4 * ONE, 0);
    assert_eq!(brown.t, fx(3 * ONE));
    match brown.material {
        Some(Material::Lambertian(m)) => {
            assert_eq!(m.albedo, v3(400_000_000, 200_000_000, 100_000_000))
        }
        _ => panic!("the sphere at x = -4 is diffuse"),
    }

    let polished = seen_from_above(&scene, 4 * ONE, 0);
    assert_eq!(polished.t, fx(3 * ONE));
    match polished.material {
        Some(Material::Metal(m)) => {
            assert_eq!(m.albedo, v3(700_000_000, 600_000_000, 500_000_000));
            assert_eq!(m.fuzz, fx(0));
        }
        _ => panic!("the sphere at x = 4 is metal"),
    }

    for k in 0..36i64 {
        let a = k / 6 - 3;
        let b = k % 6 - 3;
        let under_the_glass = a * a + b * b <= 1;
        let under_the_brown = (a + 4) * (a + 4) + b * b <= 1;
        if under_the_glass || under_the_brown {
            continue;
        }
        let small = seen_from_above(&scene, a * ONE, b * ONE);
        assert_eq!(small.t, fx(4_600_000_000));
        match small.material {
            Some(Material::Lambertian(m)) => {
                assert_eq!(m.albedo, v3(150_000_000, 49_999_999, 9_375_000))
            }
            _ => panic!("a kind below 0.8 is diffuse"),
        }
    }

    let earth = seen_from_above(&scene, 100 * ONE, 100 * ONE);
    assert_eq!(earth.t, fx(15_050_506_339));
    match earth.material {
        Some(Material::Lambertian(m)) => assert_eq!(m.albedo, v3(ONE / 2, ONE / 2, ONE / 2)),
        _ => panic!("the ground is diffuse"),
    }
}

#[test]
fn the_scene_is_added_after_what_is_there() {
    let mut scene = HittableObjects::new();
    let marker = Material::Lambertian(raytracer::material::Lambertian::new(v3(1, 2, 3)));
    scene.add(Sphere::new(v3(0, ONE, 0), fx(ONE), marker));
    gen_objs_with(&mut scene, &vec![draw(0, 0, 0); 36]);
    let top = seen_from_above(&scene, 0, 0);
    assert_eq!(top.t, fx(3 * ONE));
    match top.material {
        Some(Material::Lambertian(m)) => assert_eq!(m.albedo, v3(1, 2, 3)),
        _ => panic!("the sphere that was there first wins the tie"),
    }
}

#[test]
fn a_random_scene_has_its_ground_and_landmarks() {
    let mut scene = HittableObjects::new();
    gen_objs(&mut scene);
    let glass = seen_from_above(&scene, 0, ONE / 2);
    assert!(matches!(glass.material, Some(Material::Dielectric(_))));
    let brown = seen_from_above(&scene, -4 * ONE, -ONE / 2);
    assert!(matches!(brown.material, Some(Material::Lambertian(_))));
    let polished = seen_from_above(&scene, 4 * ONE, 0);
    assert!(matches!(polished.material, Some(Material::Metal(_))));
    let earth = seen_from_above(&scene, 100 * ONE, 100 * ONE);
    assert_eq!(earth.t, fx(15_050_506_339));
}

#[test]
fn drawn_cells_are_valid() {
    for _ in 0..100 {
        let d = CellDraw::draw();
        assert!(0 <= d.kind.raw && d.kind.raw < ONE);
        assert!(0 <= d.offset_x.raw && d.offset_x.raw < 900_000_000);
        assert!(0 <= d.offset_z.raw && d.offset_z.raw < 900_000_000);
        assert!(0 <= d.fuzz.raw && d.fuzz.raw < 600_000_000);
        for c in [d.tint, d.shade] {
            for channel in [c.x().raw, c.y().raw, c.z().raw] {
                assert!(0 <= channel && channel < ONE);
            }
        }
    }
}

#[test]
fn cells_without_a_draw_stay_empty() {
    let mut bare = HittableObjects::new();
    gen_objs_with(&mut bare, &Vec::new());
    let glass = seen_from_above(&bare, 0, 0);
    assert!(matches!(glass.material, Some(Material::Dielectric(_))));
    let earth = seen_from_above(&bare, -3 * ONE, -3 * ONE);
    assert_eq!(earth.t, fx(5_009_000_041));

    let mut first_only = HittableObjects::new();
    gen_objs_with(&mut first_only, &vec![draw(0, 0, 0); 1]);
    let small = seen_from_above(&first_only, -3 * ONE, -3 * ONE);
    assert_eq!(small.t, fx(4_600_000_000));
    let next = seen_from_above(&first_only, -3 * ONE, -2 * ONE);
    assert!(next.t.raw > 5 * ONE);

    let mut surplus = HittableObjects::new();
    gen_objs_with(&mut surplus, &vec![draw(0, 0, 0); 50]);
    let corner = seen_from_above(&surplus, 2 * ONE, 2 * ONE);
    assert_eq!(corner.t, fx(4_600_000_000));
}
