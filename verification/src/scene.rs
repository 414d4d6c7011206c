//! A scene to render: a ground, a grid of small random spheres, and three
//! large spheres, one of each material.

use vstd::prelude::*;
use crate::fixed::Fixed;
use crate::fixed::SCALE;
use crate::material::Dielectric;
use crate::material::Lambertian;
use crate::material::Material;
use crate::material::Metal;
use crate::math::Vec3;
use crate::object::HittableObjects;
use crate::object::Sphere;
use crate::random::uniform;

verus! {

/// The grid of small spheres has a cell for each pair of integers in
/// `[-GRID, GRID)`.
pub const GRID: i64 = 3;

/// Cells along one side of the grid.
pub const SIDE: u64 = 6;

/// Cells of the grid.
pub const CELLS: u64 = 36;

/// The random input of one cell of the grid.
#[derive(Clone, Copy, Debug)]
pub struct CellDraw {
    /// Picks the material: a number in `[0, 1)`.
    pub kind: Fixed,
    /// Moves the sphere within its cell along x: a number in `[0, 0.9)`.
    pub offset_x: Fixed,
    /// Moves the sphere within its cell along z: a number in `[0, 0.9)`.
    pub offset_z: Fixed,
    /// A colour with channels in `[0, 1)`.
    pub tint: Vec3,
    /// Another colour with channels in `[0, 1)`.
    pub shade: Vec3,
    /// The fuzz of a metal: a number in `[0, 0.6)`.
    pub fuzz: Fixed,
}

impl CellDraw {
    /// Whether the draw is one that `draw` can give.
    pub open spec fn valid(&self) -> bool {
        &&& 0 <= self.kind.raw < SCALE
        &&& 0 <= self.offset_x.raw < 900_000_000
        &&& 0 <= self.offset_z.raw < 900_000_000
        &&& self.tint.within(Fixed::zero(), Fixed::one())
        &&& self.shade.within(Fixed::zero(), Fixed::one())
        &&& 0 <= self.fuzz.raw < 600_000_000
    }

    /// Draws the random input of one cell.
    pub fn draw() -> (d: CellDraw)
        ensures
            d.valid(),
    {
        let mut rnd = rand::thread_rng();
        let kind = uniform(&mut rnd, Fixed::zero(), Fixed::one());
        let offset_x = uniform(&mut rnd, Fixed::zero(), Fixed::from_raw(900_000_000));
        let offset_z = uniform(&mut rnd, Fixed::zero(), Fixed::from_raw(900_000_000));
        let tint = Vec3::rand_vec();
        let shade = Vec3::rand_vec();
        let fuzz = uniform(&mut rnd, Fixed::zero(), Fixed::from_raw(600_000_000));
        CellDraw { kind, offset_x, offset_z, tint, shade, fuzz }
    }
}

/// The radius of a small sphere, and the height of its centre: `0.2`.
pub open spec fn small_radius_spec() -> Fixed {
    Fixed { raw: 200_000_000 }
}

/// The radius of a small sphere, and the height of its centre: `0.2`.
#[verifier::when_used_as_spec(small_radius_spec)]
pub fn small_radius() -> (r: Fixed)
    ensures
        r == small_radius_spec(),
{
    Fixed::from_raw(200_000_000)
}

/// The place that the small spheres leave free: the foot of the large metal
/// sphere.
pub open spec fn clearing_spec() -> Vec3 {
    Vec3 { x: Fixed { raw: 4_000_000_000 }, y: small_radius_spec(), z: Fixed::zero() }
}

/// The place that the small spheres leave free: the foot of the large metal
/// sphere.
#[verifier::when_used_as_spec(clearing_spec)]
pub fn clearing() -> (p: Vec3)
    ensures
        p == clearing_spec(),
{
    Vec3::new(Fixed::from_raw(4_000_000_000), small_radius(), Fixed::zero())
}

/// The centre of the small sphere of the cell `(a, b)`.
pub open spec fn cell_center(a: i64, b: i64, draw: &CellDraw) -> Vec3 {
    Vec3 {
        x: Fixed::from_int_spec(a).plus(draw.offset_x),
        y: small_radius_spec(),
        z: Fixed::from_int_spec(b).plus(draw.offset_z),
    }
}

/// The material of a small sphere: diffuse for a kind below `0.8`, with the
/// product of the two colours times `0.6` for albedo; metal for a kind below
/// `0.9`; else glass.
pub open spec fn cell_material(draw: &CellDraw) -> Material {
    if draw.kind.raw < 800_000_000 {
        Material::Lambertian(
            Lambertian { albedo: draw.tint.times(draw.shade).scaled(Fixed { raw: 600_000_000 }) },
        )
    } else if draw.kind.raw < 900_000_000 {
        Material::Metal(Metal { albedo: draw.tint, fuzz: draw.fuzz })
    } else {
        Material::Dielectric(Dielectric { ir: Fixed { raw: 1_500_000_000 } })
    }
}

/// What [`small_sphere`] returns.
pub open spec fn small_sphere_spec(a: i64, b: i64, draw: &CellDraw) -> Option<Sphere> {
    let center = cell_center(a, b, draw);
    if center.minus(clearing_spec()).length_spec().raw > 900_000_000 {
        Some(Sphere { center, radius: small_radius_spec(), material: cell_material(draw) })
    } else {
        None
    }
}

/// The small sphere of the cell `(a, b)` for the given draw, or none where
/// its centre would lie within `0.9` of the clearing.
#[verifier::when_used_as_spec(small_sphere_spec)]
pub fn small_sphere(a: i64, b: i64, draw: &CellDraw) -> (s: Option<Sphere>)
    ensures
        s == small_sphere_spec(a, b, draw),
{
    let center = Vec3::new(
        Fixed::from_int(a) + draw.offset_x,
        small_radius(),
        Fixed::from_int(b) + draw.offset_z,
    );
    if (center - clearing()).length().raw > 900_000_000 {
        let material = if draw.kind.raw < 800_000_000 {
            let albedo = draw.tint * draw.shade * Fixed::from_raw(600_000_000);
            Material::Lambertian(Lambertian::new(albedo))
        } else if draw.kind.raw < 900_000_000 {
            Material::Metal(Metal::new(draw.tint, draw.fuzz))
        } else {
            Material::Dielectric(Dielectric::new(Fixed::from_raw(1_500_000_000)))
        };
        Some(Sphere::new(center, small_radius(), material))
    } else {
        None
    }
}

/// The ground: a grey sphere of radius `1000` that touches the origin from
/// below.
pub open spec fn ground_spec() -> Sphere {
    Sphere {
        center: Vec3 { x: Fixed::zero(), y: Fixed { raw: -1_000_000_000_000i64 }, z: Fixed::zero() },
        radius: Fixed { raw: 1_000_000_000_000 },
        material: Material::Lambertian(
            Lambertian {
                albedo: Vec3 {
                    x: Fixed { raw: 500_000_000 },
                    y: Fixed { raw: 500_000_000 },
                    z: Fixed { raw: 500_000_000 },
                },
            },
        ),
    }
}

/// The ground: a grey sphere of radius `1000` that touches the origin from
/// below.
#[verifier::when_used_as_spec(ground_spec)]
pub fn ground() -> (s: Sphere)
    ensures
        s == ground_spec(),
{
    let half = Fixed::from_raw(500_000_000);
    Sphere::new(
        Vec3::new(Fixed::zero(), Fixed::from_raw(-1_000_000_000_000), Fixed::zero()),
        Fixed::from_raw(1_000_000_000_000),
        Material::Lambertian(Lambertian::new(Vec3::new(half, half, half))),
    )
}

/// The three large spheres of radius one: glass at the origin, a brown
/// diffuse one behind it at `x = -4`, and a polished metal one before it at
/// `x = 4`.
pub open spec fn landmarks_spec() -> Seq<Sphere> {
    seq![
        Sphere {
            center: Vec3 { x: Fixed::zero(), y: Fixed::one(), z: Fixed::zero() },
            radius: Fixed::one(),
            material: Material::Dielectric(Dielectric { ir: Fixed { raw: 1_500_000_000 } }),
        },
        Sphere {
            center: Vec3 { x: Fixed { raw: -4_000_000_000i64 }, y: Fixed::one(), z: Fixed::zero() },
            radius: Fixed::one(),
            material: Material::Lambertian(
                Lambertian {
                    albedo: Vec3 {
                        x: Fixed { raw: 400_000_000 },
                        y: Fixed { raw: 200_000_000 },
                        z: Fixed { raw: 100_000_000 },
                    },
                },
            ),
        },
        Sphere {
            center: Vec3 { x: Fixed { raw: 4_000_000_000 }, y: Fixed::one(), z: Fixed::zero() },
            radius: Fixed::one(),
            material: Material::Metal(
                Metal {
                    albedo: Vec3 {
                        x: Fixed { raw: 700_000_000 },
                        y: Fixed { raw: 600_000_000 },
                        z: Fixed { raw: 500_000_000 },
                    },
                    fuzz: Fixed::zero(),
                },
            ),
        },
    ]
}

/// The small spheres of the first `cells` cells of the grid, row by row,
/// where cell `k` is `(k / SIDE - GRID, k % SIDE - GRID)` and takes
/// `draws[k]`. A cell without a draw has no sphere.
pub open spec fn small_spheres(draws: Seq<CellDraw>, cells: nat) -> Seq<Sphere>
    decreases cells,
{
    if cells == 0 {
        Seq::empty()
    } else {
        let k = (cells - 1) as int;
        let before = small_spheres(draws, k as nat);
        if k < draws.len() {
            match small_sphere_spec(
                (k / (SIDE as int) - GRID) as i64,
                (k % (SIDE as int) - GRID) as i64,
                &draws[k],
            ) {
                Some(s) => before.push(s),
                None => before,
            }
        } else {
            before
        }
    }
}

/// The scene for the given draws: the ground, the small spheres, the three
/// large spheres.
pub open spec fn scene(draws: Seq<CellDraw>) -> Seq<Sphere> {
    seq![ground_spec()] + small_spheres(draws, CELLS as nat) + landmarks_spec()
}

/// Whether `spheres` is the scene for some valid draws.
pub open spec fn is_scene(spheres: Seq<Sphere>) -> bool {
    exists|draws: Seq<CellDraw>|
        draws.len() == CELLS && (forall|k: int| 0 <= k < CELLS ==> (#[trigger] draws[k]).valid())
            && spheres == #[trigger] scene(draws)
}

/// Adds the scene for the given draws to `objects`: cell `k` of the grid
/// takes `draws[k]`, and draws beyond the grid are left unused.
pub fn gen_objs_with(objects: &mut HittableObjects<Sphere>, draws: &Vec<CellDraw>)
    ensures
        final(objects)@ == old(objects)@ + scene(draws@),
{
    objects.add(ground());
    let mut k: u64 = 0;
    while k < CELLS
        invariant
            k <= CELLS,
            objects@ == old(objects)@ + seq![ground_spec()] + small_spheres(draws@, k as nat),
        decreases CELLS - k,
    {
        if (k as usize) < draws.len() {
            let a = (k / SIDE) as i64 - GRID;
            let b = (k % SIDE) as i64 - GRID;
            match small_sphere(a, b, &draws[k as usize]) {
                Some(s) => {
                    objects.add(s);
                },
                None => {},
            }
        }
        k = k + 1;
    }
    add_landmarks(objects);
}

/// Adds the three large spheres.
fn add_landmarks(objects: &mut HittableObjects<Sphere>)
    ensures
        final(objects)@ == old(objects)@ + landmarks_spec(),
{
    let one = Fixed::one();
    let m1 = Dielectric::new(Fixed::from_raw(1_500_000_000));
    let m2 = Lambertian::new(
        Vec3::new(
            Fixed::from_raw(400_000_000),
            Fixed::from_raw(200_000_000),
            Fixed::from_raw(100_000_000),
        ),
    );
    let m3 = Metal::new(
        Vec3::new(
            Fixed::from_raw(700_000_000),
            Fixed::from_raw(600_000_000),
            Fixed::from_raw(500_000_000),
        ),
        Fixed::zero(),
    );
    objects.add(
        Sphere::new(Vec3::new(Fixed::zero(), one, Fixed::zero()), one, Material::Dielectric(m1)),
    );
    objects.add(
        Sphere::new(
            Vec3::new(Fixed::from_raw(-4_000_000_000), one, Fixed::zero()),
            one,
            Material::Lambertian(m2),
        ),
    );
    objects.add(
        Sphere::new(
            Vec3::new(Fixed::from_raw(4_000_000_000), one, Fixed::zero()),
            one,
            Material::Metal(m3),
        ),
    );
}

/// Adds a scene to `objects`, with a draw made here for each cell.
pub fn gen_objs(objects: &mut HittableObjects<Sphere>)
    ensures
        exists|spheres: Seq<Sphere>|
            is_scene(spheres) && final(objects)@ == old(objects)@ + spheres,
{
    let mut draws: Vec<CellDraw> = Vec::new();
    let mut k: u64 = 0;
    while k < CELLS
        invariant
            k <= CELLS,
            draws.len() == k,
            forall|n: int| 0 <= n < k ==> (#[trigger] draws@[n]).valid(),
        decreases CELLS - k,
    {
        draws.push(CellDraw::draw());
        k = k + 1;
    }
    gen_objs_with(objects, &draws);
    proof {
        assert(is_scene(scene(draws@)));
    }
}

} // verus!
