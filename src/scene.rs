//! The demonstration scene: a ground sphere, a grid of small random spheres
//! and three large ones.
use crate::fixed::{fx_add, fx_mul, ONE};
use crate::hittable_list::HittableList;
use crate::material::{valid_material, Material};
use crate::sphere::Sphere;
use crate::util::Lib;
use crate::vec3::{vlen, vsub, Color, Point3, Vec3};
use vstd::prelude::*;

verus! {

/// Every sphere has a positive radius and a valid material.
pub open spec fn valid_spheres(s: Seq<Sphere>) -> bool {
    forall|k: int| 0 <= k < s.len() ==> (#[trigger] s[k]).radius > 0 && valid_material(s[k].material)
}

/// The ground sphere, then small spheres of the grid.
pub open spec fn ground_then_small(s: Seq<Sphere>) -> bool {
    &&& s.len() >= 1
    &&& s[0] == ground_sphere()
    &&& forall|k: int| 1 <= k < s.len() ==> is_small_sphere(#[trigger] s[k])
}

pub open spec fn ground_sphere() -> Sphere {
    Sphere {
        center: Vec3 { x: 0, y: -65536000i64, z: 0 },
        radius: 65536000,
        material: Material::Lambertian { albedo: Vec3 { x: 32768, y: 32768, z: 32768 } },
    }
}

pub open spec fn glass_sphere() -> Sphere {
    Sphere {
        center: Vec3 { x: 0, y: ONE, z: 0 },
        radius: ONE,
        material: Material::Dielectric { ref_idx: 98304 },
    }
}

pub open spec fn diffuse_sphere() -> Sphere {
    Sphere {
        center: Vec3 { x: -262144i64, y: ONE, z: 0 },
        radius: ONE,
        material: Material::Lambertian { albedo: Vec3 { x: 26214, y: 13107, z: 6554 } },
    }
}

pub open spec fn metal_sphere() -> Sphere {
    Sphere {
        center: Vec3 { x: 262144, y: ONE, z: 0 },
        radius: ONE,
        material: Material::Metal { albedo: Vec3 { x: 45875, y: 39322, z: 32768 }, fuzz: 0 },
    }
}

/// A small sphere of the grid: radius 0.2, resting on the ground, more than
/// 0.9 away from the point `(4, 0.2, 0)` beside the large metal sphere.
pub open spec fn is_small_sphere(s: Sphere) -> bool {
    &&& s.radius == 13107
    &&& s.center.y == 13107
    &&& vlen(vsub(s.center, Vec3 { x: 262144, y: 13107, z: 0 })) > 58982
    &&& valid_material(s.material)
}

/// A small sphere at grid cell `(a, b)`, jittered, with a material drawn at
/// random: mostly diffuse, some metal, a few glass. `None` when the cell
/// lies too close to the large metal sphere.
fn small_sphere(a: i64, b: i64) -> (s: Option<Sphere>)
    requires
        -11 <= a < 11,
        -11 <= b < 11,
    ensures
        s is Some ==> is_small_sphere(s->0),
{
    let choose_material = Lib::random_double();
    let center: Point3 = Point3::new(
        fx_add(a * ONE, fx_mul(58982, Lib::random_double())),
        13107,
        fx_add(b * ONE, fx_mul(58982, Lib::random_double())),
    );
    if center.minus(Point3::new(4 * ONE, 13107, 0)).length() > 58982 {
        let material = if choose_material < 52429 {
            Material::Lambertian { albedo: Color::random().mul_elem(Color::random()) }
        } else if choose_material < 62259 {
            Material::Metal { albedo: Color::random_min_max(ONE / 2, ONE), fuzz: Lib::random_double() }
        } else {
            Material::Dielectric { ref_idx: 98304 }
        };
        Some(Sphere { center, radius: 13107, material })
    } else {
        None
    }
}

pub fn random_scene() -> (world: HittableList<Sphere>)
    ensures
        4 <= world.list@.len() <= 488,
        valid_spheres(world.list@),
        world.list@[0] == ground_sphere(),
        forall|k: int| 1 <= k < world.list@.len() - 3 ==> is_small_sphere(#[trigger] world.list@[k]),
        world.list@[world.list@.len() - 3] == glass_sphere(),
        world.list@[world.list@.len() - 2] == diffuse_sphere(),
        world.list@[world.list@.len() - 1] == metal_sphere(),
{
    let mut objects_in_world: Vec<Sphere> = Vec::new();
    objects_in_world.push(
        Sphere {
            center: Point3::new(0, -1000 * ONE, 0),
            radius: 1000 * ONE,
            material: Material::Lambertian { albedo: Color::new(ONE / 2, ONE / 2, ONE / 2) },
        },
    );
    let mut a: i64 = -11;
    while a < 11
        invariant
            -11 <= a <= 11,
            1 <= objects_in_world@.len() <= 1 + 22 * (a + 11),
            valid_spheres(objects_in_world@),
            ground_then_small(objects_in_world@),
        decreases 11 - a,
    {
        let mut b: i64 = -11;
        while b < 11
            invariant
                -11 <= a < 11,
                -11 <= b <= 11,
                1 <= objects_in_world@.len() <= 1 + 22 * (a + 11) + (b + 11),
                valid_spheres(objects_in_world@),
                ground_then_small(objects_in_world@),
            decreases 11 - b,
        {
            if let Some(s) = small_sphere(a, b) {
                objects_in_world.push(s);
            }
            b = b + 1;
        }
        a = a + 1;
    }
    let ghost grid = objects_in_world@;
    objects_in_world.push(
        Sphere {
            center: Point3::new(0, ONE, 0),
            radius: ONE,
            material: Material::Dielectric { ref_idx: 98304 },
        },
    );
    objects_in_world.push(
        Sphere {
            center: Point3::new(-4 * ONE, ONE, 0),
            radius: ONE,
            material: Material::Lambertian { albedo: Color::new(26214, 13107, 6554) },
        },
    );
    objects_in_world.push(
        Sphere {
            center: Point3::new(4 * ONE, ONE, 0),
            radius: ONE,
            material: Material::Metal { albedo: Color::new(45875, 39322, 32768), fuzz: 0 },
        },
    );
    assert(forall|k: int| 1 <= k < objects_in_world@.len() - 3 ==> objects_in_world@[k] == grid[k]);
    HittableList::new(objects_in_world)
}

} // verus!
