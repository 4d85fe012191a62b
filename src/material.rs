//! Surface materials and how they scatter light.
use crate::fixed::{
    abs_spec, add_spec, div_spec, fx_abs, fx_add, fx_div, fx_min, fx_mul, fx_neg, fx_sqrt, fx_sub,
    min_spec, mul_spec, neg_spec, sqrt_spec, sub_spec, ONE,
};
use crate::hittable::HitRecord;
use crate::ray::Ray;
use crate::util::Lib;
use crate::vec3::{vadd, vdot, vlen_sq, vneg, vscale, vsub, vunit, Color, Vec3};
use vstd::prelude::*;

verus! {

#[derive(Clone, Copy, Debug, PartialEq, Eq, Structural)]
pub enum Material {
    Lambertian { albedo: Color },
    Metal { albedo: Color, fuzz: i64 },
    Dielectric { ref_idx: i64 },
}

/// A refractive index must be positive; albedo and fuzz take any value.
pub open spec fn valid_material(m: Material) -> bool {
    match m {
        Material::Dielectric { ref_idx } => ref_idx > 0,
        _ => true,
    }
}

/// Fuzz as used: clamped into `[0, 1]`.
pub open spec fn fuzz_used(fuzz: int) -> int {
    if fuzz < 0 {
        0
    } else if fuzz > ONE {
        ONE as int
    } else {
        fuzz
    }
}

/// `v` mirrored about the plane with normal `n`: `v - 2 (v . n) n`.
pub open spec fn reflect_spec(v: Vec3, n: Vec3) -> Vec3 {
    vsub(v, vscale(n, mul_spec(2 * ONE, vdot(v, n))))
}

/// Snell's law in vector form, for the unit direction `uv`.
pub open spec fn refract_spec(uv: Vec3, n: Vec3, etai_over_etat: int) -> Vec3 {
    let cos_theta = vdot(vneg(uv), n);
    let r_out_perp = vscale(vadd(uv, vscale(n, cos_theta)), etai_over_etat);
    let r_out_parallel = vscale(
        n,
        neg_spec(sqrt_spec(abs_spec(sub_spec(ONE as int, vlen_sq(r_out_perp))))),
    );
    vadd(r_out_perp, r_out_parallel)
}

pub open spec fn pow5(x: int) -> int {
    mul_spec(mul_spec(mul_spec(mul_spec(x, x), x), x), x)
}

/// Schlick's approximation of the reflectance.
pub open spec fn schlick_spec(cosine: int, ref_idx: int) -> int {
    let r0 = div_spec(sub_spec(ONE as int, ref_idx), add_spec(ONE as int, ref_idx));
    let r0 = mul_spec(r0, r0);
    add_spec(r0, mul_spec(sub_spec(ONE as int, r0), pow5(sub_spec(ONE as int, cosine))))
}

/// Ratio of refractive indices across the surface at `rec`.
pub open spec fn refraction_ratio(rec: HitRecord, ref_idx: int) -> int {
    if rec.front_face {
        div_spec(ONE as int, ref_idx)
    } else {
        ref_idx
    }
}

pub open spec fn cos_theta(r_in: Ray, rec: HitRecord) -> int {
    min_spec(vdot(vneg(vunit(r_in.dir)), rec.normal), ONE as int)
}

pub open spec fn sin_theta(r_in: Ray, rec: HitRecord) -> int {
    let c = cos_theta(r_in, rec);
    sqrt_spec(sub_spec(ONE as int, mul_spec(c, c)))
}

/// `ratio * sin_theta > 1`: no refracted ray exists.
pub open spec fn total_internal_reflection(r_in: Ray, rec: HitRecord, ref_idx: int) -> bool {
    mul_spec(refraction_ratio(rec, ref_idx), sin_theta(r_in, rec)) > ONE
}

pub open spec fn zero() -> Vec3 {
    Vec3 { x: 0, y: 0, z: 0 }
}

pub open spec fn white() -> Color {
    Vec3 { x: ONE, y: ONE, z: ONE }
}

/// The diffuse direction; one so short that its squared length rounds to
/// zero falls back to the normal.
pub open spec fn lambertian_direction(normal: Vec3, sample: Vec3) -> Vec3 {
    if vlen_sq(vadd(normal, sample)) == 0 {
        normal
    } else {
        vadd(normal, sample)
    }
}

pub open spec fn metal_direction(r_in: Ray, rec: HitRecord, sample: Vec3, fuzz: int) -> Vec3 {
    vadd(reflect_spec(vunit(r_in.dir), rec.normal), vscale(sample, fuzz_used(fuzz)))
}

pub open spec fn dielectric_direction(r_in: Ray, rec: HitRecord, ref_idx: int, draw: int) -> Vec3 {
    let unit_direction = vunit(r_in.dir);
    let ratio = refraction_ratio(rec, ref_idx);
    if total_internal_reflection(r_in, rec, ref_idx) || draw < schlick_spec(
        cos_theta(r_in, rec),
        ratio,
    ) {
        reflect_spec(unit_direction, rec.normal)
    } else {
        refract_spec(unit_direction, rec.normal, ratio)
    }
}

/// Scattering given its random inputs: `sample`, a point of the unit ball,
/// and `draw`, a scalar in `[0, 1)`. The result is whether the ray goes on,
/// the attenuation, and the outgoing ray.
pub open spec fn scatter_spec(m: Material, r_in: Ray, rec: HitRecord, sample: Vec3, draw: int) -> (
    bool,
    Color,
    Ray,
) {
    match m {
        Material::Lambertian { albedo } => (
            true,
            albedo,
            Ray { orig: rec.p, dir: lambertian_direction(rec.normal, sample) },
        ),
        Material::Metal { albedo, fuzz } => {
            let dir = metal_direction(r_in, rec, sample, fuzz as int);
            (vdot(dir, rec.normal) > 0, albedo, Ray { orig: rec.p, dir })
        },
        Material::Dielectric { ref_idx } => (
            true,
            white(),
            Ray { orig: rec.p, dir: dielectric_direction(r_in, rec, ref_idx as int, draw) },
        ),
    }
}

impl Default for Material {
    /// A black diffuse material.
    fn default() -> (r: Material)
        ensures
            r == (Material::Lambertian { albedo: zero() }),
    {
        Material::Lambertian { albedo: Vec3::new(0, 0, 0) }
    }
}

impl Material {
    pub fn is_valid(&self) -> (r: bool)
        ensures
            r == valid_material(*self),
    {
        match self {
            Material::Dielectric { ref_idx } => *ref_idx > 0,
            _ => true,
        }
    }

    /// A metal whose fuzz is clamped into `[0, 1]`.
    pub fn metal(albedo: Color, fuzz: i64) -> (r: Material)
        ensures
            r == (Material::Metal { albedo, fuzz: fuzz_used(fuzz as int) as i64 }),
    {
        let f: i64 = if fuzz < 0 {
            0
        } else if fuzz > ONE {
            ONE
        } else {
            fuzz
        };
        Material::Metal { albedo, fuzz: f }
    }
}

pub fn reflect(v: &Vec3, n: &Vec3) -> (r: Vec3)
    ensures
        r == reflect_spec(*v, *n),
{
    v.minus(n.scale(fx_mul(2 * ONE, Vec3::dot(v, n))))
}

pub fn refract(uv: &Vec3, n: &Vec3, etai_over_etat: i64) -> (r: Vec3)
    ensures
        r == refract_spec(*uv, *n, etai_over_etat as int),
{
    let cos_theta = Vec3::dot(&uv.negate(), n);
    let r_out_perp: Vec3 = uv.plus(n.scale(cos_theta)).scale(etai_over_etat);
    let r_out_parallel: Vec3 = n.scale(
        fx_neg(fx_sqrt(fx_abs(fx_sub(ONE, r_out_perp.squared_length())))),
    );
    r_out_perp.plus(r_out_parallel)
}

pub fn schlick(cosine: i64, ref_idx: i64) -> (r: i64)
    ensures
        r == schlick_spec(cosine as int, ref_idx as int),
{
    let mut r0 = fx_div(fx_sub(ONE, ref_idx), fx_add(ONE, ref_idx));
    r0 = fx_mul(r0, r0);
    let x = fx_sub(ONE, cosine);
    let x5 = fx_mul(fx_mul(fx_mul(fx_mul(x, x), x), x), x);
    fx_add(r0, fx_mul(fx_sub(ONE, r0), x5))
}

/// Scatters `r_in` at `rec` with the given random inputs.
pub fn scatter_with(material: &Material, r_in: &Ray, rec: &HitRecord, sample: Vec3, draw: i64) -> (res: (
    bool,
    Color,
    Ray,
))
    ensures
        res == scatter_spec(*material, *r_in, *rec, sample, draw as int),
{
    match material {
        Material::Lambertian { albedo } => {
            let mut scatter_direction: Vec3 = rec.normal.plus(sample);
            if scatter_direction.squared_length() == 0 {
                scatter_direction = rec.normal;
            }
            (true, *albedo, Ray::ray(rec.p, scatter_direction))
        },
        Material::Metal { albedo, fuzz } => {
            let reflected = reflect(&Vec3::unit_vector(&r_in.direction()), &rec.normal);
            let f: i64 = if *fuzz < 0 {
                0
            } else if *fuzz > ONE {
                ONE
            } else {
                *fuzz
            };
            let scattered = Ray::ray(rec.p, reflected.plus(sample.scale(f)));
            (Vec3::dot(&scattered.direction(), &rec.normal) > 0, *albedo, scattered)
        },
        Material::Dielectric { ref_idx } => {
            let attenuation = Color::new(ONE, ONE, ONE);
            let etai_over_etat: i64 = if rec.front_face {
                fx_div(ONE, *ref_idx)
            } else {
                *ref_idx
            };
            let unit_direction: Vec3 = Vec3::unit_vector(&r_in.direction());
            let cos_theta: i64 = fx_min(Vec3::dot(&unit_direction.negate(), &rec.normal), ONE);
            let sin_theta: i64 = fx_sqrt(fx_sub(ONE, fx_mul(cos_theta, cos_theta)));
            if fx_mul(etai_over_etat, sin_theta) > ONE {
                let reflected = reflect(&unit_direction, &rec.normal);
                return (true, attenuation, Ray::ray(rec.p, reflected));
            }
            let reflect_prob = schlick(cos_theta, etai_over_etat);
            if draw < reflect_prob {
                let reflected = reflect(&unit_direction, &rec.normal);
                return (true, attenuation, Ray::ray(rec.p, reflected));
            }
            let refracted = refract(&unit_direction, &rec.normal, etai_over_etat);
            (true, attenuation, Ray::ray(rec.p, refracted))
        },
    }
}

/// Scatters `r_in` at `rec`, drawing the random inputs. Writes the
/// attenuation and the outgoing ray, and returns whether the ray goes on
/// (`false`: it was absorbed).
pub fn scatter(
    material: &Material,
    r_in: &Ray,
    rec: &HitRecord,
    attenuation: &mut Color,
    scattered: &mut Ray,
) -> (res: bool)
    ensures
        exists|sample: Vec3, draw: int|
            vlen_sq(sample) <= ONE && 0 <= draw < ONE && #[trigger] scatter_spec(
                *material,
                *r_in,
                *rec,
                sample,
                draw,
            ) == (res, *final(attenuation), *final(scattered)),
        final(scattered).orig == rec.p,
        match *material {
            Material::Lambertian { albedo } => res && *final(attenuation) == albedo,
            Material::Metal { albedo, fuzz } => *final(attenuation) == albedo && res == (vdot(
                final(scattered).dir,
                rec.normal,
            ) > 0),
            Material::Dielectric { ref_idx } => res && *final(attenuation) == white() && (
            total_internal_reflection(*r_in, *rec, ref_idx as int) ==> final(scattered).dir
                == reflect_spec(vunit(r_in.dir), rec.normal)),
        },
{
    let mut sample: Vec3 = Vec3::new(0, 0, 0);
    let mut draw: i64 = 0;
    match material {
        Material::Dielectric { .. } => {
            draw = Lib::random_double();
        },
        _ => {
            sample = Vec3::random_in_unit_sphere();
        },
    }
    let (res, a, s) = scatter_with(material, r_in, rec, sample, draw);
    *attenuation = a;
    *scattered = s;
    proof {
        assert(scatter_spec(*material, *r_in, *rec, sample, draw as int) == (
            res,
            *attenuation,
            *scattered,
        ));
    }
    res
}

} // verus!
