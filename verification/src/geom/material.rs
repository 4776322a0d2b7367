//! Surface hits and the materials that scatter a ray at them.
use crate::fixed::Fixed;
use crate::geom::vec3::{has_negation, lemma_dot_flip, Ray, Vec3};
use vstd::prelude::*;

verus! {

/// How a ray goes on after a surface: the new ray and the colour by which
/// the light it carries is attenuated.
#[derive(Clone, Copy, Debug, PartialEq, Eq, Structural)]
pub struct Scatter {
    pub scattered: Ray,
    pub attenuation: Vec3,
}

/// The random draws that one scattering consumes: a point of the unit ball
/// and a number of the interval from zero to one.
#[derive(Clone, Copy, Debug, PartialEq, Eq, Structural)]
pub struct ScatterSample {
    pub ball: Vec3,
    pub chance: Fixed,
}

/// A diffuse surface.
#[derive(Clone, Copy, Debug, PartialEq, Eq, Structural)]
pub struct Lambertian {
    pub albedo: Vec3,
}

/// A reflective surface; `fuzz` blurs the reflection and is at most one.
#[derive(Clone, Copy, Debug, PartialEq, Eq, Structural)]
pub struct Metal {
    pub albedo: Vec3,
    pub fuzz: Fixed,
}

/// A transparent surface with the given index of refraction.
#[derive(Clone, Copy, Debug, PartialEq, Eq, Structural)]
pub struct Dielectric {
    pub ref_idx: Fixed,
}

/// The material of a surface.
#[derive(Clone, Copy, Debug, PartialEq, Eq, Structural)]
pub enum Material {
    Lambertian(Lambertian),
    Metal(Metal),
    Dielectric(Dielectric),
}

/// Where and how a ray meets a surface. `normal` is oriented against the
/// ray; `front_face` tells whether the surface's outward normal already was.
#[derive(Clone, Copy, Debug, PartialEq, Eq, Structural)]
pub struct Hit {
    pub point: Vec3,
    pub normal: Vec3,
    pub t: Fixed,
    pub front_face: bool,
    pub material: Material,
}

impl Hit {
    /// The hit at `point` and parameter `t`, with the normal turned against
    /// the ray.
    pub open spec fn spec_new(
        point: Vec3,
        outward_normal: Vec3,
        t: Fixed,
        ray: &Ray,
        material: Material,
    ) -> Hit {
        let front_face = ray.direction.dot(&outward_normal).raw < 0;
        Hit {
            point,
            normal: if front_face {
                outward_normal
            } else {
                outward_normal.flip()
            },
            t,
            front_face,
            material,
        }
    }

    /// The hit at `point` and parameter `t`. The ray meets the front face
    /// when it runs against `outward_normal`; the stored normal is
    /// `outward_normal` then, and its negation otherwise, so that it never
    /// points along the ray.
    #[verifier::when_used_as_spec(spec_new)]
    pub fn new(point: Vec3, outward_normal: Vec3, t: Fixed, ray: &Ray, material: Material) -> (r:
        Hit)
        ensures
            r == Hit::spec_new(point, outward_normal, t, ray, material),
            r.front_face == (ray.direction.dot(&outward_normal).raw < 0),
            r.normal == outward_normal || r.normal == outward_normal.flip(),
            has_negation(outward_normal) ==> ray.direction.dot(&r.normal).raw <= 0,
    {
        proof {
            if has_negation(outward_normal) {
                lemma_dot_flip(ray.direction, outward_normal);
            }
        }
        let front_face = ray.direction.dot(&outward_normal).raw < 0;
        let normal = if front_face {
            outward_normal
        } else {
            outward_normal.flip()
        };
        Hit { point, normal, t, front_face, material }
    }
}

/// The mirror image of `v` at a surface with normal `n`:
/// `v - 2 * dot(v, n) * n`.
pub open spec fn spec_reflect(v: &Vec3, n: &Vec3) -> Vec3 {
    v.sub(n.scale(Fixed::from_int(2).mul(v.dot(n))))
}

/// The mirror image of `v` at a surface with normal `n`.
#[verifier::when_used_as_spec(spec_reflect)]
pub fn reflect(v: &Vec3, n: &Vec3) -> (r: Vec3)
    ensures
        r == spec_reflect(v, n),
{
    v.sub(n.scale(Fixed::from_int(2).mul(v.dot(n))))
}

/// The direction of `uv` after it crosses a surface with normal `n` and
/// ratio of refractive indices `etai_over_etat`: the sum of the part
/// parallel to the surface and the part along the normal.
pub open spec fn spec_refact(uv: &Vec3, n: &Vec3, etai_over_etat: Fixed) -> Vec3 {
    let cos_theta = uv.flip().dot(n);
    let r_out_parallel = uv.add(n.scale(cos_theta)).scale(etai_over_etat);
    let r_out_perp = n.scale(Fixed::one().sub(r_out_parallel.length_squared()).sqrt().neg());
    r_out_parallel.add(r_out_perp)
}

/// The refracted direction of the unit vector `uv`.
#[verifier::when_used_as_spec(spec_refact)]
pub fn refact(uv: &Vec3, n: &Vec3, etai_over_etat: Fixed) -> (r: Vec3)
    ensures
        r == spec_refact(uv, n, etai_over_etat),
{
    let cos_theta = uv.flip().dot(n);
    let r_out_parallel = uv.add(n.scale(cos_theta)).scale(etai_over_etat);
    let r_out_perp = n.scale(Fixed::one().sub(r_out_parallel.length_squared()).sqrt().neg());
    r_out_parallel.add(r_out_perp)
}

/// Schlick's approximation of the reflectance:
/// `r0 + (1 - r0) * (1 - cosine)^5` with `r0 = ((1 - ri) / (1 + ri))^2`.
pub open spec fn spec_schlick(cosine: Fixed, ref_idx: Fixed) -> Fixed {
    let r0 = Fixed::one().sub(ref_idx).div(Fixed::one().add(ref_idx)).powi(2);
    r0.add(Fixed::one().sub(r0).mul(Fixed::one().sub(cosine).powi(5)))
}

/// Schlick's approximation of the reflectance at the given cosine of the
/// angle of incidence.
#[verifier::when_used_as_spec(spec_schlick)]
pub fn schlick(cosine: Fixed, ref_idx: Fixed) -> (r: Fixed)
    ensures
        r == spec_schlick(cosine, ref_idx),
{
    let r0 = Fixed::one().sub(ref_idx).div(Fixed::one().add(ref_idx)).powi(2);
    r0.add(Fixed::one().sub(r0).mul(Fixed::one().sub(cosine).powi(5)))
}

impl Lambertian {
    /// The diffuse material of colour `albedo`.
    pub fn new(albedo: Vec3) -> (r: Lambertian)
        ensures
            r.albedo == albedo,
    {
        Lambertian { albedo }
    }

    /// The ray leaves the hit point along the normal displaced by the ball
    /// sample, at the time of the incoming ray, attenuated by the albedo.
    pub open spec fn spec_scatter(&self, ray: &Ray, hit: &Hit, sample: &ScatterSample) -> Option<
        Scatter,
    > {
        Some(
            Scatter {
                scattered: Ray::new_at(hit.point, hit.normal.add(sample.ball), ray.time),
                attenuation: self.albedo,
            },
        )
    }

    /// Scatters diffusely; a diffuse surface never absorbs.
    #[verifier::when_used_as_spec(spec_scatter)]
    pub fn scatter(&self, ray: &Ray, hit: &Hit, sample: &ScatterSample) -> (r: Option<Scatter>)
        ensures
            r == self.spec_scatter(ray, hit, sample),
            r is Some,
    {
        let scatter_direction = hit.normal.add(sample.ball);
        Some(
            Scatter {
                scattered: Ray::new_at(hit.point, scatter_direction, ray.time),
                attenuation: self.albedo,
            },
        )
    }
}

impl Metal {
    /// The reflective material of colour `albedo`; a fuzz above one counts
    /// as one.
    pub fn new(albedo: Vec3, f: Fixed) -> (r: Metal)
        ensures
            r.albedo == albedo,
            r.fuzz == f.min(Fixed::one()),
    {
        let fuzz = if f.raw < Fixed::one().raw {
            f
        } else {
            Fixed::one()
        };
        Metal { albedo, fuzz }
    }

    /// The direction in which the metal sends the ray on: the mirror image
    /// of the incoming unit direction, displaced by the ball sample scaled
    /// by the fuzz.
    pub open spec fn scatter_direction(&self, ray: &Ray, hit: &Hit, sample: &ScatterSample) -> Vec3 {
        reflect(&ray.direction.unit(), &hit.normal).add(sample.ball.scale(self.fuzz))
    }

    /// The reflected ray, unless it points into the surface.
    pub open spec fn spec_scatter(&self, ray: &Ray, hit: &Hit, sample: &ScatterSample) -> Option<
        Scatter,
    > {
        let direction = self.scatter_direction(ray, hit, sample);
        if direction.dot(&hit.normal).raw > 0 {
            Some(
                Scatter {
                    scattered: Ray::new_at(hit.point, direction, ray.time),
                    attenuation: self.albedo,
                },
            )
        } else {
            None
        }
    }

    /// Reflects the ray; it is absorbed exactly when the displaced
    /// reflection has no positive component along the normal.
    #[verifier::when_used_as_spec(spec_scatter)]
    pub fn scatter(&self, ray: &Ray, hit: &Hit, sample: &ScatterSample) -> (r: Option<Scatter>)
        ensures
            r == self.spec_scatter(ray, hit, sample),
            r is None <==> self.scatter_direction(ray, hit, sample).dot(&hit.normal).raw <= 0,
    {
        let reflected = reflect(&ray.direction.unit(), &hit.normal);
        let scattered = Ray::new_at(
            hit.point,
            reflected.add(sample.ball.scale(self.fuzz)),
            ray.time,
        );
        if scattered.direction.dot(&hit.normal).raw > 0 {
            Some(Scatter { scattered, attenuation: self.albedo })
        } else {
            None
        }
    }
}

impl Dielectric {
    /// The transparent material with the given index of refraction.
    pub fn new(ref_idx: Fixed) -> (r: Dielectric)
        ensures
            r.ref_idx == ref_idx,
    {
        Dielectric { ref_idx }
    }

    /// The ratio of refractive indices that the ray meets: the reciprocal of
    /// the material's index when it enters, the index when it leaves.
    pub open spec fn ratio(&self, hit: &Hit) -> Fixed {
        if hit.front_face {
            Fixed::one().div(self.ref_idx)
        } else {
            self.ref_idx
        }
    }

    /// Whether the ray is reflected rather than refracted: refraction is
    /// impossible, or the draw `chance` falls below the reflectance.
    pub open spec fn reflects(&self, ray: &Ray, hit: &Hit, sample: &ScatterSample) -> bool {
        let etai_over_etat = self.ratio(hit);
        let cos_theta = ray.direction.unit().flip().dot(&hit.normal).min(Fixed::one());
        let sin_theta = Fixed::one().sub(cos_theta.powi(2)).sqrt();
        etai_over_etat.mul(sin_theta).raw > Fixed::one().raw || sample.chance.raw < schlick(
            cos_theta,
            etai_over_etat,
        ).raw
    }

    /// The reflected or refracted ray, never attenuated.
    pub open spec fn spec_scatter(&self, ray: &Ray, hit: &Hit, sample: &ScatterSample) -> Option<
        Scatter,
    > {
        let unit_direction = ray.direction.unit();
        let direction = if self.reflects(ray, hit, sample) {
            reflect(&unit_direction, &hit.normal)
        } else {
            refact(&unit_direction, &hit.normal, self.ratio(hit))
        };
        Some(
            Scatter {
                scattered: Ray::new_at(hit.point, direction, ray.time),
                attenuation: Vec3::new(Fixed::one(), Fixed::one(), Fixed::one()),
            },
        )
    }

    /// Reflects or refracts the ray; a dielectric never absorbs and never
    /// tints.
    #[verifier::when_used_as_spec(spec_scatter)]
    pub fn scatter(&self, ray: &Ray, hit: &Hit, sample: &ScatterSample) -> (r: Option<Scatter>)
        ensures
            r == self.spec_scatter(ray, hit, sample),
            r is Some,
    {
        let attenuation = Vec3::new(Fixed::one(), Fixed::one(), Fixed::one());
        let etai_over_etat = if hit.front_face {
            Fixed::one().div(self.ref_idx)
        } else {
            self.ref_idx
        };
        let unit_direction = ray.direction.unit();
        let cos_theta = unit_direction.flip().dot(&hit.normal).min(Fixed::one());
        let sin_theta = Fixed::one().sub(cos_theta.powi(2)).sqrt();
        let reflect_prob = schlick(cos_theta, etai_over_etat);
        if etai_over_etat.mul(sin_theta).raw > Fixed::one().raw || sample.chance.raw
            < reflect_prob.raw {
            let reflected = reflect(&unit_direction, &hit.normal);
            let scattered = Ray::new_at(hit.point, reflected, ray.time);
            Some(Scatter { scattered, attenuation })
        } else {
            let refacted = refact(&unit_direction, &hit.normal, etai_over_etat);
            let scattered = Ray::new_at(hit.point, refacted, ray.time);
            Some(Scatter { scattered, attenuation })
        }
    }
}

impl Material {
    /// What the material does to a ray that hits it; `None` is absorption.
    pub open spec fn spec_scatter(&self, ray: &Ray, hit: &Hit, sample: &ScatterSample) -> Option<
        Scatter,
    > {
        match self {
            Material::Lambertian(m) => m.scatter(ray, hit, sample),
            Material::Metal(m) => m.scatter(ray, hit, sample),
            Material::Dielectric(m) => m.scatter(ray, hit, sample),
        }
    }

    /// Scatters the ray as the material's kind prescribes. Only a metal can
    /// absorb.
    #[verifier::when_used_as_spec(spec_scatter)]
    pub fn scatter(&self, ray: &Ray, hit: &Hit, sample: &ScatterSample) -> (r: Option<Scatter>)
        ensures
            r == self.spec_scatter(ray, hit, sample),
            r is None ==> self is Metal,
    {
        match self {
            Material::Lambertian(m) => m.scatter(ray, hit, sample),
            Material::Metal(m) => m.scatter(ray, hit, sample),
            Material::Dielectric(m) => m.scatter(ray, hit, sample),
        }
    }
}

} // verus!
