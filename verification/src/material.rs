//! Surface materials.
//!
//! A material answers a ray that has met a surface with a colour by which light
//! along the path is multiplied, and with the ray along which the path goes on.
//! Each finish has a `scatter_with`, which takes the random sample it needs and
//! is exact, and a `scatter`, which draws the sample.

use crate::hit::Hit;
use crate::ray::Ray;
use crate::sampling::{
    random_in_unit_sphere, random_on_unit_sphere, spec_in_unit_sphere, spec_on_unit_sphere,
    spec_unit_interval, uniform,
};
use crate::scalar::Fixed;
use crate::util::{
    near_zero, reflect, refract, spec_near_zero, spec_reflect, spec_refract, unit_vector,
};
use crate::vec3::{Color, Vec3};
use vstd::prelude::*;

verus! {

/// A diffuse surface.
#[derive(Clone, Copy, Debug, PartialEq, Eq, Structural)]
pub struct MatteFinish {
    pub albedo: Color,
}

/// A mirror-like surface.
#[derive(Clone, Copy, Debug, PartialEq, Eq, Structural)]
pub struct MetallicFinish {
    pub albedo: Color,
    /// How far a reflection may stray from the mirror direction.
    pub fuzz: Fixed,
}

/// A transparent surface.
#[derive(Clone, Copy, Debug, PartialEq, Eq, Structural)]
pub struct Refractive {
    /// Index of refraction.
    pub ir: Fixed,
}

/// The material of a surface: one of the three finishes.
#[derive(Clone, Copy, Debug, PartialEq, Eq, Structural)]
pub enum Material {
    Matte(MatteFinish),
    Metallic(MetallicFinish),
    Refractive(Refractive),
}

/// Schlick's approximation of the share of light that a transparent surface
/// reflects: `r0 + (1 - r0) (1 - cosine)^5` with `r0 = ((1 - n) / (1 + n))^2`.
pub open spec fn spec_reflectance(cosine: Fixed, reflective_index: Fixed) -> Fixed {
    let one = Fixed::spec_one();
    let q = one.spec_sub(reflective_index).spec_div(one.spec_add(reflective_index));
    let r0 = q.spec_mul(q);
    let x = one.spec_sub(cosine);
    r0.spec_add(one.spec_sub(r0).spec_mul(x.spec_mul(x).spec_mul(x).spec_mul(x).spec_mul(x)))
}

/// The share of light that a transparent surface reflects.
pub fn reflectance(cosine: Fixed, reflective_index: Fixed) -> (r: Fixed)
    requires
        Fixed::spec_one().spec_add(reflective_index).raw != 0,
    ensures
        r == spec_reflectance(cosine, reflective_index),
{
    let mut r0 = (Fixed::one() - reflective_index) / (Fixed::one() + reflective_index);
    r0 = r0 * r0;
    let x = Fixed::one() - cosine;
    r0 + (Fixed::one() - r0) * (x * x * x * x * x)
}

impl MatteFinish {
    /// The albedo, and a ray from the point of the hit along the normal plus
    /// `sample`, or along the normal alone where that sum is negligible.
    pub open spec fn spec_scatter_with(self, hit: Hit, sample: Vec3) -> (Color, Ray) {
        let direction = hit.normal.spec_add(sample);
        (
            self.albedo,
            Ray {
                origin: hit.p,
                direction: if spec_near_zero(direction) {
                    hit.normal
                } else {
                    direction
                },
            },
        )
    }

    /// `out` is what the finish answers for some sample on the unit sphere.
    pub open spec fn spec_scatters(self, hit: Hit, out: Option<(Color, Ray)>) -> bool {
        exists|sample: Vec3| #[trigger]
            spec_on_unit_sphere(sample) && out == Some(self.spec_scatter_with(hit, sample))
    }

    /// What the finish answers for the given sample on the unit sphere.
    pub fn scatter_with(&self, hit: &Hit, sample: Vec3) -> (r: (Color, Ray))
        ensures
            r == self.spec_scatter_with(*hit, sample),
    {
        let mut scatter_dir = hit.normal + sample;
        if near_zero(scatter_dir) {
            scatter_dir = hit.normal;
        }
        (self.albedo, Ray::new(hit.p, scatter_dir))
    }

    /// Scatters diffusely. The incoming ray plays no part, and nothing is absorbed.
    pub fn scatter(&self, _ray: &Ray, hit: &Hit) -> (r: Option<(Color, Ray)>)
        ensures
            r is Some,
            self.spec_scatters(*hit, r),
    {
        let sample = random_on_unit_sphere();
        Some(self.scatter_with(hit, sample))
    }
}

impl MetallicFinish {
    /// The albedo, and a ray from the point of the hit along the mirror
    /// direction of the incoming ray plus `fuzz` times `sample`.
    pub open spec fn spec_scatter_with(self, ray: Ray, hit: Hit, sample: Vec3) -> (Color, Ray) {
        (
            self.albedo,
            Ray {
                origin: hit.p,
                direction: spec_reflect(ray.direction.spec_unit_vector(), hit.normal).spec_add(
                    sample.spec_mul(self.fuzz),
                ),
            },
        )
    }

    /// `out` is what the finish answers for some sample inside the unit ball.
    pub open spec fn spec_scatters(self, ray: Ray, hit: Hit, out: Option<(Color, Ray)>) -> bool {
        exists|sample: Vec3| #[trigger]
            spec_in_unit_sphere(sample) && out == Some(self.spec_scatter_with(ray, hit, sample))
    }

    /// What the finish answers for the given sample inside the unit ball.
    pub fn scatter_with(&self, ray: &Ray, hit: &Hit, sample: Vec3) -> (r: (Color, Ray))
        requires
            ray.direction.spec_length().raw != 0,
        ensures
            r == self.spec_scatter_with(*ray, *hit, sample),
    {
        let reflected = reflect(unit_vector(&ray.direction), hit.normal);
        (self.albedo, Ray::new(hit.p, reflected + sample * self.fuzz))
    }

    /// Reflects, with fuzz. Whatever direction results is kept, also one that
    /// points into the surface: nothing is absorbed.
    pub fn scatter(&self, ray: &Ray, hit: &Hit) -> (r: Option<(Color, Ray)>)
        requires
            ray.direction.spec_length().raw != 0,
        ensures
            r is Some,
            self.spec_scatters(*ray, *hit, r),
    {
        let sample = random_in_unit_sphere();
        Some(self.scatter_with(ray, hit, sample))
    }
}

impl Refractive {
    /// The index of refraction is positive.
    pub open spec fn wf(self) -> bool {
        self.ir.raw > 0
    }

    /// The ratio of the indices on the two sides: `1 / ir` for a ray that
    /// enters through the front face, `ir` for one that leaves.
    pub open spec fn spec_ratio(self, hit: Hit) -> Fixed {
        if hit.front_face {
            Fixed::spec_one().spec_div(self.ir)
        } else {
            self.ir
        }
    }

    /// The cosine of the angle of incidence, at most 1.
    pub open spec fn spec_cos_theta(ray: Ray, hit: Hit) -> Fixed {
        ray.direction.spec_unit_vector().spec_neg().spec_dot(hit.normal).spec_min(
            Fixed::spec_one(),
        )
    }

    /// The sine of the angle of incidence: the root of `1 - cos^2`.
    pub open spec fn spec_sin_theta(ray: Ray, hit: Hit) -> Fixed {
        let c = Refractive::spec_cos_theta(ray, hit);
        Fixed::spec_one().spec_sub(c.spec_mul(c)).spec_sqrt()
    }

    /// The ray is reflected: either no refracted ray exists, or the
    /// reflectance is above `draw`.
    pub open spec fn spec_reflects(self, ray: Ray, hit: Hit, draw: Fixed) -> bool {
        let ratio = self.spec_ratio(hit);
        ||| ratio.spec_mul(Refractive::spec_sin_theta(ray, hit)).raw > Fixed::spec_one().raw
        ||| spec_reflectance(Refractive::spec_cos_theta(ray, hit), ratio).raw > draw.raw
    }

    /// White, and a ray from the point of the hit that is either reflected or
    /// refracted, as `draw` decides.
    pub open spec fn spec_scatter_with(self, ray: Ray, hit: Hit, draw: Fixed) -> (Color, Ray) {
        let unit_direction = ray.direction.spec_unit_vector();
        (
            Vec3::spec_new(Fixed::spec_one(), Fixed::spec_one(), Fixed::spec_one()),
            Ray {
                origin: hit.p,
                direction: if self.spec_reflects(ray, hit, draw) {
                    spec_reflect(unit_direction, hit.normal)
                } else {
                    spec_refract(unit_direction, hit.normal, self.spec_ratio(hit))
                },
            },
        )
    }

    /// `out` is what the finish answers for some draw from 0 up to 1.
    pub open spec fn spec_scatters(self, ray: Ray, hit: Hit, out: Option<(Color, Ray)>) -> bool {
        exists|draw: Fixed| #[trigger]
            spec_unit_interval(draw) && out == Some(self.spec_scatter_with(ray, hit, draw))
    }

    /// What the finish answers for the given draw from 0 up to 1.
    pub fn scatter_with(&self, ray: &Ray, hit: &Hit, draw: Fixed) -> (r: (Color, Ray))
        requires
            self.wf(),
            ray.direction.spec_length().raw != 0,
        ensures
            r == self.spec_scatter_with(*ray, *hit, draw),
    {
        let mut refraction_ratio = self.ir;
        if hit.front_face {
            refraction_ratio = Fixed::one() / refraction_ratio;
        }
        let unit_direction = unit_vector(&ray.direction);

        let cos_theta = unit_direction.neg().dot(&hit.normal).min(Fixed::one());
        let sin_theta = (Fixed::one() - cos_theta * cos_theta).sqrt();

        let mut cannot_refract = (refraction_ratio * sin_theta).raw > Fixed::one().raw;
        proof {
            crate::scalar::lemma_tdiv_bounded(
                1_000_000_000_000_000_000int,
                self.ir.raw as int,
            );
            vstd::arithmetic::div_mod::lemma_div_pos_is_pos(
                1_000_000_000_000_000_000int,
                self.ir.raw as int,
            );
        }
        cannot_refract = cannot_refract || reflectance(cos_theta, refraction_ratio).raw > draw.raw;

        let direction = if cannot_refract {
            reflect(unit_direction, hit.normal)
        } else {
            refract(unit_direction, hit.normal, refraction_ratio)
        };
        (Color::new(Fixed::one(), Fixed::one(), Fixed::one()), Ray::new(hit.p, direction))
    }

    /// Reflects or refracts, by a draw against the reflectance. The colour is
    /// always white.
    pub fn scatter(&self, ray: &Ray, hit: &Hit) -> (r: Option<(Color, Ray)>)
        requires
            self.wf(),
            ray.direction.spec_length().raw != 0,
        ensures
            r matches Some(out) && out.0 == Vec3::spec_new(
                Fixed::spec_one(),
                Fixed::spec_one(),
                Fixed::spec_one(),
            ),
            self.spec_scatters(*ray, *hit, r),
    {
        let draw = uniform();
        Some(self.scatter_with(ray, hit, draw))
    }
}

impl Material {
    /// A transparent material has a positive index of refraction.
    pub open spec fn wf(self) -> bool {
        match self {
            Material::Refractive(glass) => glass.wf(),
            _ => true,
        }
    }

    /// `out` is an answer that the material can give for `ray` and `hit`.
    pub open spec fn spec_scatters(self, ray: Ray, hit: Hit, out: Option<(Color, Ray)>) -> bool {
        match self {
            Material::Matte(finish) => finish.spec_scatters(hit, out),
            Material::Metallic(finish) => finish.spec_scatters(ray, hit, out),
            Material::Refractive(glass) => glass.spec_scatters(ray, hit, out),
        }
    }

    /// The colour by which light along the path is multiplied and the ray
    /// along which the path goes on, or nothing where the light is absorbed.
    /// None of the three finishes absorbs.
    pub fn scatter(&self, ray: &Ray, hit: &Hit) -> (r: Option<(Color, Ray)>)
        requires
            self.wf(),
            ray.direction.spec_length().raw != 0,
        ensures
            r is Some,
            self.spec_scatters(*ray, *hit, r),
    {
        match self {
            Material::Matte(finish) => finish.scatter(ray, hit),
            Material::Metallic(finish) => finish.scatter(ray, hit),
            Material::Refractive(glass) => glass.scatter(ray, hit),
        }
    }
}

} // verus!
