//! The camera: from a point of the image to a ray into the scene.

use crate::ray::Ray;
use crate::sampling::{random_in_unit_disc, spec_in_unit_disc};
use crate::scalar::{lemma_mul_unit, Fixed};
use crate::util::{length, unit_vector};
use crate::vec3::{Point3, Vec3};
use vstd::prelude::*;

verus! {

/// A viewport in front of a thin lens. Everything is derived once, when the
/// camera is made.
#[derive(Clone, Copy, Debug, PartialEq, Eq, Structural)]
pub struct Camera {
    pub origin: Point3,
    pub lower_left_corner: Point3,
    pub horizontal: Vec3,
    pub vertical: Vec3,
    pub u: Vec3,
    pub v: Vec3,
    pub w: Vec3,
    pub lens_radius: Fixed,
}

impl Camera {
    /// The direction from the point looked at back to the eye.
    pub open spec fn spec_back(lookfrom: Point3, lookat: Point3) -> Vec3 {
        lookfrom.spec_sub(lookat).spec_unit_vector()
    }

    /// The eye is apart from the point it looks at, and the view direction is
    /// not along `vup`: both vectors that the camera scales to length 1 have a
    /// length.
    pub open spec fn spec_valid_view(lookfrom: Point3, lookat: Point3, vup: Vec3) -> bool {
        &&& lookfrom.spec_sub(lookat).spec_length().raw != 0
        &&& vup.spec_cross(Camera::spec_back(lookfrom, lookat)).spec_length().raw != 0
    }

    /// The camera at `lookfrom` that looks at `lookat` and is focused there.
    /// `half_height` is the tangent of half the vertical field of view, and
    /// `aspect_ratio` is width over height.
    pub open spec fn spec_new(
        lookfrom: Point3,
        lookat: Point3,
        vup: Vec3,
        half_height: Fixed,
        aspect_ratio: Fixed,
        aperture: Fixed,
    ) -> Camera {
        let two = Fixed::spec_from_int(2);
        let viewport_height = two.spec_mul(half_height);
        let viewport_width = aspect_ratio.spec_mul(viewport_height);
        let w = Camera::spec_back(lookfrom, lookat);
        let u = vup.spec_cross(w).spec_unit_vector();
        let v = w.spec_cross(u);
        let focus_distance = lookat.spec_sub(lookfrom).spec_length();
        let horizontal = u.spec_mul(focus_distance).spec_mul(viewport_width);
        let vertical = v.spec_mul(focus_distance).spec_mul(viewport_height);
        Camera {
            origin: lookfrom,
            lower_left_corner: lookfrom.spec_sub(horizontal.spec_div(two)).spec_sub(
                vertical.spec_div(two),
            ).spec_sub(w.spec_mul(focus_distance)),
            horizontal,
            vertical,
            u,
            v,
            w,
            lens_radius: aperture.spec_div(two),
        }
    }

    /// The offset of the ray's origin from the camera's, for a point `disc` of
    /// the unit disc: `disc` scaled to the lens, along `u` and `v`.
    pub open spec fn spec_lens_offset(self, disc: Vec3) -> Vec3 {
        let rd = disc.spec_mul(self.lens_radius);
        self.u.spec_mul(rd.x).spec_add(self.v.spec_mul(rd.y))
    }

    /// The ray through the point `(s, t)` of the image, from the point of the
    /// lens that `disc` stands for.
    pub open spec fn spec_get_ray_with(self, s: Fixed, t: Fixed, disc: Vec3) -> Ray {
        let offset = self.spec_lens_offset(disc);
        Ray {
            origin: self.origin.spec_add(offset),
            direction: self.lower_left_corner.spec_add(self.horizontal.spec_mul(s)).spec_add(
                self.vertical.spec_mul(t),
            ).spec_sub(self.origin).spec_sub(offset),
        }
    }

    /// `ray` is a ray through `(s, t)` from some point of the lens.
    pub open spec fn spec_gets_ray(self, s: Fixed, t: Fixed, ray: Ray) -> bool {
        exists|disc: Vec3| #[trigger]
            spec_in_unit_disc(disc) && ray == self.spec_get_ray_with(s, t, disc)
    }

    /// The camera at `lookfrom` that looks at `lookat`, with `vup` pointing up in
    /// the image. `half_height` is the tangent of half the vertical field of view.
    pub fn new(
        lookfrom: Point3,
        lookat: Point3,
        vup: Vec3,
        half_height: Fixed,
        aspect_ratio: Fixed,
        aperture: Fixed,
    ) -> (c: Camera)
        requires
            Camera::spec_valid_view(lookfrom, lookat, vup),
        ensures
            c == Camera::spec_new(lookfrom, lookat, vup, half_height, aspect_ratio, aperture),
            c.origin == lookfrom,
            aperture.raw == 0 ==> c.lens_radius.raw == 0,
    {
        let two = Fixed::from_int(2);
        let viewport_height = two * half_height;
        let viewport_width = aspect_ratio * viewport_height;

        let w = unit_vector(&(lookfrom - lookat));
        let u = unit_vector(&vup.cross(&w));
        let v = w.cross(&u);

        let focus_distance = length(&(lookat - lookfrom));

        let origin = lookfrom;
        let horizontal = u * focus_distance * viewport_width;
        let vertical = v * focus_distance * viewport_height;
        let lower_left_corner = origin - horizontal / two - vertical / two - w * focus_distance;
        Camera {
            origin,
            horizontal,
            vertical,
            u,
            v,
            w,
            lower_left_corner,
            lens_radius: aperture / two,
        }
    }

    /// The camera of `new`, or nothing where the eye sits on the point it
    /// looks at or looks along `vup`.
    pub fn try_new(
        lookfrom: Point3,
        lookat: Point3,
        vup: Vec3,
        half_height: Fixed,
        aspect_ratio: Fixed,
        aperture: Fixed,
    ) -> (c: Option<Camera>)
        ensures
            c is Some <==> Camera::spec_valid_view(lookfrom, lookat, vup),
            c matches Some(camera) ==> camera == Camera::spec_new(
                lookfrom,
                lookat,
                vup,
                half_height,
                aspect_ratio,
                aperture,
            ),
    {
        let back = lookfrom - lookat;
        if length(&back).raw == 0 {
            return None;
        }
        let w = unit_vector(&back);
        if length(&vup.cross(&w)).raw == 0 {
            return None;
        }
        Some(Camera::new(lookfrom, lookat, vup, half_height, aspect_ratio, aperture))
    }

    /// The ray through `(s, t)` from the point of the lens that `disc` stands
    /// for. With a lens of radius 0 every ray starts at the camera's origin.
    pub fn get_ray_with(&self, s: Fixed, t: Fixed, disc: Vec3) -> (r: Ray)
        ensures
            r == self.spec_get_ray_with(s, t, disc),
            self.lens_radius.raw == 0 ==> r.origin == self.origin,
    {
        let rd = disc * self.lens_radius;
        let offset = self.u * rd.x + self.v * rd.y;
        proof {
            if self.lens_radius.raw == 0 {
                lemma_mul_unit(disc.x);
                lemma_mul_unit(disc.y);
                lemma_mul_unit(self.u.x);
                lemma_mul_unit(self.u.y);
                lemma_mul_unit(self.u.z);
                lemma_mul_unit(self.v.x);
                lemma_mul_unit(self.v.y);
                lemma_mul_unit(self.v.z);
                assert(offset == Vec3::spec_zero());
            }
        }
        Ray::new(
            self.origin + offset,
            self.lower_left_corner + self.horizontal * s + self.vertical * t - self.origin - offset,
        )
    }

    /// A ray through the point `(s, t)` of the image, both from 0 to 1, from
    /// a point drawn on the lens. With a lens of radius 0 every ray starts at
    /// the camera's origin.
    pub fn get_ray(&self, s: Fixed, t: Fixed) -> (r: Ray)
        ensures
            self.spec_gets_ray(s, t, r),
            self.lens_radius.raw == 0 ==> r.origin == self.origin,
    {
        let disc = random_in_unit_disc();
        self.get_ray_with(s, t, disc)
    }
}

} // verus!
