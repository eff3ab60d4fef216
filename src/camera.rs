//! The camera: turns image-plane coordinates into rays, with a thin lens for
//! depth of field and an open shutter for motion blur.
use vstd::prelude::*;
use crate::fixed::{fx_div, fx_from_int, fx_mul, Fixed};
use crate::ray::{in_range, in_unit_disk, random_fixed, random_in_unit_disk, Ray};
use crate::vec3::{v_add, v_cross, v_div, v_normalize, v_scale, v_sub, Point3, Vec3};

verus! {

#[derive(Clone, Copy, Debug, PartialEq, Eq, Structural)]
pub struct Camera {
    pub origin: Point3,
    pub lower_left_corner: Point3,
    pub horizontal: Vec3,
    pub vertical: Vec3,
    pub u: Vec3,
    pub v: Vec3,
    pub w: Vec3,
    pub lens_radius: Fixed,
    pub time0: Fixed,
    pub time1: Fixed,
}

/// The camera set up at `lookfrom`, looking at `lookat` with `vup` upward.
/// `half_fov_tan` is the tangent of half the vertical field of view; the
/// viewport is placed `focus_dist` along the view axis.
pub open spec fn camera_model(
    lookfrom: Point3,
    lookat: Point3,
    vup: Vec3,
    half_fov_tan: Fixed,
    aspect_ratio: Fixed,
    aperture: Fixed,
    focus_dist: Fixed,
    time0: Fixed,
    time1: Fixed,
) -> Camera {
    let two = fx_from_int(2);
    let viewport_height = fx_mul(two, half_fov_tan);
    let viewport_width = fx_mul(aspect_ratio, viewport_height);
    let w = v_normalize(v_sub(lookfrom, lookat));
    let u = v_normalize(v_cross(vup, w));
    let v = v_cross(w, u);
    let horizontal = v_scale(fx_mul(focus_dist, viewport_width), u);
    let vertical = v_scale(fx_mul(focus_dist, viewport_height), v);
    let lower_left_corner = v_sub(
        v_sub(v_sub(lookfrom, v_div(horizontal, two)), v_div(vertical, two)),
        v_scale(focus_dist, w),
    );
    Camera {
        origin: lookfrom,
        lower_left_corner,
        horizontal,
        vertical,
        u,
        v,
        w,
        lens_radius: fx_div(aperture, two),
        time0,
        time1,
    }
}

impl Camera {
    pub fn new(
        lookfrom: Point3,
        lookat: Point3,
        vup: Vec3,
        half_fov_tan: Fixed,
        aspect_ratio: Fixed,
        aperture: Fixed,
        focus_dist: Fixed,
        time0: Fixed,
        time1: Fixed,
    ) -> (r: Camera)
        ensures
            r == camera_model(
                lookfrom,
                lookat,
                vup,
                half_fov_tan,
                aspect_ratio,
                aperture,
                focus_dist,
                time0,
                time1,
            ),
    {
        let two = Fixed::from_int(2);
        let viewport_height = two.mul(half_fov_tan);
        let viewport_width = aspect_ratio.mul(viewport_height);
        let w = lookfrom.sub(lookat).normalize();
        let u = vup.cross(w).normalize();
        let v = w.cross(u);
        let origin = lookfrom;
        let horizontal = u.scale(focus_dist.mul(viewport_width));
        let vertical = v.scale(focus_dist.mul(viewport_height));
        let lower_left_corner = origin.sub(horizontal.div(two)).sub(vertical.div(two)).sub(
            w.scale(focus_dist),
        );
        let lens_radius = aperture.div(two);
        Self {
            origin,
            lower_left_corner,
            horizontal,
            vertical,
            u,
            v,
            w,
            lens_radius,
            time0,
            time1,
        }
    }

    /// The ray through viewport coordinates `(s, t)` for the lens sample
    /// `disk` (a point of the unit disk) at instant `time`.
    pub open spec fn ray_through(self, s: Fixed, t: Fixed, disk: Vec3, time: Fixed) -> Ray {
        let rd = v_scale(self.lens_radius, disk);
        let offset = v_add(v_scale(rd.x, self.u), v_scale(rd.y, self.v));
        Ray {
            origin: v_add(self.origin, offset),
            direction: v_sub(
                v_sub(
                    v_add(
                        v_add(self.lower_left_corner, v_scale(s, self.horizontal)),
                        v_scale(t, self.vertical),
                    ),
                    self.origin,
                ),
                offset,
            ),
            time,
        }
    }

    /// The shutter instants a ray may carry: `[time0, time1)`, or `time0`
    /// alone when the shutter does not stay open.
    pub open spec fn shutter_instant(self, time: Fixed) -> bool {
        if self.time0.raw < self.time1.raw {
            in_range(time, self.time0, self.time1)
        } else {
            time == self.time0
        }
    }

    /// `ray` is one that `get_ray(s, t)` may return.
    pub open spec fn ray_outcome(self, s: Fixed, t: Fixed, ray: Ray) -> bool {
        &&& self.shutter_instant(ray.time)
        &&& exists|disk: Vec3| #[trigger] in_unit_disk(disk) && ray == self.ray_through(s, t, disk, ray.time)
    }

    pub fn get_ray(&self, s: Fixed, t: Fixed) -> (r: Ray)
        ensures
            self.ray_outcome(s, t, r),
    {
        let disk = random_in_unit_disk();
        let rd = disk.scale(self.lens_radius);
        let offset = self.u.scale(rd.x).add(self.v.scale(rd.y));
        let time = if self.time0.raw < self.time1.raw {
            random_fixed(self.time0, self.time1)
        } else {
            self.time0
        };
        let r = Ray {
            origin: self.origin.add(offset),
            direction: self.lower_left_corner.add(self.horizontal.scale(s)).add(
                self.vertical.scale(t),
            ).sub(self.origin).sub(offset),
            time,
        };
        assert(in_unit_disk(disk) && r == self.ray_through(s, t, disk, r.time));
        r
    }
}

/// Without an aperture the lens sample does not matter: every ray through
/// the same viewport coordinates has the same origin and direction.
pub proof fn lemma_pinhole_rays_agree(camera: Camera, s: Fixed, t: Fixed, r1: Ray, r2: Ray)
    requires
        camera.lens_radius.raw == 0,
        camera.ray_outcome(s, t, r1),
        camera.ray_outcome(s, t, r2),
    ensures
        r1.origin == r2.origin,
        r1.direction == r2.direction,
{
    let d1 = choose|disk: Vec3| #[trigger] in_unit_disk(disk) && r1 == camera.ray_through(s, t, disk, r1.time);
    let d2 = choose|disk: Vec3| #[trigger] in_unit_disk(disk) && r2 == camera.ray_through(s, t, disk, r2.time);
    assert(v_scale(camera.lens_radius, d1) == v_scale(camera.lens_radius, d2));
}

} // verus!
