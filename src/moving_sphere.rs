//! Spheres whose center moves linearly with time.
use vstd::prelude::*;
use crate::fixed::{fx_div, fx_sub, Fixed};
use crate::hit::{HitRecord, Hittable};
use crate::material::Material;
use crate::ray::Ray;
use crate::sphere::{ball_hit, hit_ball};
use crate::vec3::{v_add, v_scale, v_sub, Point3};

verus! {

#[derive(Clone, Copy, Debug, PartialEq, Eq, Structural)]
pub struct MovingSphere {
    pub center0: Point3,
    pub center1: Point3,
    pub time0: Fixed,
    pub time1: Fixed,
    pub radius: Fixed,
    pub material: Material,
}

impl MovingSphere {
    pub fn new(
        center0: Point3,
        center1: Point3,
        time0: Fixed,
        time1: Fixed,
        radius: Fixed,
        material: Material,
    ) -> (r: MovingSphere)
        requires
            radius.raw > 0,
        ensures
            r == (MovingSphere { center0, center1, time0, time1, radius, material }),
    {
        Self { center0, center1, time0, time1, radius, material }
    }

    /// `center0 + (time - time0) / (time1 - time0) * (center1 - center0)`,
    /// extrapolated outside `[time0, time1]`; `center0` when the two times
    /// coincide.
    pub open spec fn center_at(self, time: Fixed) -> Point3 {
        v_add(
            self.center0,
            v_scale(
                fx_div(fx_sub(time, self.time0), fx_sub(self.time1, self.time0)),
                v_sub(self.center1, self.center0),
            ),
        )
    }

    pub fn center(&self, time: Fixed) -> (r: Point3)
        ensures
            r == self.center_at(time),
    {
        self.center0.add(
            self.center1.sub(self.center0).scale(time.sub(self.time0).div(self.time1.sub(self.time0))),
        )
    }
}

impl Hittable for MovingSphere {
    open spec fn hit_model(&self, ray: Ray, t_min: Fixed, t_max: Fixed) -> Option<HitRecord> {
        ball_hit(self.center_at(ray.time), self.radius, self.material, ray, t_min, t_max)
    }

    fn hit(&self, ray: &Ray, t_min: Fixed, t_max: Fixed, record: &mut HitRecord) -> (r: bool) {
        let center = self.center(ray.time);
        hit_ball(center, self.radius, self.material, ray, t_min, t_max, record)
    }
}

} // verus!
