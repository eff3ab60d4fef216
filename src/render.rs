//! Per-pixel sampling and tone mapping.
use vstd::prelude::*;
use crate::camera::Camera;
use crate::fixed::{fx, fx_add, fx_div, fx_from_int, fx_sqrt, fx_sub, Fixed, ONE_RAW};
use crate::hit::Hittable;
use crate::ray::{black, random_fixed, ray_color, ray_color_outcome, Ray};
use crate::vec3::{v_add, Color, Vec3};

verus! {

/// Largest channel value kept before scaling to a byte (0.999), raw.
pub const CHANNEL_CEILING_RAW: i64 = 65470;

/// A channel average as a byte: gamma 2 (the square root), clamped to
/// `[0, 0.999]`, scaled by 256 and truncated.
pub open spec fn channel_byte(average: Fixed) -> u8 {
    let g = fx_sqrt(average).raw;
    let c = if g > CHANNEL_CEILING_RAW { CHANNEL_CEILING_RAW as int } else { g as int };
    (c * 256 / (ONE_RAW as int)) as u8
}

fn to_byte(average: Fixed) -> (r: u8)
    ensures
        r == channel_byte(average),
{
    let g = average.sqrt().raw;
    let c: i64 = if g > CHANNEL_CEILING_RAW { CHANNEL_CEILING_RAW } else { g };
    (c / 256) as u8
}

/// The three bytes of a pixel whose `samples` estimates add up to `color_sum`.
pub fn tone_map(color_sum: Color, samples: u32) -> (r: (u8, u8, u8))
    ensures
        r == (
            channel_byte(fx_div(color_sum.x, fx_from_int(samples as int))),
            channel_byte(fx_div(color_sum.y, fx_from_int(samples as int))),
            channel_byte(fx_div(color_sum.z, fx_from_int(samples as int))),
        ),
{
    let n = Fixed::from_int(samples as i64);
    (to_byte(color_sum.x.div(n)), to_byte(color_sum.y.div(n)), to_byte(color_sum.z.div(n)))
}

/// Horizontal viewport coordinate of column `x` moved right by `du`.
pub open spec fn pixel_u(x: int, width: int, du: Fixed) -> Fixed {
    fx_div(fx_add(fx_from_int(x), du), fx_from_int(width - 1))
}

/// Vertical viewport coordinate of row `y` (counted from the top) moved up
/// by `dv`.
pub open spec fn pixel_v(y: int, height: int, dv: Fixed) -> Fixed {
    fx_sub(fx(ONE_RAW as int), fx_div(fx_sub(fx_from_int(y), dv), fx_from_int(height - 1)))
}

/// `c` is one possible estimate for a ray through pixel `(x, y)`.
pub open spec fn sample_outcome<W: Hittable>(
    camera: Camera,
    world: W,
    x: int,
    y: int,
    width: int,
    height: int,
    depth: int,
    c: Color,
) -> bool {
    exists|du: Fixed, dv: Fixed, ray: Ray|
        0 <= du.raw < ONE_RAW && 0 <= dv.raw < ONE_RAW && #[trigger] camera.ray_outcome(
            pixel_u(x, width, du),
            pixel_v(y, height, dv),
            ray,
        ) && ray_color_outcome(world, ray, depth, c)
}

pub open spec fn sum_colors(cs: Seq<Color>) -> Color
    decreases cs.len(),
{
    if cs.len() == 0 {
        black()
    } else {
        v_add(sum_colors(cs.drop_last()), cs.last())
    }
}

/// The sum of `samples` estimates for pixel `(x, y)` of a `width` by
/// `height` image.
pub fn sample_pixel<W: Hittable>(
    camera: &Camera,
    world: &W,
    x: u32,
    y: u32,
    width: u32,
    height: u32,
    samples: u32,
    max_depth: i32,
) -> (r: Color)
    ensures
        exists|cs: Seq<Color>|
            cs.len() == samples && (forall|i: int|
                0 <= i < cs.len() ==> sample_outcome(
                    *camera,
                    *world,
                    x as int,
                    y as int,
                    width as int,
                    height as int,
                    max_depth as int,
                    #[trigger] cs[i],
                )) && r == #[trigger] sum_colors(cs),
{
    let ghost mut cs: Seq<Color> = Seq::empty();
    let mut color = Vec3::zero();
    let mut k: u32 = 0;
    while k < samples
        invariant
            k <= samples,
            cs.len() == k,
            forall|i: int|
                0 <= i < cs.len() ==> sample_outcome(
                    *camera,
                    *world,
                    x as int,
                    y as int,
                    width as int,
                    height as int,
                    max_depth as int,
                    #[trigger] cs[i],
                ),
            color == sum_colors(cs),
        decreases samples - k,
    {
        let du = random_fixed(Fixed::zero(), Fixed::one());
        let dv = random_fixed(Fixed::zero(), Fixed::one());
        let u = Fixed::from_int(x as i64).add(du).div(Fixed::from_int(width as i64 - 1));
        let v = Fixed::one().sub(
            Fixed::from_int(y as i64).sub(dv).div(Fixed::from_int(height as i64 - 1)),
        );
        let ray = camera.get_ray(u, v);
        let c = ray_color(&ray, world, max_depth);
        proof {
            assert(camera.ray_outcome(
                pixel_u(x as int, width as int, du),
                pixel_v(y as int, height as int, dv),
                ray,
            ));
            let old_cs = cs;
            cs = cs.push(c);
            assert(cs.drop_last() =~= old_cs);
        }
        color = color.add(c);
        k = k + 1;
    }
    color
}

} // verus!
