//! The camera: it casts the rays of a pixel and estimates the light that
//! comes back along them.
use crate::color::Color;
use crate::common::{degrees_to_radians, infinity, is_unit_draw, random_double, tan};
use crate::hittable::{lemma_hit_material_not_negative, share, HitRecord, Hittable};
use crate::material::{
    lemma_attenuation_not_negative, lemma_emission_not_negative, lemma_scatter_pdf_not_negative,
    ScatterRecord,
};
use crate::pdf::{lemma_values_not_negative, HittablePdf, MixturePdf, Pdf};
use crate::ray::Ray;
use crate::scalar::{
    floor_root, integer_root, is_floor_root, lemma_floor_root_is, lemma_mul_within,
    lemma_quotient_keeps_order, Scalar, SCALE,
};
use crate::sphere::SURFACE_GAP_MICROS;
use crate::vec3::{
    cross, in_unit_disk, lemma_components_within_unit, lemma_not_negative_is_kept,
    lemma_zero_inside, not_negative, random_in_unit_disk, unit_vector, Point3, Vec3,
};
use std::sync::Arc;
use vstd::prelude::*;

verus! {

/// A camera with a thin lens.
///
/// The image plane lies at the focus distance from `origin`; its lower left
/// corner is `lower_left_corner` and its sides are `horizontal` and
/// `vertical`. `u` and `v` span the lens, of the radius `lens_radius`. Each
/// pixel is divided into `sqrt_samples` by `sqrt_samples` cells with one
/// sample each, a path has at most `max_depth` rays, and a ray that hits
/// nothing brings the light `background`.
#[derive(Clone, Copy, Debug, PartialEq, Eq, Structural)]
pub struct Camera {
    pub image_width: i32,
    pub image_height: i32,
    pub samples_per_pixel: i32,
    pub max_depth: i32,
    pub origin: Point3,
    pub lower_left_corner: Point3,
    pub horizontal: Vec3,
    pub vertical: Vec3,
    pub u: Vec3,
    pub v: Vec3,
    pub lens_radius: Scalar,
    pub background: Color,
    pub sqrt_samples: i32,
}

/// Names the steps of a path in [`Camera::radiance_admits`]: the hit, the
/// material's answer, the drawn direction and the light along the next ray.
pub open spec fn traced(
    hit: Option<HitRecord>,
    answer: Option<ScatterRecord>,
    direction: Vec3,
    incoming: Color,
) -> bool {
    true
}

/// Names the draws of a primary ray in [`Camera::ray_admits`].
pub open spec fn aimed(jitter_x: Scalar, jitter_y: Scalar, lens: Vec3, time: Scalar) -> bool {
    true
}

/// Names the draws and the ray of one sample in [`Camera::sample_admits`].
pub open spec fn sampled(du: Scalar, dv: Scalar, ray: Ray) -> bool {
    true
}

/// Names the sum so far and the next sample in [`Camera::samples_admit`].
pub open spec fn summed(before: Color, sample: Color) -> bool {
    true
}

/// Names the pixels so far in [`Camera::image_admits`].
pub open spec fn painted(before: Seq<Color>, pixel: Color) -> bool {
    true
}

/// The number of cells along one side of a pixel for `samples` samples: the
/// square root, rounded down, and 0 where `samples` is negative.
pub open spec fn spec_samples_root(samples: i32) -> i32 {
    floor_root(samples as int) as i32
}

/// See [`spec_samples_root`].
#[verifier::when_used_as_spec(spec_samples_root)]
pub fn samples_root(samples: i32) -> (r: i32)
    ensures
        r == spec_samples_root(samples),
        0 <= r <= 46_340,
        samples >= 0 ==> is_floor_root(samples as int, r as int),
{
    if samples < 0 {
        0
    } else {
        let root: u64 = integer_root(samples as u128);
        assert(root <= 46_340) by (nonlinear_arith)
            requires
                root * root <= samples,
                samples <= 0x7fff_ffff,
        ;
        root as i32
    }
}

/// One coordinate of the place of a sample in its pixel, from the pixel's
/// centre, for the cell `cell` along that side, the draw `jitter` of
/// `[0, 1)` and cells of the width `width`: `(cell + jitter) width - 0.5`.
pub open spec fn place_in_pixel(cell: i32, jitter: Scalar, width: Scalar) -> Scalar {
    Scalar::from_int(cell).add(jitter).mul(width).sub(Scalar::half())
}

impl Camera {
    pub open spec fn spec_new(
        image_width: i32,
        image_height: i32,
        samples_per_pixel: i32,
        max_depth: i32,
        eye: Point3,
        lookat: Point3,
        up: Vec3,
        vfov: Scalar,
        aspect_ratio: Scalar,
        aperature: Scalar,
        focus_dist: Scalar,
        background: Color,
    ) -> Camera {
        let h = tan(degrees_to_radians(vfov).div(Scalar::from_int(2)));
        let viewport_height = Scalar::from_int(2).mul(h);
        let viewport_width = aspect_ratio.mul(viewport_height);
        let w = unit_vector(eye.sub(lookat));
        let u = unit_vector(cross(up, w));
        let v = cross(w, u);
        let horizontal = u.scale(focus_dist.mul(viewport_width));
        let vertical = v.scale(focus_dist.mul(viewport_height));
        Camera {
            image_width,
            image_height,
            samples_per_pixel,
            max_depth,
            origin: eye,
            lower_left_corner: eye.sub(horizontal.shrink(Scalar::from_int(2))).sub(
                vertical.shrink(Scalar::from_int(2)),
            ).sub(w.scale(focus_dist)),
            horizontal,
            vertical,
            u,
            v,
            lens_radius: aperature.div(Scalar::from_int(2)),
            background,
            sqrt_samples: samples_root(samples_per_pixel),
        }
    }

    /// The camera at `eye` that looks at `lookat`, with `up` upward.
    ///
    /// `vfov` is the vertical field of view in degrees, `aspect_ratio` the
    /// width of the image over its height, `aperature` the diameter of the
    /// lens and `focus_dist` the distance of the plane in focus. The image
    /// plane is `2 tan(vfov / 2)` high at the distance 1, and is laid out at
    /// the focus distance.
    #[verifier::when_used_as_spec(spec_new)]
    pub fn new(
        image_width: i32,
        image_height: i32,
        samples_per_pixel: i32,
        max_depth: i32,
        eye: Point3,
        lookat: Point3,
        up: Vec3,
        vfov: Scalar,
        aspect_ratio: Scalar,
        aperature: Scalar,
        focus_dist: Scalar,
        background: Color,
    ) -> (r: Camera)
        ensures
            r == Camera::spec_new(
                image_width,
                image_height,
                samples_per_pixel,
                max_depth,
                eye,
                lookat,
                up,
                vfov,
                aspect_ratio,
                aperature,
                focus_dist,
                background,
            ),
            samples_per_pixel >= 0 ==> is_floor_root(
                samples_per_pixel as int,
                r.sqrt_samples as int,
            ),
    {
        let theta = degrees_to_radians(vfov);
        let h = tan(theta.div(Scalar::from_int(2)));
        let viewport_height = Scalar::from_int(2).mul(h);
        let viewport_width = aspect_ratio.mul(viewport_height);
        let w = unit_vector(eye.sub(lookat));
        let u = unit_vector(cross(up, w));
        let v = cross(w, u);
        let origin = eye;
        let horizontal = u.scale(focus_dist.mul(viewport_width));
        let vertical = v.scale(focus_dist.mul(viewport_height));
        let lower_left_corner = origin.sub(horizontal.shrink(Scalar::from_int(2))).sub(
            vertical.shrink(Scalar::from_int(2)),
        ).sub(w.scale(focus_dist));
        let lens_radius = aperature.div(Scalar::from_int(2));
        let sqrt_samples = samples_root(samples_per_pixel);
        Camera {
            image_width,
            image_height,
            samples_per_pixel,
            max_depth,
            origin,
            lower_left_corner,
            horizontal,
            vertical,
            u,
            v,
            lens_radius,
            background,
            sqrt_samples,
        }
    }

    /// The place of a sample in its pixel, from the pixel's centre, for
    /// the cell `(s_i, s_j)` and the draws `jitter_x`, `jitter_y` of
    /// `[0, 1)`: `((s_i + jitter_x) w - 0.5, (s_j + jitter_y) w - 0.5)`
    /// with cells of the width `w`.
    pub open spec fn spec_stratum_offset(
        &self,
        s_i: i32,
        s_j: i32,
        jitter_x: Scalar,
        jitter_y: Scalar,
    ) -> Vec3 {
        Vec3::new(
            place_in_pixel(s_i, jitter_x, self.cell_width()),
            place_in_pixel(s_j, jitter_y, self.cell_width()),
            Scalar::zero(),
        )
    }

    /// The width of a cell of a pixel: one over the number of cells along a
    /// side.
    pub open spec fn cell_width(&self) -> Scalar {
        Scalar::one().div(Scalar::from_int(self.sqrt_samples))
    }

    /// See [`Camera::spec_stratum_offset`].
    #[verifier::when_used_as_spec(spec_stratum_offset)]
    pub fn stratum_offset(&self, s_i: i32, s_j: i32, jitter_x: Scalar, jitter_y: Scalar) -> (r:
        Vec3)
        ensures
            r == self.spec_stratum_offset(s_i, s_j, jitter_x, jitter_y),
    {
        let recip_sqrt_samples = Scalar::one().div(Scalar::from_int(self.sqrt_samples));
        let px = Scalar::from_int(s_i).add(jitter_x).mul(recip_sqrt_samples).sub(Scalar::half());
        let py = Scalar::from_int(s_j).add(jitter_y).mul(recip_sqrt_samples).sub(Scalar::half());
        Vec3::new(px, py, Scalar::zero())
    }

    /// A random place in the cell `(s_i, s_j)` of a pixel.
    pub fn sample_square_stratification(&self, s_i: i32, s_j: i32) -> (r: Vec3)
        ensures
            exists|jitter_x: Scalar, jitter_y: Scalar|
                is_unit_draw(jitter_x) && is_unit_draw(jitter_y) && r
                    == #[trigger] self.stratum_offset(s_i, s_j, jitter_x, jitter_y),
    {
        let jitter_x = random_double();
        let jitter_y = random_double();
        self.stratum_offset(s_i, s_j, jitter_x, jitter_y)
    }

    /// The point of the lens that the point `lens` of the unit disk
    /// selects; the eye itself for a lens without size.
    pub open spec fn lens_point(&self, lens: Vec3) -> Point3 {
        if self.lens_radius@ <= 0 {
            self.origin
        } else {
            self.origin.add(self.u.scale(lens.scale(self.lens_radius).x)).add(
                self.v.scale(lens.scale(self.lens_radius).y),
            )
        }
    }

    /// How far a place in a pixel, counted in pixels from the pixel's
    /// centre, moves a coordinate on the image plane along a side of
    /// `extent` pixels: `place / (extent - 1)`.
    pub open spec fn spec_plane_shift(place: Scalar, extent: i32) -> Scalar {
        place.div(Scalar::of((extent - 1) * SCALE))
    }

    /// See [`Camera::spec_plane_shift`].
    #[verifier::when_used_as_spec(spec_plane_shift)]
    pub fn plane_shift(place: Scalar, extent: i32) -> (r: Scalar)
        ensures
            r == Camera::spec_plane_shift(place, extent),
    {
        let last: i64 = extent as i64 - 1;
        place.div(Scalar { micros: last * SCALE })
    }

    /// The point of the image plane with the coordinates `(s, t)`:
    /// `lower_left_corner + s horizontal + t vertical`.
    pub open spec fn spec_plane_point(&self, s: Scalar, t: Scalar) -> Point3 {
        self.lower_left_corner.add(self.horizontal.scale(s)).add(self.vertical.scale(t))
    }

    /// See [`Camera::spec_plane_point`].
    #[verifier::when_used_as_spec(spec_plane_point)]
    pub fn plane_point(&self, s: Scalar, t: Scalar) -> (r: Point3)
        ensures
            r == self.spec_plane_point(s, t),
    {
        self.lower_left_corner.add(self.horizontal.scale(s)).add(self.vertical.scale(t))
    }

    /// The ray, cast at `time`, from the point of the lens that `lens`
    /// selects through the point of the image plane that lies at the place
    /// `offset` of the pixel about `(s, t)`: through
    /// `(s + offset.x / (image_width - 1), t + offset.y / (image_height - 1))`.
    /// The place in the pixel moves the point on the image plane only; the
    /// ray starts on the lens.
    pub open spec fn spec_ray_through(
        &self,
        s: Scalar,
        t: Scalar,
        offset: Vec3,
        lens: Vec3,
        time: Scalar,
    ) -> Ray {
        Ray::new(
            self.lens_point(lens),
            self.plane_point(
                s.add(Camera::plane_shift(offset.x, self.image_width)),
                t.add(Camera::plane_shift(offset.y, self.image_height)),
            ).sub(self.lens_point(lens)),
            time,
        )
    }

    /// See [`Camera::spec_ray_through`].
    #[verifier::when_used_as_spec(spec_ray_through)]
    pub fn ray_through(&self, s: Scalar, t: Scalar, offset: Vec3, lens: Vec3, time: Scalar) -> (r:
        Ray)
        ensures
            r == self.spec_ray_through(s, t, offset, lens, time),
            r.origin == self.lens_point(lens),
            self.lens_radius@ <= 0 ==> r.origin == self.origin,
            r.time == time,
    {
        let pixel_sample = self.plane_point(
            s.add(Camera::plane_shift(offset.x(), self.image_width)),
            t.add(Camera::plane_shift(offset.y(), self.image_height)),
        );
        let ray_origin = if self.lens_radius.micros <= 0 {
            self.origin
        } else {
            let rd = lens.scale(self.lens_radius);
            self.origin.add(self.u.scale(rd.x())).add(self.v.scale(rd.y()))
        };
        let ray_direction = pixel_sample.sub(ray_origin);
        Ray::new(ray_origin, ray_direction, time)
    }

    /// `out` is a ray that [`Camera::get_ray`] can give: the ray of
    /// [`Camera::ray_through`] for a place in the cell `(s_i, s_j)`, a
    /// point of the unit disk that selects the point of the lens, and a
    /// time, all three drawn at random.
    pub open spec fn ray_admits(&self, s: Scalar, t: Scalar, s_i: i32, s_j: i32, out: Ray) -> bool {
        exists|jitter_x: Scalar, jitter_y: Scalar, lens: Vec3, time: Scalar| #[trigger]
            aimed(jitter_x, jitter_y, lens, time) && is_unit_draw(jitter_x) && is_unit_draw(
                jitter_y,
            ) && in_unit_disk(lens) && is_unit_draw(time) && out == self.ray_through(
                s,
                t,
                self.stratum_offset(s_i, s_j, jitter_x, jitter_y),
                lens,
                time,
            )
    }

    /// A random ray for the cell `(s_i, s_j)` of the pixel about the point
    /// `(s, t)` of the image plane: it starts at a random point of the
    /// lens, at the eye itself for a lens without size, passes through a
    /// random place of the cell, and is cast at a random time in `[0, 1)`.
    pub fn get_ray(&self, s: Scalar, t: Scalar, s_i: i32, s_j: i32) -> (r: Ray)
        ensures
            self.ray_admits(s, t, s_i, s_j, r),
            self.lens_radius@ <= 0 ==> r.origin == self.origin,
            is_unit_draw(r.time),
    {
        let jitter_x = random_double();
        let jitter_y = random_double();
        let offset = self.stratum_offset(s_i, s_j, jitter_x, jitter_y);
        let lens = if self.lens_radius.micros <= 0 {
            proof {
                lemma_zero_inside();
            }
            Vec3::zero()
        } else {
            random_in_unit_disk()
        };
        let ray_time = random_double();
        assert(aimed(jitter_x, jitter_y, lens, ray_time));
        self.ray_through(s, t, offset, lens, ray_time)
    }

    /// The light at a hit whose material sends the ray on as it is:
    /// `emitted + attenuation * incoming`.
    pub open spec fn spec_specular(emitted: Color, attenuation: Color, incoming: Color) -> Color {
        emitted.add(attenuation.times(incoming))
    }

    /// See [`Camera::spec_specular`].
    #[verifier::when_used_as_spec(spec_specular)]
    pub fn specular(emitted: Color, attenuation: Color, incoming: Color) -> (r: Color)
        ensures
            r == Camera::spec_specular(emitted, attenuation, incoming),
    {
        emitted.add(attenuation.times(incoming))
    }

    /// The light at a hit whose outgoing direction was drawn from a
    /// mixture: `emitted + attenuation * scattering_pdf * incoming /
    /// pdf_value`, with the material's own density `scattering_pdf` of the
    /// direction and the mixture's density `pdf_value` of it.
    pub open spec fn spec_weighted(
        emitted: Color,
        attenuation: Color,
        scattering_pdf: Scalar,
        incoming: Color,
        pdf_value: Scalar,
    ) -> Color {
        emitted.add(attenuation.scale(scattering_pdf).times(incoming).shrink(pdf_value))
    }

    /// See [`Camera::spec_weighted`].
    #[verifier::when_used_as_spec(spec_weighted)]
    pub fn weighted(
        emitted: Color,
        attenuation: Color,
        scattering_pdf: Scalar,
        incoming: Color,
        pdf_value: Scalar,
    ) -> (r: Color)
        ensures
            r == Camera::spec_weighted(emitted, attenuation, scattering_pdf, incoming, pdf_value),
    {
        emitted.add(attenuation.scale(scattering_pdf).times(incoming).shrink(pdf_value))
    }

    /// The even mixture of the directions from `p` toward the lights and
    /// the material's distribution.
    pub open spec fn blend(p: Point3, lights: Arc<Hittable>, mat_pdf: Pdf) -> Pdf {
        Pdf::Mixture(
            MixturePdf {
                p: Box::new(Pdf::Hittable(HittablePdf { origin: p, objects: lights })),
                q: Box::new(mat_pdf),
            },
        )
    }

    /// `out` is an estimate that [`Camera::ray_color`] can give of the
    /// light that comes back along `ray`, with at most `depth` rays: with
    /// no ray left it is black, and else it is the estimate along one of
    /// the paths that [`Camera::path_admits`] describes.
    pub open spec fn radiance_admits(
        &self,
        ray: Ray,
        world: &Hittable,
        lights: Arc<Hittable>,
        depth: int,
        out: Color,
    ) -> bool
        decreases depth, 1nat,
    {
        if depth <= 0 {
            out == Color::zero()
        } else {
            exists|
                hit: Option<HitRecord>,
                answer: Option<ScatterRecord>,
                direction: Vec3,
                incoming: Color,
            |
                #[trigger] traced(hit, answer, direction, incoming) && self.path_admits(
                    ray,
                    world,
                    lights,
                    depth,
                    hit,
                    answer,
                    direction,
                    incoming,
                    out,
                )
        }
    }

    /// `out` is the estimate along a path that starts with `ray`, where
    /// the world answers the ray with `hit`, the material of the hit
    /// answers with `answer`, a direction `direction` is drawn, and the
    /// light along the next ray is estimated as `incoming`.
    ///
    /// Where the ray hits nothing, the estimate is the background. Where
    /// the material absorbs the ray, it is the light the surface gives
    /// off. Where the material sends the ray on without a density, it is
    /// [`Camera::specular`] of an estimate along the scattered ray. Where
    /// the material answers with a density, `direction` is drawn from the
    /// even mixture of the lights and that density, and the estimate is
    /// [`Camera::weighted`] of an estimate along that direction.
    pub open spec fn path_admits(
        &self,
        ray: Ray,
        world: &Hittable,
        lights: Arc<Hittable>,
        depth: int,
        hit: Option<HitRecord>,
        answer: Option<ScatterRecord>,
        direction: Vec3,
        incoming: Color,
        out: Color,
    ) -> bool
        decreases depth, 0nat,
    {
        depth > 0 && world.admits(ray, Scalar { micros: SURFACE_GAP_MICROS }, infinity(), hit)
            && match hit {
            None => out == self.background,
            Some(rec) => rec.mat.scatter_admits(&ray, &rec, answer) && match answer {
                None => out == rec.mat.spec_emitted(&rec, rec.u, rec.v, &rec.p),
                Some(scatter) => match scatter.pdf {
                    None => self.radiance_admits(
                        scatter.scattered,
                        world,
                        lights,
                        depth - 1,
                        incoming,
                    ) && out == Camera::specular(
                        rec.mat.spec_emitted(&rec, rec.u, rec.v, &rec.p),
                        scatter.attenuation,
                        incoming,
                    ),
                    Some(mat_pdf) => Camera::blend(rec.p, lights, mat_pdf).generate_admits(
                        direction,
                    ) && self.radiance_admits(
                        Ray::new(rec.p, direction, ray.time),
                        world,
                        lights,
                        depth - 1,
                        incoming,
                    ) && out == Camera::weighted(
                        rec.mat.spec_emitted(&rec, rec.u, rec.v, &rec.p),
                        scatter.attenuation,
                        rec.mat.spec_scatter_pdf(
                            &ray,
                            &rec,
                            &Ray::new(rec.p, direction, ray.time),
                        ),
                        incoming,
                        Camera::blend(rec.p, lights, mat_pdf).spec_value(direction),
                    ),
                },
            },
        }
    }

    /// Neither the background nor a material of `world` has a negative
    /// colour in it.
    pub open spec fn sees_no_negative_colour(&self, world: &Hittable) -> bool {
        not_negative(self.background) && world.colours_not_negative()
    }

    /// An estimate of the light that comes back along `ray`, with at most
    /// `depth` rays on the path. `lights` are the objects that directions
    /// are drawn toward. The estimate has no negative part where the scene
    /// has no negative colour.
    pub fn ray_color(&self, ray: &Ray, world: &Hittable, lights: &Arc<Hittable>, depth: i32) -> (r:
        Color)
        requires
            lights.samplable(),
        ensures
            self.radiance_admits(*ray, world, *lights, depth as int, r),
            depth <= 0 ==> r == Color::zero(),
            self.sees_no_negative_colour(world) ==> not_negative(r),
        decreases depth,
    {
        if depth <= 0 {
            return Color::zero();
        }
        let hit = world.hit(ray, Scalar { micros: SURFACE_GAP_MICROS }, infinity());
        let color = match hit {
            None => {
                assert(traced(hit, None, Vec3::zero(), Color::zero()));
                self.background
            },
            Some(hit_rec) => {
                let color_from_emission = hit_rec.mat.emitted(
                    &hit_rec,
                    hit_rec.u,
                    hit_rec.v,
                    &hit_rec.p,
                );
                let answer = hit_rec.mat.scatter(ray, &hit_rec);
                match answer {
                    None => {
                        assert(traced(hit, answer, Vec3::zero(), Color::zero()));
                        color_from_emission
                    },
                    Some(scatter_rec) => {
                        let attenuation = scatter_rec.attenuation;
                        let scattered = scatter_rec.scattered;
                        match scatter_rec.pdf {
                            None => {
                                let incoming = self.ray_color(&scattered, world, lights, depth - 1);
                                assert(traced(hit, answer, Vec3::zero(), incoming));
                                Camera::specular(color_from_emission, attenuation, incoming)
                            },
                            Some(mat_pdf) => {
                                let light_pdf = HittablePdf::new(hit_rec.p, share(lights));
                                let mixture_pdf = Pdf::Mixture(
                                    MixturePdf::new(Pdf::Hittable(light_pdf), mat_pdf),
                                );
                                assert(mixture_pdf == Camera::blend(hit_rec.p, *lights, mat_pdf));
                                assert(Pdf::Hittable(light_pdf).can_generate());
                                assert(mat_pdf.can_generate());
                                let direction = mixture_pdf.generate();
                                let scattered_ray = Ray::new(hit_rec.p, direction, ray.time());
                                let pdf_value = mixture_pdf.value(scattered_ray.direction());
                                let scattering_pdf = hit_rec.mat.scatter_pdf(
                                    ray,
                                    &hit_rec,
                                    &scattered_ray,
                                );
                                let incoming = self.ray_color(
                                    &scattered_ray,
                                    world,
                                    lights,
                                    depth - 1,
                                );
                                assert(traced(hit, answer, direction, incoming));
                                Camera::weighted(
                                    color_from_emission,
                                    attenuation,
                                    scattering_pdf,
                                    incoming,
                                    pdf_value,
                                )
                            },
                        }
                    },
                }
            },
        };
        proof {
            if self.sees_no_negative_colour(world) {
                lemma_radiance_not_negative(*self, *ray, world, lights, depth as int, color);
            }
        }
        color
    }

    /// The coordinate on the image plane, along one side, of a sample of
    /// the pixel with the number `index` among `extent`, for the draw `draw`
    /// of `[0, 1)`: `(index + draw) / (extent - 1)`.
    pub open spec fn spec_plane_coordinate(index: i32, draw: Scalar, extent: i32) -> Scalar {
        Scalar::from_int(index).add(draw).div(Scalar::of((extent - 1) * SCALE))
    }

    /// See [`Camera::spec_plane_coordinate`].
    #[verifier::when_used_as_spec(spec_plane_coordinate)]
    pub fn plane_coordinate(index: i32, draw: Scalar, extent: i32) -> (r: Scalar)
        ensures
            r == Camera::spec_plane_coordinate(index, draw, extent),
    {
        let last: i64 = extent as i64 - 1;
        Scalar::from_int(index).add(draw).div(Scalar { micros: last * SCALE })
    }

    /// `out` is an estimate that one sample of the pixel `(i, j)` in the
    /// cell `(s_i, s_j)` can give: an estimate of the light along a ray
    /// through a random place of the pixel.
    pub open spec fn sample_admits(
        &self,
        i: i32,
        j: i32,
        s_i: i32,
        s_j: i32,
        world: &Hittable,
        lights: Arc<Hittable>,
        out: Color,
    ) -> bool {
        exists|du: Scalar, dv: Scalar, ray: Ray| #[trigger]
            sampled(du, dv, ray) && is_unit_draw(du) && is_unit_draw(dv) && self.ray_admits(
                Camera::plane_coordinate(i, du, self.image_width),
                Camera::plane_coordinate(j, dv, self.image_height),
                s_i,
                s_j,
                ray,
            ) && self.radiance_admits(ray, world, lights, self.max_depth as int, out)
    }

    /// One sample of the pixel `(i, j)` in the cell `(s_i, s_j)`.
    pub fn sample(
        &self,
        i: i32,
        j: i32,
        s_i: i32,
        s_j: i32,
        world: &Hittable,
        lights: &Arc<Hittable>,
    ) -> (r: Color)
        requires
            lights.samplable(),
        ensures
            self.sample_admits(i, j, s_i, s_j, world, *lights, r),
            self.sees_no_negative_colour(world) ==> not_negative(r),
    {
        let du = random_double();
        let dv = random_double();
        let u = Camera::plane_coordinate(i, du, self.image_width);
        let v = Camera::plane_coordinate(j, dv, self.image_height);
        let ray = self.get_ray(u, v, s_i, s_j);
        assert(sampled(du, dv, ray));
        self.ray_color(&ray, world, lights, self.max_depth)
    }

    /// The number of samples of a pixel: one for each cell.
    pub open spec fn spec_cells(&self) -> i64 {
        if self.sqrt_samples <= 0 {
            0
        } else {
            (self.sqrt_samples * self.sqrt_samples) as i64
        }
    }

    /// See [`Camera::spec_cells`].
    #[verifier::when_used_as_spec(spec_cells)]
    pub fn cells(&self) -> (r: i64)
        ensures
            r == self.spec_cells(),
            r >= 0,
    {
        if self.sqrt_samples <= 0 {
            0
        } else {
            let side: i64 = self.sqrt_samples as i64;
            assert(0 <= side * side <= 0x7fff_ffff * 0x7fff_ffff) by (nonlinear_arith)
                requires
                    0 <= side <= 0x7fff_ffff,
            ;
            side * side
        }
    }

    /// `out` is a sum that the first `n` samples of the pixel `(i, j)` can
    /// have. The sample with the number `k` lies in the cell
    /// `(k / sqrt_samples, k % sqrt_samples)`.
    pub open spec fn samples_admit(
        &self,
        i: i32,
        j: i32,
        world: &Hittable,
        lights: Arc<Hittable>,
        n: int,
        out: Color,
    ) -> bool
        decreases n,
    {
        if n <= 0 {
            out == Color::zero()
        } else {
            exists|before: Color, sample: Color| #[trigger]
                summed(before, sample) && self.samples_admit(i, j, world, lights, n - 1, before)
                    && self.sample_admits(
                    i,
                    j,
                    ((n - 1) / self.sqrt_samples as int) as i32,
                    ((n - 1) % self.sqrt_samples as int) as i32,
                    world,
                    lights,
                    sample,
                ) && out == before.add(sample)
        }
    }

    /// The sum of the samples of the pixel in the column `i`, counted from
    /// the left, and the row `j`, counted from the bottom: one sample for
    /// each cell of the pixel.
    pub fn render_pixel(&self, i: i32, j: i32, world: &Hittable, lights: &Arc<Hittable>) -> (r:
        Color)
        requires
            lights.samplable(),
        ensures
            self.samples_admit(i, j, world, *lights, self.cells() as int, r),
            self.sees_no_negative_colour(world) ==> not_negative(r),
    {
        let total: i64 = self.cells();
        let mut pixel_color = Color::zero();
        let mut k: i64 = 0;
        while k < total
            invariant
                0 <= k <= total,
                total == self.cells(),
                lights.samplable(),
                self.samples_admit(i, j, world, *lights, k as int, pixel_color),
                self.sees_no_negative_colour(world) ==> not_negative(pixel_color),
            decreases total - k,
        {
            let side: i64 = self.sqrt_samples as i64;
            let s_i: i64 = k / side;
            let s_j: i64 = k % side;
            assert(0 <= s_i <= k && 0 <= s_j < side) by (nonlinear_arith)
                requires
                    0 <= k,
                    side > 0,
                    s_i == k / side,
                    s_j == k % side,
            ;
            assert(s_i <= 0x7fff_ffff) by (nonlinear_arith)
                requires
                    0 <= k < side * side,
                    0 < side <= 0x7fff_ffff,
                    s_i == k / side,
            ;
            let ghost before = pixel_color;
            let sample = self.sample(i, j, s_i as i32, s_j as i32, world, lights);
            assert(summed(before, sample));
            proof {
                if self.sees_no_negative_colour(world) {
                    lemma_not_negative_is_kept(pixel_color, sample, Scalar::zero());
                }
            }
            pixel_color = pixel_color.add(sample);
            k = k + 1;
        }
        pixel_color
    }

    /// The number of pixels of the image.
    pub open spec fn spec_pixels(&self) -> i64 {
        if self.image_width <= 0 || self.image_height <= 0 {
            0
        } else {
            (self.image_width * self.image_height) as i64
        }
    }

    /// See [`Camera::spec_pixels`].
    #[verifier::when_used_as_spec(spec_pixels)]
    pub fn pixels(&self) -> (r: i64)
        ensures
            r == self.spec_pixels(),
            r >= 0,
    {
        if self.image_width <= 0 || self.image_height <= 0 {
            0
        } else {
            let width: i64 = self.image_width as i64;
            let height: i64 = self.image_height as i64;
            assert(0 <= width * height <= 0x7fff_ffff * 0x7fff_ffff) by (nonlinear_arith)
                requires
                    0 <= width <= 0x7fff_ffff,
                    0 <= height <= 0x7fff_ffff,
            ;
            width * height
        }
    }

    /// The column, counted from the left, of the pixel with the number `k`
    /// in the order of the image.
    pub open spec fn column_of(&self, k: int) -> i32 {
        (k % self.image_width as int) as i32
    }

    /// The row, counted from the bottom, of the pixel with the number `k`
    /// in the order of the image: the image starts with the top row.
    pub open spec fn row_of(&self, k: int) -> i32 {
        (self.image_height - 1 - k / self.image_width as int) as i32
    }

    /// `out` can be the first `n` pixels of the image, each the sum of its
    /// samples, row by row from the top and from left to right in a row.
    pub open spec fn image_admits(
        &self,
        world: &Hittable,
        lights: Arc<Hittable>,
        n: int,
        out: Seq<Color>,
    ) -> bool
        decreases n,
    {
        if n <= 0 {
            out == Seq::<Color>::empty()
        } else {
            exists|before: Seq<Color>, pixel: Color| #[trigger]
                painted(before, pixel) && self.image_admits(world, lights, n - 1, before)
                    && self.samples_admit(
                    self.column_of(n - 1),
                    self.row_of(n - 1),
                    world,
                    lights,
                    self.cells() as int,
                    pixel,
                ) && out == before.push(pixel)
        }
    }

    /// The image: for every pixel the sum of its samples, row by row from
    /// the top, and from left to right in a row.
    pub fn render(&self, world: &Hittable, lights: &Arc<Hittable>) -> (r: Vec<Color>)
        requires
            lights.samplable(),
        ensures
            r@.len() == self.pixels(),
            self.image_admits(world, *lights, self.pixels() as int, r@),
            self.sees_no_negative_colour(world) ==> forall|k: int|
                0 <= k < r@.len() ==> not_negative(#[trigger] r@[k]),
    {
        let total: i64 = self.pixels();
        let mut image: Vec<Color> = Vec::new();
        let mut k: i64 = 0;
        while k < total
            invariant
                0 <= k <= total,
                total == self.pixels(),
                lights.samplable(),
                image@.len() == k,
                self.image_admits(world, *lights, k as int, image@),
                self.sees_no_negative_colour(world) ==> forall|n: int|
                    0 <= n < image@.len() ==> not_negative(#[trigger] image@[n]),
            decreases total - k,
        {
            let width: i64 = self.image_width as i64;
            let row: i64 = k / width;
            let column: i64 = k % width;
            assert(0 <= column < width && 0 <= row < self.image_height) by (nonlinear_arith)
                requires
                    0 <= k < width * self.image_height,
                    width > 0,
                    self.image_height > 0,
                    row == k / width,
                    column == k % width,
            ;
            let j: i64 = self.image_height as i64 - 1 - row;
            let ghost before = image@;
            let pixel = self.render_pixel(column as i32, j as i32, world, lights);
            assert(painted(before, pixel));
            image.push(pixel);
            k = k + 1;
        }
        image
    }
}

/// With no ray left, the estimate is black, whatever the scene holds.
pub proof fn lemma_no_ray_no_light(
    camera: Camera,
    ray: Ray,
    world: &Hittable,
    lights: Arc<Hittable>,
    depth: int,
    out: Color,
)
    requires
        depth <= 0,
        camera.radiance_admits(ray, world, lights, depth, out),
    ensures
        out == Color::zero(),
{
}

/// A ray that hits nothing brings the background: where the world can only
/// answer that there is no hit, every estimate with a ray left is the
/// background.
pub proof fn lemma_miss_brings_background(
    camera: Camera,
    ray: Ray,
    world: &Hittable,
    lights: Arc<Hittable>,
    depth: int,
    out: Color,
)
    requires
        depth > 0,
        camera.radiance_admits(ray, world, lights, depth, out),
        forall|hit: Option<HitRecord>| #[trigger]
            world.admits(ray, Scalar { micros: SURFACE_GAP_MICROS }, infinity(), hit)
                ==> hit is None,
    ensures
        out == camera.background,
{
}

/// A ray that can only hit surfaces that absorb it, such as a light, brings
/// what such a surface gives off and nothing else: where every answer of
/// the world is a hit on a light or on the empty material, every estimate
/// with a ray left is the light given off at a hit that the world can
/// answer with.
pub proof fn lemma_absorbing_surface_brings_its_emission(
    camera: Camera,
    ray: Ray,
    world: &Hittable,
    lights: Arc<Hittable>,
    depth: int,
    out: Color,
)
    requires
        depth > 0,
        camera.radiance_admits(ray, world, lights, depth, out),
        forall|hit: Option<HitRecord>| #[trigger]
            world.admits(ray, Scalar { micros: SURFACE_GAP_MICROS }, infinity(), hit) ==> (
            hit matches Some(rec) && (*rec.mat is DiffuseLight || *rec.mat is Empty)),
    ensures
        exists|rec: HitRecord| #[trigger]
            world.admits(ray, Scalar { micros: SURFACE_GAP_MICROS }, infinity(), Some(rec)) && out
                == rec.mat.spec_emitted(&rec, rec.u, rec.v, &rec.p),
{
    let (hit, answer, direction, incoming) = choose|
        hit: Option<HitRecord>,
        answer: Option<ScatterRecord>,
        direction: Vec3,
        incoming: Color,
    |
        #[trigger] traced(hit, answer, direction, incoming) && camera.path_admits(
            ray,
            world,
            lights,
            depth,
            hit,
            answer,
            direction,
            incoming,
            out,
        );
    let rec = hit->0;
    assert(world.admits(ray, Scalar { micros: SURFACE_GAP_MICROS }, infinity(), Some(rec)));
}

/// A number of samples that is a perfect square is used in full: the pixel
/// has as many cells as samples.
pub proof fn lemma_square_number_of_samples(samples: i32, side: int)
    requires
        0 <= side,
        side * side == samples,
    ensures
        samples_root(samples) == side,
{
    assert((side + 1) * (side + 1) > side * side) by (nonlinear_arith)
        requires
            0 <= side,
    ;
    assert(side <= 46_340) by (nonlinear_arith)
        requires
            0 <= side,
            side * side <= 0x7fff_ffff,
    ;
    lemma_floor_root_is(samples as int, side);
}

/// One coordinate of a sample lies in its cell: with `cells` cells of the
/// width `w = 1 / cells` along a side, the sample of the cell `cell` lies
/// between `cell w` and `(cell + 1) w` from the edge of the pixel, and so
/// within the pixel.
pub proof fn lemma_place_lies_in_its_cell(cells: i32, cell: i32, jitter: Scalar)
    requires
        0 <= cell < cells,
        is_unit_draw(jitter),
    ensures
        cell * Scalar::one().div(Scalar::from_int(cells))@ - 500_000 <= place_in_pixel(
            cell,
            jitter,
            Scalar::one().div(Scalar::from_int(cells)),
        )@ <= (cell + 1) * Scalar::one().div(Scalar::from_int(cells))@ - 500_000,
        -500_000 <= place_in_pixel(
            cell,
            jitter,
            Scalar::one().div(Scalar::from_int(cells)),
        )@ <= 500_000,
{
    reveal(Scalar::spec_mul);
    reveal(Scalar::spec_div);
    let recip = Scalar::one().div(Scalar::from_int(cells));
    let width = recip@;
    let n = cells as int;
    assert(width == (SCALE * SCALE) / (n * SCALE));
    assert(0 <= width <= SCALE && width * n <= SCALE) by (nonlinear_arith)
        requires
            width == (SCALE * SCALE) / (n * SCALE),
            1 <= n,
            SCALE == 1_000_000,
    ;
    let at = cell * SCALE + jitter@;
    assert(Scalar::from_int(cell).add(jitter)@ == at);
    let scaled = (at * width) / (SCALE as int);
    assert(cell * width <= scaled <= (cell + 1) * width) by (nonlinear_arith)
        requires
            scaled == (at * width) / (SCALE as int),
            cell * SCALE <= at < (cell + 1) * SCALE,
            0 <= width,
            0 <= cell,
            SCALE == 1_000_000,
    ;
    assert((cell + 1) * width <= SCALE) by (nonlinear_arith)
        requires
            cell + 1 <= n,
            width * n <= SCALE,
            0 <= width,
    ;
    assert(0 <= cell * width) by (nonlinear_arith)
        requires
            0 <= cell,
            0 <= width,
    ;
    assert(0 <= at * width) by (nonlinear_arith)
        requires
            0 <= at,
            0 <= width,
    ;
}


/// Every sample of a pixel lies in the pixel, in its own cell: the place of
/// the sample of the cell `(s_i, s_j)` is at most half a pixel from the
/// centre along either side, between the edges of the cell.
pub proof fn lemma_sample_lies_in_its_cell(
    camera: Camera,
    s_i: i32,
    s_j: i32,
    jitter_x: Scalar,
    jitter_y: Scalar,
)
    requires
        0 <= s_i < camera.sqrt_samples,
        0 <= s_j < camera.sqrt_samples,
        is_unit_draw(jitter_x),
        is_unit_draw(jitter_y),
    ensures
        s_i * camera.cell_width()@ - 500_000 <= camera.stratum_offset(
            s_i,
            s_j,
            jitter_x,
            jitter_y,
        ).x@ <= (s_i + 1) * camera.cell_width()@ - 500_000,
        s_j * camera.cell_width()@ - 500_000 <= camera.stratum_offset(
            s_i,
            s_j,
            jitter_x,
            jitter_y,
        ).y@ <= (s_j + 1) * camera.cell_width()@ - 500_000,
        -500_000 <= camera.stratum_offset(s_i, s_j, jitter_x, jitter_y).x@ <= 500_000,
        -500_000 <= camera.stratum_offset(s_i, s_j, jitter_x, jitter_y).y@ <= 500_000,
{
    lemma_place_lies_in_its_cell(camera.sqrt_samples, s_i, jitter_x);
    lemma_place_lies_in_its_cell(camera.sqrt_samples, s_j, jitter_y);
}

/// A place in a pixel moves the sample by at most half a pixel on the image
/// plane: for a place between -0.5 and 0.5 and a side of at least two
/// pixels, twice the shift is at most the width `1 / (extent - 1)` of a
/// pixel, to either side.
pub proof fn lemma_plane_shift_within_half_a_pixel(place: Scalar, extent: i32)
    requires
        -500_000 <= place@ <= 500_000,
        extent >= 2,
    ensures
        -Scalar::one().div(Scalar::of((extent - 1) * SCALE))@ <= 2 * Camera::plane_shift(
            place,
            extent,
        )@ <= Scalar::one().div(Scalar::of((extent - 1) * SCALE))@,
{
    reveal(Scalar::spec_div);
    let d = (extent - 1) * SCALE;
    let pixel = (SCALE * SCALE) / d;
    let size = if place@ >= 0 {
        place@
    } else {
        -place@
    };
    let half = (size * SCALE) / d;
    assert(0 <= 2 * half <= pixel && pixel <= SCALE) by (nonlinear_arith)
        requires
            half == (size * SCALE) / d,
            pixel == (SCALE * SCALE) / d,
            0 <= size <= 500_000,
            d >= SCALE,
            SCALE == 1_000_000,
    ;
    assert((-place@) * SCALE == -(place@ * SCALE)) by (nonlinear_arith);
}

/// A place further along in a pixel gives a sample further along on the
/// image plane: the shift keeps the order of the places, so the samples of
/// the cells of a pixel lie in the order of the cells.
pub proof fn lemma_plane_shift_keeps_order(near: Scalar, far: Scalar, extent: i32)
    requires
        near@ <= far@,
        extent >= 2,
    ensures
        Camera::plane_shift(near, extent)@ <= Camera::plane_shift(far, extent)@,
{
    reveal(Scalar::spec_div);
    let d = (extent - 1) * SCALE;
    let x = near@ * SCALE;
    let y = far@ * SCALE;
    assert(x <= y) by (nonlinear_arith)
        requires
            x == near@ * SCALE,
            y == far@ * SCALE,
            near@ <= far@,
            SCALE == 1_000_000,
    ;
    lemma_quotient_keeps_order(x, y, d);
}

/// The point of the lens lies near the eye: for a point of the unit disk
/// and a lens radius that is not negative, the eye is moved by at most the
/// lens radius along `u` and by at most the lens radius along `v`.
pub proof fn lemma_lens_point_near_the_eye(camera: Camera, lens: Vec3)
    requires
        in_unit_disk(lens),
        camera.lens_radius@ >= 0,
    ensures
        -camera.lens_radius@ <= lens.scale(camera.lens_radius).x@ <= camera.lens_radius@,
        -camera.lens_radius@ <= lens.scale(camera.lens_radius).y@ <= camera.lens_radius@,
        camera.lens_radius@ == 0 ==> camera.lens_point(lens) == camera.origin,
{
    lemma_components_within_unit(lens);
    lemma_mul_within(lens.x, camera.lens_radius);
    lemma_mul_within(lens.y, camera.lens_radius);
}

/// Every ray that [`Camera::get_ray`] can give starts on the lens and is
/// cast at a time of `[0, 1)`; where the lens has no size, it starts at the
/// eye.
pub proof fn lemma_primary_ray_starts_on_the_lens(
    camera: Camera,
    s: Scalar,
    t: Scalar,
    s_i: i32,
    s_j: i32,
    out: Ray,
)
    requires
        camera.ray_admits(s, t, s_i, s_j, out),
    ensures
        exists|lens: Vec3| in_unit_disk(lens) && out.origin == #[trigger] camera.lens_point(lens),
        camera.lens_radius@ <= 0 ==> out.origin == camera.origin,
        is_unit_draw(out.time),
{
    let (jitter_x, jitter_y, lens, time) = choose|
        jitter_x: Scalar,
        jitter_y: Scalar,
        lens: Vec3,
        time: Scalar,
    |
        #[trigger] aimed(jitter_x, jitter_y, lens, time) && is_unit_draw(jitter_x)
            && is_unit_draw(jitter_y) && in_unit_disk(lens) && is_unit_draw(time) && out
            == camera.ray_through(
            s,
            t,
            camera.stratum_offset(s_i, s_j, jitter_x, jitter_y),
            lens,
            time,
        );
    assert(out.origin == camera.lens_point(lens));
}

/// No estimate is negative: where neither the background nor a material of
/// the world has a negative colour in it, every estimate that
/// [`Camera::ray_color`] can give is a colour without a negative part,
/// whatever is drawn on the path.
pub proof fn lemma_radiance_not_negative(
    camera: Camera,
    ray: Ray,
    world: &Hittable,
    lights: &Arc<Hittable>,
    depth: int,
    out: Color,
)
    requires
        camera.sees_no_negative_colour(world),
        camera.radiance_admits(ray, world, *lights, depth, out),
    ensures
        not_negative(out),
    decreases depth,
{
    if depth > 0 {
        let (hit, answer, direction, incoming) = choose|
            hit: Option<HitRecord>,
            answer: Option<ScatterRecord>,
            direction: Vec3,
            incoming: Color,
        |
            #[trigger] traced(hit, answer, direction, incoming) && camera.path_admits(
                ray,
                world,
                *lights,
                depth,
                hit,
                answer,
                direction,
                incoming,
                out,
            );
        lemma_hit_material_not_negative(
            world,
            ray,
            Scalar { micros: SURFACE_GAP_MICROS },
            infinity(),
            hit,
        );
        if let Some(rec) = hit {
            let emitted = rec.mat.spec_emitted(&rec, rec.u, rec.v, &rec.p);
            lemma_emission_not_negative(&*rec.mat, &rec, rec.u, rec.v, &rec.p);
            lemma_attenuation_not_negative(&*rec.mat, &ray, &rec, answer);
            if let Some(scatter) = answer {
                match scatter.pdf {
                    None => {
                        lemma_radiance_not_negative(
                            camera,
                            scatter.scattered,
                            world,
                            lights,
                            depth - 1,
                            incoming,
                        );
                        lemma_not_negative_is_kept(scatter.attenuation, incoming, Scalar::zero());
                        lemma_not_negative_is_kept(
                            emitted,
                            scatter.attenuation.times(incoming),
                            Scalar::zero(),
                        );
                    },
                    Some(mat_pdf) => {
                        let next = Ray::new(rec.p, direction, ray.time);
                        lemma_radiance_not_negative(
                            camera,
                            next,
                            world,
                            lights,
                            depth - 1,
                            incoming,
                        );
                        let own = rec.mat.spec_scatter_pdf(&ray, &rec, &next);
                        lemma_scatter_pdf_not_negative(&*rec.mat, &ray, &rec, &next);
                        let mixed = Camera::blend(rec.p, *lights, mat_pdf).spec_value(direction);
                        lemma_values_not_negative(direction);
                        lemma_not_negative_is_kept(scatter.attenuation, incoming, own);
                        lemma_not_negative_is_kept(
                            scatter.attenuation.scale(own),
                            incoming,
                            mixed,
                        );
                        lemma_not_negative_is_kept(
                            scatter.attenuation.scale(own).times(incoming),
                            incoming,
                            mixed,
                        );
                        lemma_not_negative_is_kept(
                            emitted,
                            scatter.attenuation.scale(own).times(incoming).shrink(mixed),
                            Scalar::zero(),
                        );
                    },
                }
            }
        }
    }
}

} // verus!
