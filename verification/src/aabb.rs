//! Axis-aligned bounding boxes.
use crate::interval::Interval;
use crate::ray::Ray;
use crate::scalar::Scalar;
use crate::vec3::Point3;
use vstd::prelude::*;

verus! {

/// The box that spans `x`, `y` and `z` along the three axes.
#[derive(Clone, Copy, Debug, PartialEq, Eq, Structural)]
pub struct AABB {
    pub x: Interval,
    pub y: Interval,
    pub z: Interval,
}

impl AABB {
    pub open spec fn spec_new(x: Interval, y: Interval, z: Interval) -> AABB {
        AABB { x, y, z }
    }

    /// The box that spans the three intervals.
    #[verifier::when_used_as_spec(spec_new)]
    pub fn new(x: Interval, y: Interval, z: Interval) -> (r: AABB)
        ensures
            r == AABB::spec_new(x, y, z),
    {
        AABB { x, y, z }
    }

    pub open spec fn spec_from_sub_aabbs(a: AABB, b: AABB) -> AABB {
        AABB {
            x: Interval::from_sub_intervals(a.x, b.x),
            y: Interval::from_sub_intervals(a.y, b.y),
            z: Interval::from_sub_intervals(a.z, b.z),
        }
    }

    /// The smallest box that holds both `a` and `b`.
    #[verifier::when_used_as_spec(spec_from_sub_aabbs)]
    pub fn from_sub_aabbs(a: AABB, b: AABB) -> (r: AABB)
        ensures
            r == AABB::spec_from_sub_aabbs(a, b),
            forall|p: Point3| a.holds(p) || b.holds(p) ==> r.holds(p),
    {
        let x = Interval::from_sub_intervals(a.x, b.x);
        let y = Interval::from_sub_intervals(a.y, b.y);
        let z = Interval::from_sub_intervals(a.z, b.z);
        AABB { x, y, z }
    }

    pub open spec fn spec_from_points(a: Point3, b: Point3) -> AABB {
        AABB {
            x: Interval::new(a.x.min(b.x), a.x.max(b.x)),
            y: Interval::new(a.y.min(b.y), a.y.max(b.y)),
            z: Interval::new(a.z.min(b.z), a.z.max(b.z)),
        }
    }

    /// The box with the opposite corners `a` and `b`, in any order.
    #[verifier::when_used_as_spec(spec_from_points)]
    pub fn from_points(a: Point3, b: Point3) -> (r: AABB)
        ensures
            r == AABB::spec_from_points(a, b),
            r.holds(a),
            r.holds(b),
    {
        let x = Interval::new(a.x().min(b.x()), a.x().max(b.x()));
        let y = Interval::new(a.y().min(b.y()), a.y().max(b.y()));
        let z = Interval::new(a.z().min(b.z()), a.z().max(b.z()));
        AABB { x, y, z }
    }

    /// The point lies in the box, its faces included.
    pub open spec fn holds(&self, p: Point3) -> bool {
        self.x.contains(p.x) && self.y.contains(p.y) && self.z.contains(p.z)
    }

    pub open spec fn spec_axis_inteval(&self, n: i32) -> Interval {
        if n == 0 {
            self.x
        } else if n == 1 {
            self.y
        } else {
            self.z
        }
    }

    /// The interval that the box spans along the axis 0, 1 or 2.
    #[verifier::when_used_as_spec(spec_axis_inteval)]
    pub fn axis_inteval(&self, n: i32) -> (r: Interval)
        requires
            0 <= n <= 2,
        ensures
            r == self.spec_axis_inteval(n),
    {
        if n == 0 {
            self.x
        } else if n == 1 {
            self.y
        } else {
            self.z
        }
    }

    /// The part of `interval` in which a ray with the coordinate `origin`
    /// and the speed `direction` along one axis is between the two planes
    /// of the `slab` across that axis. The ray meets the planes at
    /// `(slab.min - origin) / direction` and `(slab.max - origin) /
    /// direction`; the later start and the earlier end are kept.
    pub open spec fn spec_clip(
        interval: Interval,
        slab: Interval,
        origin: Scalar,
        direction: Scalar,
    ) -> Interval {
        let adinv = Scalar::one().div(direction);
        let t0 = slab.min.sub(origin).mul(adinv);
        let t1 = slab.max.sub(origin).mul(adinv);
        Interval { min: interval.min.max(t0.min(t1)), max: interval.max.min(t0.max(t1)) }
    }

    /// See [`AABB::spec_clip`].
    #[verifier::when_used_as_spec(spec_clip)]
    pub fn clip(interval: Interval, slab: Interval, origin: Scalar, direction: Scalar) -> (r:
        Interval)
        ensures
            r == AABB::spec_clip(interval, slab, origin, direction),
            interval.min@ <= r.min@,
            r.max@ <= interval.max@,
    {
        let adinv = Scalar::one().div(direction);
        let t0 = slab.min.sub(origin).mul(adinv);
        let t1 = slab.max.sub(origin).mul(adinv);
        let mut result_interval = Interval::new(interval.min, interval.max);
        if t0.micros < t1.micros {
            if t0.micros > interval.min.micros {
                result_interval.min = t0;
            }
            if t1.micros < interval.max.micros {
                result_interval.max = t1;
            }
        } else {
            if t1.micros > interval.min.micros {
                result_interval.min = t1;
            }
            if t0.micros < interval.max.micros {
                result_interval.max = t0;
            }
        }
        result_interval
    }

    /// The part of `interval` in which the ray is inside the slabs of the
    /// first `axes` axes.
    pub open spec fn clipped(&self, ray: Ray, interval: Interval, axes: int) -> Interval
        decreases axes,
    {
        if axes <= 0 {
            interval
        } else {
            AABB::clip(
                self.clipped(ray, interval, axes - 1),
                self.axis_inteval((axes - 1) as i32),
                ray.origin.component((axes - 1) as i32),
                ray.dir.component((axes - 1) as i32),
            )
        }
    }

    /// The ray is inside the box for some parameter of `interval`: the
    /// interval, clipped to the slabs of the first axes, is empty for no
    /// number of axes, where an interval counts as empty whose end is not
    /// above its start.
    pub open spec fn spec_hit(&self, ray: Ray, interval: Interval) -> bool {
        forall|axes: int|
            1 <= axes <= 3 ==> (#[trigger] self.clipped(ray, interval, axes)).max@ > self.clipped(
                ray,
                interval,
                axes,
            ).min@
    }

    /// The slab test: whether `ray` is inside the box for some parameter of
    /// `interval`.
    pub fn hit(&self, ray: &Ray, interval: Interval) -> (r: bool)
        ensures
            r == self.spec_hit(*ray, interval),
    {
        let mut current = interval;
        let mut i: i32 = 0;
        while i < 3
            invariant
                0 <= i <= 3,
                current == self.clipped(*ray, interval, i as int),
                forall|axes: int|
                    1 <= axes <= i ==> (#[trigger] self.clipped(*ray, interval, axes)).max@
                        > self.clipped(*ray, interval, axes).min@,
            decreases 3 - i,
        {
            let axis_interval = self.axis_inteval(i);
            current = AABB::clip(
                current,
                axis_interval,
                ray.origin().component(i),
                ray.direction().component(i),
            );
            i = i + 1;
            if current.max.micros <= current.min.micros {
                assert(self.clipped(*ray, interval, i as int) == current);
                return false;
            }
        }
        true
    }
}

impl Default for AABB {
    /// The box that holds the origin alone.
    fn default() -> (r: AABB)
        ensures
            r == AABB::new(
                Interval::new(Scalar::zero(), Scalar::zero()),
                Interval::new(Scalar::zero(), Scalar::zero()),
                Interval::new(Scalar::zero(), Scalar::zero()),
            ),
    {
        AABB {
            x: Interval { min: Scalar::zero(), max: Scalar::zero() },
            y: Interval { min: Scalar::zero(), max: Scalar::zero() },
            z: Interval { min: Scalar::zero(), max: Scalar::zero() },
        }
    }
}

} // verus!
