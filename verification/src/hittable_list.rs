//! Lists of primitives: a scene, or a set of lights.
use crate::common::random_int_range;
use crate::hittable::{
    all_samplable, chosen_member, hit_within, lemma_density_not_negative,
    lemma_hit_is_determined, lemma_hit_lies_within, lemma_hit_material_not_negative,
    lemma_hit_on_unit_square,
    lemma_member_samplable, HitRecord, Hittable,
};
use crate::ray::Ray;
use crate::scalar::{lemma_div_sign, lemma_mul_sign, Scalar};
use crate::vec3::{Point3, Vec3};
use vstd::prelude::*;

verus! {

/// Primitives, in the order in which they were added.
#[derive(Debug)]
pub struct HittableList {
    pub objects: Vec<Hittable>,
}

/// The upper bound under which the next member is asked for a hit: the
/// parameter of the closest hit so far, or `t_max` where there is none.
pub open spec fn nearest(so_far: Option<HitRecord>, t_max: Scalar) -> Scalar {
    match so_far {
        Some(rec) => rec.t,
        None => t_max,
    }
}

/// Names the two hits of one step in [`sweep_admits`].
pub open spec fn sweep_step(before: Option<HitRecord>, found: Option<HitRecord>) -> bool {
    true
}

/// `out` is a result that the sweep over the first `n` of `objects` can
/// give. Over no object it is no hit. Otherwise the object `n - 1` is asked
/// for a hit below the closest hit of the objects before it; that hit is the
/// result, and where there is none the result is the one so far.
pub open spec fn sweep_admits(
    objects: Seq<Hittable>,
    n: nat,
    ray: Ray,
    t_min: Scalar,
    t_max: Scalar,
    out: Option<HitRecord>,
) -> bool
    decreases objects, n,
{
    if n == 0 || n > objects.len() {
        out is None
    } else {
        exists|before: Option<HitRecord>, found: Option<HitRecord>| #[trigger]
            sweep_step(before, found) && sweep_admits(
                objects,
                (n - 1) as nat,
                ray,
                t_min,
                t_max,
                before,
            ) && objects[n - 1].admits(ray, t_min, nearest(before, t_max), found) && out == (
            if found is Some {
                found
            } else {
                before
            })
    }
}

/// The sum of the densities of the first `n` of `objects` along
/// `direction` from `origin`, each times `weight`.
pub open spec fn density_sum(
    objects: Seq<Hittable>,
    n: nat,
    origin: Point3,
    direction: Vec3,
    weight: Scalar,
) -> Scalar
    decreases objects, n,
{
    if n == 0 || n > objects.len() {
        Scalar::zero()
    } else {
        density_sum(objects, (n - 1) as nat, origin, direction, weight).add(
            weight.mul(objects[n - 1].spec_pdf_value(origin, direction)),
        )
    }
}

impl HittableList {
    /// The empty list.
    pub fn new() -> (r: HittableList)
        ensures
            r.objects@ == Seq::<Hittable>::empty(),
    {
        HittableList { objects: Vec::new() }
    }

    /// Appends `object`.
    pub fn add(&mut self, object: Hittable)
        ensures
            final(self).objects@ == old(self).objects@.push(object),
    {
        self.objects.push(object);
    }

    /// The closest hit of `ray` with a member strictly between `t_min` and
    /// `t_max`: the members are asked in turn, each for a hit closer than
    /// the closest so far.
    pub fn hit(&self, ray: &Ray, t_min: Scalar, t_max: Scalar) -> (r: Option<HitRecord>)
        ensures
            sweep_admits(self.objects@, self.objects@.len(), *ray, t_min, t_max, r),
            hit_within(r, t_min, t_max),
        decreases self, 0nat,
    {
        let mut temp_rec: Option<HitRecord> = None;
        let mut closest_so_far = t_max;
        let mut i: usize = 0;
        while i < self.objects.len()
            invariant
                i <= self.objects.len(),
                sweep_admits(self.objects@, i as nat, *ray, t_min, t_max, temp_rec),
                closest_so_far == nearest(temp_rec, t_max),
                hit_within(temp_rec, t_min, t_max),
            decreases self.objects.len() - i,
        {
            assert(decreases_to!(self => self.objects));
            assert(decreases_to!(self.objects => self.objects@));
            assert(decreases_to!(self.objects@ => self.objects@[i as int]));
            let ghost before = temp_rec;
            let found = self.objects[i].hit(ray, t_min, closest_so_far);
            assert(sweep_step(before, found));
            if let Some(rec) = found {
                closest_so_far = rec.t;
                temp_rec = Some(rec);
            }
            i = i + 1;
        }
        temp_rec
    }

    /// The share of each member in the mixture: one over their number.
    pub open spec fn weight(&self) -> Scalar {
        Scalar::one().div(Scalar::from_count(self.objects.len()))
    }

    /// The density with which [`HittableList::random`] sends a direction
    /// from `origin` along `direction`: the mean of the members' densities.
    pub fn pdf_value(&self, origin: Point3, direction: Vec3) -> (r: Scalar)
        ensures
            r == density_sum(
                self.objects@,
                self.objects@.len(),
                origin,
                direction,
                self.weight(),
            ),
        decreases self, 0nat,
    {
        let weight = Scalar::one().div(Scalar::from_count(self.objects.len()));
        let mut sum = Scalar::zero();
        let mut i: usize = 0;
        while i < self.objects.len()
            invariant
                i <= self.objects.len(),
                weight == self.weight(),
                sum == density_sum(self.objects@, i as nat, origin, direction, weight),
            decreases self.objects.len() - i,
        {
            assert(decreases_to!(self => self.objects));
            assert(decreases_to!(self.objects => self.objects@));
            assert(decreases_to!(self.objects@ => self.objects@[i as int]));
            sum = sum.add(weight.mul(self.objects[i].pdf_value(origin, direction)));
            i = i + 1;
        }
        sum
    }

    /// Whether a direction can be drawn toward the list: it is not empty,
    /// not longer than a draw can index, and a direction can be drawn
    /// toward each member.
    pub fn can_sample(&self) -> (r: bool)
        ensures
            r == (0 < self.objects@.len() <= i32::MAX && all_samplable(
                self.objects@,
                self.objects@.len(),
            )),
        decreases self, 0nat,
    {
        if self.objects.len() == 0 || self.objects.len() > i32::MAX as usize {
            return false;
        }
        let mut i: usize = 0;
        while i < self.objects.len()
            invariant
                i <= self.objects.len(),
                all_samplable(self.objects@, i as nat),
            decreases self.objects.len() - i,
        {
            assert(decreases_to!(self => self.objects));
            assert(decreases_to!(self.objects => self.objects@));
            assert(decreases_to!(self.objects@ => self.objects@[i as int]));
            if !self.objects[i].can_sample() {
                proof {
                    if all_samplable(self.objects@, self.objects@.len()) {
                        lemma_member_samplable(self.objects@, self.objects@.len(), i as int);
                    }
                }
                return false;
            }
            i = i + 1;
        }
        true
    }

    /// A random direction from `origin` toward a member chosen at random,
    /// each with the same chance.
    pub fn random(&self, origin: Point3) -> (r: Vec3)
        requires
            0 < self.objects@.len() <= i32::MAX,
            all_samplable(self.objects@, self.objects@.len()),
        ensures
            exists|index: int| #[trigger]
                chosen_member(index) && 0 <= index < self.objects@.len()
                    && self.objects@[index].sample_admits(origin, r),
        decreases self, 0nat,
    {
        let last: i32 = (self.objects.len() - 1) as i32;
        let index: usize = random_int_range(0, last) as usize;
        assert(decreases_to!(self => self.objects));
        assert(decreases_to!(self.objects => self.objects@));
        assert(decreases_to!(self.objects@ => self.objects@[index as int]));
        proof {
            lemma_member_samplable(self.objects@, self.objects@.len(), index as int);
        }
        let r = self.objects[index].random(origin);
        assert(chosen_member(index as int));
        r
    }
}

impl Default for HittableList {
    /// The empty list.
    fn default() -> (r: HittableList)
        ensures
            r.objects@ == Seq::<Hittable>::empty(),
    {
        HittableList { objects: Vec::new() }
    }
}

/// Whatever a sweep can answer, a hit lies strictly between the bounds.
pub proof fn lemma_sweep_lies_within(
    objects: Seq<Hittable>,
    n: nat,
    ray: Ray,
    t_min: Scalar,
    t_max: Scalar,
    out: Option<HitRecord>,
)
    requires
        sweep_admits(objects, n, ray, t_min, t_max, out),
    ensures
        hit_within(out, t_min, t_max),
    decreases objects, n,
{
    if n > 0 && n <= objects.len() {
        let (before, found) = choose|before: Option<HitRecord>, found: Option<HitRecord>| #[trigger]
            sweep_step(before, found) && sweep_admits(
                objects,
                (n - 1) as nat,
                ray,
                t_min,
                t_max,
                before,
            ) && objects[n - 1].admits(ray, t_min, nearest(before, t_max), found) && out == (
            if found is Some {
                found
            } else {
                before
            });
        lemma_sweep_lies_within(objects, (n - 1) as nat, ray, t_min, t_max, before);
        lemma_hit_lies_within(objects[n - 1], ray, t_min, nearest(before, t_max), found);
    }
}

/// None of the first `n` of `objects` has a negative colour in a material.
pub open spec fn all_colours_not_negative(objects: Seq<Hittable>, n: nat) -> bool
    decreases objects, n,
{
    if n == 0 || n > objects.len() {
        true
    } else {
        all_colours_not_negative(objects, (n - 1) as nat) && objects[n
            - 1].colours_not_negative()
    }
}

/// Whatever a sweep over objects without a negative colour can answer, the
/// material of a hit has no negative colour in it.
pub proof fn lemma_sweep_material_not_negative(
    objects: Seq<Hittable>,
    n: nat,
    ray: Ray,
    t_min: Scalar,
    t_max: Scalar,
    out: Option<HitRecord>,
)
    requires
        all_colours_not_negative(objects, n),
        sweep_admits(objects, n, ray, t_min, t_max, out),
    ensures
        out matches Some(rec) ==> rec.mat.colours_not_negative(),
    decreases objects, n,
{
    if n > 0 && n <= objects.len() {
        let (before, found) = choose|before: Option<HitRecord>, found: Option<HitRecord>| #[trigger]
            sweep_step(before, found) && sweep_admits(
                objects,
                (n - 1) as nat,
                ray,
                t_min,
                t_max,
                before,
            ) && objects[n - 1].admits(ray, t_min, nearest(before, t_max), found) && out == (
            if found is Some {
                found
            } else {
                before
            });
        lemma_sweep_material_not_negative(objects, (n - 1) as nat, ray, t_min, t_max, before);
        lemma_hit_material_not_negative(
            &objects[n - 1],
            ray,
            t_min,
            nearest(before, t_max),
            found,
        );
    }
}

/// None of the first `n` of `objects` has a medium in it.
pub open spec fn all_without_chance(objects: Seq<Hittable>, n: nat) -> bool
    decreases objects, n,
{
    if n == 0 || n > objects.len() {
        true
    } else {
        all_without_chance(objects, (n - 1) as nat) && objects[n - 1].without_chance()
    }
}

/// A sweep over objects without a medium has one answer.
pub proof fn lemma_sweep_is_determined(
    objects: Seq<Hittable>,
    n: nat,
    ray: Ray,
    t_min: Scalar,
    t_max: Scalar,
    one: Option<HitRecord>,
    other: Option<HitRecord>,
)
    requires
        all_without_chance(objects, n),
        sweep_admits(objects, n, ray, t_min, t_max, one),
        sweep_admits(objects, n, ray, t_min, t_max, other),
    ensures
        one == other,
    decreases objects, n,
{
    if n > 0 && n <= objects.len() {
        let (before_one, found_one) = choose|
            before: Option<HitRecord>,
            found: Option<HitRecord>,
        |
            #[trigger] sweep_step(before, found) && sweep_admits(
                objects,
                (n - 1) as nat,
                ray,
                t_min,
                t_max,
                before,
            ) && objects[n - 1].admits(ray, t_min, nearest(before, t_max), found) && one == (
            if found is Some {
                found
            } else {
                before
            });
        let (before_other, found_other) = choose|
            before: Option<HitRecord>,
            found: Option<HitRecord>,
        |
            #[trigger] sweep_step(before, found) && sweep_admits(
                objects,
                (n - 1) as nat,
                ray,
                t_min,
                t_max,
                before,
            ) && objects[n - 1].admits(ray, t_min, nearest(before, t_max), found) && other == (
            if found is Some {
                found
            } else {
                before
            });
        lemma_sweep_is_determined(
            objects,
            (n - 1) as nat,
            ray,
            t_min,
            t_max,
            before_one,
            before_other,
        );
        lemma_hit_is_determined(
            objects[n - 1],
            ray,
            t_min,
            nearest(before_one, t_max),
            found_one,
            found_other,
        );
    }
}

/// Whatever a sweep can answer, the surface coordinates of a hit lie in
/// `[0, 1]`.
pub proof fn lemma_sweep_on_unit_square(
    objects: Seq<Hittable>,
    n: nat,
    ray: Ray,
    t_min: Scalar,
    t_max: Scalar,
    out: Option<HitRecord>,
)
    requires
        sweep_admits(objects, n, ray, t_min, t_max, out),
    ensures
        out matches Some(rec) ==> rec.on_unit_square(),
    decreases objects, n,
{
    if n > 0 && n <= objects.len() {
        let (before, found) = choose|before: Option<HitRecord>, found: Option<HitRecord>| #[trigger]
            sweep_step(before, found) && sweep_admits(
                objects,
                (n - 1) as nat,
                ray,
                t_min,
                t_max,
                before,
            ) && objects[n - 1].admits(ray, t_min, nearest(before, t_max), found) && out == (
            if found is Some {
                found
            } else {
                before
            });
        lemma_sweep_on_unit_square(objects, (n - 1) as nat, ray, t_min, t_max, before);
        lemma_hit_on_unit_square(objects[n - 1], ray, t_min, nearest(before, t_max), found);
    }
}

/// A hit that a sweep answers with is the answer of a member, asked with an
/// upper bound of at most `t_max`; and the members after that one, asked
/// for a hit below it, have none.
pub proof fn lemma_sweep_hit_is_nearest(
    objects: Seq<Hittable>,
    n: nat,
    ray: Ray,
    t_min: Scalar,
    t_max: Scalar,
    rec: HitRecord,
)
    requires
        n <= objects.len(),
        sweep_admits(objects, n, ray, t_min, t_max, Some(rec)),
    ensures
        exists|index: int, bound: Scalar|
            0 <= index < n && bound@ <= t_max@ && #[trigger] objects[index].admits(
                ray,
                t_min,
                bound,
                Some(rec),
            ) && forall|later: int|
                index < later < n ==> #[trigger] objects[later].admits(ray, t_min, rec.t, None),
    decreases n,
{
    let (before, found) = choose|before: Option<HitRecord>, found: Option<HitRecord>| #[trigger]
        sweep_step(before, found) && sweep_admits(
            objects,
            (n - 1) as nat,
            ray,
            t_min,
            t_max,
            before,
        ) && objects[n - 1].admits(ray, t_min, nearest(before, t_max), found) && Some(rec) == (
        if found is Some {
            found
        } else {
            before
        });
    lemma_sweep_lies_within(objects, (n - 1) as nat, ray, t_min, t_max, before);
    if found is Some {
        let index = n - 1;
        let bound = nearest(before, t_max);
        assert(objects[index].admits(ray, t_min, bound, Some(rec)));
    } else {
        lemma_sweep_hit_is_nearest(objects, (n - 1) as nat, ray, t_min, t_max, rec);
        let (index, bound) = choose|index: int, bound: Scalar|
            0 <= index < n - 1 && bound@ <= t_max@ && #[trigger] objects[index].admits(
                ray,
                t_min,
                bound,
                Some(rec),
            ) && forall|later: int|
                index < later < n - 1 ==> #[trigger] objects[later].admits(
                    ray,
                    t_min,
                    rec.t,
                    None,
                );
        assert(objects[index].admits(ray, t_min, bound, Some(rec)));
        assert(nearest(before, t_max) == rec.t);
        assert forall|later: int| index < later < n implies #[trigger] objects[later].admits(
            ray,
            t_min,
            rec.t,
            None,
        ) by {
            if later == n - 1 {
                assert(objects[n - 1].admits(ray, t_min, rec.t, found));
            }
        }
    }
}

/// A sum of densities with a weight that is not negative is not negative.
pub proof fn lemma_density_sum_not_negative(
    objects: Seq<Hittable>,
    n: nat,
    origin: Point3,
    direction: Vec3,
    weight: Scalar,
)
    requires
        weight@ >= 0,
    ensures
        density_sum(objects, n, origin, direction, weight)@ >= 0,
    decreases objects, n,
{
    if n > 0 && n <= objects.len() {
        lemma_density_sum_not_negative(objects, (n - 1) as nat, origin, direction, weight);
        lemma_density_not_negative(objects[n - 1], origin, direction);
        lemma_mul_sign(weight, objects[n - 1].spec_pdf_value(origin, direction));
    }
}

impl HittableList {
    /// The share of each member in the mixture is not negative.
    pub proof fn lemma_weight_not_negative(&self)
        ensures
            self.weight()@ >= 0,
    {
        let count = Scalar::from_count(self.objects.len());
        if count@ > 0 {
            lemma_div_sign(Scalar::one(), count);
        } else {
            reveal(Scalar::spec_div);
        }
    }
}

} // verus!
