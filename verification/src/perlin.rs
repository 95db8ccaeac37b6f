//! Gradient noise over a lattice of random vectors.
use crate::common::random_int_range;
use crate::scalar::Scalar;
use crate::vec3::{dot, is_cube_draw, spread3, Point3, Vec3};
use vstd::prelude::*;

verus! {

/// The number of lattice vectors, and the length of each table.
pub const POINT_COUNT: usize = 256;

/// `v` can be a lattice vector: a random point of the box `[-1, 1]^3`.
pub open spec fn is_lattice_draw(v: Vec3) -> bool {
    exists|u: Vec3| is_cube_draw(u) && v == #[trigger] spread3(
        Scalar::one().neg(),
        Scalar::one(),
        u,
    )
}

/// Every entry of `table` is an index into a table of `POINT_COUNT`.
pub open spec fn is_index_table(table: Seq<i32>) -> bool {
    table.len() == POINT_COUNT && forall|i: int|
        0 <= i < table.len() ==> 0 <= #[trigger] table[i] < POINT_COUNT
}

/// The numbers from 0 on, in order.
pub open spec fn identity_table(n: nat) -> Seq<i32> {
    Seq::new(n, |i: int| i as i32)
}

/// `table` holds each of the numbers from 0 to `POINT_COUNT - 1` once, in
/// some order.
pub open spec fn is_permutation(table: Seq<i32>) -> bool {
    table.to_multiset() == identity_table(POINT_COUNT as nat).to_multiset()
}

/// The lattice: a table of random vectors, and one table per axis that
/// scrambles the lattice coordinate along it.
#[derive(Debug)]
pub struct Perlin {
    rand_vec: Vec<Vec3>,
    perm_x: Vec<i32>,
    perm_y: Vec<i32>,
    perm_z: Vec<i32>,
}

/// Swapping two entries of a sequence leaves what it holds as it is.
pub proof fn lemma_swap_keeps_entries(s: Seq<i32>, i: int, j: int)
    requires
        0 <= i < s.len(),
        0 <= j < s.len(),
    ensures
        exchanged(s, i, j).to_multiset() == s.to_multiset(),
{
    vstd::seq_lib::to_multiset_update(s, i, s[j]);
    vstd::seq_lib::to_multiset_update(s.update(i, s[j]), j, s[i]);
    s.to_multiset_ensures();
    assert(exchanged(s, i, j).to_multiset() =~= s.to_multiset());
}

/// A table that holds what the identity table holds is an index table.
pub proof fn lemma_permutation_is_index_table(table: Seq<i32>)
    requires
        is_permutation(table),
    ensures
        is_index_table(table),
{
    let identity = identity_table(POINT_COUNT as nat);
    table.to_multiset_ensures();
    identity.to_multiset_ensures();
    assert forall|i: int| 0 <= i < table.len() implies 0 <= #[trigger] table[i] < POINT_COUNT by {
        assert(table.contains(table[i]));
        assert(identity.to_multiset().count(table[i]) > 0);
        assert(identity.contains(table[i]));
        let k = choose|k: int| 0 <= k < identity.len() && identity[k] == table[i];
        assert(identity[k] == k as i32);
    }
}

/// Whether every entry of `table` is an index into a table of
/// `POINT_COUNT`, and `table` has that length.
pub fn check_index_table(table: &Vec<i32>) -> (r: bool)
    ensures
        r == is_index_table(table@),
{
    if table.len() != POINT_COUNT {
        return false;
    }
    let mut i: usize = 0;
    while i < table.len()
        invariant
            i <= table.len(),
            table@.len() == POINT_COUNT,
            forall|k: int| 0 <= k < i ==> 0 <= #[trigger] table@[k] < POINT_COUNT,
        decreases table.len() - i,
    {
        if table[i] < 0 || table[i] >= POINT_COUNT as i32 {
            return false;
        }
        i = i + 1;
    }
    true
}

impl Perlin {
    /// The table of lattice vectors.
    pub closed spec fn vectors(&self) -> Seq<Vec3> {
        self.rand_vec@
    }

    /// The table that scrambles the lattice coordinate along x.
    pub closed spec fn table_x(&self) -> Seq<i32> {
        self.perm_x@
    }

    /// The table that scrambles the lattice coordinate along y.
    pub closed spec fn table_y(&self) -> Seq<i32> {
        self.perm_y@
    }

    /// The table that scrambles the lattice coordinate along z.
    pub closed spec fn table_z(&self) -> Seq<i32> {
        self.perm_z@
    }

    /// The tables have their lengths, and the three that scramble hold
    /// indices. Every lattice is so.
    #[verifier::type_invariant]
    pub closed spec fn wf(&self) -> bool {
        &&& self.rand_vec@.len() == POINT_COUNT
        &&& is_index_table(self.perm_x@)
        &&& is_index_table(self.perm_y@)
        &&& is_index_table(self.perm_z@)
    }

    /// The lattice with the given tables, where they have the length
    /// `POINT_COUNT` and the three that scramble hold indices into a table
    /// of that length; `None` otherwise.
    pub fn from_tables(
        rand_vec: Vec<Vec3>,
        perm_x: Vec<i32>,
        perm_y: Vec<i32>,
        perm_z: Vec<i32>,
    ) -> (r:
        Option<Perlin>)
        ensures
            r is Some <==> rand_vec@.len() == POINT_COUNT && is_index_table(perm_x@)
                && is_index_table(perm_y@) && is_index_table(perm_z@),
            r matches Some(lattice) ==> lattice.vectors() == rand_vec@ && lattice.table_x()
                == perm_x@ && lattice.table_y() == perm_y@ && lattice.table_z() == perm_z@,
    {
        if rand_vec.len() == POINT_COUNT && check_index_table(&perm_x) && check_index_table(&perm_y)
            && check_index_table(&perm_z) {
            Some(Perlin { rand_vec, perm_x, perm_y, perm_z })
        } else {
            None
        }
    }

    /// A lattice of random vectors of the box `[-1, 1]^3`, with three
    /// random permutations.
    pub fn new() -> (r: Perlin)
        ensures
            r.vectors().len() == POINT_COUNT,
            forall|i: int| 0 <= i < POINT_COUNT ==> is_lattice_draw(#[trigger] r.vectors()[i]),
            is_permutation(r.table_x()),
            is_permutation(r.table_y()),
            is_permutation(r.table_z()),
    {
        let mut rand_vec: Vec<Vec3> = Vec::new();
        let mut i: usize = 0;
        while i < POINT_COUNT
            invariant
                i <= POINT_COUNT,
                rand_vec@.len() == i,
                forall|k: int| 0 <= k < i ==> is_lattice_draw(#[trigger] rand_vec@[k]),
            decreases POINT_COUNT - i,
        {
            rand_vec.push(Vec3::random_range(Scalar::one().neg(), Scalar::one()));
            i = i + 1;
        }
        let perm_x = Perlin::perlin_generate_perm();
        let perm_y = Perlin::perlin_generate_perm();
        let perm_z = Perlin::perlin_generate_perm();
        proof {
            lemma_permutation_is_index_table(perm_x@);
            lemma_permutation_is_index_table(perm_y@);
            lemma_permutation_is_index_table(perm_z@);
        }
        Perlin { rand_vec, perm_x, perm_y, perm_z }
    }

    /// A random permutation of the numbers from 0 to `POINT_COUNT - 1`.
    pub fn perlin_generate_perm() -> (r: Vec<i32>)
        ensures
            r@.len() == POINT_COUNT,
            is_permutation(r@),
    {
        let mut p: Vec<i32> = Vec::new();
        let mut i: usize = 0;
        while i < POINT_COUNT
            invariant
                i <= POINT_COUNT,
                p@.len() == i,
                p@ == identity_table(i as nat),
            decreases POINT_COUNT - i,
        {
            p.push(i as i32);
            i = i + 1;
            assert(p@ =~= identity_table(i as nat));
        }
        Perlin::permute(POINT_COUNT, &mut p);
        p
    }

    /// Shuffles the first `n` entries of `p`: from the entry `n - 2` down,
    /// each is exchanged with an entry at or before it that is drawn at
    /// random. What comes out is [`shuffled`] for the entries drawn.
    pub fn permute(n: usize, p: &mut Vec<i32>)
        requires
            1 <= n <= old(p)@.len(),
            n <= i32::MAX,
        ensures
            exists|targets: Seq<int>| #[trigger]
                is_shuffle_draw(targets, n as nat) && final(p)@ == shuffled(old(p)@, targets, 0),
            final(p)@.len() == old(p)@.len(),
            final(p)@.to_multiset() == old(p)@.to_multiset(),
            forall|k: int| n - 1 <= k < old(p)@.len() ==> final(p)@[k] == old(p)@[k],
    {
        let ghost mut targets: Seq<int> = Seq::new((n - 1) as nat, |k: int| 0int);
        let mut i: usize = n - 1;
        while i > 0
            invariant
                i < n <= p@.len(),
                n <= i32::MAX,
                is_shuffle_draw(targets, n as nat),
                p@ == shuffled(old(p)@, targets, i as int),
                p@.len() == old(p)@.len(),
                p@.to_multiset() == old(p)@.to_multiset(),
                forall|k: int| n - 1 <= k < old(p)@.len() ==> p@[k] == old(p)@[k],
            decreases i,
        {
            i = i - 1;
            let target: usize = random_int_range(0, i as i32) as usize;
            proof {
                lemma_shuffled_reads_later_draws(
                    old(p)@,
                    targets,
                    i as int,
                    target as int,
                    i as int + 1,
                );
                lemma_swap_keeps_entries(p@, i as int, target as int);
                targets = targets.update(i as int, target as int);
            }
            Perlin::exchange(p, i, target);
        }
    }

    /// Exchanges the entries `i` and `target` of `p`.
    pub fn exchange(p: &mut Vec<i32>, i: usize, target: usize)
        requires
            i < old(p)@.len(),
            target < old(p)@.len(),
        ensures
            final(p)@ == exchanged(old(p)@, i as int, target as int),
    {
        let tmp = p[i];
        let other = p[target];
        p[i] = other;
        p[target] = tmp;
        assert(p@ =~= exchanged(old(p)@, i as int, target as int));
    }

    /// The number of the lattice cell that holds `coordinate`, scaled,
    /// along one axis: the whole part of `|coordinate scale|`.
    pub open spec fn spec_cell(coordinate: Scalar, scale: Scalar) -> i64 {
        coordinate.mul(scale).abs().whole_part()
    }

    /// See [`Perlin::spec_cell`].
    #[verifier::when_used_as_spec(spec_cell)]
    pub fn cell(coordinate: Scalar, scale: Scalar) -> (r: i64)
        ensures
            r == Perlin::spec_cell(coordinate, scale),
            0 <= r <= 9_223_372_036_854,
    {
        coordinate.mul(scale).abs().whole_part()
    }

    /// The place of `coordinate`, scaled, within its lattice cell:
    /// `|coordinate scale|` less its whole part.
    pub open spec fn spec_place(coordinate: Scalar, scale: Scalar) -> Scalar {
        coordinate.mul(scale).abs().sub(coordinate.mul(scale).abs().floor())
    }

    /// See [`Perlin::spec_place`].
    #[verifier::when_used_as_spec(spec_place)]
    pub fn place(coordinate: Scalar, scale: Scalar) -> (r: Scalar)
        ensures
            r == Perlin::spec_place(coordinate, scale),
    {
        let scaled = coordinate.mul(scale).abs();
        scaled.sub(scaled.floor())
    }

    /// The smooth step `t^2 (3 - 2 t)`.
    pub open spec fn spec_smooth(t: Scalar) -> Scalar {
        t.mul(t).mul(Scalar::from_int(3).sub(Scalar::from_int(2).mul(t)))
    }

    /// See [`Perlin::spec_smooth`].
    #[verifier::when_used_as_spec(spec_smooth)]
    pub fn smooth(t: Scalar) -> (r: Scalar)
        ensures
            r == Perlin::spec_smooth(t),
    {
        t.mul(t).mul(Scalar::from_int(3).sub(Scalar::from_int(2).mul(t)))
    }

    /// The lattice vector at the corner `(i, j, k)`: the entry of the
    /// vector table at the exclusive or of the three scrambled coordinates,
    /// each taken modulo the length of the tables.
    pub open spec fn spec_corner(&self, i: i64, j: i64, k: i64) -> Vec3 {
        self.vectors()[(self.table_x()[i as int % 256] ^ self.table_y()[j as int % 256]
            ^ self.table_z()[k as int % 256]) as int]
    }

    /// See [`Perlin::spec_corner`].
    #[verifier::when_used_as_spec(spec_corner)]
    pub fn corner(&self, i: i64, j: i64, k: i64) -> (r: Vec3)
        requires
            0 <= i,
            0 <= j,
            0 <= k,
        ensures
            r == self.spec_corner(i, j, k),
    {
        proof {
            use_type_invariant(self);
        }
        let x: i32 = self.perm_x[(i % 256) as usize];
        let y: i32 = self.perm_y[(j % 256) as usize];
        let z: i32 = self.perm_z[(k % 256) as usize];
        assert(0 <= (x ^ y ^ z) < 256) by (bit_vector)
            requires
                0 <= x < 256,
                0 <= y < 256,
                0 <= z < 256,
        ;
        self.rand_vec[(x ^ y ^ z) as usize]
    }

    /// The share of a corner along one axis at the smoothed place `t`:
    /// `t` for the far corner, `1 - t` for the near one.
    pub open spec fn spec_share(t: Scalar, far: bool) -> Scalar {
        if far {
            t
        } else {
            Scalar::one().sub(t)
        }
    }

    /// See [`Perlin::spec_share`].
    #[verifier::when_used_as_spec(spec_share)]
    pub fn share(t: Scalar, far: bool) -> (r: Scalar)
        ensures
            r == Perlin::spec_share(t, far),
    {
        if far {
            t
        } else {
            Scalar::one().sub(t)
        }
    }

    /// 1 for the far corner and 0 for the near one.
    pub open spec fn spec_step(far: bool) -> Scalar {
        if far {
            Scalar::one()
        } else {
            Scalar::zero()
        }
    }

    /// See [`Perlin::spec_step`].
    #[verifier::when_used_as_spec(spec_step)]
    pub fn step(far: bool) -> (r: Scalar)
        ensures
            r == Perlin::spec_step(far),
    {
        if far {
            Scalar::one()
        } else {
            Scalar::zero()
        }
    }

    /// What the corner `(i, j, k)` of the cell, with the lattice vector
    /// `c`, adds to the noise at the place `(u, v, w)` of the cell: the
    /// product of its three shares, at the smoothed place, and of the dot
    /// product of `c` and the vector from the corner to the place.
    pub open spec fn spec_term(
        c: Vec3,
        u: Scalar,
        v: Scalar,
        w: Scalar,
        i: bool,
        j: bool,
        k: bool,
    ) -> Scalar {
        Perlin::share(Perlin::smooth(u), i).mul(Perlin::share(Perlin::smooth(v), j)).mul(
            Perlin::share(Perlin::smooth(w), k),
        ).mul(
            dot(
                c,
                Vec3::new(u.sub(Perlin::step(i)), v.sub(Perlin::step(j)), w.sub(Perlin::step(k))),
            ),
        )
    }

    /// See [`Perlin::spec_term`].
    #[verifier::when_used_as_spec(spec_term)]
    pub fn term(c: Vec3, u: Scalar, v: Scalar, w: Scalar, i: bool, j: bool, k: bool) -> (r: Scalar)
        ensures
            r == Perlin::spec_term(c, u, v, w, i, j, k),
    {
        let weight = Vec3::new(
            u.sub(Perlin::step(i)),
            v.sub(Perlin::step(j)),
            w.sub(Perlin::step(k)),
        );
        Perlin::share(Perlin::smooth(u), i).mul(Perlin::share(Perlin::smooth(v), j)).mul(
            Perlin::share(Perlin::smooth(w), k),
        ).mul(dot(c, weight))
    }

    /// The noise at the place `(u, v, w)` of a cell whose corners have the
    /// lattice vectors `c`, the corner `(i, j, k)` at the index
    /// `4 i + 2 j + k`: the sum of the terms of the eight corners.
    pub open spec fn spec_perlin_interp(c: [Vec3; 8], u: Scalar, v: Scalar, w: Scalar) -> Scalar {
        Perlin::term(c[0], u, v, w, false, false, false).add(
            Perlin::term(c[1], u, v, w, false, false, true),
        ).add(Perlin::term(c[2], u, v, w, false, true, false)).add(
            Perlin::term(c[3], u, v, w, false, true, true),
        ).add(Perlin::term(c[4], u, v, w, true, false, false)).add(
            Perlin::term(c[5], u, v, w, true, false, true),
        ).add(Perlin::term(c[6], u, v, w, true, true, false)).add(
            Perlin::term(c[7], u, v, w, true, true, true),
        )
    }

    /// See [`Perlin::spec_perlin_interp`].
    #[verifier::when_used_as_spec(spec_perlin_interp)]
    pub fn perlin_interp(c: [Vec3; 8], u: Scalar, v: Scalar, w: Scalar) -> (r: Scalar)
        ensures
            r == Perlin::spec_perlin_interp(c, u, v, w),
    {
        Perlin::term(c[0], u, v, w, false, false, false).add(
            Perlin::term(c[1], u, v, w, false, false, true),
        ).add(Perlin::term(c[2], u, v, w, false, true, false)).add(
            Perlin::term(c[3], u, v, w, false, true, true),
        ).add(Perlin::term(c[4], u, v, w, true, false, false)).add(
            Perlin::term(c[5], u, v, w, true, false, true),
        ).add(Perlin::term(c[6], u, v, w, true, true, false)).add(
            Perlin::term(c[7], u, v, w, true, true, true),
        )
    }

    /// The lattice vectors of the eight corners of the cell `(i, j, k)`.
    pub open spec fn spec_corners(&self, i: i64, j: i64, k: i64) -> [Vec3; 8] {
        [
            self.corner(i, j, k),
            self.corner(i, j, (k + 1) as i64),
            self.corner(i, (j + 1) as i64, k),
            self.corner(i, (j + 1) as i64, (k + 1) as i64),
            self.corner((i + 1) as i64, j, k),
            self.corner((i + 1) as i64, j, (k + 1) as i64),
            self.corner((i + 1) as i64, (j + 1) as i64, k),
            self.corner((i + 1) as i64, (j + 1) as i64, (k + 1) as i64),
        ]
    }

    /// See [`Perlin::spec_corners`].
    #[verifier::when_used_as_spec(spec_corners)]
    pub fn corners(&self, i: i64, j: i64, k: i64) -> (r: [Vec3; 8])
        requires
            0 <= i <= 9_223_372_036_854,
            0 <= j <= 9_223_372_036_854,
            0 <= k <= 9_223_372_036_854,
        ensures
            r == self.spec_corners(i, j, k),
    {
        [
            self.corner(i, j, k),
            self.corner(i, j, k + 1),
            self.corner(i, j + 1, k),
            self.corner(i, j + 1, k + 1),
            self.corner(i + 1, j, k),
            self.corner(i + 1, j, k + 1),
            self.corner(i + 1, j + 1, k),
            self.corner(i + 1, j + 1, k + 1),
        ]
    }

    /// The noise at `p`, scaled by `scale`: the place of `p` in its lattice
    /// cell is smoothed, and the lattice vectors of the eight corners are
    /// blended there.
    pub open spec fn spec_noise(&self, scale: Scalar, p: &Point3) -> Scalar {
        Perlin::perlin_interp(
            self.corners(
                Perlin::cell(p.x, scale),
                Perlin::cell(p.y, scale),
                Perlin::cell(p.z, scale),
            ),
            Perlin::smooth(Perlin::place(p.x, scale)),
            Perlin::smooth(Perlin::place(p.y, scale)),
            Perlin::smooth(Perlin::place(p.z, scale)),
        )
    }

    /// See [`Perlin::spec_noise`].
    #[verifier::when_used_as_spec(spec_noise)]
    pub fn noise(&self, scale: Scalar, p: &Point3) -> (r: Scalar)
        ensures
            r == self.spec_noise(scale, p),
    {
        let u = Perlin::smooth(Perlin::place(p.x(), scale));
        let v = Perlin::smooth(Perlin::place(p.y(), scale));
        let w = Perlin::smooth(Perlin::place(p.z(), scale));
        let i = Perlin::cell(p.x(), scale);
        let j = Perlin::cell(p.y(), scale);
        let k = Perlin::cell(p.z(), scale);
        let c = self.corners(i, j, k);
        Perlin::perlin_interp(c, u, v, w)
    }

    /// The sum of the first `depth` octaves of the noise at `p`: the octave
    /// `n` is the noise at `2^n p`, weighted by `2^-n`.
    pub open spec fn octaves(&self, p: Point3, weight: Scalar, depth: int) -> Scalar
        decreases depth,
    {
        if depth <= 0 {
            Scalar::zero()
        } else {
            weight.mul(self.noise(Scalar::one(), &p)).add(
                self.octaves(p.scale(Scalar::from_int(2)), weight.mul(Scalar::half()), depth - 1),
            )
        }
    }

    /// The turbulence at `p`: the magnitude of the sum of `depth` octaves
    /// of the noise.
    pub open spec fn spec_turbulence(&self, p: &Point3, depth: i32) -> Scalar {
        self.octaves(*p, Scalar::one(), depth as int).abs()
    }

    /// See [`Perlin::spec_turbulence`].
    #[verifier::when_used_as_spec(spec_turbulence)]
    pub fn turbulence(&self, p: &Point3, depth: i32) -> (r: Scalar)
        ensures
            r == self.spec_turbulence(p, depth),
            r@ >= 0,
    {
        self.sum_octaves(*p, Scalar::one(), depth).abs()
    }

    /// See [`Perlin::octaves`].
    pub fn sum_octaves(&self, p: Point3, weight: Scalar, depth: i32) -> (r: Scalar)
        ensures
            r == self.octaves(p, weight, depth as int),
        decreases depth,
    {
        if depth <= 0 {
            Scalar::zero()
        } else {
            let first = weight.mul(self.noise(Scalar::one(), &p));
            let rest = self.sum_octaves(
                p.scale(Scalar::from_int(2)),
                weight.mul(Scalar::half()),
                depth - 1,
            );
            first.add(rest)
        }
    }
}

/// `table` with the entries `i` and `j` exchanged.
pub open spec fn exchanged(table: Seq<i32>, i: int, j: int) -> Seq<i32> {
    table.update(i, table[j]).update(j, table[i])
}

/// `targets` can be drawn in a shuffle of `n` entries: there is one target
/// for each entry but the last, at or before that entry.
pub open spec fn is_shuffle_draw(targets: Seq<int>, n: nat) -> bool {
    targets.len() == n - 1 && forall|i: int|
        0 <= i < targets.len() ==> 0 <= #[trigger] targets[i] <= i
}

/// `table` after the steps of a shuffle from the last target down to the
/// target `from`: the step `i` exchanges the entry `i` with the entry
/// `targets[i]`. The whole shuffle is `shuffled(table, targets, 0)`.
pub open spec fn shuffled(table: Seq<i32>, targets: Seq<int>, from: int) -> Seq<i32>
    decreases targets.len() - from,
{
    if 0 <= from < targets.len() {
        exchanged(shuffled(table, targets, from + 1), from, targets[from])
    } else {
        table
    }
}

/// The steps from `from` down read the targets from `from` on only: another
/// target before `from` leaves what they give as it is.
pub proof fn lemma_shuffled_reads_later_draws(
    table: Seq<i32>,
    targets: Seq<int>,
    at: int,
    target: int,
    from: int,
)
    requires
        0 <= at < from,
        at < targets.len(),
    ensures
        shuffled(table, targets.update(at, target), from) == shuffled(table, targets, from),
    decreases targets.len() - from,
{
    if from < targets.len() {
        lemma_shuffled_reads_later_draws(table, targets, at, target, from + 1);
    }
}

} // verus!
