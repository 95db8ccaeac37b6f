use ray_tracing_one_weekend::perlin::{check_index_table, Perlin};
use ray_tracing_one_weekend::scalar::Scalar;
use ray_tracing_one_weekend::vec3::Vec3;

fn s(x: f64) -> Scalar {
    Scalar::from_micros((x * 1e6).round() as i64)
}

fn v(x: f64, y: f64, z: f64) -> Vec3 {
    Vec3::new(s(x), s(y), s(z))
}

fn f(x: Scalar) -> f64 {
    x.micros as f64 / 1e6
}

fn identity() -> Vec<i32> {
    (0..256).collect()
}

/// A lattice whose vectors all are `direction`, with tables that scramble
/// nothing.
fn plain_lattice(direction: Vec3) -> Perlin {
    Perlin::from_tables(vec![direction; 256], identity(), identity(), identity())
        .expect("a lattice")
}

#[test]
fn generated_table_is_a_permutation() {
    for _ in 0..20 {
        let mut table = Perlin::perlin_generate_perm();
        assert_eq!(table.len(), 256);
        table.sort();
        assert_eq!(table, identity());
    }
}

#[test]
fn generated_tables_are_shuffled() {
    let table = Perlin::perlin_generate_perm();
    let moved = table.iter().enumerate().filter(|(i, &x)| *i as i32 != x).count();
    assert!(moved > 200, "{}", moved);
    assert_ne!(Perlin::perlin_generate_perm(), table);
}

#[test]
fn permuting_keeps_the_entries() {
    let mut table: Vec<i32> = vec![10, 20, 30, 40, 50, 60, 70, 80];
    Perlin::permute(5, &mut table);
    assert_eq!(&table[5..], &[60, 70, 80]);
    let mut head = table[..5].to_vec();
    head.sort();
    assert_eq!(head, vec![10, 20, 30, 40, 50]);
    let mut one = vec![7];
    Perlin::permute(1, &mut one);
    assert_eq!(one, vec![7]);
}

#[test]
fn permuting_leaves_the_last_of_the_entries_to_be_swapped_from_below() {
    // the walk starts at the entry n - 2: the entry n - 1 moves only if a
    // later step draws it, which none can
    let mut table: Vec<i32> = (0..50).collect();
    Perlin::permute(50, &mut table);
    assert_eq!(table[49], 49);
}

#[test]
fn index_tables_are_checked() {
    assert!(check_index_table(&identity()));
    assert!(!check_index_table(&vec![0; 255]));
    assert!(!check_index_table(&vec![0; 257]));
    let mut high = identity();
    high[17] = 256;
    assert!(!check_index_table(&high));
    let mut low = identity();
    low[255] = -1;
    assert!(!check_index_table(&low));
    assert!(check_index_table(&vec![255; 256]));
}

#[test]
fn lattice_needs_good_tables() {
    assert!(Perlin::from_tables(vec![Vec3::zero(); 256], identity(), identity(), identity())
        .is_some());
    assert!(Perlin::from_tables(vec![Vec3::zero(); 255], identity(), identity(), identity())
        .is_none());
    assert!(Perlin::from_tables(vec![Vec3::zero(); 256], vec![0; 3], identity(), identity())
        .is_none());
    let mut bad = identity();
    bad[0] = 300;
    assert!(Perlin::from_tables(vec![Vec3::zero(); 256], identity(), bad.clone(), identity())
        .is_none());
    assert!(Perlin::from_tables(vec![Vec3::zero(); 256], identity(), identity(), bad).is_none());
}

#[test]
fn smooth_step() {
    assert_eq!(Perlin::smooth(s(0.0)), s(0.0));
    assert_eq!(Perlin::smooth(s(1.0)), s(1.0));
    assert_eq!(Perlin::smooth(s(0.5)), s(0.5));
    assert_eq!(Perlin::smooth(s(0.25)), s(0.15625));
}

#[test]
fn cells_and_places() {
    assert_eq!(Perlin::cell(s(2.75), s(1.0)), 2);
    assert_eq!(Perlin::cell(s(-2.75), s(1.0)), 2);
    assert_eq!(Perlin::cell(s(2.75), s(4.0)), 11);
    assert_eq!(Perlin::place(s(2.75), s(1.0)), s(0.75));
    assert_eq!(Perlin::place(s(-2.75), s(1.0)), s(0.75));
    assert_eq!(Perlin::place(s(3.0), s(1.0)), s(0.0));
}

#[test]
fn corners_are_looked_up_through_the_tables() {
    let mut vectors = vec![Vec3::zero(); 256];
    for (i, vector) in vectors.iter_mut().enumerate() {
        *vector = Vec3::from_ints(i as i32, 0, 0);
    }
    let lattice =
        Perlin::from_tables(vectors, identity(), identity(), identity()).expect("a lattice");
    assert_eq!(lattice.corner(0, 0, 0), Vec3::from_ints(0, 0, 0));
    assert_eq!(lattice.corner(5, 0, 0), Vec3::from_ints(5, 0, 0));
    assert_eq!(lattice.corner(5, 3, 0), Vec3::from_ints(6, 0, 0));
    assert_eq!(lattice.corner(5, 3, 9), Vec3::from_ints(15, 0, 0));
    assert_eq!(lattice.corner(256, 0, 0), Vec3::from_ints(0, 0, 0));
    assert_eq!(lattice.corner(257, 256, 512), Vec3::from_ints(1, 0, 0));
    let around = lattice.corners(5, 3, 9);
    assert_eq!(around[0], Vec3::from_ints(5 ^ 3 ^ 9, 0, 0));
    assert_eq!(around[1], Vec3::from_ints(5 ^ 3 ^ 10, 0, 0));
    assert_eq!(around[2], Vec3::from_ints(5 ^ 4 ^ 9, 0, 0));
    assert_eq!(around[4], Vec3::from_ints(6 ^ 3 ^ 9, 0, 0));
    assert_eq!(around[7], Vec3::from_ints(6 ^ 4 ^ 10, 0, 0));
}

#[test]
fn blending_the_corners() {
    let x = v(1.0, 0.0, 0.0);
    // at the near corner only its own term counts, and its vector meets no
    // distance
    assert_eq!(Perlin::perlin_interp([x; 8], s(0.0), s(0.0), s(0.0)), s(0.0));
    // in the middle, every corner has the share 1/8; the four near corners
    // see the distance 0.5 and the four far ones -0.5
    assert_eq!(Perlin::perlin_interp([x; 8], s(0.5), s(0.5), s(0.5)), s(0.0));
    // one quarter along x: shares 0.84375 and 0.15625 along x
    let quarter = Perlin::perlin_interp([x; 8], s(0.25), s(0.0), s(0.0));
    assert_eq!(quarter, s(0.84375 * 0.25 - 0.15625 * 0.75));
    assert_eq!(Perlin::term(x, s(0.25), s(0.0), s(0.0), false, false, false), s(0.210937));
    assert_eq!(Perlin::term(x, s(0.25), s(0.0), s(0.0), true, false, false), s(-0.117187));
    assert_eq!(Perlin::share(s(0.3), true), s(0.3));
    assert_eq!(Perlin::share(s(0.3), false), s(0.7));
    assert_eq!(Perlin::step(true), s(1.0));
    assert_eq!(Perlin::step(false), s(0.0));
}

#[test]
fn noise_of_a_plain_lattice() {
    let lattice = plain_lattice(v(1.0, 0.0, 0.0));
    assert_eq!(lattice.noise(s(1.0), &v(3.0, 4.0, 5.0)), s(0.0));
    // the place 0.5 is smoothed to 0.5
    assert_eq!(lattice.noise(s(1.0), &v(3.5, 4.0, 5.0)), s(0.0));
    // the place 0.25 is smoothed to 0.15625 before the corners are blended
    let expected = Perlin::perlin_interp([v(1.0, 0.0, 0.0); 8], s(0.15625), s(0.0), s(0.0));
    assert_eq!(lattice.noise(s(1.0), &v(3.25, 4.0, 5.0)), expected);
    assert_eq!(lattice.noise(s(2.0), &v(1.625, 2.0, 2.5)), expected);
    assert_eq!(plain_lattice(Vec3::zero()).noise(s(1.0), &v(0.3, 0.6, 0.9)), s(0.0));
}

#[test]
fn noise_is_bounded_and_repeatable() {
    let lattice = Perlin::new();
    for k in 0..200 {
        let point = v(0.173 * k as f64, 7.0 - 0.05 * k as f64, 0.31 * k as f64);
        let value = lattice.noise(s(1.0), &point);
        assert!(f(value).abs() <= 2.0, "{:?}", value);
        assert_eq!(lattice.noise(s(1.0), &point), value);
        let turbulence = lattice.turbulence(&point, 7);
        assert!(turbulence.micros >= 0);
        assert!(f(turbulence) <= 4.0, "{:?}", turbulence);
    }
}

#[test]
fn turbulence_sums_the_octaves() {
    let lattice = Perlin::new();
    let point = v(0.3, 1.7, 2.9);
    assert_eq!(lattice.turbulence(&point, 0), s(0.0));
    assert_eq!(lattice.turbulence(&point, -2), s(0.0));
    assert_eq!(lattice.turbulence(&point, 1), lattice.noise(s(1.0), &point).abs());
    let two = lattice
        .noise(s(1.0), &point)
        .add(s(0.5).mul(lattice.noise(s(1.0), &point.scale(s(2.0)))));
    assert_eq!(lattice.turbulence(&point, 2), two.abs());
    assert_eq!(lattice.sum_octaves(point, s(1.0), 2), two);
}

#[test]
fn exchanging_two_entries() {
    let mut table: Vec<i32> = vec![10, 20, 30, 40];
    Perlin::exchange(&mut table, 3, 1);
    assert_eq!(table, vec![10, 40, 30, 20]);
    Perlin::exchange(&mut table, 2, 2);
    assert_eq!(table, vec![10, 40, 30, 20]);
    Perlin::exchange(&mut table, 0, 3);
    assert_eq!(table, vec![20, 40, 30, 10]);
}

#[test]
fn shuffle_of_three_exchanges_the_first_two_or_nothing() {
    let mut same = 0;
    let mut swapped = 0;
    for _ in 0..200 {
        let mut table: Vec<i32> = vec![7, 8, 9];
        Perlin::permute(3, &mut table);
        if table == vec![7, 8, 9] {
            same += 1;
        } else if table == vec![8, 7, 9] {
            swapped += 1;
        } else {
            panic!("not a shuffle: {:?}", table);
        }
    }
    assert!(same > 50 && swapped > 50, "{} {}", same, swapped);
}

#[test]
fn shuffle_of_two_or_fewer_changes_nothing() {
    let mut table: Vec<i32> = vec![7, 8, 9];
    Perlin::permute(2, &mut table);
    assert_eq!(table, vec![7, 8, 9]);
    Perlin::permute(1, &mut table);
    assert_eq!(table, vec![7, 8, 9]);
}
