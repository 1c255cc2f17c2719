use pge::math::noise::open_simplex::{OpenSimplex, GRADIENTS_2D, GRADIENTS_3D};
use pge::math::noise::permutation::{
    build_permutation, is_permutation, lcg_step, table_in_range, IDENTITY_SEED, PMASK, PSIZE,
};
use pge::math::noise::simplex2::Vertex2;
use pge::math::noise::simplex3::{Step, Vertex3};

fn at2(x: i32, y: i32) -> Vertex2 {
    Vertex2 { x, y }
}

fn at3(x: i32, y: i32, z: i32) -> Vertex3 {
    Vertex3 {
        x: Step { cells: x, late: 0 },
        y: Step { cells: y, late: 0 },
        z: Step { cells: z, late: 0 },
    }
}

#[test]
fn table_of_seed_follows_the_remainders() {
    let perm = build_permutation(1234);
    assert_eq!(&perm[..12], &[0, 1, 2, 1, 0, 5, 5, 1, 5, 5, 0, 5]);
    for i in 0..PSIZE {
        assert_eq!(perm[i], 1265 % (i + 1));
    }
    assert!(table_in_range(&perm));
    assert!(!is_permutation(&perm));
}

#[test]
fn table_of_a_negative_seed_is_reduced_upwards() {
    // -100 + 31 = -69, and -69 reduced into 0..=i is i + 1 - (69 mod (i + 1))
    // unless i + 1 divides 69.
    let perm = build_permutation(-100);
    assert_eq!(&perm[..8], &[0, 1, 0, 3, 1, 3, 1, 3]);
    for i in 0..PSIZE {
        let want = (-69i64).rem_euclid(i as i64 + 1) as usize;
        assert_eq!(perm[i], want);
    }
}

#[test]
fn seed_plus_offset_wraps_around() {
    // i64::MAX + 31 wraps to i64::MIN + 30.
    let perm = build_permutation(i64::MAX);
    for i in 0..PSIZE {
        let want = (i64::MIN + 30).rem_euclid(i as i64 + 1) as usize;
        assert_eq!(perm[i], want);
    }
    let perm = build_permutation(i64::MIN);
    for i in 0..PSIZE {
        let want = (i64::MIN + 31).rem_euclid(i as i64 + 1) as usize;
        assert_eq!(perm[i], want);
    }
}

#[test]
fn only_the_identity_seed_gives_a_bijection() {
    let perm = build_permutation(IDENTITY_SEED);
    for i in 0..PSIZE {
        assert_eq!(perm[i], i);
    }
    assert!(is_permutation(&perm));
    for seed in [0, 1, -1, -31, -33, 1234, i64::MAX, i64::MIN] {
        assert!(!is_permutation(&build_permutation(seed)), "seed {seed}");
    }
}

#[test]
fn bijection_check_finds_duplicates_gaps_and_strays() {
    let mut perm = [0usize; PSIZE];
    for i in 0..PSIZE {
        perm[i] = PMASK - i;
    }
    assert!(is_permutation(&perm));
    assert!(table_in_range(&perm));
    perm[7] = perm[8];
    assert!(!is_permutation(&perm));
    assert!(table_in_range(&perm));
    perm[7] = PSIZE;
    assert!(!is_permutation(&perm));
    assert!(!table_in_range(&perm));
}

#[test]
fn generator_step_wraps() {
    assert_eq!(lcg_step(0), 1442695040888963407);
    assert_eq!(lcg_step(1), 6364136223846793005i64.wrapping_add(1442695040888963407));
    assert_eq!(
        lcg_step(1234),
        1234i64.wrapping_mul(6364136223846793005).wrapping_add(1442695040888963407)
    );
    assert_eq!(
        lcg_step(i64::MIN),
        i64::MIN.wrapping_mul(6364136223846793005).wrapping_add(1442695040888963407)
    );
}

#[test]
fn field_keeps_its_seed() {
    let field = OpenSimplex::new(1234);
    assert_eq!(field.get_seed(), 1234);
    assert_eq!(field.permutation()[2047], 1265);
    let field = OpenSimplex::new_from_perm(build_permutation(77));
    assert_eq!(field.get_seed(), 0);
    assert_eq!(field.permutation()[2047], 108);
}

#[test]
fn field_from_a_table_needs_slots() {
    let mut perm = [0usize; PSIZE];
    for i in 0..PSIZE {
        perm[i] = (i * 7) % PSIZE;
    }
    let field = OpenSimplex::checked_from_perm(perm).expect("all entries are slots");
    assert_eq!(field.get_seed(), 0);
    assert_eq!(field.permutation(), &perm);
    perm[2047] = 2048;
    assert!(OpenSimplex::checked_from_perm(perm).is_none());
}

#[test]
fn gradient_tables_reduce_the_entries() {
    let perm = build_permutation(1234);
    let (plane, space) = OpenSimplex::getperms(&perm);
    for i in 0..PSIZE {
        assert_eq!(plane[i], perm[i] % 24);
        assert_eq!(space[i], perm[i] % 48);
    }
    assert_eq!(plane[2047], 1265 % 24);
    assert_eq!(space[2047], 1265 % 48);
}

#[test]
fn gradients_hash_the_coordinates() {
    let mut perm = [0usize; PSIZE];
    for i in 0..PSIZE {
        perm[i] = (i * 5 + 3) % PSIZE;
    }
    let field = OpenSimplex::new_from_perm(perm);
    let mask = |c: i32| (c as usize) & PMASK;
    for (x, y, z) in [(0, 0, 0), (1, 2, 3), (-1, -2, -3), (2047, 2048, 2049), (-2048, 5000, -77)]
    {
        let g2 = field.gradient2(x, y, at2(0, 0));
        assert_eq!(g2, perm[perm[mask(x)] ^ mask(y)] % GRADIENTS_2D);
        let g3 = field.gradient3(x, y, z, at3(0, 0, 0));
        assert_eq!(g3, perm[perm[perm[mask(x)] ^ mask(y)] ^ mask(z)] % GRADIENTS_3D);
    }
    // (5 * 1 + 3) ^ 2 = 10, and 5 * 10 + 3 = 53 = 2 * 24 + 5.
    assert_eq!(field.gradient2(1, 2, at2(0, 0)), 5);
}

#[test]
fn gradients_follow_the_vertex() {
    let field = OpenSimplex::new(42);
    for (x, y, z) in [(0, 0, 0), (10, -20, 30), (-1, -1, -1)] {
        for (i, j, k) in [(1, 0, 0), (-1, 1, 1), (2, 0, 0), (0, 2, 1), (1, 1, -1)] {
            assert_eq!(
                field.gradient2(x, y, at2(i, j)),
                field.gradient2(x + i, y + j, at2(0, 0))
            );
            assert_eq!(
                field.gradient3(x, y, z, at3(i, j, k)),
                field.gradient3(x + i, y + j, z + k, at3(0, 0, 0))
            );
        }
    }
    // Late cells change how a displacement is rounded, not where the vertex is.
    let late = Vertex3 {
        x: Step { cells: 0, late: 0 },
        y: Step { cells: 2, late: 1 },
        z: Step { cells: 1, late: 0 },
    };
    assert_eq!(field.gradient3(3, 4, 5, late), field.gradient3(3, 4, 5, at3(0, 2, 1)));
}

#[test]
fn gradients_do_not_overflow_at_the_rim() {
    let field = OpenSimplex::new(42);
    let far = field.gradient2(i32::MAX, i32::MIN, at2(2, -1));
    // i32::MAX + 2 = 2^31 + 1 has slot 1; i32::MIN - 1 has slot 2047.
    assert_eq!(far, field.gradient2(1, 2047, at2(0, 0)));
    let far = field.gradient3(i32::MAX, i32::MAX, i32::MIN, at3(2, 1, -1));
    assert_eq!(far, field.gradient3(1, 0, 2047, at3(0, 0, 0)));
}

#[test]
fn gradients_repeat_with_the_table_size() {
    let field = OpenSimplex::new(1234);
    for x in [-5, 0, 3, 1000] {
        for y in [-7, 0, 9] {
            let here = field.gradient2(x, y, at2(0, 0));
            assert_eq!(here, field.gradient2(x + 2048, y, at2(0, 0)));
            assert_eq!(here, field.gradient2(x, y - 4096, at2(0, 0)));
            let here = field.gradient3(x, y, 11, at3(0, 0, 0));
            assert_eq!(here, field.gradient3(x, y, 11 + 2048, at3(0, 0, 0)));
            assert_eq!(here, field.gradient3(x - 2048, y + 2048, 11, at3(0, 0, 0)));
        }
    }
}
