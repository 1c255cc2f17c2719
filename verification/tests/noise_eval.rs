use pge::math::noise::open_simplex::OpenSimplex;
use pge::math::noise::order::order_key;
use pge::math::noise::simplex2::{region2, vertices2};
use pge::math::noise::simplex3::{
    region3, vertices3_lower, vertices3_middle, vertices3_upper, Region3, Step, Vertex3,
};

const STRETCH_2D: f64 = -0.211324865405187;
const SQUISH_2D: f64 = 0.366025403784439;
const STRETCH_3D: f64 = -1.0 / 6.0;
const SQUISH_3D: f64 = 1.0 / 3.0;
const NORM_2D: f64 = 1.0 / 7.69084574549313;
const NORM_3D: f64 = 1.0 / 26.92263139946168;

const GRAD_2D: [(f64, f64); 24] = [
    (0.130526192220052, 0.99144486137381),
    (0.38268343236509, 0.923879532511287),
    (0.608761429008721, 0.793353340291235),
    (0.793353340291235, 0.608761429008721),
    (0.923879532511287, 0.38268343236509),
    (0.99144486137381, 0.130526192220051),
    (0.99144486137381, -0.130526192220051),
    (0.923879532511287, -0.38268343236509),
    (0.793353340291235, -0.60876142900872),
    (0.608761429008721, -0.793353340291235),
    (0.38268343236509, -0.923879532511287),
    (0.130526192220052, -0.99144486137381),
    (-0.130526192220052, -0.99144486137381),
    (-0.38268343236509, -0.923879532511287),
    (-0.608761429008721, -0.793353340291235),
    (-0.793353340291235, -0.608761429008721),
    (-0.923879532511287, -0.38268343236509),
    (-0.99144486137381, -0.130526192220052),
    (-0.99144486137381, 0.130526192220051),
    (-0.923879532511287, 0.38268343236509),
    (-0.793353340291235, 0.608761429008721),
    (-0.608761429008721, 0.793353340291235),
    (-0.38268343236509, 0.923879532511287),
    (-0.130526192220052, 0.99144486137381),
];

const GRAD_3D: [(f64, f64, f64); 48] = [
    (-1.4082482904633333, -1.4082482904633333, -2.6329931618533333),
    (-0.07491495712999985, -0.07491495712999985, -3.29965982852),
    (0.24732126143473554, -1.6667938651159684, -2.838945207362466),
    (-1.6667938651159684, 0.24732126143473554, -2.838945207362466),
    (-1.4082482904633333, -2.6329931618533333, -1.4082482904633333),
    (-0.07491495712999985, -3.29965982852, -0.07491495712999985),
    (-1.6667938651159684, -2.838945207362466, 0.24732126143473554),
    (0.24732126143473554, -2.838945207362466, -1.6667938651159684),
    (1.5580782047233335, 0.33333333333333337, -2.8914115380566665),
    (2.8914115380566665, -0.33333333333333337, -1.5580782047233335),
    (1.8101897177633992, -1.2760767510338025, -2.4482280932803),
    (2.4482280932803, 1.2760767510338025, -1.8101897177633992),
    (1.5580782047233335, -2.8914115380566665, 0.33333333333333337),
    (2.8914115380566665, -1.5580782047233335, -0.33333333333333337),
    (2.4482280932803, -1.8101897177633992, 1.2760767510338025),
    (1.8101897177633992, -2.4482280932803, -1.2760767510338025),
    (-2.6329931618533333, -1.4082482904633333, -1.4082482904633333),
    (-3.29965982852, -0.07491495712999985, -0.07491495712999985),
    (-2.838945207362466, 0.24732126143473554, -1.6667938651159684),
    (-2.838945207362466, -1.6667938651159684, 0.24732126143473554),
    (0.33333333333333337, 1.5580782047233335, -2.8914115380566665),
    (-0.33333333333333337, 2.8914115380566665, -1.5580782047233335),
    (1.2760767510338025, 2.4482280932803, -1.8101897177633992),
    (-1.2760767510338025, 1.8101897177633992, -2.4482280932803),
    (0.33333333333333337, -2.8914115380566665, 1.5580782047233335),
    (-0.33333333333333337, -1.5580782047233335, 2.8914115380566665),
    (-1.2760767510338025, -2.4482280932803, 1.8101897177633992),
    (1.2760767510338025, -1.8101897177633992, 2.4482280932803),
    (3.29965982852, 0.07491495712999985, 0.07491495712999985),
    (2.6329931618533333, 1.4082482904633333, 1.4082482904633333),
    (2.838945207362466, -0.24732126143473554, 1.6667938651159684),
    (2.838945207362466, 1.6667938651159684, -0.24732126143473554),
    (-2.8914115380566665, 1.5580782047233335, 0.33333333333333337),
    (-1.5580782047233335, 2.8914115380566665, -0.33333333333333337),
    (-2.4482280932803, 1.8101897177633992, -1.2760767510338025),
    (-1.8101897177633992, 2.4482280932803, 1.2760767510338025),
    (-2.8914115380566665, 0.33333333333333337, 1.5580782047233335),
    (-1.5580782047233335, -0.33333333333333337, 2.8914115380566665),
    (-1.8101897177633992, 1.2760767510338025, 2.4482280932803),
    (-2.4482280932803, -1.2760767510338025, 1.8101897177633992),
    (0.07491495712999985, 3.29965982852, 0.07491495712999985),
    (1.4082482904633333, 2.6329931618533333, 1.4082482904633333),
    (1.6667938651159684, 2.838945207362466, -0.24732126143473554),
    (-0.24732126143473554, 2.838945207362466, 1.6667938651159684),
    (0.07491495712999985, 0.07491495712999985, 3.29965982852),
    (1.4082482904633333, 1.4082482904633333, 2.6329931618533333),
    (-0.24732126143473554, 1.6667938651159684, 2.838945207362466),
    (1.6667938651159684, -0.24732126143473554, 2.838945207362466),
];

fn key(v: f64) -> i64 {
    order_key(v.to_bits())
}

fn fast_floor(x: f64) -> i32 {
    let xi = x as i32;
    if x < xi as f64 {
        xi - 1
    } else {
        xi
    }
}

fn shift(d0: f64, step: Step, squish: f64) -> f64 {
    ((d0 - (step.cells - step.late) as f64) - squish) - step.late as f64
}

fn eval2(field: &OpenSimplex, x: f64, y: f64) -> f64 {
    let stretch_offset = (x + y) * STRETCH_2D;
    let xs = x + stretch_offset;
    let ys = y + stretch_offset;
    let xsb = fast_floor(xs);
    let ysb = fast_floor(ys);
    let xins = xs - xsb as f64;
    let yins = ys - ysb as f64;
    let in_sum = xins + yins;
    let squish_offset = in_sum * SQUISH_2D;
    let dx0 = xins + squish_offset;
    let dy0 = yins + squish_offset;
    let region = region2(key(in_sum));
    let zins = region.total() as f64 - in_sum;
    let mut value = 0.0;
    for v in vertices2(region, key(xins), key(yins), key(zins)) {
        let squish = (v.x + v.y) as f64 * SQUISH_2D;
        let dx = dx0 - v.x as f64 - squish;
        let dy = dy0 - v.y as f64 - squish;
        let mut attn = 2.0 - dx * dx - dy * dy;
        if attn > 0.0 {
            attn *= attn;
            let g = GRAD_2D[field.gradient2(xsb, ysb, v)];
            value += attn * attn * ((g.0 * NORM_2D) * dx + (g.1 * NORM_2D) * dy);
        }
    }
    value
}

fn sum3(field: &OpenSimplex, base: (i32, i32, i32), d0: (f64, f64, f64), vs: &[Vertex3]) -> f64 {
    let mut value = 0.0;
    for v in vs {
        let squish = (v.x.cells + v.y.cells + v.z.cells) as f64 * SQUISH_3D;
        let dx = shift(d0.0, v.x, squish);
        let dy = shift(d0.1, v.y, squish);
        let dz = shift(d0.2, v.z, squish);
        let mut attn = 2.0 - dx * dx - dy * dy - dz * dz;
        if attn > 0.0 {
            attn *= attn;
            let g = GRAD_3D[field.gradient3(base.0, base.1, base.2, *v)];
            value += attn
                * attn
                * ((g.0 * NORM_3D) * dx + (g.1 * NORM_3D) * dy + (g.2 * NORM_3D) * dz);
        }
    }
    value
}

fn eval3(field: &OpenSimplex, x: f64, y: f64, z: f64) -> f64 {
    let stretch_offset = (x + y + z) * STRETCH_3D;
    let xs = x + stretch_offset;
    let ys = y + stretch_offset;
    let zs = z + stretch_offset;
    let xsb = fast_floor(xs);
    let ysb = fast_floor(ys);
    let zsb = fast_floor(zs);
    let xins = xs - xsb as f64;
    let yins = ys - ysb as f64;
    let zins = zs - zsb as f64;
    let in_sum = xins + yins + zins;
    let squish_offset = in_sum * SQUISH_3D;
    let d0 = (xins + squish_offset, yins + squish_offset, zins + squish_offset);
    let base = (xsb, ysb, zsb);
    match region3(key(in_sum)) {
        Region3::Lower => {
            let wins = 1.0 - in_sum;
            let vs = vertices3_lower(key(xins), key(yins), key(zins), key(wins));
            sum3(field, base, d0, &vs)
        }
        Region3::Upper => {
            let wins = 3.0 - in_sum;
            let vs = vertices3_upper(key(xins), key(yins), key(zins), key(wins));
            sum3(field, base, d0, &vs)
        }
        Region3::Middle => {
            let sum_xy = xins + yins;
            let sum_xz = xins + zins;
            let sum_yz = yins + zins;
            let vs = vertices3_middle(
                key(sum_xy),
                key(sum_xz),
                key(sum_yz),
                key((sum_xy - 1.0).abs()),
                key((sum_xz - 1.0).abs()),
                key((sum_yz - 1.0).abs()),
            );
            sum3(field, base, d0, &vs)
        }
    }
}

/// A small generator of sample coordinates in `-span..span`.
fn samples(count: usize, span: f64) -> Vec<(f64, f64, f64)> {
    let mut state: u64 = 0x9E3779B97F4A7C15;
    let mut next = || {
        state = state.wrapping_mul(6364136223846793005).wrapping_add(1442695040888963407);
        ((state >> 11) as f64 / (1u64 << 53) as f64 * 2.0 - 1.0) * span
    };
    let mut out = Vec::new();
    for _ in 0..count {
        let x = next();
        let y = next();
        let z = next();
        out.push((x, y, z));
    }
    out
}

#[test]
fn end_to_end_with_seed_1234() {
    let field = OpenSimplex::new(1234);
    let v2 = eval2(&field, 3.7, -1.2);
    assert!((v2 - -0.2899013428457948).abs() < 1e-9, "{v2:?}");
    let v3 = eval3(&field, 3.7, -1.2, 0.5);
    assert!((v3 - -0.1806240397516864).abs() < 1e-9, "{v3:?}");
}

#[test]
fn end_to_end_with_the_identity_table() {
    let field = OpenSimplex::new(-32);
    assert_eq!(eval2(&field, 3.7, -1.2), 0.28333289456081023);
    assert_eq!(eval3(&field, 3.7, -1.2, 0.5), 0.5019960687277617);
    let mut table = [0usize; 2048];
    for i in 0..2048 {
        table[i] = i;
    }
    let same = OpenSimplex::new_from_perm(table);
    assert_eq!(eval2(&same, 3.7, -1.2), 0.28333289456081023);
    assert_eq!(eval3(&same, 3.7, -1.2, 0.5), 0.5019960687277617);
}

#[test]
fn values_at_lattice_points() {
    let field = OpenSimplex::new(1234);
    let plane = [
        (0.0, 0.0, 0.0),
        (1.0, 0.0, -0.5596415886536606),
        (0.0, 1.0, -0.4137576259891721),
        (3.0, 4.0, 0.26219507020021443),
        (-2.0, 5.0, 0.06509129157428531),
        (10.0, -7.0, 0.06509129157428531),
    ];
    for (x, y, want) in plane {
        let got = eval2(&field, x, y);
        assert!((got - want).abs() < 1e-12, "({x}, {y}): {got:?}");
    }
    let space = [
        (0.0, 0.0, 0.0, 7.34341347712388e-66),
        (1.0, 0.0, 0.0, 0.27166981142776525),
        (1.0, 2.0, 3.0, 7.752015765093697e-66),
        (-4.0, 2.0, 7.0, -0.20141622031354361),
        (6.0, 6.0, 6.0, 8.183981263748044e-66),
    ];
    for (x, y, z, want) in space {
        let got = eval3(&field, x, y, z);
        assert!((got - want).abs() < 1e-12, "({x}, {y}, {z}): {got:?}");
    }
}

#[test]
fn every_case_of_the_plane_matches_its_recorded_value() {
    let field = OpenSimplex::new(1234);
    let anchors = [
        (-29.139, 12.928, -0.13257832085852067),
        (-14.462, 36.828, -0.4108563670896328),
        (-2.393, 18.261, -0.4695822819776838),
        (-0.136, -6.73, -0.32913110853610966),
        (30.984, -7.193, 0.2594843922891932),
        (37.06, -15.238, 0.08223311197014678),
    ];
    for (x, y, want) in anchors {
        assert_eq!(eval2(&field, x, y), want, "({x}, {y})");
    }
}

#[test]
fn every_case_of_space_matches_its_recorded_value() {
    let field = OpenSimplex::new(1234);
    let anchors = [
        (-39.655, -27.947, 16.307, 0.4591942559679649),
        (-37.017, -30.273, -10.926, 0.14881907143066936),
        (-32.97, 0.331, -21.1, 0.3326904834357602),
        (-30.516, -35.539, -29.962, 0.04209840072486351),
        (-29.139, 12.928, -19.998, 0.258306620364845),
        (-22.991, -7.047, -35.321, -0.17873019605176843),
        (-20.857, -3.107, -18.91, -0.06951741441412099),
        (-18.782, -20.387, 25.007, -0.497841559444273),
        (-14.462, 36.828, 24.351, 0.0478534415075324),
        (-13.019, 35.204, 39.933, -0.26675146183641296),
        (-12.376, -23.908, -5.855, -0.0809692686297262),
        (-12.044, -6.674, -30.065, -0.0738270657711274),
        (-11.631, 16.204, 23.982, 0.0032493310312715854),
        (-8.912, 1.221, -22.141, 0.16779553876568154),
        (-6.316, -31.037, 28.107, -0.18867599076245684),
        (-2.803, -26.415, 15.647, -0.2741524655241007),
        (-2.393, 18.261, -15.7, 0.21017451127893444),
        (-0.136, -6.73, 18.221, 0.16039651039174102),
        (6.309, 34.563, 3.533, 0.03126512555683569),
        (8.536, -21.552, 39.607, 0.39332126162253883),
        (19.48, 21.025, -8.776, -0.17850752742326637),
        (26.921, -28.688, -9.018, 0.1215324495595911),
        (30.984, -7.193, 17.329, -0.09982185461121508),
        (37.06, -15.238, 16.325, 0.1691379703371558),
    ];
    for (x, y, z, want) in anchors {
        assert_eq!(eval3(&field, x, y, z), want, "({x}, {y}, {z})");
    }
}

#[test]
fn same_seed_gives_identical_values() {
    let a = OpenSimplex::new(987654321);
    let b = OpenSimplex::new(987654321);
    assert_eq!(a.permutation(), b.permutation());
    for (x, y, z) in samples(2000, 300.0) {
        assert_eq!(eval2(&a, x, y).to_bits(), eval2(&b, x, y).to_bits());
        assert_eq!(eval3(&a, x, y, z).to_bits(), eval3(&b, x, y, z).to_bits());
    }
}

#[test]
fn values_stay_in_range() {
    for seed in [1234i64, 0, -32, 42, i64::MAX, i64::MIN] {
        let field = OpenSimplex::new(seed);
        for (x, y, z) in samples(5000, 80.0) {
            let v2 = eval2(&field, x, y);
            let v3 = eval3(&field, x, y, z);
            assert!(v2.abs() <= 1.2, "seed {seed} at ({x}, {y}): {v2}");
            assert!(v3.abs() <= 1.2, "seed {seed} at ({x}, {y}, {z}): {v3}");
        }
    }
}

#[test]
fn values_are_continuous() {
    let field = OpenSimplex::new(1234);
    let eps = 1e-7;
    for (x, y, z) in samples(5000, 40.0) {
        let d2 = (eval2(&field, x, y) - eval2(&field, x + eps, y - eps)).abs();
        let d3 = (eval3(&field, x, y, z) - eval3(&field, x + eps, y - eps, z + eps)).abs();
        assert!(d2 < 1e-5, "({x}, {y}): {d2}");
        assert!(d3 < 1e-5, "({x}, {y}, {z}): {d3}");
    }
}

#[test]
fn values_are_continuous_across_cell_borders() {
    let field = OpenSimplex::new(1234);
    let eps = 1e-9;
    // Points of the plane whose skewed coordinates are whole numbers or sum
    // to a whole number lie on the borders of the triangles.
    for i in -20..20 {
        for j in -20..20 {
            let xs = i as f64 * 0.5;
            let ys = j as f64 * 0.25;
            let squish = (xs + ys) * SQUISH_2D;
            let (x, y) = (xs + squish, ys + squish);
            let here = eval2(&field, x, y);
            for (ex, ey) in [(eps, 0.0), (-eps, 0.0), (0.0, eps), (0.0, -eps), (eps, eps)] {
                let there = eval2(&field, x + ex, y + ey);
                assert!((here - there).abs() < 1e-6, "({x}, {y})");
            }
            for k in -4..4 {
                let zs = k as f64 * 0.5;
                let squish = (xs + ys + zs) * SQUISH_3D;
                let (x, y, z) = (xs + squish, ys + squish, zs + squish);
                let here = eval3(&field, x, y, z);
                // In space the set of vertices changes at some borders
                // while a vertex still weighs a little: steps of the order
                // of a hundred-thousandth are expected there.
                for (ex, ey, ez) in
                    [(eps, 0.0, 0.0), (0.0, -eps, 0.0), (0.0, 0.0, eps), (-eps, eps, -eps)]
                {
                    let there = eval3(&field, x + ex, y + ey, z + ez);
                    assert!((here - there).abs() < 1e-4, "({x}, {y}, {z})");
                }
            }
        }
    }
}

#[test]
fn origin_and_the_point_one_table_size_away() {
    let field = OpenSimplex::new(1234);
    // The table repeats every 2048 lattice cells, but the lattice is skewed
    // against the axes: 2048 units along both axes is not a whole number of
    // periods, so the two values differ.
    assert_eq!(eval2(&field, 0.0, 0.0), 0.0);
    assert_eq!(eval2(&field, 2048.0, 2048.0), -0.08451420045007513);
    assert!(eval2(&field, 0.0, 0.0) != eval2(&field, 2048.0, 2048.0));
}
