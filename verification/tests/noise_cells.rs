use pge::math::noise::order::{order_key, KEY_ONE, KEY_TWO};
use pge::math::noise::simplex2::{extra2, region2, vertices2, Region2, Vertex2};
use pge::math::noise::simplex3::{
    extras_lower, extras_middle, extras_upper, region3, vertices3_lower, vertices3_middle,
    vertices3_upper, Corner, Region3, Step, Vertex3,
};

fn key(v: f64) -> i64 {
    order_key(v.to_bits())
}

fn v2(x: i32, y: i32) -> Vertex2 {
    Vertex2 { x, y }
}

fn v3(x: i32, y: i32, z: i32) -> Vertex3 {
    Vertex3 {
        x: Step { cells: x, late: 0 },
        y: Step { cells: y, late: 0 },
        z: Step { cells: z, late: 0 },
    }
}

#[test]
fn keys_order_as_the_numbers_do() {
    let numbers = [
        f64::NEG_INFINITY,
        -1e300,
        -2.0,
        -1.0,
        -0.5,
        -1e-300,
        -f64::MIN_POSITIVE / 2.0,
        0.0,
        f64::MIN_POSITIVE / 2.0,
        1e-300,
        0.25,
        0.5,
        1.0 - f64::EPSILON / 2.0,
        1.0,
        1.0 + f64::EPSILON,
        2.0,
        3.0,
        1e300,
        f64::INFINITY,
    ];
    for i in 0..numbers.len() {
        for j in 0..numbers.len() {
            assert_eq!(key(numbers[i]) < key(numbers[j]), numbers[i] < numbers[j]);
            assert_eq!(key(numbers[i]) == key(numbers[j]), numbers[i] == numbers[j]);
        }
    }
}

#[test]
fn keys_of_known_patterns() {
    assert_eq!(order_key(0), 0);
    assert_eq!(order_key(0x8000_0000_0000_0000), 0);
    assert_eq!(key(-0.0), key(0.0));
    assert_eq!(order_key(1), 1);
    assert_eq!(order_key(0x8000_0000_0000_0001), -1);
    assert_eq!(order_key(u64::MAX), -i64::MAX);
    assert_eq!(order_key(0x7FFF_FFFF_FFFF_FFFF), i64::MAX);
    assert_eq!(key(1.0), KEY_ONE);
    assert_eq!(key(2.0), KEY_TWO);
    assert_eq!(key(-1.0), -KEY_ONE);
}

#[test]
fn regions_of_the_plane() {
    assert_eq!(region2(key(0.0)), Region2::Lower);
    assert_eq!(region2(key(0.999)), Region2::Lower);
    assert_eq!(region2(key(1.0)), Region2::Lower);
    assert_eq!(region2(key(1.0 + f64::EPSILON)), Region2::Upper);
    assert_eq!(region2(key(1.9)), Region2::Upper);
    assert_eq!(Region2::Lower.total(), 1);
    assert_eq!(Region2::Upper.total(), 2);
    assert_eq!(Region2::Lower.apex(), v2(0, 0));
    assert_eq!(Region2::Upper.apex(), v2(1, 1));
}

#[test]
fn extra_vertex_of_the_lower_triangle() {
    let extra = |x: f64, y: f64| extra2(Region2::Lower, key(x), key(y), key(1.0 - (x + y)));
    // Near the base corner, towards the larger coordinate.
    assert_eq!(extra(0.3, 0.1), v2(1, -1));
    assert_eq!(extra(0.1, 0.3), v2(-1, 1));
    // Level coordinates go to the y side.
    assert_eq!(extra(0.2, 0.2), v2(-1, 1));
    // Near the diagonal, the far corner of the cell.
    assert_eq!(extra(0.5, 0.5), v2(1, 1));
    assert_eq!(extra(0.45, 0.45), v2(1, 1));
    assert_eq!(extra(0.8, 0.15), v2(1, 1));
    // One comparison is enough to stay near the base corner.
    assert_eq!(extra(0.8, 0.02), v2(1, -1));
    assert_eq!(extra(0.02, 0.8), v2(-1, 1));
}

#[test]
fn extra_vertex_of_the_upper_triangle() {
    let extra = |x: f64, y: f64| extra2(Region2::Upper, key(x), key(y), key(2.0 - (x + y)));
    assert_eq!(extra(0.9, 0.7), v2(2, 0));
    assert_eq!(extra(0.7, 0.9), v2(0, 2));
    assert_eq!(extra(0.8, 0.8), v2(0, 2));
    assert_eq!(extra(0.52, 0.52), v2(0, 0));
    assert_eq!(extra(0.95, 0.2), v2(2, 0));
}

#[test]
fn four_vertices_of_the_plane_in_summing_order() {
    let vs = vertices2(Region2::Lower, key(0.3), key(0.1), key(0.6));
    assert_eq!(vs, [v2(1, 0), v2(0, 1), v2(0, 0), v2(1, -1)]);
    let vs = vertices2(Region2::Upper, key(0.7), key(0.9), key(0.4));
    assert_eq!(vs, [v2(1, 0), v2(0, 1), v2(1, 1), v2(0, 2)]);
    for region in [Region2::Lower, Region2::Upper] {
        for x in [0.0, 0.2, 0.5, 0.9] {
            for y in [0.0, 0.2, 0.5, 0.9] {
                for z in [0.0, 0.1, 0.3, 0.6, 1.0] {
                    let vs = vertices2(region, key(x), key(y), key(z));
                    for i in 0..4 {
                        for j in 0..i {
                            assert_ne!(vs[i], vs[j]);
                        }
                    }
                }
            }
        }
    }
}

#[test]
fn regions_of_space() {
    assert_eq!(region3(key(0.0)), Region3::Lower);
    assert_eq!(region3(key(1.0)), Region3::Lower);
    assert_eq!(region3(key(1.0 + f64::EPSILON)), Region3::Middle);
    assert_eq!(region3(key(1.5)), Region3::Middle);
    assert_eq!(region3(key(2.0 - f64::EPSILON)), Region3::Middle);
    assert_eq!(region3(key(2.0)), Region3::Upper);
    assert_eq!(region3(key(2.9)), Region3::Upper);
}

#[test]
fn corners_join_and_meet() {
    let xy = Corner { x: true, y: true, z: false };
    let yz = Corner { x: false, y: true, z: true };
    assert_eq!(xy.union(yz), Corner { x: true, y: true, z: true });
    assert_eq!(xy.common(yz), Corner { x: false, y: true, z: false });
}

fn late(v: Vertex3, axis: char, late: i32) -> Vertex3 {
    let mut v = v;
    match axis {
        'x' => v.x.late = late,
        'y' => v.y.late = late,
        _ => v.z.late = late,
    }
    v
}

fn lower(x: f64, y: f64, z: f64) -> (Vertex3, Vertex3) {
    extras_lower(key(x), key(y), key(z), key(1.0 - (x + y + z)))
}

fn upper(x: f64, y: f64, z: f64) -> (Vertex3, Vertex3) {
    extras_upper(key(x), key(y), key(z), key(3.0 - (x + y + z)))
}

fn middle(x: f64, y: f64, z: f64) -> (Vertex3, Vertex3) {
    let (sum_xy, sum_xz, sum_yz) = (x + y, x + z, y + z);
    extras_middle(
        key(sum_xy),
        key(sum_xz),
        key(sum_yz),
        key((sum_xy - 1.0).abs()),
        key((sum_xz - 1.0).abs()),
        key((sum_yz - 1.0).abs()),
    )
}

#[test]
fn extras_of_the_lower_tetrahedron() {
    // The base corner is among the nearest two: one cell along the best
    // axis, one back along each of the others.
    assert_eq!(lower(0.15, 0.05, 0.1), (v3(1, -1, 0), v3(1, 0, -1)));
    assert_eq!(lower(0.05, 0.15, 0.1), (v3(-1, 1, 0), v3(0, 1, -1)));
    assert_eq!(lower(0.05, 0.1, 0.15), (v3(-1, 0, 1), v3(0, -1, 1)));
    // The base corner is not: the corner joining the nearest two, and the
    // vertex behind it.
    assert_eq!(lower(0.1, 0.75, 0.05), (v3(1, 1, 0), v3(1, 1, -1)));
    assert_eq!(lower(0.1, 0.05, 0.75), (v3(1, 0, 1), v3(1, -1, 1)));
    assert_eq!(lower(0.05, 0.1, 0.75), (v3(0, 1, 1), v3(-1, 1, 1)));
    assert_eq!(lower(0.45, 0.45, 0.05), (v3(1, 1, 0), v3(1, 1, -1)));
    // All level: x and y stand, and x is the better of the two.
    assert_eq!(lower(0.2, 0.2, 0.2), (v3(1, -1, 0), v3(1, 0, -1)));
}

#[test]
fn extras_of_the_upper_tetrahedron() {
    // The opposite corner is among the nearest two: one cell beyond the
    // best corner along either of its axes.
    assert_eq!(upper(0.25, 0.95, 0.9), (late(v3(0, 2, 1), 'y', 1), v3(0, 1, 2)));
    assert_eq!(upper(0.75, 0.6, 0.95), (v3(2, 0, 1), v3(1, 0, 2)));
    assert_eq!(upper(0.75, 0.85, 0.7), (v3(2, 1, 0), late(v3(1, 2, 0), 'y', 1)));
    // The opposite corner is not: one and two cells along the shared axis.
    assert_eq!(upper(0.75, 0.55, 0.7), (v3(1, 0, 0), v3(2, 0, 0)));
    assert_eq!(upper(0.15, 0.95, 0.9), (v3(0, 1, 0), v3(0, 2, 0)));
    assert_eq!(upper(0.15, 0.9, 0.95), (v3(0, 0, 1), v3(0, 0, 2)));
}

#[test]
fn extras_of_the_octahedron() {
    // Both nearest corners on the far side.
    assert_eq!(middle(0.6, 0.45, 0.5), (v3(1, 1, 1), v3(2, 0, 0)));
    assert_eq!(middle(0.1, 0.95, 0.9), (v3(1, 1, 1), v3(0, 2, 0)));
    assert_eq!(middle(0.1, 0.85, 0.95), (v3(1, 1, 1), v3(0, 0, 2)));
    // Both on the near side.
    assert_eq!(middle(0.05, 0.1, 0.9), (v3(0, 0, 0), v3(-1, 1, 1)));
    assert_eq!(middle(0.1, 0.05, 0.9), (v3(0, 0, 0), v3(1, -1, 1)));
    assert_eq!(middle(0.1, 0.9, 0.05), (v3(0, 0, 0), v3(1, 1, -1)));
    // One on each side.
    assert_eq!(middle(0.55, 0.4, 0.5), (v3(1, -1, 1), late(v3(2, 0, 0), 'x', 2)));
    assert_eq!(middle(0.55, 0.5, 0.4), (v3(1, 1, -1), late(v3(2, 0, 0), 'x', 2)));
    assert_eq!(middle(0.05, 0.7, 0.6), (v3(-1, 1, 1), late(v3(0, 2, 0), 'y', 2)));
    assert_eq!(middle(0.1, 0.95, 0.05), (v3(1, 1, -1), late(v3(0, 2, 0), 'y', 2)));
    assert_eq!(middle(0.05, 0.1, 0.95), (v3(-1, 1, 1), late(v3(0, 0, 2), 'z', 2)));
    assert_eq!(middle(0.1, 0.05, 0.95), (v3(1, -1, 1), late(v3(0, 0, 2), 'z', 2)));
    // x + y = 1.7 and x + z = 1.1 lie beyond one, y + z = 1 does not and
    // scores nothing: the first two stand.
    assert_eq!(middle(0.9, 0.8, 0.2), (v3(1, 1, 1), v3(2, 0, 0)));
}

#[test]
fn vertices_of_space_in_summing_order() {
    let vs = vertices3_lower(key(0.3), key(0.1), key(0.05), key(0.55));
    assert_eq!(
        vs,
        [v3(0, 0, 0), v3(1, 0, 0), v3(0, 1, 0), v3(0, 0, 1), v3(1, -1, 0), v3(1, 0, -1)]
    );
    let vs = vertices3_upper(key(0.9), key(0.7), key(0.95), key(0.45));
    assert_eq!(
        vs,
        [v3(1, 1, 0), v3(1, 0, 1), v3(0, 1, 1), v3(1, 1, 1), v3(2, 0, 1), v3(1, 0, 2)]
    );
    let vs = vertices3_middle(key(0.7), key(0.7), key(0.8), key(0.3), key(0.3), key(0.2));
    assert_eq!(
        vs,
        [
            v3(1, 0, 0),
            v3(0, 1, 0),
            v3(0, 0, 1),
            v3(1, 1, 0),
            v3(1, 0, 1),
            v3(0, 1, 1),
            v3(0, 0, 0),
            v3(-1, 1, 1),
        ]
    );
}

#[test]
fn no_vertex_of_space_is_counted_twice() {
    let place = |v: &Vertex3| (v.x.cells, v.y.cells, v.z.cells);
    let grid = [0.0, 0.1, 0.3, 0.5, 0.7, 0.9, 1.0];
    for x in grid {
        for y in grid {
            for z in grid {
                for w in [0.0, 0.2, 0.6, 1.0] {
                    let lower = vertices3_lower(key(x), key(y), key(z), key(w));
                    let upper = vertices3_upper(key(x), key(y), key(z), key(w));
                    for i in 0..6 {
                        for j in 0..i {
                            assert_ne!(place(&lower[i]), place(&lower[j]));
                            assert_ne!(place(&upper[i]), place(&upper[j]));
                        }
                    }
                }
                let (sum_xy, sum_xz, sum_yz) = (x + y, x + z, y + z);
                let middle = vertices3_middle(
                    key(sum_xy),
                    key(sum_xz),
                    key(sum_yz),
                    key((sum_xy - 1.0).abs()),
                    key((sum_xz - 1.0).abs()),
                    key((sum_yz - 1.0).abs()),
                );
                for i in 0..8 {
                    for j in 0..i {
                        assert_ne!(place(&middle[i]), place(&middle[j]));
                    }
                }
            }
        }
    }
}

#[test]
fn upper_tetrahedron_mirrors_the_lower_one() {
    let grid = [0.05, 0.2, 0.2, 0.4, 0.75, 0.9];
    for x in grid {
        for y in grid {
            for z in grid {
                for w in [0.1, 0.3, 0.8] {
                    let up = extras_upper(key(x), key(y), key(z), key(w));
                    let low = extras_lower(key(-x), key(-y), key(-z), key(-w));
                    for (u, l) in [(up.0, low.0), (up.1, low.1)] {
                        assert_eq!(u.x.cells, 1 - l.x.cells);
                        assert_eq!(u.y.cells, 1 - l.y.cells);
                        assert_eq!(u.z.cells, 1 - l.z.cells);
                    }
                }
            }
        }
    }
}
