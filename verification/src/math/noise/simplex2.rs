//! Which lattice vertices reach a point of the plane.
//!
//! The skewed plane is tiled by unit cells, each cut into two triangles. A
//! point receives a contribution from the three corners of its triangle and
//! from one vertex more, the nearest of those just outside it.

use crate::math::noise::order::KEY_ONE;
use vstd::prelude::*;

verus! {

/// A lattice vertex, as whole steps from the base corner of the cell.
///
/// Its displacement from a point is the point's displacement from the base
/// corner, less the steps, less the squish constant once for each step of
/// `x + y`.
#[derive(Clone, Copy, Debug, PartialEq, Eq, Structural)]
pub struct Vertex2 {
    pub x: i32,
    pub y: i32,
}

/// The triangle of the cell that holds the point.
#[derive(Clone, Copy, Debug, PartialEq, Eq, Structural)]
pub enum Region2 {
    /// The triangle at the base corner: the fractional coordinates sum to at
    /// most one.
    Lower,
    /// The triangle at the opposite corner.
    Upper,
}

/// The vertex `x` steps along the first axis and `y` along the second.
pub open spec fn at2(x: int, y: int) -> Vertex2 {
    Vertex2 { x: x as i32, y: y as i32 }
}

impl Region2 {
    /// The region of a point whose fractional coordinates sum to `in_sum`.
    pub open spec fn of(in_sum: int) -> Region2 {
        if in_sum <= KEY_ONE {
            Region2::Lower
        } else {
            Region2::Upper
        }
    }

    /// The corner that only this triangle of the cell has.
    pub open spec fn spec_apex(self) -> Vertex2 {
        match self {
            Region2::Lower => at2(0, 0),
            Region2::Upper => at2(1, 1),
        }
    }

    /// The total from which the coordinate sum is taken to get the third
    /// score: one below the diagonal, two above it.
    pub open spec fn spec_total(self) -> int {
        match self {
            Region2::Lower => 1,
            Region2::Upper => 2,
        }
    }

    /// Computes the corner that only this triangle of the cell has.
    pub fn apex(&self) -> (v: Vertex2)
        ensures
            v == self.spec_apex(),
    {
        match self {
            Region2::Lower => Vertex2 { x: 0, y: 0 },
            Region2::Upper => Vertex2 { x: 1, y: 1 },
        }
    }

    /// Computes the total from which the coordinate sum is taken to get the
    /// third score.
    pub fn total(&self) -> (t: i32)
        ensures
            t == self.spec_total(),
    {
        match self {
            Region2::Lower => 1,
            Region2::Upper => 2,
        }
    }
}

/// Finds the region from the key of the coordinate sum.
pub fn region2(in_sum: i64) -> (region: Region2)
    ensures
        region == Region2::of(in_sum as int),
{
    if in_sum <= KEY_ONE {
        Region2::Lower
    } else {
        Region2::Upper
    }
}

/// The vertex outside the triangle that still reaches the point.
///
/// `xins` and `yins` are the keys of the fractional coordinates and `zins`
/// that of the region's total less their sum. Below the diagonal the apex is
/// among the two nearest corners when `zins` exceeds either coordinate; the
/// extra vertex then lies across the edge towards the larger coordinate, and
/// otherwise it is the opposite corner of the cell. Above the diagonal the
/// same holds with the comparisons reversed. Equal coordinates go to the
/// `y` side.
pub open spec fn spec_extra2(region: Region2, xins: int, yins: int, zins: int) -> Vertex2 {
    match region {
        Region2::Lower => if zins > xins || zins > yins {
            if xins > yins {
                at2(1, -1)
            } else {
                at2(-1, 1)
            }
        } else {
            at2(1, 1)
        },
        Region2::Upper => if zins < xins || zins < yins {
            if xins > yins {
                at2(2, 0)
            } else {
                at2(0, 2)
            }
        } else {
            at2(0, 0)
        },
    }
}

/// The four vertices that reach the point, in the order in which their
/// contributions are summed: the two corners shared by both triangles, the
/// apex of the region, the extra vertex.
pub open spec fn spec_vertices2(region: Region2, xins: int, yins: int, zins: int) -> Seq<
    Vertex2,
> {
    seq![
        at2(1, 0),
        at2(0, 1),
        region.spec_apex(),
        spec_extra2(region, xins, yins, zins),
    ]
}

/// Computes the vertex outside the triangle that still reaches the point.
pub fn extra2(region: Region2, xins: i64, yins: i64, zins: i64) -> (v: Vertex2)
    ensures
        v == spec_extra2(region, xins as int, yins as int, zins as int),
{
    let xsv_ext: i32;
    let ysv_ext: i32;
    match region {
        Region2::Lower => {
            if zins > xins || zins > yins {
                if xins > yins {
                    xsv_ext = 1;
                    ysv_ext = -1;
                } else {
                    xsv_ext = -1;
                    ysv_ext = 1;
                }
            } else {
                xsv_ext = 1;
                ysv_ext = 1;
            }
        },
        Region2::Upper => {
            if zins < xins || zins < yins {
                if xins > yins {
                    xsv_ext = 2;
                    ysv_ext = 0;
                } else {
                    xsv_ext = 0;
                    ysv_ext = 2;
                }
            } else {
                xsv_ext = 0;
                ysv_ext = 0;
            }
        },
    }
    Vertex2 { x: xsv_ext, y: ysv_ext }
}

/// Computes the four vertices that reach the point, in summing order.
pub fn vertices2(region: Region2, xins: i64, yins: i64, zins: i64) -> (vs: [Vertex2; 4])
    ensures
        vs@ == spec_vertices2(region, xins as int, yins as int, zins as int),
{
    let vs = [
        Vertex2 { x: 1, y: 0 },
        Vertex2 { x: 0, y: 1 },
        region.apex(),
        extra2(region, xins, yins, zins),
    ];
    assert(vs@ =~= spec_vertices2(region, xins as int, yins as int, zins as int));
    vs
}

/// No vertex is counted twice: the four vertices of a point differ from one
/// another.
pub proof fn lemma_vertices2_distinct(region: Region2, xins: int, yins: int, zins: int)
    ensures
        forall|i: int, j: int|
            0 <= i < j < 4 ==> spec_vertices2(region, xins, yins, zins)[i] != spec_vertices2(
                region,
                xins,
                yins,
                zins,
            )[j],
{
}

/// Every vertex lies within one cell of the cell of the point.
pub proof fn lemma_vertices2_near(region: Region2, xins: int, yins: int, zins: int)
    ensures
        spec_vertices2(region, xins, yins, zins).len() == 4,
        forall|i: int|
            0 <= i < 4 ==> {
                let v = #[trigger] spec_vertices2(region, xins, yins, zins)[i];
                -1 <= v.x <= 2 && -1 <= v.y <= 2 && 0 <= v.x + v.y <= 2
            },
{
}

/// Exchanging the two coordinates of a point mirrors its extra vertex, as
/// long as the coordinates differ.
pub proof fn lemma_extra2_mirror(region: Region2, xins: int, yins: int, zins: int)
    requires
        xins != yins,
    ensures
        spec_extra2(region, yins, xins, zins).x == spec_extra2(region, xins, yins, zins).y,
        spec_extra2(region, yins, xins, zins).y == spec_extra2(region, xins, yins, zins).x,
{
}

/// The upper triangle is the lower one seen from the opposite corner:
/// negating every score and reflecting the extra vertex of the lower
/// triangle through the centre of the cell gives the extra vertex of the
/// upper one, as long as the coordinates differ.
pub proof fn lemma_upper_reflects_lower(xins: int, yins: int, zins: int)
    requires
        xins != yins,
    ensures
        spec_extra2(Region2::Upper, xins, yins, zins).x == 1 - spec_extra2(
            Region2::Lower,
            -xins,
            -yins,
            -zins,
        ).x,
        spec_extra2(Region2::Upper, xins, yins, zins).y == 1 - spec_extra2(
            Region2::Lower,
            -xins,
            -yins,
            -zins,
        ).y,
{
}

/// The squared distance between the point at `(a / n, b / n)` of the cell
/// and the vertex `(i, j)`, in units of `1 / n` squared.
///
/// The squish constant `s` solves `2 * s * s + 2 * s == 1`. That makes the
/// squared length of the displacement `(u + (u + v) * s, v + (u + v) * s)`
/// equal to `u * u + v * v + (u + v) * (u + v)`, a whole number where the
/// steps `u` and `v` are.
pub open spec fn distance2(n: int, a: int, b: int, i: int, j: int) -> int {
    let u = a - i * n;
    let v = b - j * n;
    u * u + v * v + (u + v) * (u + v)
}

/// The vertex `(i, j)` reaches the point at `(a / n, b / n)` of the cell:
/// its weight, two less the squared distance, is positive.
pub open spec fn reaches2(n: int, a: int, b: int, i: int, j: int) -> bool {
    distance2(n, a, b, i, j) < 2 * n * n
}

/// The region of the point at `(a / n, b / n)` of the cell.
pub open spec fn exact_region2(n: int, a: int, b: int) -> Region2 {
    if a + b <= n {
        Region2::Lower
    } else {
        Region2::Upper
    }
}

/// The four vertices of the point at `(a / n, b / n)` of the cell, with
/// the numerators for keys.
pub open spec fn exact_vertices2(n: int, a: int, b: int) -> Seq<Vertex2> {
    let region = exact_region2(n, a, b);
    spec_vertices2(region, a, b, region.spec_total() * n - (a + b))
}

/// A vertex two cells or more before the cell, or three or more after its
/// base corner, along one axis is too far to reach any point of the cell.
proof fn lemma_far_along_axis(n: int, a: int, i: int)
    requires
        n > 0,
        0 <= a <= n,
        i <= -2 || i >= 3,
    ensures
        (a - i * n) * (a - i * n) >= 2 * n * n,
{
    if i <= -2 {
        assert((a - i * n) * (a - i * n) >= 2 * n * n) by (nonlinear_arith)
            requires
                n > 0,
                0 <= a,
                i <= -2,
        ;
    } else {
        assert((a - i * n) * (a - i * n) >= 2 * n * n) by (nonlinear_arith)
            requires
                n > 0,
                a <= n,
                i >= 3,
        ;
    }
}

/// No vertex near the lower triangle reaches a point of it unless it is one
/// of the point's four.
proof fn lemma_lower_complete(n: int, a: int, b: int, i: int, j: int)
    requires
        n > 0,
        0 <= a <= n,
        0 <= b <= n,
        a + b <= n,
        -1 <= i <= 2,
        -1 <= j <= 2,
        !(i == 1 && j == 0),
        !(i == 0 && j == 1),
        !(i == 0 && j == 0),
        at2(i, j) != spec_extra2(Region2::Lower, a, b, n - (a + b)),
    ensures
        !reaches2(n, a, b, i, j),
{
    if i == -1 && j == -1 {
        assert((a + 1 * n) * (a + 1 * n) + (b + 1 * n) * (b + 1 * n) + ((a + b) + 2 * n) * ((a + b) + 2 * n) >= 2 * n * n) by (nonlinear_arith)
            requires
                n > 0,
                0 <= a <= n,
                0 <= b <= n,
                a + b <= n,
        ;
    }
    if i == -1 && j == 0 {
        assert((a + 1 * n) * (a + 1 * n) + b * b + ((a + b) + 1 * n) * ((a + b) + 1 * n) >= 2 * n * n) by (nonlinear_arith)
            requires
                n > 0,
                0 <= a <= n,
                0 <= b <= n,
                a + b <= n,
        ;
    }
    if i == -1 && j == 1 && a <= b && 2 * a + b >= n && a + 2 * b >= n {
        assert((a + 1 * n) * (a + 1 * n) + (b - 1 * n) * (b - 1 * n) + (a + b) * (a + b) >= 2 * n * n) by (nonlinear_arith)
            requires
                n > 0,
                0 <= a <= n,
                0 <= b <= n,
                a + b <= n,
                2 * a + b >= n,
                a + 2 * b >= n,
        ;
    }
    if i == -1 && j == 1 && a > b {
        assert((a + 1 * n) * (a + 1 * n) + (b - 1 * n) * (b - 1 * n) + (a + b) * (a + b) >= 2 * n * n) by (nonlinear_arith)
            requires
                n > 0,
                0 <= a <= n,
                0 <= b <= n,
                a > b,
        ;
    }
    if i == -1 && j == 2 {
        assert((a + 1 * n) * (a + 1 * n) + (b - 2 * n) * (b - 2 * n) + ((a + b) - 1 * n) * ((a + b) - 1 * n) >= 2 * n * n) by (nonlinear_arith)
            requires
                n > 0,
                0 <= a <= n,
                0 <= b <= n,
                a + b <= n,
        ;
    }
    if i == 0 && j == -1 {
        assert(a * a + (b + 1 * n) * (b + 1 * n) + ((a + b) + 1 * n) * ((a + b) + 1 * n) >= 2 * n * n) by (nonlinear_arith)
            requires
                n > 0,
                0 <= a <= n,
                0 <= b <= n,
                a + b <= n,
        ;
    }
    if i == 0 && j == 2 {
        assert(a * a + (b - 2 * n) * (b - 2 * n) + ((a + b) - 2 * n) * ((a + b) - 2 * n) >= 2 * n * n) by (nonlinear_arith)
            requires
                n > 0,
                0 <= a <= n,
                0 <= b <= n,
                a + b <= n,
        ;
    }
    if i == 1 && j == -1 && a > b && 2 * a + b >= n && a + 2 * b >= n {
        assert((a - 1 * n) * (a - 1 * n) + (b + 1 * n) * (b + 1 * n) + (a + b) * (a + b) >= 2 * n * n) by (nonlinear_arith)
            requires
                n > 0,
                0 <= a <= n,
                0 <= b <= n,
                a + b <= n,
                2 * a + b >= n,
                a + 2 * b >= n,
        ;
    }
    if i == 1 && j == -1 && a <= b {
        assert((a - 1 * n) * (a - 1 * n) + (b + 1 * n) * (b + 1 * n) + (a + b) * (a + b) >= 2 * n * n) by (nonlinear_arith)
            requires
                n > 0,
                0 <= a <= n,
                0 <= b <= n,
                a <= b,
        ;
    }
    if i == 1 && j == 1 && (2 * a + b < n || a + 2 * b < n) {
        assert((a - 1 * n) * (a - 1 * n) + (b - 1 * n) * (b - 1 * n) + ((a + b) - 2 * n) * ((a + b) - 2 * n) >= 2 * n * n) by (nonlinear_arith)
            requires
                n > 0,
                0 <= a <= n,
                0 <= b <= n,
                a + b <= n,
                2 * a + b < n || a + 2 * b < n,
        ;
    }
    if i == 1 && j == 2 {
        assert((a - 1 * n) * (a - 1 * n) + (b - 2 * n) * (b - 2 * n) + ((a + b) - 3 * n) * ((a + b) - 3 * n) >= 2 * n * n) by (nonlinear_arith)
            requires
                n > 0,
                0 <= a <= n,
                0 <= b <= n,
                a + b <= n,
        ;
    }
    if i == 2 && j == -1 {
        assert((a - 2 * n) * (a - 2 * n) + (b + 1 * n) * (b + 1 * n) + ((a + b) - 1 * n) * ((a + b) - 1 * n) >= 2 * n * n) by (nonlinear_arith)
            requires
                n > 0,
                0 <= a <= n,
                0 <= b <= n,
                a + b <= n,
        ;
    }
    if i == 2 && j == 0 {
        assert((a - 2 * n) * (a - 2 * n) + b * b + ((a + b) - 2 * n) * ((a + b) - 2 * n) >= 2 * n * n) by (nonlinear_arith)
            requires
                n > 0,
                0 <= a <= n,
                0 <= b <= n,
                a + b <= n,
        ;
    }
    if i == 2 && j == 1 {
        assert((a - 2 * n) * (a - 2 * n) + (b - 1 * n) * (b - 1 * n) + ((a + b) - 3 * n) * ((a + b) - 3 * n) >= 2 * n * n) by (nonlinear_arith)
            requires
                n > 0,
                0 <= a <= n,
                0 <= b <= n,
                a + b <= n,
        ;
    }
    if i == 2 && j == 2 {
        assert((a - 2 * n) * (a - 2 * n) + (b - 2 * n) * (b - 2 * n) + ((a + b) - 4 * n) * ((a + b) - 4 * n) >= 2 * n * n) by (nonlinear_arith)
            requires
                n > 0,
                0 <= a <= n,
                0 <= b <= n,
                a + b <= n,
        ;
    }
}

/// No vertex near the upper triangle reaches a point of it unless it is one
/// of the point's four.
proof fn lemma_upper_complete(n: int, a: int, b: int, i: int, j: int)
    requires
        n > 0,
        0 <= a <= n,
        0 <= b <= n,
        a + b > n,
        -1 <= i <= 2,
        -1 <= j <= 2,
        !(i == 1 && j == 0),
        !(i == 0 && j == 1),
        !(i == 1 && j == 1),
        at2(i, j) != spec_extra2(Region2::Upper, a, b, 2 * n - (a + b)),
    ensures
        !reaches2(n, a, b, i, j),
{
    if i == -1 && j == -1 {
        assert((a + 1 * n) * (a + 1 * n) + (b + 1 * n) * (b + 1 * n) + ((a + b) + 2 * n) * ((a + b) + 2 * n) >= 2 * n * n) by (nonlinear_arith)
            requires
                n > 0,
                0 <= a <= n,
                0 <= b <= n,
                a + b > n,
        ;
    }
    if i == -1 && j == 0 {
        assert((a + 1 * n) * (a + 1 * n) + b * b + ((a + b) + 1 * n) * ((a + b) + 1 * n) >= 2 * n * n) by (nonlinear_arith)
            requires
                n > 0,
                0 <= a <= n,
                0 <= b <= n,
                a + b > n,
        ;
    }
    if i == -1 && j == 1 {
        assert((a + 1 * n) * (a + 1 * n) + (b - 1 * n) * (b - 1 * n) + (a + b) * (a + b) >= 2 * n * n) by (nonlinear_arith)
            requires
                n > 0,
                0 <= a <= n,
                0 <= b <= n,
                a + b > n,
        ;
    }
    if i == -1 && j == 2 {
        assert((a + 1 * n) * (a + 1 * n) + (b - 2 * n) * (b - 2 * n) + ((a + b) - 1 * n) * ((a + b) - 1 * n) >= 2 * n * n) by (nonlinear_arith)
            requires
                n > 0,
                0 <= a <= n,
                0 <= b <= n,
                a + b > n,
        ;
    }
    if i == 0 && j == -1 {
        assert(a * a + (b + 1 * n) * (b + 1 * n) + ((a + b) + 1 * n) * ((a + b) + 1 * n) >= 2 * n * n) by (nonlinear_arith)
            requires
                n > 0,
                0 <= a <= n,
                0 <= b <= n,
                a + b > n,
        ;
    }
    if i == 0 && j == 0 && (2 * a + b > 2 * n || a + 2 * b > 2 * n) {
        assert(a * a + b * b + (a + b) * (a + b) >= 2 * n * n) by (nonlinear_arith)
            requires
                n > 0,
                0 <= a <= n,
                0 <= b <= n,
                a + b > n,
                2 * a + b > 2 * n || a + 2 * b > 2 * n,
        ;
    }
    if i == 0 && j == 2 && a <= b && 2 * a + b <= 2 * n && a + 2 * b <= 2 * n {
        assert(a * a + (b - 2 * n) * (b - 2 * n) + ((a + b) - 2 * n) * ((a + b) - 2 * n) >= 2 * n * n) by (nonlinear_arith)
            requires
                n > 0,
                0 <= a <= n,
                0 <= b <= n,
                a + b > n,
                2 * a + b <= 2 * n,
                a + 2 * b <= 2 * n,
        ;
    }
    if i == 0 && j == 2 && a > b {
        assert(a * a + (b - 2 * n) * (b - 2 * n) + ((a + b) - 2 * n) * ((a + b) - 2 * n) >= 2 * n * n) by (nonlinear_arith)
            requires
                n > 0,
                0 <= a <= n,
                0 <= b <= n,
                a > b,
        ;
    }
    if i == 1 && j == -1 {
        assert((a - 1 * n) * (a - 1 * n) + (b + 1 * n) * (b + 1 * n) + (a + b) * (a + b) >= 2 * n * n) by (nonlinear_arith)
            requires
                n > 0,
                0 <= a <= n,
                0 <= b <= n,
                a + b > n,
        ;
    }
    if i == 1 && j == 2 {
        assert((a - 1 * n) * (a - 1 * n) + (b - 2 * n) * (b - 2 * n) + ((a + b) - 3 * n) * ((a + b) - 3 * n) >= 2 * n * n) by (nonlinear_arith)
            requires
                n > 0,
                0 <= a <= n,
                0 <= b <= n,
                a + b > n,
        ;
    }
    if i == 2 && j == -1 {
        assert((a - 2 * n) * (a - 2 * n) + (b + 1 * n) * (b + 1 * n) + ((a + b) - 1 * n) * ((a + b) - 1 * n) >= 2 * n * n) by (nonlinear_arith)
            requires
                n > 0,
                0 <= a <= n,
                0 <= b <= n,
                a + b > n,
        ;
    }
    if i == 2 && j == 0 && a > b && 2 * a + b <= 2 * n && a + 2 * b <= 2 * n {
        assert((a - 2 * n) * (a - 2 * n) + b * b + ((a + b) - 2 * n) * ((a + b) - 2 * n) >= 2 * n * n) by (nonlinear_arith)
            requires
                n > 0,
                0 <= a <= n,
                0 <= b <= n,
                a + b > n,
                2 * a + b <= 2 * n,
                a + 2 * b <= 2 * n,
        ;
    }
    if i == 2 && j == 0 && a <= b {
        assert((a - 2 * n) * (a - 2 * n) + b * b + ((a + b) - 2 * n) * ((a + b) - 2 * n) >= 2 * n * n) by (nonlinear_arith)
            requires
                n > 0,
                0 <= a <= n,
                0 <= b <= n,
                a <= b,
        ;
    }
    if i == 2 && j == 1 {
        assert((a - 2 * n) * (a - 2 * n) + (b - 1 * n) * (b - 1 * n) + ((a + b) - 3 * n) * ((a + b) - 3 * n) >= 2 * n * n) by (nonlinear_arith)
            requires
                n > 0,
                0 <= a <= n,
                0 <= b <= n,
                a + b > n,
        ;
    }
    if i == 2 && j == 2 {
        assert((a - 2 * n) * (a - 2 * n) + (b - 2 * n) * (b - 2 * n) + ((a + b) - 4 * n) * ((a + b) - 4 * n) >= 2 * n * n) by (nonlinear_arith)
            requires
                n > 0,
                0 <= a <= n,
                0 <= b <= n,
                a + b > n,
        ;
    }
}

/// The four vertices of a point are all that reach it: in exact arithmetic
/// every lattice vertex with a positive weight at the point is one of the
/// four. A vertex that enters or leaves the four as the point moves does so
/// with no weight, which is what keeps the sum continuous across the
/// borders of the triangles.
pub proof fn lemma_vertices2_complete(n: int, a: int, b: int, i: int, j: int)
    requires
        n > 0,
        0 <= a <= n,
        0 <= b <= n,
        reaches2(n, a, b, i, j),
    ensures
        exists|k: int| 0 <= k < 4 && #[trigger] exact_vertices2(n, a, b)[k] == at2(i, j),
{
    let vs = exact_vertices2(n, a, b);
    if i <= -2 || i >= 3 {
        lemma_far_along_axis(n, a, i);
        assert((b - j * n) * (b - j * n) >= 0) by (nonlinear_arith);
        assert((a - i * n + (b - j * n)) * (a - i * n + (b - j * n)) >= 0) by (nonlinear_arith);
    }
    if j <= -2 || j >= 3 {
        lemma_far_along_axis(n, b, j);
        assert((a - i * n) * (a - i * n) >= 0) by (nonlinear_arith);
        assert((a - i * n + (b - j * n)) * (a - i * n + (b - j * n)) >= 0) by (nonlinear_arith);
    }
    if i == 1 && j == 0 {
        assert(vs[0] == at2(i, j));
    } else if i == 0 && j == 1 {
        assert(vs[1] == at2(i, j));
    } else if a + b <= n {
        if i == 0 && j == 0 {
            assert(vs[2] == at2(i, j));
        } else if at2(i, j) == spec_extra2(Region2::Lower, a, b, n - (a + b)) {
            assert(vs[3] == at2(i, j));
        } else {
            lemma_lower_complete(n, a, b, i, j);
        }
    } else {
        if i == 1 && j == 1 {
            assert(vs[2] == at2(i, j));
        } else if at2(i, j) == spec_extra2(Region2::Upper, a, b, 2 * n - (a + b)) {
            assert(vs[3] == at2(i, j));
        } else {
            lemma_upper_complete(n, a, b, i, j);
        }
    }
}

} // verus!
