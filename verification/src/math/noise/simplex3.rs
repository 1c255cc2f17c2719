//! Which lattice vertices reach a point of space.
//!
//! The skewed space is tiled by unit cells. Each is cut into a tetrahedron
//! at the base corner, a tetrahedron at the opposite corner and an
//! octahedron between them. A point receives a contribution from the
//! corners of its solid and from two vertices more, chosen among those just
//! outside it by which corners lie nearest.

use crate::math::noise::order::{KEY_ONE, KEY_TWO};
use vstd::prelude::*;

verus! {

/// Steps along one axis.
///
/// `cells` is the whole number of cells. The displacement along the axis
/// loses `cells - late` of them before the squish term is taken off and
/// `late` of them after it.
#[derive(Clone, Copy, Debug, PartialEq, Eq, Structural)]
pub struct Step {
    pub cells: i32,
    pub late: i32,
}

/// A lattice vertex, as steps from the base corner of the cell.
///
/// The squish constant is taken off its displacement once for each cell of
/// the three steps together.
#[derive(Clone, Copy, Debug, PartialEq, Eq, Structural)]
pub struct Vertex3 {
    pub x: Step,
    pub y: Step,
    pub z: Step,
}

/// One of the three axes.
#[derive(Clone, Copy, Debug, PartialEq, Eq, Structural)]
pub enum Axis {
    X,
    Y,
    Z,
}

/// A corner of the unit cell, by the axes along which it is one cell away
/// from the base corner.
#[derive(Clone, Copy, Debug, PartialEq, Eq, Structural)]
pub struct Corner {
    pub x: bool,
    pub y: bool,
    pub z: bool,
}

/// The solid of the cell that holds the point.
#[derive(Clone, Copy, Debug, PartialEq, Eq, Structural)]
pub enum Region3 {
    /// The tetrahedron at the base corner: the fractional coordinates sum to
    /// at most one.
    Lower,
    /// The octahedron in between.
    Middle,
    /// The tetrahedron at the opposite corner: the fractional coordinates
    /// sum to at least two.
    Upper,
}

impl Region3 {
    /// The region of a point whose fractional coordinates sum to `in_sum`.
    pub open spec fn of(in_sum: int) -> Region3 {
        if in_sum <= KEY_ONE {
            Region3::Lower
        } else if in_sum >= KEY_TWO {
            Region3::Upper
        } else {
            Region3::Middle
        }
    }
}

/// Finds the region from the key of the coordinate sum.
pub fn region3(in_sum: i64) -> (region: Region3)
    ensures
        region == Region3::of(in_sum as int),
{
    if in_sum <= KEY_ONE {
        Region3::Lower
    } else if in_sum >= KEY_TWO {
        Region3::Upper
    } else {
        Region3::Middle
    }
}

/// A step of `cells` cells, all taken before the squish term.
pub open spec fn step(cells: int) -> Step {
    Step { cells: cells as i32, late: 0 }
}

/// The vertex with the given whole steps, none of them late.
pub open spec fn at3(x: int, y: int, z: int) -> Vertex3 {
    Vertex3 { x: step(x), y: step(y), z: step(z) }
}

/// The same vertex with `late` cells of its step along `axis` taken after
/// the squish term.
pub open spec fn delayed(v: Vertex3, axis: Axis, late: int) -> Vertex3 {
    match axis {
        Axis::X => Vertex3 { x: Step { cells: v.x.cells, late: late as i32 }, ..v },
        Axis::Y => Vertex3 { y: Step { cells: v.y.cells, late: late as i32 }, ..v },
        Axis::Z => Vertex3 { z: Step { cells: v.z.cells, late: late as i32 }, ..v },
    }
}

/// The vertex `k` cells along `axis`.
pub open spec fn along(axis: Axis, k: int) -> Vertex3 {
    match axis {
        Axis::X => at3(k, 0, 0),
        Axis::Y => at3(0, k, 0),
        Axis::Z => at3(0, 0, k),
    }
}

/// The vertex one cell along every axis but `axis`, and `k` cells along
/// that one.
pub open spec fn across(axis: Axis, k: int) -> Vertex3 {
    match axis {
        Axis::X => at3(k, 1, 1),
        Axis::Y => at3(1, k, 1),
        Axis::Z => at3(1, 1, k),
    }
}

/// The axis that is neither `a` nor `b`, for two different axes.
pub open spec fn third_axis(a: Axis, b: Axis) -> Axis {
    if a != Axis::X && b != Axis::X {
        Axis::X
    } else if a != Axis::Y && b != Axis::Y {
        Axis::Y
    } else {
        Axis::Z
    }
}

/// The image of a vertex under the point reflection that exchanges the base
/// corner of the cell with the opposite corner.
pub open spec fn reflected(v: Vertex3) -> Vertex3 {
    at3(1 - v.x.cells, 1 - v.y.cells, 1 - v.z.cells)
}

/// Two vertices stand at the same lattice point.
pub open spec fn same_place(a: Vertex3, b: Vertex3) -> bool {
    a.x.cells == b.x.cells && a.y.cells == b.y.cells && a.z.cells == b.z.cells
}

/// The two nearest candidates among three, each named by an axis.
pub struct Pair {
    pub a: Axis,
    pub a_score: int,
    pub b: Axis,
    pub b_score: int,
}

/// The two corners of the lower tetrahedron nearest to the point, besides
/// the base corner: each lies along one axis and scores the coordinate of
/// that axis. `X` and `Y` are chosen unless `zins` beats the smaller of
/// the two.
pub open spec fn spec_pair_lower(xins: int, yins: int, zins: int) -> Pair {
    if xins >= yins && zins > yins {
        Pair { a: Axis::X, a_score: xins, b: Axis::Z, b_score: zins }
    } else if xins < yins && zins > xins {
        Pair { a: Axis::Z, a_score: zins, b: Axis::Y, b_score: yins }
    } else {
        Pair { a: Axis::X, a_score: xins, b: Axis::Y, b_score: yins }
    }
}

/// The two corners of the upper tetrahedron nearest to the point, besides
/// the opposite corner: each lacks one axis and scores the coordinate of
/// that axis. Those lacking `X` and `Y` are chosen unless `zins` is below
/// the larger of the two.
pub open spec fn spec_pair_upper(xins: int, yins: int, zins: int) -> Pair {
    if xins <= yins && zins < yins {
        Pair { a: Axis::X, a_score: xins, b: Axis::Z, b_score: zins }
    } else if xins > yins && zins < xins {
        Pair { a: Axis::Z, a_score: zins, b: Axis::Y, b_score: yins }
    } else {
        Pair { a: Axis::X, a_score: xins, b: Axis::Y, b_score: yins }
    }
}

/// The two extra vertices of a point of the lower tetrahedron.
///
/// `wins` is the key of one less the coordinate sum, the score of the base
/// corner. When it beats either of the nearest pair, the base corner is
/// among the two nearest: the extras then stand one cell along the axis of
/// the better of the pair and one cell back along either other axis. When
/// it does not, the extras are the corner that joins the pair and the
/// vertex one cell behind it along the third axis.
pub open spec fn spec_extras_lower(xins: int, yins: int, zins: int, wins: int) -> (
    Vertex3,
    Vertex3,
) {
    let p = spec_pair_lower(xins, yins, zins);
    if wins > p.a_score || wins > p.b_score {
        match if p.b_score > p.a_score { p.b } else { p.a } {
            Axis::X => (at3(1, -1, 0), at3(1, 0, -1)),
            Axis::Y => (at3(-1, 1, 0), at3(0, 1, -1)),
            Axis::Z => (at3(-1, 0, 1), at3(0, -1, 1)),
        }
    } else {
        let t = third_axis(p.a, p.b);
        (across(t, 0), across(t, -1))
    }
}

/// The two extra vertices of a point of the upper tetrahedron.
///
/// `wins` is the key of three less the coordinate sum, the score of the
/// opposite corner. When it is below either of the nearest pair, the
/// opposite corner is among the two nearest: the extras then stand on the
/// better corner of the pair, one cell further along either of its axes.
/// When it is not, the extras stand one and two cells along the axis that
/// the pair shares.
///
/// Where a step of two cells follows the `y` axis in the first case, its
/// second cell is taken late.
pub open spec fn spec_extras_upper(xins: int, yins: int, zins: int, wins: int) -> (
    Vertex3,
    Vertex3,
) {
    let p = spec_pair_upper(xins, yins, zins);
    if wins < p.a_score || wins < p.b_score {
        match if p.b_score < p.a_score { p.b } else { p.a } {
            Axis::X => (delayed(at3(0, 2, 1), Axis::Y, 1), at3(0, 1, 2)),
            Axis::Y => (at3(2, 0, 1), at3(1, 0, 2)),
            Axis::Z => (at3(2, 1, 0), delayed(at3(1, 2, 0), Axis::Y, 1)),
        }
    } else {
        let t = third_axis(p.a, p.b);
        (along(t, 1), along(t, 2))
    }
}

/// A candidate corner of the octahedron: the corner along `axis` alone, or
/// on the far side the corner that lacks `axis`.
pub struct Pole {
    pub axis: Axis,
    pub far: bool,
}

/// The two nearest corners of the octahedron.
///
/// `far_xy`, `far_xz` and `far_yz` tell whether the pairwise sums of the
/// fractional coordinates lie above one, which puts their candidates on the
/// far side, and `score_xy`, `score_xz` and `score_yz` are the keys of the
/// distances of the sums from one. The candidates of the first two sums
/// stand unless the third outscores the lower of them, which it then
/// replaces; the first gives way when the two are level.
pub open spec fn spec_poles(
    far_xy: bool,
    far_xz: bool,
    far_yz: bool,
    score_xy: int,
    score_xz: int,
    score_yz: int,
) -> (Pole, Pole) {
    let a = Pole { axis: Axis::Z, far: far_xy };
    let b = Pole { axis: Axis::Y, far: far_xz };
    let c = Pole { axis: Axis::X, far: far_yz };
    if score_xy <= score_xz && score_xy < score_yz {
        (c, b)
    } else if score_xy > score_xz && score_xz < score_yz {
        (a, c)
    } else {
        (a, b)
    }
}

/// The two extra vertices that go with the two nearest corners of the
/// octahedron.
///
/// With both corners on the far side the extras are the opposite corner of
/// the cell and the vertex two cells along the axis the two share. With
/// both on the near side they are the base corner and the vertex across
/// the cell from the axis that neither has. With one on each side they are
/// the vertex across the cell from the axis that the far one lacks and the
/// vertex two cells along the axis of the near one, both of whose cells
/// are taken late.
pub open spec fn spec_extras_of_poles(a: Pole, b: Pole) -> (Vertex3, Vertex3) {
    if a.far == b.far {
        let t = third_axis(a.axis, b.axis);
        if a.far {
            (at3(1, 1, 1), along(t, 2))
        } else {
            (at3(0, 0, 0), across(t, -1))
        }
    } else {
        let (f, n) = if a.far {
            (a.axis, b.axis)
        } else {
            (b.axis, a.axis)
        };
        (across(f, -1), delayed(along(n, 2), n, 2))
    }
}

/// The two extra vertices of a point of the octahedron.
///
/// `sum_xy`, `sum_xz` and `sum_yz` are the keys of the pairwise sums of the
/// fractional coordinates, and `score_xy`, `score_xz` and `score_yz` the
/// keys of their distances from one.
pub open spec fn spec_extras_middle(
    sum_xy: int,
    sum_xz: int,
    sum_yz: int,
    score_xy: int,
    score_xz: int,
    score_yz: int,
) -> (Vertex3, Vertex3) {
    let (a, b) = spec_poles(
        sum_xy > KEY_ONE,
        sum_xz > KEY_ONE,
        sum_yz > KEY_ONE,
        score_xy,
        score_xz,
        score_yz,
    );
    spec_extras_of_poles(a, b)
}

/// The six vertices that reach a point of the lower tetrahedron, in summing
/// order: the base corner, the corners along each axis, the two extras.
pub open spec fn spec_vertices3_lower(xins: int, yins: int, zins: int, wins: int) -> Seq<
    Vertex3,
> {
    let e = spec_extras_lower(xins, yins, zins, wins);
    seq![at3(0, 0, 0), at3(1, 0, 0), at3(0, 1, 0), at3(0, 0, 1), e.0, e.1]
}

/// The six vertices that reach a point of the upper tetrahedron, in summing
/// order: the corners that lack one axis, the opposite corner, the two
/// extras.
pub open spec fn spec_vertices3_upper(xins: int, yins: int, zins: int, wins: int) -> Seq<
    Vertex3,
> {
    let e = spec_extras_upper(xins, yins, zins, wins);
    seq![at3(1, 1, 0), at3(1, 0, 1), at3(0, 1, 1), at3(1, 1, 1), e.0, e.1]
}

/// The eight vertices that reach a point of the octahedron, in summing
/// order: the corners along each axis, the corners that lack one axis, the
/// two extras.
pub open spec fn spec_vertices3_middle(
    sum_xy: int,
    sum_xz: int,
    sum_yz: int,
    score_xy: int,
    score_xz: int,
    score_yz: int,
) -> Seq<Vertex3> {
    let e = spec_extras_middle(sum_xy, sum_xz, sum_yz, score_xy, score_xz, score_yz);
    seq![
        at3(1, 0, 0),
        at3(0, 1, 0),
        at3(0, 0, 1),
        at3(1, 1, 0),
        at3(1, 0, 1),
        at3(0, 1, 1),
        e.0,
        e.1,
    ]
}

impl Corner {
    /// The corner one cell along `axis`.
    pub open spec fn spec_unit(axis: Axis) -> Corner {
        Corner { x: axis == Axis::X, y: axis == Axis::Y, z: axis == Axis::Z }
    }

    /// The corner one cell along every axis but `axis`.
    pub open spec fn spec_face(axis: Axis) -> Corner {
        Corner { x: axis != Axis::X, y: axis != Axis::Y, z: axis != Axis::Z }
    }

    /// The corner of a candidate of the octahedron.
    pub open spec fn of_pole(pole: Pole) -> Corner {
        if pole.far {
            Corner::spec_face(pole.axis)
        } else {
            Corner::spec_unit(pole.axis)
        }
    }

    /// The corner with the steps of both.
    pub fn union(self, other: Corner) -> (c: Corner)
        ensures
            c.x == (self.x || other.x),
            c.y == (self.y || other.y),
            c.z == (self.z || other.z),
    {
        Corner { x: self.x || other.x, y: self.y || other.y, z: self.z || other.z }
    }

    /// The corner with the steps common to both.
    pub fn common(self, other: Corner) -> (c: Corner)
        ensures
            c.x == (self.x && other.x),
            c.y == (self.y && other.y),
            c.z == (self.z && other.z),
    {
        Corner { x: self.x && other.x, y: self.y && other.y, z: self.z && other.z }
    }
}

/// Puts six whole steps and the late cells of the two `y` steps together
/// into two vertices.
fn pair_of(x0: i32, y0: Step, z0: i32, x1: i32, y1: Step, z1: i32) -> (e: (Vertex3, Vertex3))
    ensures
        e.0 == (Vertex3 { x: Step { cells: x0, late: 0 }, y: y0, z: Step { cells: z0, late: 0 } }),
        e.1 == (Vertex3 { x: Step { cells: x1, late: 0 }, y: y1, z: Step { cells: z1, late: 0 } }),
{
    (
        Vertex3 { x: Step { cells: x0, late: 0 }, y: y0, z: Step { cells: z0, late: 0 } },
        Vertex3 { x: Step { cells: x1, late: 0 }, y: y1, z: Step { cells: z1, late: 0 } },
    )
}

/// Computes the two extra vertices of a point of the lower tetrahedron.
///
/// `xins`, `yins` and `zins` are the keys of the fractional coordinates and
/// `wins` the key of one less their sum.
pub fn extras_lower(xins: i64, yins: i64, zins: i64, wins: i64) -> (e: (Vertex3, Vertex3))
    ensures
        e == spec_extras_lower(xins as int, yins as int, zins as int, wins as int),
{
    let mut a_point = Corner { x: true, y: false, z: false };
    let mut a_score: i64 = xins;
    let mut b_point = Corner { x: false, y: true, z: false };
    let mut b_score: i64 = yins;
    if a_score >= b_score && zins > b_score {
        b_score = zins;
        b_point = Corner { x: false, y: false, z: true };
    } else if a_score < b_score && zins > a_score {
        a_score = zins;
        a_point = Corner { x: false, y: false, z: true };
    }
    let xsv_ext0: i32;
    let mut ysv_ext0: i32;
    let zsv_ext0: i32;
    let xsv_ext1: i32;
    let mut ysv_ext1: i32;
    let zsv_ext1: i32;
    if wins > a_score || wins > b_score {
        // The base corner is one of the two nearest; the other decides.
        let c = if b_score > a_score {
            b_point
        } else {
            a_point
        };
        if !c.x {
            xsv_ext0 = -1;
            xsv_ext1 = 0;
        } else {
            xsv_ext0 = 1;
            xsv_ext1 = 1;
        }
        if !c.y {
            ysv_ext0 = 0;
            ysv_ext1 = 0;
            if !c.x {
                ysv_ext1 = ysv_ext1 - 1;
            } else {
                ysv_ext0 = ysv_ext0 - 1;
            }
        } else {
            ysv_ext0 = 1;
            ysv_ext1 = 1;
        }
        if !c.z {
            zsv_ext0 = 0;
            zsv_ext1 = -1;
        } else {
            zsv_ext0 = 1;
            zsv_ext1 = 1;
        }
    } else {
        // The base corner is not among the two nearest; they decide together.
        let c = a_point.union(b_point);
        if !c.x {
            xsv_ext0 = 0;
            xsv_ext1 = -1;
        } else {
            xsv_ext0 = 1;
            xsv_ext1 = 1;
        }
        if !c.y {
            ysv_ext0 = 0;
            ysv_ext1 = -1;
        } else {
            ysv_ext0 = 1;
            ysv_ext1 = 1;
        }
        if !c.z {
            zsv_ext0 = 0;
            zsv_ext1 = -1;
        } else {
            zsv_ext0 = 1;
            zsv_ext1 = 1;
        }
    }
    pair_of(
        xsv_ext0,
        Step { cells: ysv_ext0, late: 0 },
        zsv_ext0,
        xsv_ext1,
        Step { cells: ysv_ext1, late: 0 },
        zsv_ext1,
    )
}

/// Computes the two extra vertices of a point of the upper tetrahedron.
///
/// `xins`, `yins` and `zins` are the keys of the fractional coordinates and
/// `wins` the key of three less their sum.
pub fn extras_upper(xins: i64, yins: i64, zins: i64, wins: i64) -> (e: (Vertex3, Vertex3))
    ensures
        e == spec_extras_upper(xins as int, yins as int, zins as int, wins as int),
{
    let mut a_point = Corner { x: false, y: true, z: true };
    let mut a_score: i64 = xins;
    let mut b_point = Corner { x: true, y: false, z: true };
    let mut b_score: i64 = yins;
    if a_score <= b_score && zins < b_score {
        b_score = zins;
        b_point = Corner { x: true, y: true, z: false };
    } else if a_score > b_score && zins < a_score {
        a_score = zins;
        a_point = Corner { x: true, y: true, z: false };
    }
    let xsv_ext0: i32;
    let mut ysv_ext0: i32;
    let zsv_ext0: i32;
    let xsv_ext1: i32;
    let mut ysv_ext1: i32;
    let zsv_ext1: i32;
    let mut late_ext0: i32 = 0;
    let mut late_ext1: i32 = 0;
    if wins < a_score || wins < b_score {
        // The opposite corner is one of the two nearest; the other decides.
        let c = if b_score < a_score {
            b_point
        } else {
            a_point
        };
        if c.x {
            xsv_ext0 = 2;
            xsv_ext1 = 1;
        } else {
            xsv_ext0 = 0;
            xsv_ext1 = 0;
        }
        if c.y {
            ysv_ext0 = 1;
            ysv_ext1 = 1;
            if c.x {
                ysv_ext1 = ysv_ext1 + 1;
                late_ext1 = 1;
            } else {
                ysv_ext0 = ysv_ext0 + 1;
                late_ext0 = 1;
            }
        } else {
            ysv_ext0 = 0;
            ysv_ext1 = 0;
        }
        if c.z {
            zsv_ext0 = 1;
            zsv_ext1 = 2;
        } else {
            zsv_ext0 = 0;
            zsv_ext1 = 0;
        }
    } else {
        // The opposite corner is not among the two nearest; they decide
        // together.
        let c = a_point.common(b_point);
        if c.x {
            xsv_ext0 = 1;
            xsv_ext1 = 2;
        } else {
            xsv_ext0 = 0;
            xsv_ext1 = 0;
        }
        if c.y {
            ysv_ext0 = 1;
            ysv_ext1 = 2;
        } else {
            ysv_ext0 = 0;
            ysv_ext1 = 0;
        }
        if c.z {
            zsv_ext0 = 1;
            zsv_ext1 = 2;
        } else {
            zsv_ext0 = 0;
            zsv_ext1 = 0;
        }
    }
    pair_of(
        xsv_ext0,
        Step { cells: ysv_ext0, late: late_ext0 },
        zsv_ext0,
        xsv_ext1,
        Step { cells: ysv_ext1, late: late_ext1 },
        zsv_ext1,
    )
}

/// Computes the vertex across the cell from the one axis that `c` lacks,
/// trying `x`, then `y`.
fn across_missing(c: Corner) -> (v: Vertex3)
    ensures
        !c.x ==> v == across(Axis::X, -1),
        c.x && !c.y ==> v == across(Axis::Y, -1),
        c.x && c.y ==> v == across(Axis::Z, -1),
{
    let none = Step { cells: 1, late: 0 };
    let back = Step { cells: -1, late: 0 };
    if !c.x {
        Vertex3 { x: back, y: none, z: none }
    } else if !c.y {
        Vertex3 { x: none, y: back, z: none }
    } else {
        Vertex3 { x: none, y: none, z: back }
    }
}

/// Computes the vertex two cells along the one axis that `c` has, trying
/// `x`, then `y`; `late` of the two cells are taken late.
fn along_present(c: Corner, late: i32) -> (v: Vertex3)
    requires
        0 <= late <= 2,
    ensures
        c.x ==> v == delayed(along(Axis::X, 2), Axis::X, late as int),
        !c.x && c.y ==> v == delayed(along(Axis::Y, 2), Axis::Y, late as int),
        !c.x && !c.y ==> v == delayed(along(Axis::Z, 2), Axis::Z, late as int),
{
    let none = Step { cells: 0, late: 0 };
    let two = Step { cells: 2, late };
    if c.x {
        Vertex3 { x: two, y: none, z: none }
    } else if c.y {
        Vertex3 { x: none, y: two, z: none }
    } else {
        Vertex3 { x: none, y: none, z: two }
    }
}

/// Computes the two extra vertices of a point of the octahedron.
///
/// `sum_xy`, `sum_xz` and `sum_yz` are the keys of the sums `x + y`,
/// `x + z` and `y + z` of the fractional coordinates, and `score_xy`,
/// `score_xz` and `score_yz` the keys of their distances from one.
pub fn extras_middle(
    sum_xy: i64,
    sum_xz: i64,
    sum_yz: i64,
    score_xy: i64,
    score_xz: i64,
    score_yz: i64,
) -> (e: (Vertex3, Vertex3))
    ensures
        e == spec_extras_middle(
            sum_xy as int,
            sum_xz as int,
            sum_yz as int,
            score_xy as int,
            score_xz as int,
            score_yz as int,
        ),
{
    let a_score: i64 = score_xy;
    let mut a_point: Corner;
    let mut a_is_further_side: bool;
    let b_score: i64 = score_xz;
    let mut b_point: Corner;
    let mut b_is_further_side: bool;
    // Between the corner along z and the one that lacks z.
    if sum_xy > KEY_ONE {
        a_point = Corner { x: true, y: true, z: false };
        a_is_further_side = true;
    } else {
        a_point = Corner { x: false, y: false, z: true };
        a_is_further_side = false;
    }
    // Between the corner along y and the one that lacks y.
    if sum_xz > KEY_ONE {
        b_point = Corner { x: true, y: false, z: true };
        b_is_further_side = true;
    } else {
        b_point = Corner { x: false, y: true, z: false };
        b_is_further_side = false;
    }
    // The nearer of the corner along x and the one that lacks x replaces
    // the lower of the two above if it scores higher.
    if sum_yz > KEY_ONE {
        let score: i64 = score_yz;
        if a_score <= b_score && a_score < score {
            a_point = Corner { x: false, y: true, z: true };
            a_is_further_side = true;
        } else if a_score > b_score && b_score < score {
            b_point = Corner { x: false, y: true, z: true };
            b_is_further_side = true;
        }
    } else {
        let score: i64 = score_yz;
        if a_score <= b_score && a_score < score {
            a_point = Corner { x: true, y: false, z: false };
            a_is_further_side = false;
        } else if a_score > b_score && b_score < score {
            b_point = Corner { x: true, y: false, z: false };
            b_is_further_side = false;
        }
    }
    proof {
        let poles = spec_poles(
            sum_xy > KEY_ONE,
            sum_xz > KEY_ONE,
            sum_yz > KEY_ONE,
            score_xy as int,
            score_xz as int,
            score_yz as int,
        );
        assert(a_point == Corner::of_pole(poles.0));
        assert(b_point == Corner::of_pole(poles.1));
        assert(a_is_further_side == poles.0.far);
        assert(b_is_further_side == poles.1.far);
    }
    if a_is_further_side == b_is_further_side {
        if a_is_further_side {
            // Both on the far side: the opposite corner, and a vertex along
            // the shared axis.
            let one = Step { cells: 1, late: 0 };
            let c = a_point.common(b_point);
            (Vertex3 { x: one, y: one, z: one }, along_present(c, 0))
        } else {
            // Both on the near side: the base corner, and a vertex across
            // from the omitted axis.
            let zero = Step { cells: 0, late: 0 };
            let c = a_point.union(b_point);
            (Vertex3 { x: zero, y: zero, z: zero }, across_missing(c))
        }
    } else {
        // One on each side.
        let c1: Corner;
        let c2: Corner;
        if a_is_further_side {
            c1 = a_point;
            c2 = b_point;
        } else {
            c1 = b_point;
            c2 = a_point;
        }
        (across_missing(c1), along_present(c2, 2))
    }
}

/// Computes the six vertices that reach a point of the lower tetrahedron,
/// in summing order.
pub fn vertices3_lower(xins: i64, yins: i64, zins: i64, wins: i64) -> (vs: [Vertex3; 6])
    ensures
        vs@ == spec_vertices3_lower(xins as int, yins as int, zins as int, wins as int),
{
    let e = extras_lower(xins, yins, zins, wins);
    let zero = Step { cells: 0, late: 0 };
    let one = Step { cells: 1, late: 0 };
    let vs = [
        Vertex3 { x: zero, y: zero, z: zero },
        Vertex3 { x: one, y: zero, z: zero },
        Vertex3 { x: zero, y: one, z: zero },
        Vertex3 { x: zero, y: zero, z: one },
        e.0,
        e.1,
    ];
    assert(vs@ =~= spec_vertices3_lower(xins as int, yins as int, zins as int, wins as int));
    vs
}

/// Computes the six vertices that reach a point of the upper tetrahedron,
/// in summing order.
pub fn vertices3_upper(xins: i64, yins: i64, zins: i64, wins: i64) -> (vs: [Vertex3; 6])
    ensures
        vs@ == spec_vertices3_upper(xins as int, yins as int, zins as int, wins as int),
{
    let e = extras_upper(xins, yins, zins, wins);
    let zero = Step { cells: 0, late: 0 };
    let one = Step { cells: 1, late: 0 };
    let vs = [
        Vertex3 { x: one, y: one, z: zero },
        Vertex3 { x: one, y: zero, z: one },
        Vertex3 { x: zero, y: one, z: one },
        Vertex3 { x: one, y: one, z: one },
        e.0,
        e.1,
    ];
    assert(vs@ =~= spec_vertices3_upper(xins as int, yins as int, zins as int, wins as int));
    vs
}

/// Computes the eight vertices that reach a point of the octahedron, in
/// summing order.
pub fn vertices3_middle(
    sum_xy: i64,
    sum_xz: i64,
    sum_yz: i64,
    score_xy: i64,
    score_xz: i64,
    score_yz: i64,
) -> (vs: [Vertex3; 8])
    ensures
        vs@ == spec_vertices3_middle(
            sum_xy as int,
            sum_xz as int,
            sum_yz as int,
            score_xy as int,
            score_xz as int,
            score_yz as int,
        ),
{
    let e = extras_middle(sum_xy, sum_xz, sum_yz, score_xy, score_xz, score_yz);
    let zero = Step { cells: 0, late: 0 };
    let one = Step { cells: 1, late: 0 };
    let vs = [
        Vertex3 { x: one, y: zero, z: zero },
        Vertex3 { x: zero, y: one, z: zero },
        Vertex3 { x: zero, y: zero, z: one },
        Vertex3 { x: one, y: one, z: zero },
        Vertex3 { x: one, y: zero, z: one },
        Vertex3 { x: zero, y: one, z: one },
        e.0,
        e.1,
    ];
    assert(vs@ =~= spec_vertices3_middle(
        sum_xy as int,
        sum_xz as int,
        sum_yz as int,
        score_xy as int,
        score_xz as int,
        score_yz as int,
    ));
    vs
}

/// A vertex is near when each of its steps is between one cell back and
/// two cells on, holds no more late cells than cells, and the three steps
/// together make between none and three cells.
pub open spec fn is_near(v: Vertex3) -> bool {
    &&& -1 <= v.x.cells <= 2 && 0 <= v.x.late && v.x.late <= 2 && v.x.late <= v.x.cells + 1
    &&& -1 <= v.y.cells <= 2 && 0 <= v.y.late && v.y.late <= 2 && v.y.late <= v.y.cells + 1
    &&& -1 <= v.z.cells <= 2 && 0 <= v.z.late && v.z.late <= 2 && v.z.late <= v.z.cells + 1
    &&& 0 <= v.x.cells + v.y.cells + v.z.cells <= 3
}

/// No two vertices of the sequence stand at the same lattice point.
pub open spec fn all_apart(vs: Seq<Vertex3>) -> bool {
    forall|i: int, j: int| 0 <= i < j < vs.len() ==> !same_place(#[trigger] vs[i], #[trigger] vs[j])
}

/// The nearest pair of the lower tetrahedron names two different axes, and
/// the coordinate of the axis it leaves out exceeds neither of its scores.
pub proof fn lemma_pair_lower_largest(xins: int, yins: int, zins: int)
    ensures
        ({
            let p = spec_pair_lower(xins, yins, zins);
            let rest = match third_axis(p.a, p.b) {
                Axis::X => xins,
                Axis::Y => yins,
                Axis::Z => zins,
            };
            p.a != p.b && rest <= p.a_score && rest <= p.b_score
        }),
{
}

/// The nearest pair of the upper tetrahedron names two different axes, and
/// the coordinate of the axis it leaves out is below neither of its scores.
pub proof fn lemma_pair_upper_smallest(xins: int, yins: int, zins: int)
    ensures
        ({
            let p = spec_pair_upper(xins, yins, zins);
            let rest = match third_axis(p.a, p.b) {
                Axis::X => xins,
                Axis::Y => yins,
                Axis::Z => zins,
            };
            p.a != p.b && rest >= p.a_score && rest >= p.b_score
        }),
{
}

/// No vertex of a point of the lower tetrahedron is counted twice, and all
/// six are near.
pub proof fn lemma_vertices3_lower(xins: int, yins: int, zins: int, wins: int)
    ensures
        ({
            let vs = spec_vertices3_lower(xins, yins, zins, wins);
            &&& vs.len() == 6
            &&& all_apart(vs)
            &&& forall|i: int| 0 <= i < 6 ==> is_near(#[trigger] vs[i])
        }),
{
}

/// No vertex of a point of the upper tetrahedron is counted twice, and all
/// six are near.
pub proof fn lemma_vertices3_upper(xins: int, yins: int, zins: int, wins: int)
    ensures
        ({
            let vs = spec_vertices3_upper(xins, yins, zins, wins);
            &&& vs.len() == 6
            &&& all_apart(vs)
            &&& forall|i: int| 0 <= i < 6 ==> is_near(#[trigger] vs[i])
        }),
{
}

/// No vertex of a point of the octahedron is counted twice, and all eight
/// are near.
pub proof fn lemma_vertices3_middle(
    sum_xy: int,
    sum_xz: int,
    sum_yz: int,
    score_xy: int,
    score_xz: int,
    score_yz: int,
)
    ensures
        ({
            let vs = spec_vertices3_middle(sum_xy, sum_xz, sum_yz, score_xy, score_xz, score_yz);
            &&& vs.len() == 8
            &&& all_apart(vs)
            &&& forall|i: int| 0 <= i < 8 ==> is_near(#[trigger] vs[i])
        }),
{
}

/// The upper tetrahedron is the lower one seen from the opposite corner:
/// negating every score and reflecting the extras of the lower tetrahedron
/// through the centre of the cell gives the places of the extras of the
/// upper one.
pub proof fn lemma_upper_reflects_lower(xins: int, yins: int, zins: int, wins: int)
    ensures
        same_place(
            spec_extras_upper(xins, yins, zins, wins).0,
            reflected(spec_extras_lower(-xins, -yins, -zins, -wins).0),
        ),
        same_place(
            spec_extras_upper(xins, yins, zins, wins).1,
            reflected(spec_extras_lower(-xins, -yins, -zins, -wins).1),
        ),
{
}

/// The octahedron is its own reflection: moving every pairwise sum to the
/// other side of one, at the same distance, reflects the two extras through
/// the centre of the cell; with one nearest corner on each side the two
/// also change places.
pub proof fn lemma_middle_reflects(
    sum_xy: int,
    sum_xz: int,
    sum_yz: int,
    other_xy: int,
    other_xz: int,
    other_yz: int,
    score_xy: int,
    score_xz: int,
    score_yz: int,
)
    requires
        (other_xy > KEY_ONE) != (sum_xy > KEY_ONE),
        (other_xz > KEY_ONE) != (sum_xz > KEY_ONE),
        (other_yz > KEY_ONE) != (sum_yz > KEY_ONE),
    ensures
        ({
            let e = spec_extras_middle(sum_xy, sum_xz, sum_yz, score_xy, score_xz, score_yz);
            let r = spec_extras_middle(
                other_xy,
                other_xz,
                other_yz,
                score_xy,
                score_xz,
                score_yz,
            );
            let poles = spec_poles(
                sum_xy > KEY_ONE,
                sum_xz > KEY_ONE,
                sum_yz > KEY_ONE,
                score_xy,
                score_xz,
                score_yz,
            );
            if poles.0.far == poles.1.far {
                same_place(r.0, reflected(e.0)) && same_place(r.1, reflected(e.1))
            } else {
                same_place(r.0, reflected(e.1)) && same_place(r.1, reflected(e.0))
            }
        }),
{
}

} // verus!
