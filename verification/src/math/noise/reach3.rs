//! Which lattice vertices can weigh on a point of space.
//!
//! The weight of a vertex at a point is two less the squared distance
//! between them, where that is positive. Here the point lies at
//! `(a / n, b / n, c / n)` of its cell, so that all distances are whole
//! numbers in units of `1 / n`, and the numerators serve as keys.
//!
//! The octahedron leaves no vertex out that weighs anything; the two
//! tetrahedra leave out vertices that weigh up to a sixth. Both are shown
//! case by case. A vertex that lies two steps or more outside the cell and
//! the solid is too far by that alone. For each of the others, and each way
//! the two nearest corners can fall, the squared distance less its bound is
//! written as a sum of squares and of products of numbers that the case
//! makes positive: every square and product is multiplied out on its own,
//! and the rest is adding up. The cases that differ only by the names of the
//! axes are settled once.

use crate::math::noise::simplex3::{
    spec_extras_lower, spec_extras_of_poles, spec_extras_upper, spec_pair_lower, spec_pair_upper,
    spec_poles, third_axis, Axis, Vertex3,
};
use vstd::prelude::*;

verus! {

/// The squared distance between the point and the vertex `(i, j, k)`, in
/// units of `1 / n` squared.
///
/// The squish constant of space is a third, and `2 / 3 + 3 / 9 == 1`. That
/// makes the squared length of the displacement of the steps `u`, `v` and
/// `w`, each lengthened by a third of their sum, equal to
/// `u * u + v * v + w * w + (u + v + w) * (u + v + w)`.
pub open spec fn distance3(n: int, a: int, b: int, c: int, i: int, j: int, k: int) -> int {
    let u = a - i * n;
    let v = b - j * n;
    let w = c - k * n;
    u * u + v * v + w * w + (u + v + w) * (u + v + w)
}

/// The vertex `(i, j, k)` reaches the point: its weight is positive.
pub open spec fn reaches3(n: int, a: int, b: int, c: int, i: int, j: int, k: int) -> bool {
    distance3(n, a, b, c, i, j, k) < 2 * n * n
}

/// The point lies in its cell.
pub open spec fn cell3(n: int, a: int, b: int, c: int) -> bool {
    n > 0 && 0 <= a <= n && 0 <= b <= n && 0 <= c <= n
}

/// How far a sum lies from one.
pub open spec fn apart(sum: int, n: int) -> int {
    if sum > n {
        sum - n
    } else {
        n - sum
    }
}

/// The two extra vertices of the point.
pub open spec fn exact_extras3(n: int, a: int, b: int, c: int) -> (Vertex3, Vertex3) {
    if a + b + c <= n {
        spec_extras_lower(a, b, c, n - (a + b + c))
    } else if a + b + c >= 2 * n {
        spec_extras_upper(a, b, c, 3 * n - (a + b + c))
    } else {
        let poles = spec_poles(
            a + b > n,
            a + c > n,
            b + c > n,
            apart(a + b, n),
            apart(a + c, n),
            apart(b + c, n),
        );
        spec_extras_of_poles(poles.0, poles.1)
    }
}

/// The vertex stands at `(i, j, k)`.
pub open spec fn stands(v: Vertex3, i: int, j: int, k: int) -> bool {
    v.x.cells == i && v.y.cells == j && v.z.cells == k
}

/// The point lies in the lower tetrahedron of its cell.
pub open spec fn in_lower(n: int, a: int, b: int, c: int) -> bool {
    cell3(n, a, b, c) && a + b + c <= n
}

/// The point lies in the upper tetrahedron of its cell.
pub open spec fn in_upper(n: int, a: int, b: int, c: int) -> bool {
    cell3(n, a, b, c) && a + b + c >= 2 * n
}

/// The point lies in the octahedron of its cell.
pub open spec fn in_middle(n: int, a: int, b: int, c: int) -> bool {
    cell3(n, a, b, c) && n < a + b + c < 2 * n
}

/// `(i, j, k)` is one of the vertices of the point: a corner of its solid
/// or one of its two extras.
pub open spec fn chosen3(n: int, a: int, b: int, c: int, i: int, j: int, k: int) -> bool {
    let e = exact_extras3(n, a, b, c);
    ||| stands(e.0, i, j, k)
    ||| stands(e.1, i, j, k)
    ||| if a + b + c <= n {
        0 <= i && 0 <= j && 0 <= k && i + j + k <= 1
    } else if a + b + c >= 2 * n {
        i <= 1 && j <= 1 && k <= 1 && i + j + k >= 2
    } else {
        0 <= i <= 1 && 0 <= j <= 1 && 0 <= k <= 1 && 1 <= i + j + k <= 2
    }
}

/// How many whole steps `i` lies outside `lo..=hi`.
pub open spec fn gap(lo: int, hi: int, i: int) -> int {
    if i < lo {
        lo - i
    } else if i > hi {
        i - hi
    } else {
        0
    }
}

/// A coordinate between `lo` and `hi` cells is at least as far from step
/// `i` as the step lies outside them.
proof fn lemma_gap(n: int, x: int, lo: int, hi: int, i: int)
    requires
        n > 0,
        lo * n <= x <= hi * n,
    ensures
        (x - i * n) * (x - i * n) >= gap(lo, hi, i) * gap(lo, hi, i) * (n * n),
        gap(lo, hi, i) * gap(lo, hi, i) >= gap(lo, hi, i) >= 0,
{
    let g = gap(lo, hi, i);
    assert(g * g >= g) by (nonlinear_arith)
        requires
            g >= 0,
    ;
    if i < lo {
        assert((x - i * n) * (x - i * n) >= g * g * (n * n)) by (nonlinear_arith)
            requires
                n > 0,
                lo * n <= x,
                g == lo - i,
                g > 0,
        ;
    } else if i > hi {
        assert((x - i * n) * (x - i * n) >= g * g * (n * n)) by (nonlinear_arith)
            requires
                n > 0,
                x <= hi * n,
                g == i - hi,
                g > 0,
        ;
    } else {
        assert((x - i * n) * (x - i * n) >= g * g * (n * n)) by (nonlinear_arith)
            requires
                g == 0,
        ;
    }
}

/// A vertex whose steps lie outside the cell and the solid by two or more
/// together weighs nothing.
proof fn lemma_outside(n: int, a: int, b: int, c: int, lo: int, hi: int, i: int, j: int, k: int)
    requires
        cell3(n, a, b, c),
        lo * n <= a + b + c <= hi * n,
        gap(0, 1, i) + gap(0, 1, j) + gap(0, 1, k) + gap(lo, hi, i + j + k) >= 2,
    ensures
        distance3(n, a, b, c, i, j, k) >= 2 * (n * n),
{
    lemma_gap(n, a, 0, 1, i);
    lemma_gap(n, b, 0, 1, j);
    lemma_gap(n, c, 0, 1, k);
    lemma_gap(n, a + b + c, lo, hi, i + j + k);
    let gi = gap(0, 1, i) * gap(0, 1, i);
    let gj = gap(0, 1, j) * gap(0, 1, j);
    let gk = gap(0, 1, k) * gap(0, 1, k);
    let gt = gap(lo, hi, i + j + k) * gap(lo, hi, i + j + k);
    let u = a - i * n;
    let v = b - j * n;
    let w = c - k * n;
    assert(u + v + w == a + b + c - (i + j + k) * n) by (nonlinear_arith)
        requires
            u == a - i * n,
            v == b - j * n,
            w == c - k * n,
    ;
    assert((gi + gj + gk + gt) * (n * n) == gi * (n * n) + gj * (n * n) + gk * (n * n) + gt * (n
        * n)) by (nonlinear_arith);
    assert((gi + gj + gk + gt) * (n * n) >= 2 * (n * n)) by (nonlinear_arith)
        requires
            gi + gj + gk + gt >= 2,
    ;
}

/// Exchanging the first two axes keeps the distance.
proof fn lemma_swap_xy(n: int, a: int, b: int, c: int, i: int, j: int, k: int)
    ensures
        distance3(n, a, b, c, i, j, k) == distance3(n, b, a, c, j, i, k),
{
}

/// Exchanging the first and the last axis keeps the distance.
proof fn lemma_swap_xz(n: int, a: int, b: int, c: int, i: int, j: int, k: int)
    ensures
        distance3(n, a, b, c, i, j, k) == distance3(n, c, b, a, k, j, i),
{
}

/// Exchanging the last two axes keeps the distance.
proof fn lemma_swap_yz(n: int, a: int, b: int, c: int, i: int, j: int, k: int)
    ensures
        distance3(n, a, b, c, i, j, k) == distance3(n, a, c, b, i, k, j),
{
}

/// Turning the axes keeps the distance.
proof fn lemma_turn(n: int, a: int, b: int, c: int, i: int, j: int, k: int)
    ensures
        distance3(n, a, b, c, i, j, k) == distance3(n, c, a, b, k, i, j),
        distance3(n, a, b, c, i, j, k) == distance3(n, b, c, a, j, k, i),
{
}

/// The point lies in the lower tetrahedron, its first coordinate is no
/// smaller than the others, and the score of the base corner is no smaller
/// than the other two coordinates.
pub open spec fn lower_near_x(n: int, a: int, b: int, c: int) -> bool {
    &&& n > 0
    &&& b >= 0
    &&& c >= 0
    &&& a - b >= 0
    &&& a - c >= 0
    &&& n - (a + b + c) - b >= 0
    &&& n - (a + b + c) - c >= 0
}

/// Where the base corner and the corner along the first axis are the two
/// nearest, no vertex near the lower tetrahedron but its corners and the
/// two one cell along the first axis and one back along another weighs more
/// than a sixth.
proof fn lemma_lower_near_x(n: int, a: int, b: int, c: int, i: int, j: int, k: int)
    requires
        lower_near_x(n, a, b, c),
        ({
            ||| (i == -1 && j == 0 && k == 1)
            ||| (i == -1 && j == 1 && k == 0)
            ||| (i == -1 && j == 1 && k == 1)
            ||| (i == 0 && j == -1 && k == 1)
            ||| (i == 0 && j == 1 && k == -1)
            ||| (i == 0 && j == 1 && k == 1)
            ||| (i == 1 && j == -1 && k == 1)
            ||| (i == 1 && j == 0 && k == 1)
            ||| (i == 1 && j == 1 && k == -1)
            ||| (i == 1 && j == 1 && k == 0)
        }),
    ensures
        6 * distance3(n, a, b, c, i, j, k) >= 11 * (n * n),
{
    let s = a + b + c;
    if i == -1 && j == 0 && k == 1 {
        assert((a + n) * (a + n) == (a * a) + 2 * (n * a) + (n * n)) by (nonlinear_arith);
        assert((c - n) * (c - n) == (c * c) - 2 * (n * c) + (n * n)) by (nonlinear_arith);
        assert(s * s == (s * s)) by (nonlinear_arith)
            requires
                s == a + b + c,
        ;
        assert(n * (a - c) == (n * a) - (n * c)) by (nonlinear_arith);
        assert({
            &&& a * a >= 0
            &&& b * b >= 0
            &&& c * c >= 0
            &&& s * s >= 0
        }) by (nonlinear_arith);
        assert(n * (a - c) >= 0) by (nonlinear_arith)
            requires
                n > 0,
                a - c >= 0,
        ;
    }
    if i == -1 && j == 1 && k == 0 {
        assert((a + n) * (a + n) == (a * a) + 2 * (n * a) + (n * n)) by (nonlinear_arith);
        assert((b - n) * (b - n) == (b * b) - 2 * (n * b) + (n * n)) by (nonlinear_arith);
        assert(s * s == (s * s)) by (nonlinear_arith)
            requires
                s == a + b + c,
        ;
        assert(n * (a - b) == (n * a) - (n * b)) by (nonlinear_arith);
        assert({
            &&& a * a >= 0
            &&& b * b >= 0
            &&& c * c >= 0
            &&& s * s >= 0
        }) by (nonlinear_arith);
        assert(n * (a - b) >= 0) by (nonlinear_arith)
            requires
                n > 0,
                a - b >= 0,
        ;
    }
    if i == -1 && j == 1 && k == 1 {
        assert((a + n) * (a + n) == (a * a) + 2 * (n * a) + (n * n)) by (nonlinear_arith);
        assert((b - n) * (b - n) == (b * b) - 2 * (n * b) + (n * n)) by (nonlinear_arith);
        assert((c - n) * (c - n) == (c * c) - 2 * (n * c) + (n * n)) by (nonlinear_arith);
        assert((s - n) * (s - n)
            == (s * s) - 2 * (n * a) - 2 * (n * b) - 2 * (n * c) + (n * n)) by (nonlinear_arith)
            requires
                s == a + b + c,
        ;
        assert((4 * a - n) * (4 * a - n)
            == 16 * (a * a) - 8 * (n * a) + (n * n)) by (nonlinear_arith);
        assert((4 * b - n) * (4 * b - n)
            == 16 * (b * b) - 8 * (n * b) + (n * n)) by (nonlinear_arith);
        assert((4 * c - n) * (4 * c - n)
            == 16 * (c * c) - 8 * (n * c) + (n * n)) by (nonlinear_arith);
        assert((4 * s - 3 * n) * (4 * s - 3 * n)
            == 16 * (s * s) - 24 * (n * a) - 24 * (n * b) - 24 * (n * c) + 9 * (n * n))
            by (nonlinear_arith)
            requires
                s == a + b + c,
        ;
        assert(n * (a - b) == (n * a) - (n * b)) by (nonlinear_arith);
        assert(n * (a - c) == (n * a) - (n * c)) by (nonlinear_arith);
        assert(n * (n - (a + b + c) - b)
            == -(n * a) - 2 * (n * b) - (n * c) + (n * n)) by (nonlinear_arith);
        assert({
            &&& (4 * a - n) * (4 * a - n) >= 0
            &&& (4 * b - n) * (4 * b - n) >= 0
            &&& (4 * c - n) * (4 * c - n) >= 0
            &&& (4 * s - 3 * n) * (4 * s - 3 * n) >= 0
        }) by (nonlinear_arith);
        assert(n * (a - b) >= 0) by (nonlinear_arith)
            requires
                n > 0,
                a - b >= 0,
        ;
        assert(n * (a - c) >= 0) by (nonlinear_arith)
            requires
                n > 0,
                a - c >= 0,
        ;
        assert(n * (n - (a + b + c) - b) >= 0) by (nonlinear_arith)
            requires
                n > 0,
                n - (a + b + c) - b >= 0,
        ;
    }
    if i == 0 && j == -1 && k == 1 {
        assert((b + n) * (b + n) == (b * b) + 2 * (n * b) + (n * n)) by (nonlinear_arith);
        assert((c - n) * (c - n) == (c * c) - 2 * (n * c) + (n * n)) by (nonlinear_arith);
        assert((6 * a - n) * (6 * a - n)
            == 36 * (a * a) - 12 * (n * a) + (n * n)) by (nonlinear_arith);
        assert((6 * b) * (6 * b) == 36 * (b * b)) by (nonlinear_arith);
        assert((6 * c - n) * (6 * c - n)
            == 36 * (c * c) - 12 * (n * c) + (n * n)) by (nonlinear_arith);
        assert((6 * s - 2 * n) * (6 * s - 2 * n)
            == 36 * (s * s) - 24 * (n * a) - 24 * (n * b) - 24 * (n * c) + 4 * (n * n))
            by (nonlinear_arith)
            requires
                s == a + b + c,
        ;
        assert(n * (a - c) == (n * a) - (n * c)) by (nonlinear_arith);
        assert({
            &&& (6 * a - n) * (6 * a - n) >= 0
            &&& (6 * b) * (6 * b) >= 0
            &&& (6 * c - n) * (6 * c - n) >= 0
            &&& (6 * s - 2 * n) * (6 * s - 2 * n) >= 0
        }) by (nonlinear_arith);
        assert(n * b >= 0) by (nonlinear_arith)
            requires
                n > 0,
                b >= 0,
        ;
        assert(n * (a - c) >= 0) by (nonlinear_arith)
            requires
                n > 0,
                a - c >= 0,
        ;
    }
    if i == 0 && j == 1 && k == -1 {
        assert((b - n) * (b - n) == (b * b) - 2 * (n * b) + (n * n)) by (nonlinear_arith);
        assert((c + n) * (c + n) == (c * c) + 2 * (n * c) + (n * n)) by (nonlinear_arith);
        assert((6 * a - n) * (6 * a - n)
            == 36 * (a * a) - 12 * (n * a) + (n * n)) by (nonlinear_arith);
        assert((6 * b - n) * (6 * b - n)
            == 36 * (b * b) - 12 * (n * b) + (n * n)) by (nonlinear_arith);
        assert((6 * c) * (6 * c) == 36 * (c * c)) by (nonlinear_arith);
        assert((6 * s - 2 * n) * (6 * s - 2 * n)
            == 36 * (s * s) - 24 * (n * a) - 24 * (n * b) - 24 * (n * c) + 4 * (n * n))
            by (nonlinear_arith)
            requires
                s == a + b + c,
        ;
        assert(n * (a - b) == (n * a) - (n * b)) by (nonlinear_arith);
        assert({
            &&& (6 * a - n) * (6 * a - n) >= 0
            &&& (6 * b - n) * (6 * b - n) >= 0
            &&& (6 * c) * (6 * c) >= 0
            &&& (6 * s - 2 * n) * (6 * s - 2 * n) >= 0
        }) by (nonlinear_arith);
        assert(n * c >= 0) by (nonlinear_arith)
            requires
                n > 0,
                c >= 0,
        ;
        assert(n * (a - b) >= 0) by (nonlinear_arith)
            requires
                n > 0,
                a - b >= 0,
        ;
    }
    if i == 0 && j == 1 && k == 1 {
        assert((b - n) * (b - n) == (b * b) - 2 * (n * b) + (n * n)) by (nonlinear_arith);
        assert((c - n) * (c - n) == (c * c) - 2 * (n * c) + (n * n)) by (nonlinear_arith);
        assert((s - 2 * n) * (s - 2 * n)
            == (s * s) - 4 * (n * a) - 4 * (n * b) - 4 * (n * c) + 4 * (n * n))
            by (nonlinear_arith)
            requires
                s == a + b + c,
        ;
        assert((4 * a - n) * (4 * a - n)
            == 16 * (a * a) - 8 * (n * a) + (n * n)) by (nonlinear_arith);
        assert((4 * b - n) * (4 * b - n)
            == 16 * (b * b) - 8 * (n * b) + (n * n)) by (nonlinear_arith);
        assert((4 * c - n) * (4 * c - n)
            == 16 * (c * c) - 8 * (n * c) + (n * n)) by (nonlinear_arith);
        assert((4 * s - 3 * n) * (4 * s - 3 * n)
            == 16 * (s * s) - 24 * (n * a) - 24 * (n * b) - 24 * (n * c) + 9 * (n * n))
            by (nonlinear_arith)
            requires
                s == a + b + c,
        ;
        assert(n * (a - b) == (n * a) - (n * b)) by (nonlinear_arith);
        assert(n * (n - (a + b + c) - b)
            == -(n * a) - 2 * (n * b) - (n * c) + (n * n)) by (nonlinear_arith);
        assert(n * (n - (a + b + c) - c)
            == -(n * a) - (n * b) - 2 * (n * c) + (n * n)) by (nonlinear_arith);
        assert({
            &&& (4 * a - n) * (4 * a - n) >= 0
            &&& (4 * b - n) * (4 * b - n) >= 0
            &&& (4 * c - n) * (4 * c - n) >= 0
            &&& (4 * s - 3 * n) * (4 * s - 3 * n) >= 0
        }) by (nonlinear_arith);
        assert(n * (a - b) >= 0) by (nonlinear_arith)
            requires
                n > 0,
                a - b >= 0,
        ;
        assert(n * (n - (a + b + c) - b) >= 0) by (nonlinear_arith)
            requires
                n > 0,
                n - (a + b + c) - b >= 0,
        ;
        assert(n * (n - (a + b + c) - c) >= 0) by (nonlinear_arith)
            requires
                n > 0,
                n - (a + b + c) - c >= 0,
        ;
    }
    if i == 1 && j == -1 && k == 1 {
        assert((a - n) * (a - n) == (a * a) - 2 * (n * a) + (n * n)) by (nonlinear_arith);
        assert((b + n) * (b + n) == (b * b) + 2 * (n * b) + (n * n)) by (nonlinear_arith);
        assert((c - n) * (c - n) == (c * c) - 2 * (n * c) + (n * n)) by (nonlinear_arith);
        assert((s - n) * (s - n)
            == (s * s) - 2 * (n * a) - 2 * (n * b) - 2 * (n * c) + (n * n)) by (nonlinear_arith)
            requires
                s == a + b + c,
        ;
        assert((6 * a - 4 * n) * (6 * a - 4 * n)
            == 36 * (a * a) - 48 * (n * a) + 16 * (n * n)) by (nonlinear_arith);
        assert((6 * b) * (6 * b) == 36 * (b * b)) by (nonlinear_arith);
        assert((6 * c - n) * (6 * c - n)
            == 36 * (c * c) - 12 * (n * c) + (n * n)) by (nonlinear_arith);
        assert((6 * s - 5 * n) * (6 * s - 5 * n)
            == 36 * (s * s) - 60 * (n * a) - 60 * (n * b) - 60 * (n * c) + 25 * (n * n))
            by (nonlinear_arith)
            requires
                s == a + b + c,
        ;
        assert(n * (n - (a + b + c) - c)
            == -(n * a) - (n * b) - 2 * (n * c) + (n * n)) by (nonlinear_arith);
        assert({
            &&& (6 * a - 4 * n) * (6 * a - 4 * n) >= 0
            &&& (6 * b) * (6 * b) >= 0
            &&& (6 * c - n) * (6 * c - n) >= 0
            &&& (6 * s - 5 * n) * (6 * s - 5 * n) >= 0
        }) by (nonlinear_arith);
        assert(n * b >= 0) by (nonlinear_arith)
            requires
                n > 0,
                b >= 0,
        ;
        assert(n * (n - (a + b + c) - c) >= 0) by (nonlinear_arith)
            requires
                n > 0,
                n - (a + b + c) - c >= 0,
        ;
    }
    if i == 1 && j == 0 && k == 1 {
        assert((a - n) * (a - n) == (a * a) - 2 * (n * a) + (n * n)) by (nonlinear_arith);
        assert((c - n) * (c - n) == (c * c) - 2 * (n * c) + (n * n)) by (nonlinear_arith);
        assert((s - 2 * n) * (s - 2 * n)
            == (s * s) - 4 * (n * a) - 4 * (n * b) - 4 * (n * c) + 4 * (n * n))
            by (nonlinear_arith)
            requires
                s == a + b + c,
        ;
        assert((a - n) * (a - n) == (a * a) - 2 * (n * a) + (n * n)) by (nonlinear_arith);
        assert((s - n) * (s - n)
            == (s * s) - 2 * (n * a) - 2 * (n * b) - 2 * (n * c) + (n * n)) by (nonlinear_arith)
            requires
                s == a + b + c,
        ;
        assert(n * (n - (a + b + c) - c)
            == -(n * a) - (n * b) - 2 * (n * c) + (n * n)) by (nonlinear_arith);
        assert({
            &&& (a - n) * (a - n) >= 0
            &&& b * b >= 0
            &&& c * c >= 0
            &&& (s - n) * (s - n) >= 0
        }) by (nonlinear_arith);
        assert(n * (n - (a + b + c) - c) >= 0) by (nonlinear_arith)
            requires
                n > 0,
                n - (a + b + c) - c >= 0,
        ;
    }
    if i == 1 && j == 1 && k == -1 {
        assert((a - n) * (a - n) == (a * a) - 2 * (n * a) + (n * n)) by (nonlinear_arith);
        assert((b - n) * (b - n) == (b * b) - 2 * (n * b) + (n * n)) by (nonlinear_arith);
        assert((c + n) * (c + n) == (c * c) + 2 * (n * c) + (n * n)) by (nonlinear_arith);
        assert((s - n) * (s - n)
            == (s * s) - 2 * (n * a) - 2 * (n * b) - 2 * (n * c) + (n * n)) by (nonlinear_arith)
            requires
                s == a + b + c,
        ;
        assert((6 * a - 4 * n) * (6 * a - 4 * n)
            == 36 * (a * a) - 48 * (n * a) + 16 * (n * n)) by (nonlinear_arith);
        assert((6 * b - n) * (6 * b - n)
            == 36 * (b * b) - 12 * (n * b) + (n * n)) by (nonlinear_arith);
        assert((6 * c) * (6 * c) == 36 * (c * c)) by (nonlinear_arith);
        assert((6 * s - 5 * n) * (6 * s - 5 * n)
            == 36 * (s * s) - 60 * (n * a) - 60 * (n * b) - 60 * (n * c) + 25 * (n * n))
            by (nonlinear_arith)
            requires
                s == a + b + c,
        ;
        assert(n * (n - (a + b + c) - b)
            == -(n * a) - 2 * (n * b) - (n * c) + (n * n)) by (nonlinear_arith);
        assert({
            &&& (6 * a - 4 * n) * (6 * a - 4 * n) >= 0
            &&& (6 * b - n) * (6 * b - n) >= 0
            &&& (6 * c) * (6 * c) >= 0
            &&& (6 * s - 5 * n) * (6 * s - 5 * n) >= 0
        }) by (nonlinear_arith);
        assert(n * c >= 0) by (nonlinear_arith)
            requires
                n > 0,
                c >= 0,
        ;
        assert(n * (n - (a + b + c) - b) >= 0) by (nonlinear_arith)
            requires
                n > 0,
                n - (a + b + c) - b >= 0,
        ;
    }
    if i == 1 && j == 1 && k == 0 {
        assert((a - n) * (a - n) == (a * a) - 2 * (n * a) + (n * n)) by (nonlinear_arith);
        assert((b - n) * (b - n) == (b * b) - 2 * (n * b) + (n * n)) by (nonlinear_arith);
        assert((s - 2 * n) * (s - 2 * n)
            == (s * s) - 4 * (n * a) - 4 * (n * b) - 4 * (n * c) + 4 * (n * n))
            by (nonlinear_arith)
            requires
                s == a + b + c,
        ;
        assert((a - n) * (a - n) == (a * a) - 2 * (n * a) + (n * n)) by (nonlinear_arith);
        assert((s - n) * (s - n)
            == (s * s) - 2 * (n * a) - 2 * (n * b) - 2 * (n * c) + (n * n)) by (nonlinear_arith)
            requires
                s == a + b + c,
        ;
        assert(n * (n - (a + b + c) - b)
            == -(n * a) - 2 * (n * b) - (n * c) + (n * n)) by (nonlinear_arith);
        assert({
            &&& (a - n) * (a - n) >= 0
            &&& b * b >= 0
            &&& c * c >= 0
            &&& (s - n) * (s - n) >= 0
        }) by (nonlinear_arith);
        assert(n * (n - (a + b + c) - b) >= 0) by (nonlinear_arith)
            requires
                n > 0,
                n - (a + b + c) - b >= 0,
        ;
    }
}

/// The point lies in the lower tetrahedron, its third coordinate is no
/// larger than the others, and the score of the base corner is no larger
/// than the other two coordinates.
pub open spec fn lower_apart_z(n: int, a: int, b: int, c: int) -> bool {
    &&& n > 0
    &&& c >= 0
    &&& a - c >= 0
    &&& b - c >= 0
    &&& n - (a + b + c) >= 0
    &&& a - (n - (a + b + c)) >= 0
    &&& b - (n - (a + b + c)) >= 0
}

/// Where the corners along the first two axes are the two nearest, no
/// vertex near the lower tetrahedron but its corners, the corner that joins
/// the two and the vertex behind it weighs more than a sixth.
proof fn lemma_lower_apart_z(n: int, a: int, b: int, c: int, i: int, j: int, k: int)
    requires
        lower_apart_z(n, a, b, c),
        ({
            ||| (i == -1 && j == 0 && k == 1)
            ||| (i == -1 && j == 1 && k == 0)
            ||| (i == -1 && j == 1 && k == 1)
            ||| (i == 0 && j == -1 && k == 1)
            ||| (i == 0 && j == 1 && k == -1)
            ||| (i == 0 && j == 1 && k == 1)
            ||| (i == 1 && j == -1 && k == 0)
            ||| (i == 1 && j == -1 && k == 1)
            ||| (i == 1 && j == 0 && k == -1)
            ||| (i == 1 && j == 0 && k == 1)
        }),
    ensures
        6 * distance3(n, a, b, c, i, j, k) >= 11 * (n * n),
{
    let s = a + b + c;
    if i == -1 && j == 0 && k == 1 {
        assert((a + n) * (a + n) == (a * a) + 2 * (n * a) + (n * n)) by (nonlinear_arith);
        assert((c - n) * (c - n) == (c * c) - 2 * (n * c) + (n * n)) by (nonlinear_arith);
        assert((4 * a - n) * (4 * a - n)
            == 16 * (a * a) - 8 * (n * a) + (n * n)) by (nonlinear_arith);
        assert((4 * b - n) * (4 * b - n)
            == 16 * (b * b) - 8 * (n * b) + (n * n)) by (nonlinear_arith);
        assert((4 * c - n) * (4 * c - n)
            == 16 * (c * c) - 8 * (n * c) + (n * n)) by (nonlinear_arith);
        assert((4 * s - 3 * n) * (4 * s - 3 * n)
            == 16 * (s * s) - 24 * (n * a) - 24 * (n * b) - 24 * (n * c) + 9 * (n * n))
            by (nonlinear_arith)
            requires
                s == a + b + c,
        ;
        assert(n * (a - c) == (n * a) - (n * c)) by (nonlinear_arith);
        assert(n * (b - c) == (n * b) - (n * c)) by (nonlinear_arith);
        assert(n * (a - (n - (a + b + c)))
            == 2 * (n * a) + (n * b) + (n * c) - (n * n)) by (nonlinear_arith);
        assert({
            &&& (4 * a - n) * (4 * a - n) >= 0
            &&& (4 * b - n) * (4 * b - n) >= 0
            &&& (4 * c - n) * (4 * c - n) >= 0
            &&& (4 * s - 3 * n) * (4 * s - 3 * n) >= 0
        }) by (nonlinear_arith);
        assert(n * (a - c) >= 0) by (nonlinear_arith)
            requires
                n > 0,
                a - c >= 0,
        ;
        assert(n * (b - c) >= 0) by (nonlinear_arith)
            requires
                n > 0,
                b - c >= 0,
        ;
        assert(n * (a - (n - (a + b + c))) >= 0) by (nonlinear_arith)
            requires
                n > 0,
                a - (n - (a + b + c)) >= 0,
        ;
    }
    if i == -1 && j == 1 && k == 0 {
        assert((a + n) * (a + n) == (a * a) + 2 * (n * a) + (n * n)) by (nonlinear_arith);
        assert((b - n) * (b - n) == (b * b) - 2 * (n * b) + (n * n)) by (nonlinear_arith);
        assert((b - n) * (b - n) == (b * b) - 2 * (n * b) + (n * n)) by (nonlinear_arith);
        assert((s - n) * (s - n)
            == (s * s) - 2 * (n * a) - 2 * (n * b) - 2 * (n * c) + (n * n)) by (nonlinear_arith)
            requires
                s == a + b + c,
        ;
        assert(n * (a - (n - (a + b + c)))
            == 2 * (n * a) + (n * b) + (n * c) - (n * n)) by (nonlinear_arith);
        assert({
            &&& a * a >= 0
            &&& (b - n) * (b - n) >= 0
            &&& c * c >= 0
            &&& (s - n) * (s - n) >= 0
        }) by (nonlinear_arith);
        assert(n * (a - (n - (a + b + c))) >= 0) by (nonlinear_arith)
            requires
                n > 0,
                a - (n - (a + b + c)) >= 0,
        ;
    }
    if i == -1 && j == 1 && k == 1 {
        assert((a + n) * (a + n) == (a * a) + 2 * (n * a) + (n * n)) by (nonlinear_arith);
        assert((b - n) * (b - n) == (b * b) - 2 * (n * b) + (n * n)) by (nonlinear_arith);
        assert((c - n) * (c - n) == (c * c) - 2 * (n * c) + (n * n)) by (nonlinear_arith);
        assert((s - n) * (s - n)
            == (s * s) - 2 * (n * a) - 2 * (n * b) - 2 * (n * c) + (n * n)) by (nonlinear_arith)
            requires
                s == a + b + c,
        ;
        assert((b - n) * (b - n) == (b * b) - 2 * (n * b) + (n * n)) by (nonlinear_arith);
        assert((s - n) * (s - n)
            == (s * s) - 2 * (n * a) - 2 * (n * b) - 2 * (n * c) + (n * n)) by (nonlinear_arith)
            requires
                s == a + b + c,
        ;
        assert(n * (a - c) == (n * a) - (n * c)) by (nonlinear_arith);
        assert({
            &&& a * a >= 0
            &&& (b - n) * (b - n) >= 0
            &&& c * c >= 0
            &&& (s - n) * (s - n) >= 0
        }) by (nonlinear_arith);
        assert(n * (a - c) >= 0) by (nonlinear_arith)
            requires
                n > 0,
                a - c >= 0,
        ;
    }
    if i == 0 && j == -1 && k == 1 {
        assert((b + n) * (b + n) == (b * b) + 2 * (n * b) + (n * n)) by (nonlinear_arith);
        assert((c - n) * (c - n) == (c * c) - 2 * (n * c) + (n * n)) by (nonlinear_arith);
        assert((4 * a - n) * (4 * a - n)
            == 16 * (a * a) - 8 * (n * a) + (n * n)) by (nonlinear_arith);
        assert((4 * b - n) * (4 * b - n)
            == 16 * (b * b) - 8 * (n * b) + (n * n)) by (nonlinear_arith);
        assert((4 * c - n) * (4 * c - n)
            == 16 * (c * c) - 8 * (n * c) + (n * n)) by (nonlinear_arith);
        assert((4 * s - 3 * n) * (4 * s - 3 * n)
            == 16 * (s * s) - 24 * (n * a) - 24 * (n * b) - 24 * (n * c) + 9 * (n * n))
            by (nonlinear_arith)
            requires
                s == a + b + c,
        ;
        assert(n * (a - c) == (n * a) - (n * c)) by (nonlinear_arith);
        assert(n * (b - c) == (n * b) - (n * c)) by (nonlinear_arith);
        assert(n * (b - (n - (a + b + c)))
            == (n * a) + 2 * (n * b) + (n * c) - (n * n)) by (nonlinear_arith);
        assert({
            &&& (4 * a - n) * (4 * a - n) >= 0
            &&& (4 * b - n) * (4 * b - n) >= 0
            &&& (4 * c - n) * (4 * c - n) >= 0
            &&& (4 * s - 3 * n) * (4 * s - 3 * n) >= 0
        }) by (nonlinear_arith);
        assert(n * (a - c) >= 0) by (nonlinear_arith)
            requires
                n > 0,
                a - c >= 0,
        ;
        assert(n * (b - c) >= 0) by (nonlinear_arith)
            requires
                n > 0,
                b - c >= 0,
        ;
        assert(n * (b - (n - (a + b + c))) >= 0) by (nonlinear_arith)
            requires
                n > 0,
                b - (n - (a + b + c)) >= 0,
        ;
    }
    if i == 0 && j == 1 && k == -1 {
        assert((b - n) * (b - n) == (b * b) - 2 * (n * b) + (n * n)) by (nonlinear_arith);
        assert((c + n) * (c + n) == (c * c) + 2 * (n * c) + (n * n)) by (nonlinear_arith);
        assert((6 * a - n) * (6 * a - n)
            == 36 * (a * a) - 12 * (n * a) + (n * n)) by (nonlinear_arith);
        assert((6 * b - 4 * n) * (6 * b - 4 * n)
            == 36 * (b * b) - 48 * (n * b) + 16 * (n * n)) by (nonlinear_arith);
        assert((6 * c) * (6 * c) == 36 * (c * c)) by (nonlinear_arith);
        assert((6 * s - 5 * n) * (6 * s - 5 * n)
            == 36 * (s * s) - 60 * (n * a) - 60 * (n * b) - 60 * (n * c) + 25 * (n * n))
            by (nonlinear_arith)
            requires
                s == a + b + c,
        ;
        assert(n * (a - (n - (a + b + c)))
            == 2 * (n * a) + (n * b) + (n * c) - (n * n)) by (nonlinear_arith);
        assert({
            &&& (6 * a - n) * (6 * a - n) >= 0
            &&& (6 * b - 4 * n) * (6 * b - 4 * n) >= 0
            &&& (6 * c) * (6 * c) >= 0
            &&& (6 * s - 5 * n) * (6 * s - 5 * n) >= 0
        }) by (nonlinear_arith);
        assert(n * c >= 0) by (nonlinear_arith)
            requires
                n > 0,
                c >= 0,
        ;
        assert(n * (a - (n - (a + b + c))) >= 0) by (nonlinear_arith)
            requires
                n > 0,
                a - (n - (a + b + c)) >= 0,
        ;
    }
    if i == 0 && j == 1 && k == 1 {
        assert((b - n) * (b - n) == (b * b) - 2 * (n * b) + (n * n)) by (nonlinear_arith);
        assert((c - n) * (c - n) == (c * c) - 2 * (n * c) + (n * n)) by (nonlinear_arith);
        assert((s - 2 * n) * (s - 2 * n)
            == (s * s) - 4 * (n * a) - 4 * (n * b) - 4 * (n * c) + 4 * (n * n))
            by (nonlinear_arith)
            requires
                s == a + b + c,
        ;
        assert((6 * a - n) * (6 * a - n)
            == 36 * (a * a) - 12 * (n * a) + (n * n)) by (nonlinear_arith);
        assert((6 * b - 4 * n) * (6 * b - 4 * n)
            == 36 * (b * b) - 48 * (n * b) + 16 * (n * n)) by (nonlinear_arith);
        assert((6 * c - n) * (6 * c - n)
            == 36 * (c * c) - 12 * (n * c) + (n * n)) by (nonlinear_arith);
        assert((6 * s - 6 * n) * (6 * s - 6 * n)
            == 36 * (s * s) - 72 * (n * a) - 72 * (n * b) - 72 * (n * c) + 36 * (n * n))
            by (nonlinear_arith)
            requires
                s == a + b + c,
        ;
        assert(n * (a - c) == (n * a) - (n * c)) by (nonlinear_arith);
        assert(n * (n - (a + b + c))
            == -(n * a) - (n * b) - (n * c) + (n * n)) by (nonlinear_arith);
        assert({
            &&& (6 * a - n) * (6 * a - n) >= 0
            &&& (6 * b - 4 * n) * (6 * b - 4 * n) >= 0
            &&& (6 * c - n) * (6 * c - n) >= 0
            &&& (6 * s - 6 * n) * (6 * s - 6 * n) >= 0
        }) by (nonlinear_arith);
        assert(n * (a - c) >= 0) by (nonlinear_arith)
            requires
                n > 0,
                a - c >= 0,
        ;
        assert(n * (n - (a + b + c)) >= 0) by (nonlinear_arith)
            requires
                n > 0,
                n - (a + b + c) >= 0,
        ;
    }
    if i == 1 && j == -1 && k == 0 {
        assert((a - n) * (a - n) == (a * a) - 2 * (n * a) + (n * n)) by (nonlinear_arith);
        assert((b + n) * (b + n) == (b * b) + 2 * (n * b) + (n * n)) by (nonlinear_arith);
        assert((a - n) * (a - n) == (a * a) - 2 * (n * a) + (n * n)) by (nonlinear_arith);
        assert((s - n) * (s - n)
            == (s * s) - 2 * (n * a) - 2 * (n * b) - 2 * (n * c) + (n * n)) by (nonlinear_arith)
            requires
                s == a + b + c,
        ;
        assert(n * (b - (n - (a + b + c)))
            == (n * a) + 2 * (n * b) + (n * c) - (n * n)) by (nonlinear_arith);
        assert({
            &&& (a - n) * (a - n) >= 0
            &&& b * b >= 0
            &&& c * c >= 0
            &&& (s - n) * (s - n) >= 0
        }) by (nonlinear_arith);
        assert(n * (b - (n - (a + b + c))) >= 0) by (nonlinear_arith)
            requires
                n > 0,
                b - (n - (a + b + c)) >= 0,
        ;
    }
    if i == 1 && j == -1 && k == 1 {
        assert((a - n) * (a - n) == (a * a) - 2 * (n * a) + (n * n)) by (nonlinear_arith);
        assert((b + n) * (b + n) == (b * b) + 2 * (n * b) + (n * n)) by (nonlinear_arith);
        assert((c - n) * (c - n) == (c * c) - 2 * (n * c) + (n * n)) by (nonlinear_arith);
        assert((s - n) * (s - n)
            == (s * s) - 2 * (n * a) - 2 * (n * b) - 2 * (n * c) + (n * n)) by (nonlinear_arith)
            requires
                s == a + b + c,
        ;
        assert((a - n) * (a - n) == (a * a) - 2 * (n * a) + (n * n)) by (nonlinear_arith);
        assert((s - n) * (s - n)
            == (s * s) - 2 * (n * a) - 2 * (n * b) - 2 * (n * c) + (n * n)) by (nonlinear_arith)
            requires
                s == a + b + c,
        ;
        assert(n * (b - c) == (n * b) - (n * c)) by (nonlinear_arith);
        assert({
            &&& (a - n) * (a - n) >= 0
            &&& b * b >= 0
            &&& c * c >= 0
            &&& (s - n) * (s - n) >= 0
        }) by (nonlinear_arith);
        assert(n * (b - c) >= 0) by (nonlinear_arith)
            requires
                n > 0,
                b - c >= 0,
        ;
    }
    if i == 1 && j == 0 && k == -1 {
        assert((a - n) * (a - n) == (a * a) - 2 * (n * a) + (n * n)) by (nonlinear_arith);
        assert((c + n) * (c + n) == (c * c) + 2 * (n * c) + (n * n)) by (nonlinear_arith);
        assert((6 * a - 4 * n) * (6 * a - 4 * n)
            == 36 * (a * a) - 48 * (n * a) + 16 * (n * n)) by (nonlinear_arith);
        assert((6 * b - n) * (6 * b - n)
            == 36 * (b * b) - 12 * (n * b) + (n * n)) by (nonlinear_arith);
        assert((6 * c) * (6 * c) == 36 * (c * c)) by (nonlinear_arith);
        assert((6 * s - 5 * n) * (6 * s - 5 * n)
            == 36 * (s * s) - 60 * (n * a) - 60 * (n * b) - 60 * (n * c) + 25 * (n * n))
            by (nonlinear_arith)
            requires
                s == a + b + c,
        ;
        assert(n * (b - (n - (a + b + c)))
            == (n * a) + 2 * (n * b) + (n * c) - (n * n)) by (nonlinear_arith);
        assert({
            &&& (6 * a - 4 * n) * (6 * a - 4 * n) >= 0
            &&& (6 * b - n) * (6 * b - n) >= 0
            &&& (6 * c) * (6 * c) >= 0
            &&& (6 * s - 5 * n) * (6 * s - 5 * n) >= 0
        }) by (nonlinear_arith);
        assert(n * c >= 0) by (nonlinear_arith)
            requires
                n > 0,
                c >= 0,
        ;
        assert(n * (b - (n - (a + b + c))) >= 0) by (nonlinear_arith)
            requires
                n > 0,
                b - (n - (a + b + c)) >= 0,
        ;
    }
    if i == 1 && j == 0 && k == 1 {
        assert((a - n) * (a - n) == (a * a) - 2 * (n * a) + (n * n)) by (nonlinear_arith);
        assert((c - n) * (c - n) == (c * c) - 2 * (n * c) + (n * n)) by (nonlinear_arith);
        assert((s - 2 * n) * (s - 2 * n)
            == (s * s) - 4 * (n * a) - 4 * (n * b) - 4 * (n * c) + 4 * (n * n))
            by (nonlinear_arith)
            requires
                s == a + b + c,
        ;
        assert((6 * a - 4 * n) * (6 * a - 4 * n)
            == 36 * (a * a) - 48 * (n * a) + 16 * (n * n)) by (nonlinear_arith);
        assert((6 * b - n) * (6 * b - n)
            == 36 * (b * b) - 12 * (n * b) + (n * n)) by (nonlinear_arith);
        assert((6 * c - n) * (6 * c - n)
            == 36 * (c * c) - 12 * (n * c) + (n * n)) by (nonlinear_arith);
        assert((6 * s - 6 * n) * (6 * s - 6 * n)
            == 36 * (s * s) - 72 * (n * a) - 72 * (n * b) - 72 * (n * c) + 36 * (n * n))
            by (nonlinear_arith)
            requires
                s == a + b + c,
        ;
        assert(n * (b - c) == (n * b) - (n * c)) by (nonlinear_arith);
        assert(n * (n - (a + b + c))
            == -(n * a) - (n * b) - (n * c) + (n * n)) by (nonlinear_arith);
        assert({
            &&& (6 * a - 4 * n) * (6 * a - 4 * n) >= 0
            &&& (6 * b - n) * (6 * b - n) >= 0
            &&& (6 * c - n) * (6 * c - n) >= 0
            &&& (6 * s - 6 * n) * (6 * s - 6 * n) >= 0
        }) by (nonlinear_arith);
        assert(n * (b - c) >= 0) by (nonlinear_arith)
            requires
                n > 0,
                b - c >= 0,
        ;
        assert(n * (n - (a + b + c)) >= 0) by (nonlinear_arith)
            requires
                n > 0,
                n - (a + b + c) >= 0,
        ;
    }
}

/// The point lies in the octahedron, the sums with the first coordinate are
/// at most one, and the sum without it is no further from one than they
/// are.
pub open spec fn middle_near_x(n: int, a: int, b: int, c: int) -> bool {
    &&& n > 0
    &&& a >= 0
    &&& b >= 0
    &&& c >= 0
    &&& n - a >= 0
    &&& n - b >= 0
    &&& n - c >= 0
    &&& a + b + c - n >= 0
    &&& n - (a + b) >= 0
    &&& n - (a + c) >= 0
    &&& n - (a + b) - (b + c - n) >= 0
    &&& n - (a + b) - (n - (b + c)) >= 0
    &&& n - (a + c) - (b + c - n) >= 0
    &&& n - (a + c) - (n - (b + c)) >= 0
}

/// Where the corners along the last two axes are the two nearest of the
/// octahedron, no vertex near it but its corners, the base corner and the
/// vertex across the cell from the first axis weighs anything.
proof fn lemma_middle_near_x(n: int, a: int, b: int, c: int, i: int, j: int, k: int)
    requires
        middle_near_x(n, a, b, c),
        ({
            ||| (i == 0 && j == 0 && k == 2)
            ||| (i == 0 && j == 2 && k == 0)
            ||| (i == 1 && j == -1 && k == 1)
            ||| (i == 1 && j == 1 && k == -1)
            ||| (i == 1 && j == 1 && k == 1)
            ||| (i == 2 && j == 0 && k == 0)
        }),
    ensures
        distance3(n, a, b, c, i, j, k) >= 2 * (n * n),
{
    let s = a + b + c;
    if i == 0 && j == 0 && k == 2 {
        assert((c - 2 * n) * (c - 2 * n)
            == (c * c) - 4 * (n * c) + 4 * (n * n)) by (nonlinear_arith);
        assert((s - 2 * n) * (s - 2 * n)
            == (s * s) - 4 * (n * a) - 4 * (n * b) - 4 * (n * c) + 4 * (n * n))
            by (nonlinear_arith)
            requires
                s == a + b + c,
        ;
        assert((c - n) * (c - n) == (c * c) - 2 * (n * c) + (n * n)) by (nonlinear_arith);
        assert((s - n) * (s - n)
            == (s * s) - 2 * (n * a) - 2 * (n * b) - 2 * (n * c) + (n * n)) by (nonlinear_arith)
            requires
                s == a + b + c,
        ;
        assert(n * (n - (a + c) - (b + c - n))
            == -(n * a) - (n * b) - 2 * (n * c) + 2 * (n * n)) by (nonlinear_arith);
        assert({
            &&& a * a >= 0
            &&& b * b >= 0
            &&& (c - n) * (c - n) >= 0
            &&& (s - n) * (s - n) >= 0
        }) by (nonlinear_arith);
        assert(n * (n - (a + c) - (b + c - n)) >= 0) by (nonlinear_arith)
            requires
                n > 0,
                n - (a + c) - (b + c - n) >= 0,
        ;
    }
    if i == 0 && j == 2 && k == 0 {
        assert((b - 2 * n) * (b - 2 * n)
            == (b * b) - 4 * (n * b) + 4 * (n * n)) by (nonlinear_arith);
        assert((s - 2 * n) * (s - 2 * n)
            == (s * s) - 4 * (n * a) - 4 * (n * b) - 4 * (n * c) + 4 * (n * n))
            by (nonlinear_arith)
            requires
                s == a + b + c,
        ;
        assert((b - n) * (b - n) == (b * b) - 2 * (n * b) + (n * n)) by (nonlinear_arith);
        assert((s - n) * (s - n)
            == (s * s) - 2 * (n * a) - 2 * (n * b) - 2 * (n * c) + (n * n)) by (nonlinear_arith)
            requires
                s == a + b + c,
        ;
        assert(n * (n - (a + b) - (b + c - n))
            == -(n * a) - 2 * (n * b) - (n * c) + 2 * (n * n)) by (nonlinear_arith);
        assert({
            &&& a * a >= 0
            &&& (b - n) * (b - n) >= 0
            &&& c * c >= 0
            &&& (s - n) * (s - n) >= 0
        }) by (nonlinear_arith);
        assert(n * (n - (a + b) - (b + c - n)) >= 0) by (nonlinear_arith)
            requires
                n > 0,
                n - (a + b) - (b + c - n) >= 0,
        ;
    }
    if i == 1 && j == -1 && k == 1 {
        assert((a - n) * (a - n) == (a * a) - 2 * (n * a) + (n * n)) by (nonlinear_arith);
        assert((b + n) * (b + n) == (b * b) + 2 * (n * b) + (n * n)) by (nonlinear_arith);
        assert((c - n) * (c - n) == (c * c) - 2 * (n * c) + (n * n)) by (nonlinear_arith);
        assert((s - n) * (s - n)
            == (s * s) - 2 * (n * a) - 2 * (n * b) - 2 * (n * c) + (n * n)) by (nonlinear_arith)
            requires
                s == a + b + c,
        ;
        assert((c - n) * (c - n) == (c * c) - 2 * (n * c) + (n * n)) by (nonlinear_arith);
        assert((s - n) * (s - n)
            == (s * s) - 2 * (n * a) - 2 * (n * b) - 2 * (n * c) + (n * n)) by (nonlinear_arith)
            requires
                s == a + b + c,
        ;
        assert(n * (n - (a + c) - (n - (b + c))) == -(n * a) + (n * b)) by (nonlinear_arith);
        assert({
            &&& a * a >= 0
            &&& b * b >= 0
            &&& (c - n) * (c - n) >= 0
            &&& (s - n) * (s - n) >= 0
        }) by (nonlinear_arith);
        assert(n * (n - (a + c) - (n - (b + c))) >= 0) by (nonlinear_arith)
            requires
                n > 0,
                n - (a + c) - (n - (b + c)) >= 0,
        ;
    }
    if i == 1 && j == 1 && k == -1 {
        assert((a - n) * (a - n) == (a * a) - 2 * (n * a) + (n * n)) by (nonlinear_arith);
        assert((b - n) * (b - n) == (b * b) - 2 * (n * b) + (n * n)) by (nonlinear_arith);
        assert((c + n) * (c + n) == (c * c) + 2 * (n * c) + (n * n)) by (nonlinear_arith);
        assert((s - n) * (s - n)
            == (s * s) - 2 * (n * a) - 2 * (n * b) - 2 * (n * c) + (n * n)) by (nonlinear_arith)
            requires
                s == a + b + c,
        ;
        assert((b - n) * (b - n) == (b * b) - 2 * (n * b) + (n * n)) by (nonlinear_arith);
        assert((s - n) * (s - n)
            == (s * s) - 2 * (n * a) - 2 * (n * b) - 2 * (n * c) + (n * n)) by (nonlinear_arith)
            requires
                s == a + b + c,
        ;
        assert(n * (n - (a + b) - (n - (b + c))) == -(n * a) + (n * c)) by (nonlinear_arith);
        assert({
            &&& a * a >= 0
            &&& (b - n) * (b - n) >= 0
            &&& c * c >= 0
            &&& (s - n) * (s - n) >= 0
        }) by (nonlinear_arith);
        assert(n * (n - (a + b) - (n - (b + c))) >= 0) by (nonlinear_arith)
            requires
                n > 0,
                n - (a + b) - (n - (b + c)) >= 0,
        ;
    }
    if i == 1 && j == 1 && k == 1 {
        assert((a - n) * (a - n) == (a * a) - 2 * (n * a) + (n * n)) by (nonlinear_arith);
        assert((b - n) * (b - n) == (b * b) - 2 * (n * b) + (n * n)) by (nonlinear_arith);
        assert((c - n) * (c - n) == (c * c) - 2 * (n * c) + (n * n)) by (nonlinear_arith);
        assert((s - 3 * n) * (s - 3 * n)
            == (s * s) - 6 * (n * a) - 6 * (n * b) - 6 * (n * c) + 9 * (n * n))
            by (nonlinear_arith)
            requires
                s == a + b + c,
        ;
        assert((2 * a - n) * (2 * a - n)
            == 4 * (a * a) - 4 * (n * a) + (n * n)) by (nonlinear_arith);
        assert((2 * b - n) * (2 * b - n)
            == 4 * (b * b) - 4 * (n * b) + (n * n)) by (nonlinear_arith);
        assert((2 * c - n) * (2 * c - n)
            == 4 * (c * c) - 4 * (n * c) + (n * n)) by (nonlinear_arith);
        assert((2 * s - 3 * n) * (2 * s - 3 * n)
            == 4 * (s * s) - 12 * (n * a) - 12 * (n * b) - 12 * (n * c) + 9 * (n * n))
            by (nonlinear_arith)
            requires
                s == a + b + c,
        ;
        assert(n * (n - (a + b)) == -(n * a) - (n * b) + (n * n)) by (nonlinear_arith);
        assert(n * (n - (a + c) - (b + c - n))
            == -(n * a) - (n * b) - 2 * (n * c) + 2 * (n * n)) by (nonlinear_arith);
        assert({
            &&& (2 * a - n) * (2 * a - n) >= 0
            &&& (2 * b - n) * (2 * b - n) >= 0
            &&& (2 * c - n) * (2 * c - n) >= 0
            &&& (2 * s - 3 * n) * (2 * s - 3 * n) >= 0
        }) by (nonlinear_arith);
        assert(n * (n - (a + b)) >= 0) by (nonlinear_arith)
            requires
                n > 0,
                n - (a + b) >= 0,
        ;
        assert(n * (n - (a + c) - (b + c - n)) >= 0) by (nonlinear_arith)
            requires
                n > 0,
                n - (a + c) - (b + c - n) >= 0,
        ;
    }
    if i == 2 && j == 0 && k == 0 {
        assert((a - 2 * n) * (a - 2 * n)
            == (a * a) - 4 * (n * a) + 4 * (n * n)) by (nonlinear_arith);
        assert((s - 2 * n) * (s - 2 * n)
            == (s * s) - 4 * (n * a) - 4 * (n * b) - 4 * (n * c) + 4 * (n * n))
            by (nonlinear_arith)
            requires
                s == a + b + c,
        ;
        assert((2 * a - n) * (2 * a - n)
            == 4 * (a * a) - 4 * (n * a) + (n * n)) by (nonlinear_arith);
        assert((2 * b - n) * (2 * b - n)
            == 4 * (b * b) - 4 * (n * b) + (n * n)) by (nonlinear_arith);
        assert((2 * c - n) * (2 * c - n)
            == 4 * (c * c) - 4 * (n * c) + (n * n)) by (nonlinear_arith);
        assert((2 * s - 3 * n) * (2 * s - 3 * n)
            == 4 * (s * s) - 12 * (n * a) - 12 * (n * b) - 12 * (n * c) + 9 * (n * n))
            by (nonlinear_arith)
            requires
                s == a + b + c,
        ;
        assert(n * (n - (a + b)) == -(n * a) - (n * b) + (n * n)) by (nonlinear_arith);
        assert(n * (n - (a + c) - (n - (b + c))) == -(n * a) + (n * b)) by (nonlinear_arith);
        assert({
            &&& (2 * a - n) * (2 * a - n) >= 0
            &&& (2 * b - n) * (2 * b - n) >= 0
            &&& (2 * c - n) * (2 * c - n) >= 0
            &&& (2 * s - 3 * n) * (2 * s - 3 * n) >= 0
        }) by (nonlinear_arith);
        assert(n * (n - (a + b)) >= 0) by (nonlinear_arith)
            requires
                n > 0,
                n - (a + b) >= 0,
        ;
        assert(n * (n - (a + c) - (n - (b + c))) >= 0) by (nonlinear_arith)
            requires
                n > 0,
                n - (a + c) - (n - (b + c)) >= 0,
        ;
    }
}

/// The point lies in the octahedron, the sum of the first two coordinates
/// is at least one and that of the first and the third at most one, and the
/// sum of the last two is no further from one than they are.
pub open spec fn middle_mixed_zy(n: int, a: int, b: int, c: int) -> bool {
    &&& n > 0
    &&& a >= 0
    &&& b >= 0
    &&& c >= 0
    &&& n - a >= 0
    &&& n - b >= 0
    &&& n - c >= 0
    &&& a + b + c - n >= 0
    &&& 2 * n - (a + b + c) >= 0
    &&& a + b - n >= 0
    &&& n - (a + c) >= 0
    &&& a + b - n - (b + c - n) >= 0
    &&& a + b - n - (n - (b + c)) >= 0
    &&& n - (a + c) - (b + c - n) >= 0
    &&& n - (a + c) - (n - (b + c)) >= 0
}

/// Where the corner without the third axis and the corner along the second
/// are the two nearest of the octahedron, no vertex near it but its
/// corners, the vertex across the cell from the third axis and the vertex
/// two cells along the second weighs anything.
proof fn lemma_middle_mixed_zy(n: int, a: int, b: int, c: int, i: int, j: int, k: int)
    requires
        middle_mixed_zy(n, a, b, c),
        ({
            ||| (i == -1 && j == 1 && k == 1)
            ||| (i == 0 && j == 0 && k == 0)
            ||| (i == 0 && j == 0 && k == 2)
            ||| (i == 1 && j == -1 && k == 1)
            ||| (i == 1 && j == 1 && k == 1)
            ||| (i == 2 && j == 0 && k == 0)
        }),
    ensures
        distance3(n, a, b, c, i, j, k) >= 2 * (n * n),
{
    let s = a + b + c;
    if i == -1 && j == 1 && k == 1 {
        assert((a + n) * (a + n) == (a * a) + 2 * (n * a) + (n * n)) by (nonlinear_arith);
        assert((b - n) * (b - n) == (b * b) - 2 * (n * b) + (n * n)) by (nonlinear_arith);
        assert((c - n) * (c - n) == (c * c) - 2 * (n * c) + (n * n)) by (nonlinear_arith);
        assert((s - n) * (s - n)
            == (s * s) - 2 * (n * a) - 2 * (n * b) - 2 * (n * c) + (n * n)) by (nonlinear_arith)
            requires
                s == a + b + c,
        ;
        assert((b - n) * (b - n) == (b * b) - 2 * (n * b) + (n * n)) by (nonlinear_arith);
        assert((s - n) * (s - n)
            == (s * s) - 2 * (n * a) - 2 * (n * b) - 2 * (n * c) + (n * n)) by (nonlinear_arith)
            requires
                s == a + b + c,
        ;
        assert(n * (a + b - n - (b + c - n)) == (n * a) - (n * c)) by (nonlinear_arith);
        assert({
            &&& a * a >= 0
            &&& (b - n) * (b - n) >= 0
            &&& c * c >= 0
            &&& (s - n) * (s - n) >= 0
        }) by (nonlinear_arith);
        assert(n * (a + b - n - (b + c - n)) >= 0) by (nonlinear_arith)
            requires
                n > 0,
                a + b - n - (b + c - n) >= 0,
        ;
    }
    if i == 0 && j == 0 && k == 0 {
        assert((b - n) * (b - n) == (b * b) - 2 * (n * b) + (n * n)) by (nonlinear_arith);
        assert((s - n) * (s - n)
            == (s * s) - 2 * (n * a) - 2 * (n * b) - 2 * (n * c) + (n * n)) by (nonlinear_arith)
            requires
                s == a + b + c,
        ;
        assert(n * (a + b - n - (n - (b + c)))
            == (n * a) + 2 * (n * b) + (n * c) - 2 * (n * n)) by (nonlinear_arith);
        assert({
            &&& a * a >= 0
            &&& (b - n) * (b - n) >= 0
            &&& c * c >= 0
            &&& (s - n) * (s - n) >= 0
        }) by (nonlinear_arith);
        assert(n * (a + b - n - (n - (b + c))) >= 0) by (nonlinear_arith)
            requires
                n > 0,
                a + b - n - (n - (b + c)) >= 0,
        ;
    }
    if i == 0 && j == 0 && k == 2 {
        assert((c - 2 * n) * (c - 2 * n)
            == (c * c) - 4 * (n * c) + 4 * (n * n)) by (nonlinear_arith);
        assert((s - 2 * n) * (s - 2 * n)
            == (s * s) - 4 * (n * a) - 4 * (n * b) - 4 * (n * c) + 4 * (n * n))
            by (nonlinear_arith)
            requires
                s == a + b + c,
        ;
        assert((2 * a - n) * (2 * a - n)
            == 4 * (a * a) - 4 * (n * a) + (n * n)) by (nonlinear_arith);
        assert((2 * b - n) * (2 * b - n)
            == 4 * (b * b) - 4 * (n * b) + (n * n)) by (nonlinear_arith);
        assert((2 * c - n) * (2 * c - n)
            == 4 * (c * c) - 4 * (n * c) + (n * n)) by (nonlinear_arith);
        assert((2 * s - 3 * n) * (2 * s - 3 * n)
            == 4 * (s * s) - 12 * (n * a) - 12 * (n * b) - 12 * (n * c) + 9 * (n * n))
            by (nonlinear_arith)
            requires
                s == a + b + c,
        ;
        assert(n * (a + b - n) == (n * a) + (n * b) - (n * n)) by (nonlinear_arith);
        assert(n * (n - (a + c) - (b + c - n))
            == -(n * a) - (n * b) - 2 * (n * c) + 2 * (n * n)) by (nonlinear_arith);
        assert({
            &&& (2 * a - n) * (2 * a - n) >= 0
            &&& (2 * b - n) * (2 * b - n) >= 0
            &&& (2 * c - n) * (2 * c - n) >= 0
            &&& (2 * s - 3 * n) * (2 * s - 3 * n) >= 0
        }) by (nonlinear_arith);
        assert(n * (a + b - n) >= 0) by (nonlinear_arith)
            requires
                n > 0,
                a + b - n >= 0,
        ;
        assert(n * (n - (a + c) - (b + c - n)) >= 0) by (nonlinear_arith)
            requires
                n > 0,
                n - (a + c) - (b + c - n) >= 0,
        ;
    }
    if i == 1 && j == -1 && k == 1 {
        assert((a - n) * (a - n) == (a * a) - 2 * (n * a) + (n * n)) by (nonlinear_arith);
        assert((b + n) * (b + n) == (b * b) + 2 * (n * b) + (n * n)) by (nonlinear_arith);
        assert((c - n) * (c - n) == (c * c) - 2 * (n * c) + (n * n)) by (nonlinear_arith);
        assert((s - n) * (s - n)
            == (s * s) - 2 * (n * a) - 2 * (n * b) - 2 * (n * c) + (n * n)) by (nonlinear_arith)
            requires
                s == a + b + c,
        ;
        assert((2 * a - n) * (2 * a - n)
            == 4 * (a * a) - 4 * (n * a) + (n * n)) by (nonlinear_arith);
        assert((2 * b - n) * (2 * b - n)
            == 4 * (b * b) - 4 * (n * b) + (n * n)) by (nonlinear_arith);
        assert((2 * c - n) * (2 * c - n)
            == 4 * (c * c) - 4 * (n * c) + (n * n)) by (nonlinear_arith);
        assert((2 * s - 3 * n) * (2 * s - 3 * n)
            == 4 * (s * s) - 12 * (n * a) - 12 * (n * b) - 12 * (n * c) + 9 * (n * n))
            by (nonlinear_arith)
            requires
                s == a + b + c,
        ;
        assert(n * (a + b - n) == (n * a) + (n * b) - (n * n)) by (nonlinear_arith);
        assert(n * (n - (a + c) - (n - (b + c))) == -(n * a) + (n * b)) by (nonlinear_arith);
        assert({
            &&& (2 * a - n) * (2 * a - n) >= 0
            &&& (2 * b - n) * (2 * b - n) >= 0
            &&& (2 * c - n) * (2 * c - n) >= 0
            &&& (2 * s - 3 * n) * (2 * s - 3 * n) >= 0
        }) by (nonlinear_arith);
        assert(n * (a + b - n) >= 0) by (nonlinear_arith)
            requires
                n > 0,
                a + b - n >= 0,
        ;
        assert(n * (n - (a + c) - (n - (b + c))) >= 0) by (nonlinear_arith)
            requires
                n > 0,
                n - (a + c) - (n - (b + c)) >= 0,
        ;
    }
    if i == 1 && j == 1 && k == 1 {
        assert((a - n) * (a - n) == (a * a) - 2 * (n * a) + (n * n)) by (nonlinear_arith);
        assert((b - n) * (b - n) == (b * b) - 2 * (n * b) + (n * n)) by (nonlinear_arith);
        assert((c - n) * (c - n) == (c * c) - 2 * (n * c) + (n * n)) by (nonlinear_arith);
        assert((s - 3 * n) * (s - 3 * n)
            == (s * s) - 6 * (n * a) - 6 * (n * b) - 6 * (n * c) + 9 * (n * n))
            by (nonlinear_arith)
            requires
                s == a + b + c,
        ;
        assert((a - n) * (a - n) == (a * a) - 2 * (n * a) + (n * n)) by (nonlinear_arith);
        assert((b - n) * (b - n) == (b * b) - 2 * (n * b) + (n * n)) by (nonlinear_arith);
        assert((s - 2 * n) * (s - 2 * n)
            == (s * s) - 4 * (n * a) - 4 * (n * b) - 4 * (n * c) + 4 * (n * n))
            by (nonlinear_arith)
            requires
                s == a + b + c,
        ;
        assert(n * (n - (a + c) - (b + c - n))
            == -(n * a) - (n * b) - 2 * (n * c) + 2 * (n * n)) by (nonlinear_arith);
        assert({
            &&& (a - n) * (a - n) >= 0
            &&& (b - n) * (b - n) >= 0
            &&& c * c >= 0
            &&& (s - 2 * n) * (s - 2 * n) >= 0
        }) by (nonlinear_arith);
        assert(n * (n - (a + c) - (b + c - n)) >= 0) by (nonlinear_arith)
            requires
                n > 0,
                n - (a + c) - (b + c - n) >= 0,
        ;
    }
    if i == 2 && j == 0 && k == 0 {
        assert((a - 2 * n) * (a - 2 * n)
            == (a * a) - 4 * (n * a) + 4 * (n * n)) by (nonlinear_arith);
        assert((s - 2 * n) * (s - 2 * n)
            == (s * s) - 4 * (n * a) - 4 * (n * b) - 4 * (n * c) + 4 * (n * n))
            by (nonlinear_arith)
            requires
                s == a + b + c,
        ;
        assert((a - n) * (a - n) == (a * a) - 2 * (n * a) + (n * n)) by (nonlinear_arith);
        assert((b - n) * (b - n) == (b * b) - 2 * (n * b) + (n * n)) by (nonlinear_arith);
        assert((s - 2 * n) * (s - 2 * n)
            == (s * s) - 4 * (n * a) - 4 * (n * b) - 4 * (n * c) + 4 * (n * n))
            by (nonlinear_arith)
            requires
                s == a + b + c,
        ;
        assert(n * (n - (a + c) - (n - (b + c))) == -(n * a) + (n * b)) by (nonlinear_arith);
        assert({
            &&& (a - n) * (a - n) >= 0
            &&& (b - n) * (b - n) >= 0
            &&& c * c >= 0
            &&& (s - 2 * n) * (s - 2 * n) >= 0
        }) by (nonlinear_arith);
        assert(n * (n - (a + c) - (n - (b + c))) >= 0) by (nonlinear_arith)
            requires
                n > 0,
                n - (a + c) - (n - (b + c)) >= 0,
        ;
    }
}

/// The point lies in the upper tetrahedron, its first coordinate is no
/// larger than the others, and the score of the opposite corner is no
/// larger than the other two coordinates.
pub open spec fn upper_near_x(n: int, a: int, b: int, c: int) -> bool {
    &&& n > 0
    &&& a >= 0
    &&& n - b >= 0
    &&& n - c >= 0
    &&& b - a >= 0
    &&& c - a >= 0
    &&& a + b + c - 2 * n >= 0
    &&& b - (3 * n - (a + b + c)) >= 0
    &&& c - (3 * n - (a + b + c)) >= 0
}

/// Where the opposite corner and the corner without the first axis are the
/// two nearest, no vertex near the upper tetrahedron but its corners and
/// the two one cell beyond the corner without the first axis weighs more
/// than a sixth.
proof fn lemma_upper_near_x(n: int, a: int, b: int, c: int, i: int, j: int, k: int)
    requires
        upper_near_x(n, a, b, c),
        ({
            ||| (i == 0 && j == 0 && k == 1)
            ||| (i == 0 && j == 0 && k == 2)
            ||| (i == 0 && j == 1 && k == 0)
            ||| (i == 0 && j == 2 && k == 0)
            ||| (i == 1 && j == 0 && k == 0)
            ||| (i == 1 && j == 0 && k == 2)
            ||| (i == 1 && j == 2 && k == 0)
            ||| (i == 2 && j == 0 && k == 0)
            ||| (i == 2 && j == 0 && k == 1)
            ||| (i == 2 && j == 1 && k == 0)
        }),
    ensures
        6 * distance3(n, a, b, c, i, j, k) >= 11 * (n * n),
{
    let s = a + b + c;
    if i == 0 && j == 0 && k == 1 {
        assert((c - n) * (c - n) == (c * c) - 2 * (n * c) + (n * n)) by (nonlinear_arith);
        assert((s - n) * (s - n)
            == (s * s) - 2 * (n * a) - 2 * (n * b) - 2 * (n * c) + (n * n)) by (nonlinear_arith)
            requires
                s == a + b + c,
        ;
        assert((b - n) * (b - n) == (b * b) - 2 * (n * b) + (n * n)) by (nonlinear_arith);
        assert((c - n) * (c - n) == (c * c) - 2 * (n * c) + (n * n)) by (nonlinear_arith);
        assert((s - 2 * n) * (s - 2 * n)
            == (s * s) - 4 * (n * a) - 4 * (n * b) - 4 * (n * c) + 4 * (n * n))
            by (nonlinear_arith)
            requires
                s == a + b + c,
        ;
        assert(n * (b - (3 * n - (a + b + c)))
            == (n * a) + 2 * (n * b) + (n * c) - 3 * (n * n)) by (nonlinear_arith);
        assert({
            &&& a * a >= 0
            &&& (b - n) * (b - n) >= 0
            &&& (c - n) * (c - n) >= 0
            &&& (s - 2 * n) * (s - 2 * n) >= 0
        }) by (nonlinear_arith);
        assert(n * (b - (3 * n - (a + b + c))) >= 0) by (nonlinear_arith)
            requires
                n > 0,
                b - (3 * n - (a + b + c)) >= 0,
        ;
    }
    if i == 0 && j == 0 && k == 2 {
        assert((c - 2 * n) * (c - 2 * n)
            == (c * c) - 4 * (n * c) + 4 * (n * n)) by (nonlinear_arith);
        assert((s - 2 * n) * (s - 2 * n)
            == (s * s) - 4 * (n * a) - 4 * (n * b) - 4 * (n * c) + 4 * (n * n))
            by (nonlinear_arith)
            requires
                s == a + b + c,
        ;
        assert((6 * a - 2 * n) * (6 * a - 2 * n)
            == 36 * (a * a) - 24 * (n * a) + 4 * (n * n)) by (nonlinear_arith);
        assert((6 * b - 5 * n) * (6 * b - 5 * n)
            == 36 * (b * b) - 60 * (n * b) + 25 * (n * n)) by (nonlinear_arith);
        assert((6 * c - 6 * n) * (6 * c - 6 * n)
            == 36 * (c * c) - 72 * (n * c) + 36 * (n * n)) by (nonlinear_arith);
        assert((6 * s - 13 * n) * (6 * s - 13 * n)
            == 36 * (s * s) - 156 * (n * a) - 156 * (n * b) - 156 * (n * c) + 169 * (n * n))
            by (nonlinear_arith)
            requires
                s == a + b + c,
        ;
        assert(n * (n - c) == -(n * c) + (n * n)) by (nonlinear_arith);
        assert(n * (b - (3 * n - (a + b + c)))
            == (n * a) + 2 * (n * b) + (n * c) - 3 * (n * n)) by (nonlinear_arith);
        assert({
            &&& (6 * a - 2 * n) * (6 * a - 2 * n) >= 0
            &&& (6 * b - 5 * n) * (6 * b - 5 * n) >= 0
            &&& (6 * c - 6 * n) * (6 * c - 6 * n) >= 0
            &&& (6 * s - 13 * n) * (6 * s - 13 * n) >= 0
        }) by (nonlinear_arith);
        assert(n * (n - c) >= 0) by (nonlinear_arith)
            requires
                n > 0,
                n - c >= 0,
        ;
        assert(n * (b - (3 * n - (a + b + c))) >= 0) by (nonlinear_arith)
            requires
                n > 0,
                b - (3 * n - (a + b + c)) >= 0,
        ;
    }
    if i == 0 && j == 1 && k == 0 {
        assert((b - n) * (b - n) == (b * b) - 2 * (n * b) + (n * n)) by (nonlinear_arith);
        assert((s - n) * (s - n)
            == (s * s) - 2 * (n * a) - 2 * (n * b) - 2 * (n * c) + (n * n)) by (nonlinear_arith)
            requires
                s == a + b + c,
        ;
        assert((b - n) * (b - n) == (b * b) - 2 * (n * b) + (n * n)) by (nonlinear_arith);
        assert((c - n) * (c - n) == (c * c) - 2 * (n * c) + (n * n)) by (nonlinear_arith);
        assert((s - 2 * n) * (s - 2 * n)
            == (s * s) - 4 * (n * a) - 4 * (n * b) - 4 * (n * c) + 4 * (n * n))
            by (nonlinear_arith)
            requires
                s == a + b + c,
        ;
        assert(n * (c - (3 * n - (a + b + c)))
            == (n * a) + (n * b) + 2 * (n * c) - 3 * (n * n)) by (nonlinear_arith);
        assert({
            &&& a * a >= 0
            &&& (b - n) * (b - n) >= 0
            &&& (c - n) * (c - n) >= 0
            &&& (s - 2 * n) * (s - 2 * n) >= 0
        }) by (nonlinear_arith);
        assert(n * (c - (3 * n - (a + b + c))) >= 0) by (nonlinear_arith)
            requires
                n > 0,
                c - (3 * n - (a + b + c)) >= 0,
        ;
    }
    if i == 0 && j == 2 && k == 0 {
        assert((b - 2 * n) * (b - 2 * n)
            == (b * b) - 4 * (n * b) + 4 * (n * n)) by (nonlinear_arith);
        assert((s - 2 * n) * (s - 2 * n)
            == (s * s) - 4 * (n * a) - 4 * (n * b) - 4 * (n * c) + 4 * (n * n))
            by (nonlinear_arith)
            requires
                s == a + b + c,
        ;
        assert((6 * a - 2 * n) * (6 * a - 2 * n)
            == 36 * (a * a) - 24 * (n * a) + 4 * (n * n)) by (nonlinear_arith);
        assert((6 * b - 6 * n) * (6 * b - 6 * n)
            == 36 * (b * b) - 72 * (n * b) + 36 * (n * n)) by (nonlinear_arith);
        assert((6 * c - 5 * n) * (6 * c - 5 * n)
            == 36 * (c * c) - 60 * (n * c) + 25 * (n * n)) by (nonlinear_arith);
        assert((6 * s - 13 * n) * (6 * s - 13 * n)
            == 36 * (s * s) - 156 * (n * a) - 156 * (n * b) - 156 * (n * c) + 169 * (n * n))
            by (nonlinear_arith)
            requires
                s == a + b + c,
        ;
        assert(n * (n - b) == -(n * b) + (n * n)) by (nonlinear_arith);
        assert(n * (c - (3 * n - (a + b + c)))
            == (n * a) + (n * b) + 2 * (n * c) - 3 * (n * n)) by (nonlinear_arith);
        assert({
            &&& (6 * a - 2 * n) * (6 * a - 2 * n) >= 0
            &&& (6 * b - 6 * n) * (6 * b - 6 * n) >= 0
            &&& (6 * c - 5 * n) * (6 * c - 5 * n) >= 0
            &&& (6 * s - 13 * n) * (6 * s - 13 * n) >= 0
        }) by (nonlinear_arith);
        assert(n * (n - b) >= 0) by (nonlinear_arith)
            requires
                n > 0,
                n - b >= 0,
        ;
        assert(n * (c - (3 * n - (a + b + c))) >= 0) by (nonlinear_arith)
            requires
                n > 0,
                c - (3 * n - (a + b + c)) >= 0,
        ;
    }
    if i == 1 && j == 0 && k == 0 {
        assert((a - n) * (a - n) == (a * a) - 2 * (n * a) + (n * n)) by (nonlinear_arith);
        assert((s - n) * (s - n)
            == (s * s) - 2 * (n * a) - 2 * (n * b) - 2 * (n * c) + (n * n)) by (nonlinear_arith)
            requires
                s == a + b + c,
        ;
        assert((4 * a - 3 * n) * (4 * a - 3 * n)
            == 16 * (a * a) - 24 * (n * a) + 9 * (n * n)) by (nonlinear_arith);
        assert((4 * b - 3 * n) * (4 * b - 3 * n)
            == 16 * (b * b) - 24 * (n * b) + 9 * (n * n)) by (nonlinear_arith);
        assert((4 * c - 3 * n) * (4 * c - 3 * n)
            == 16 * (c * c) - 24 * (n * c) + 9 * (n * n)) by (nonlinear_arith);
        assert((4 * s - 9 * n) * (4 * s - 9 * n)
            == 16 * (s * s) - 72 * (n * a) - 72 * (n * b) - 72 * (n * c) + 81 * (n * n))
            by (nonlinear_arith)
            requires
                s == a + b + c,
        ;
        assert(n * (b - a) == -(n * a) + (n * b)) by (nonlinear_arith);
        assert(n * (b - (3 * n - (a + b + c)))
            == (n * a) + 2 * (n * b) + (n * c) - 3 * (n * n)) by (nonlinear_arith);
        assert(n * (c - (3 * n - (a + b + c)))
            == (n * a) + (n * b) + 2 * (n * c) - 3 * (n * n)) by (nonlinear_arith);
        assert({
            &&& (4 * a - 3 * n) * (4 * a - 3 * n) >= 0
            &&& (4 * b - 3 * n) * (4 * b - 3 * n) >= 0
            &&& (4 * c - 3 * n) * (4 * c - 3 * n) >= 0
            &&& (4 * s - 9 * n) * (4 * s - 9 * n) >= 0
        }) by (nonlinear_arith);
        assert(n * (b - a) >= 0) by (nonlinear_arith)
            requires
                n > 0,
                b - a >= 0,
        ;
        assert(n * (b - (3 * n - (a + b + c))) >= 0) by (nonlinear_arith)
            requires
                n > 0,
                b - (3 * n - (a + b + c)) >= 0,
        ;
        assert(n * (c - (3 * n - (a + b + c))) >= 0) by (nonlinear_arith)
            requires
                n > 0,
                c - (3 * n - (a + b + c)) >= 0,
        ;
    }
    if i == 1 && j == 0 && k == 2 {
        assert((a - n) * (a - n) == (a * a) - 2 * (n * a) + (n * n)) by (nonlinear_arith);
        assert((c - 2 * n) * (c - 2 * n)
            == (c * c) - 4 * (n * c) + 4 * (n * n)) by (nonlinear_arith);
        assert((s - 3 * n) * (s - 3 * n)
            == (s * s) - 6 * (n * a) - 6 * (n * b) - 6 * (n * c) + 9 * (n * n))
            by (nonlinear_arith)
            requires
                s == a + b + c,
        ;
        assert((6 * a - 5 * n) * (6 * a - 5 * n)
            == 36 * (a * a) - 60 * (n * a) + 25 * (n * n)) by (nonlinear_arith);
        assert((6 * b - 5 * n) * (6 * b - 5 * n)
            == 36 * (b * b) - 60 * (n * b) + 25 * (n * n)) by (nonlinear_arith);
        assert((6 * c - 6 * n) * (6 * c - 6 * n)
            == 36 * (c * c) - 72 * (n * c) + 36 * (n * n)) by (nonlinear_arith);
        assert((6 * s - 16 * n) * (6 * s - 16 * n)
            == 36 * (s * s) - 192 * (n * a) - 192 * (n * b) - 192 * (n * c) + 256 * (n * n))
            by (nonlinear_arith)
            requires
                s == a + b + c,
        ;
        assert(n * (n - c) == -(n * c) + (n * n)) by (nonlinear_arith);
        assert(n * (b - a) == -(n * a) + (n * b)) by (nonlinear_arith);
        assert({
            &&& (6 * a - 5 * n) * (6 * a - 5 * n) >= 0
            &&& (6 * b - 5 * n) * (6 * b - 5 * n) >= 0
            &&& (6 * c - 6 * n) * (6 * c - 6 * n) >= 0
            &&& (6 * s - 16 * n) * (6 * s - 16 * n) >= 0
        }) by (nonlinear_arith);
        assert(n * (n - c) >= 0) by (nonlinear_arith)
            requires
                n > 0,
                n - c >= 0,
        ;
        assert(n * (b - a) >= 0) by (nonlinear_arith)
            requires
                n > 0,
                b - a >= 0,
        ;
    }
    if i == 1 && j == 2 && k == 0 {
        assert((a - n) * (a - n) == (a * a) - 2 * (n * a) + (n * n)) by (nonlinear_arith);
        assert((b - 2 * n) * (b - 2 * n)
            == (b * b) - 4 * (n * b) + 4 * (n * n)) by (nonlinear_arith);
        assert((s - 3 * n) * (s - 3 * n)
            == (s * s) - 6 * (n * a) - 6 * (n * b) - 6 * (n * c) + 9 * (n * n))
            by (nonlinear_arith)
            requires
                s == a + b + c,
        ;
        assert((6 * a - 5 * n) * (6 * a - 5 * n)
            == 36 * (a * a) - 60 * (n * a) + 25 * (n * n)) by (nonlinear_arith);
        assert((6 * b - 6 * n) * (6 * b - 6 * n)
            == 36 * (b * b) - 72 * (n * b) + 36 * (n * n)) by (nonlinear_arith);
        assert((6 * c - 5 * n) * (6 * c - 5 * n)
            == 36 * (c * c) - 60 * (n * c) + 25 * (n * n)) by (nonlinear_arith);
        assert((6 * s - 16 * n) * (6 * s - 16 * n)
            == 36 * (s * s) - 192 * (n * a) - 192 * (n * b) - 192 * (n * c) + 256 * (n * n))
            by (nonlinear_arith)
            requires
                s == a + b + c,
        ;
        assert(n * (n - b) == -(n * b) + (n * n)) by (nonlinear_arith);
        assert(n * (c - a) == -(n * a) + (n * c)) by (nonlinear_arith);
        assert({
            &&& (6 * a - 5 * n) * (6 * a - 5 * n) >= 0
            &&& (6 * b - 6 * n) * (6 * b - 6 * n) >= 0
            &&& (6 * c - 5 * n) * (6 * c - 5 * n) >= 0
            &&& (6 * s - 16 * n) * (6 * s - 16 * n) >= 0
        }) by (nonlinear_arith);
        assert(n * (n - b) >= 0) by (nonlinear_arith)
            requires
                n > 0,
                n - b >= 0,
        ;
        assert(n * (c - a) >= 0) by (nonlinear_arith)
            requires
                n > 0,
                c - a >= 0,
        ;
    }
    if i == 2 && j == 0 && k == 0 {
        assert((a - 2 * n) * (a - 2 * n)
            == (a * a) - 4 * (n * a) + 4 * (n * n)) by (nonlinear_arith);
        assert((s - 2 * n) * (s - 2 * n)
            == (s * s) - 4 * (n * a) - 4 * (n * b) - 4 * (n * c) + 4 * (n * n))
            by (nonlinear_arith)
            requires
                s == a + b + c,
        ;
        assert((4 * a - 3 * n) * (4 * a - 3 * n)
            == 16 * (a * a) - 24 * (n * a) + 9 * (n * n)) by (nonlinear_arith);
        assert((4 * b - 3 * n) * (4 * b - 3 * n)
            == 16 * (b * b) - 24 * (n * b) + 9 * (n * n)) by (nonlinear_arith);
        assert((4 * c - 3 * n) * (4 * c - 3 * n)
            == 16 * (c * c) - 24 * (n * c) + 9 * (n * n)) by (nonlinear_arith);
        assert((4 * s - 9 * n) * (4 * s - 9 * n)
            == 16 * (s * s) - 72 * (n * a) - 72 * (n * b) - 72 * (n * c) + 81 * (n * n))
            by (nonlinear_arith)
            requires
                s == a + b + c,
        ;
        assert(n * (b - a) == -(n * a) + (n * b)) by (nonlinear_arith);
        assert(n * (c - a) == -(n * a) + (n * c)) by (nonlinear_arith);
        assert(n * (b - (3 * n - (a + b + c)))
            == (n * a) + 2 * (n * b) + (n * c) - 3 * (n * n)) by (nonlinear_arith);
        assert({
            &&& (4 * a - 3 * n) * (4 * a - 3 * n) >= 0
            &&& (4 * b - 3 * n) * (4 * b - 3 * n) >= 0
            &&& (4 * c - 3 * n) * (4 * c - 3 * n) >= 0
            &&& (4 * s - 9 * n) * (4 * s - 9 * n) >= 0
        }) by (nonlinear_arith);
        assert(n * (b - a) >= 0) by (nonlinear_arith)
            requires
                n > 0,
                b - a >= 0,
        ;
        assert(n * (c - a) >= 0) by (nonlinear_arith)
            requires
                n > 0,
                c - a >= 0,
        ;
        assert(n * (b - (3 * n - (a + b + c))) >= 0) by (nonlinear_arith)
            requires
                n > 0,
                b - (3 * n - (a + b + c)) >= 0,
        ;
    }
    if i == 2 && j == 0 && k == 1 {
        assert((a - 2 * n) * (a - 2 * n)
            == (a * a) - 4 * (n * a) + 4 * (n * n)) by (nonlinear_arith);
        assert((c - n) * (c - n) == (c * c) - 2 * (n * c) + (n * n)) by (nonlinear_arith);
        assert((s - 3 * n) * (s - 3 * n)
            == (s * s) - 6 * (n * a) - 6 * (n * b) - 6 * (n * c) + 9 * (n * n))
            by (nonlinear_arith)
            requires
                s == a + b + c,
        ;
        assert((a - n) * (a - n) == (a * a) - 2 * (n * a) + (n * n)) by (nonlinear_arith);
        assert((b - n) * (b - n) == (b * b) - 2 * (n * b) + (n * n)) by (nonlinear_arith);
        assert((c - n) * (c - n) == (c * c) - 2 * (n * c) + (n * n)) by (nonlinear_arith);
        assert((s - 3 * n) * (s - 3 * n)
            == (s * s) - 6 * (n * a) - 6 * (n * b) - 6 * (n * c) + 9 * (n * n))
            by (nonlinear_arith)
            requires
                s == a + b + c,
        ;
        assert(n * (b - a) == -(n * a) + (n * b)) by (nonlinear_arith);
        assert({
            &&& (a - n) * (a - n) >= 0
            &&& (b - n) * (b - n) >= 0
            &&& (c - n) * (c - n) >= 0
            &&& (s - 3 * n) * (s - 3 * n) >= 0
        }) by (nonlinear_arith);
        assert(n * (b - a) >= 0) by (nonlinear_arith)
            requires
                n > 0,
                b - a >= 0,
        ;
    }
    if i == 2 && j == 1 && k == 0 {
        assert((a - 2 * n) * (a - 2 * n)
            == (a * a) - 4 * (n * a) + 4 * (n * n)) by (nonlinear_arith);
        assert((b - n) * (b - n) == (b * b) - 2 * (n * b) + (n * n)) by (nonlinear_arith);
        assert((s - 3 * n) * (s - 3 * n)
            == (s * s) - 6 * (n * a) - 6 * (n * b) - 6 * (n * c) + 9 * (n * n))
            by (nonlinear_arith)
            requires
                s == a + b + c,
        ;
        assert((a - n) * (a - n) == (a * a) - 2 * (n * a) + (n * n)) by (nonlinear_arith);
        assert((b - n) * (b - n) == (b * b) - 2 * (n * b) + (n * n)) by (nonlinear_arith);
        assert((c - n) * (c - n) == (c * c) - 2 * (n * c) + (n * n)) by (nonlinear_arith);
        assert((s - 3 * n) * (s - 3 * n)
            == (s * s) - 6 * (n * a) - 6 * (n * b) - 6 * (n * c) + 9 * (n * n))
            by (nonlinear_arith)
            requires
                s == a + b + c,
        ;
        assert(n * (c - a) == -(n * a) + (n * c)) by (nonlinear_arith);
        assert({
            &&& (a - n) * (a - n) >= 0
            &&& (b - n) * (b - n) >= 0
            &&& (c - n) * (c - n) >= 0
            &&& (s - 3 * n) * (s - 3 * n) >= 0
        }) by (nonlinear_arith);
        assert(n * (c - a) >= 0) by (nonlinear_arith)
            requires
                n > 0,
                c - a >= 0,
        ;
    }
}

/// The point lies in the upper tetrahedron, its third coordinate is no
/// smaller than the others, and the score of the opposite corner is no
/// smaller than the other two coordinates.
pub open spec fn upper_apart_z(n: int, a: int, b: int, c: int) -> bool {
    &&& n > 0
    &&& a >= 0
    &&& b >= 0
    &&& n - c >= 0
    &&& c - a >= 0
    &&& c - b >= 0
    &&& a + b + c - 2 * n >= 0
    &&& 3 * n - (a + b + c) - a >= 0
    &&& 3 * n - (a + b + c) - b >= 0
}

/// Where the corners without the first two axes are the two nearest, no
/// vertex near the upper tetrahedron but its corners and the vertices one
/// and two cells along the third axis weighs more than a sixth.
proof fn lemma_upper_apart_z(n: int, a: int, b: int, c: int, i: int, j: int, k: int)
    requires
        upper_apart_z(n, a, b, c),
        ({
            ||| (i == 0 && j == 1 && k == 0)
            ||| (i == 0 && j == 1 && k == 2)
            ||| (i == 0 && j == 2 && k == 0)
            ||| (i == 0 && j == 2 && k == 1)
            ||| (i == 1 && j == 0 && k == 0)
            ||| (i == 1 && j == 0 && k == 2)
            ||| (i == 1 && j == 2 && k == 0)
            ||| (i == 2 && j == 0 && k == 0)
            ||| (i == 2 && j == 0 && k == 1)
            ||| (i == 2 && j == 1 && k == 0)
        }),
    ensures
        6 * distance3(n, a, b, c, i, j, k) >= 11 * (n * n),
{
    let s = a + b + c;
    if i == 0 && j == 1 && k == 0 {
        assert((b - n) * (b - n) == (b * b) - 2 * (n * b) + (n * n)) by (nonlinear_arith);
        assert((s - n) * (s - n)
            == (s * s) - 2 * (n * a) - 2 * (n * b) - 2 * (n * c) + (n * n)) by (nonlinear_arith)
            requires
                s == a + b + c,
        ;
        assert((6 * a - 2 * n) * (6 * a - 2 * n)
            == 36 * (a * a) - 24 * (n * a) + 4 * (n * n)) by (nonlinear_arith);
        assert((6 * b - 5 * n) * (6 * b - 5 * n)
            == 36 * (b * b) - 60 * (n * b) + 25 * (n * n)) by (nonlinear_arith);
        assert((6 * c - 5 * n) * (6 * c - 5 * n)
            == 36 * (c * c) - 60 * (n * c) + 25 * (n * n)) by (nonlinear_arith);
        assert((6 * s - 12 * n) * (6 * s - 12 * n)
            == 36 * (s * s) - 144 * (n * a) - 144 * (n * b) - 144 * (n * c) + 144 * (n * n))
            by (nonlinear_arith)
            requires
                s == a + b + c,
        ;
        assert(n * (c - b) == -(n * b) + (n * c)) by (nonlinear_arith);
        assert(n * (a + b + c - 2 * n)
            == (n * a) + (n * b) + (n * c) - 2 * (n * n)) by (nonlinear_arith);
        assert({
            &&& (6 * a - 2 * n) * (6 * a - 2 * n) >= 0
            &&& (6 * b - 5 * n) * (6 * b - 5 * n) >= 0
            &&& (6 * c - 5 * n) * (6 * c - 5 * n) >= 0
            &&& (6 * s - 12 * n) * (6 * s - 12 * n) >= 0
        }) by (nonlinear_arith);
        assert(n * (c - b) >= 0) by (nonlinear_arith)
            requires
                n > 0,
                c - b >= 0,
        ;
        assert(n * (a + b + c - 2 * n) >= 0) by (nonlinear_arith)
            requires
                n > 0,
                a + b + c - 2 * n >= 0,
        ;
    }
    if i == 0 && j == 1 && k == 2 {
        assert((b - n) * (b - n) == (b * b) - 2 * (n * b) + (n * n)) by (nonlinear_arith);
        assert((c - 2 * n) * (c - 2 * n)
            == (c * c) - 4 * (n * c) + 4 * (n * n)) by (nonlinear_arith);
        assert((s - 3 * n) * (s - 3 * n)
            == (s * s) - 6 * (n * a) - 6 * (n * b) - 6 * (n * c) + 9 * (n * n))
            by (nonlinear_arith)
            requires
                s == a + b + c,
        ;
        assert((6 * a - 2 * n) * (6 * a - 2 * n)
            == 36 * (a * a) - 24 * (n * a) + 4 * (n * n)) by (nonlinear_arith);
        assert((6 * b - 5 * n) * (6 * b - 5 * n)
            == 36 * (b * b) - 60 * (n * b) + 25 * (n * n)) by (nonlinear_arith);
        assert((6 * c - 6 * n) * (6 * c - 6 * n)
            == 36 * (c * c) - 72 * (n * c) + 36 * (n * n)) by (nonlinear_arith);
        assert((6 * s - 13 * n) * (6 * s - 13 * n)
            == 36 * (s * s) - 156 * (n * a) - 156 * (n * b) - 156 * (n * c) + 169 * (n * n))
            by (nonlinear_arith)
            requires
                s == a + b + c,
        ;
        assert(n * (n - c) == -(n * c) + (n * n)) by (nonlinear_arith);
        assert(n * (3 * n - (a + b + c) - b)
            == -(n * a) - 2 * (n * b) - (n * c) + 3 * (n * n)) by (nonlinear_arith);
        assert({
            &&& (6 * a - 2 * n) * (6 * a - 2 * n) >= 0
            &&& (6 * b - 5 * n) * (6 * b - 5 * n) >= 0
            &&& (6 * c - 6 * n) * (6 * c - 6 * n) >= 0
            &&& (6 * s - 13 * n) * (6 * s - 13 * n) >= 0
        }) by (nonlinear_arith);
        assert(n * (n - c) >= 0) by (nonlinear_arith)
            requires
                n > 0,
                n - c >= 0,
        ;
        assert(n * (3 * n - (a + b + c) - b) >= 0) by (nonlinear_arith)
            requires
                n > 0,
                3 * n - (a + b + c) - b >= 0,
        ;
    }
    if i == 0 && j == 2 && k == 0 {
        assert((b - 2 * n) * (b - 2 * n)
            == (b * b) - 4 * (n * b) + 4 * (n * n)) by (nonlinear_arith);
        assert((s - 2 * n) * (s - 2 * n)
            == (s * s) - 4 * (n * a) - 4 * (n * b) - 4 * (n * c) + 4 * (n * n))
            by (nonlinear_arith)
            requires
                s == a + b + c,
        ;
        assert((b - n) * (b - n) == (b * b) - 2 * (n * b) + (n * n)) by (nonlinear_arith);
        assert((c - n) * (c - n) == (c * c) - 2 * (n * c) + (n * n)) by (nonlinear_arith);
        assert((s - 2 * n) * (s - 2 * n)
            == (s * s) - 4 * (n * a) - 4 * (n * b) - 4 * (n * c) + 4 * (n * n))
            by (nonlinear_arith)
            requires
                s == a + b + c,
        ;
        assert(n * (c - b) == -(n * b) + (n * c)) by (nonlinear_arith);
        assert({
            &&& a * a >= 0
            &&& (b - n) * (b - n) >= 0
            &&& (c - n) * (c - n) >= 0
            &&& (s - 2 * n) * (s - 2 * n) >= 0
        }) by (nonlinear_arith);
        assert(n * (c - b) >= 0) by (nonlinear_arith)
            requires
                n > 0,
                c - b >= 0,
        ;
    }
    if i == 0 && j == 2 && k == 1 {
        assert((b - 2 * n) * (b - 2 * n)
            == (b * b) - 4 * (n * b) + 4 * (n * n)) by (nonlinear_arith);
        assert((c - n) * (c - n) == (c * c) - 2 * (n * c) + (n * n)) by (nonlinear_arith);
        assert((s - 3 * n) * (s - 3 * n)
            == (s * s) - 6 * (n * a) - 6 * (n * b) - 6 * (n * c) + 9 * (n * n))
            by (nonlinear_arith)
            requires
                s == a + b + c,
        ;
        assert((b - n) * (b - n) == (b * b) - 2 * (n * b) + (n * n)) by (nonlinear_arith);
        assert((c - n) * (c - n) == (c * c) - 2 * (n * c) + (n * n)) by (nonlinear_arith);
        assert((s - 2 * n) * (s - 2 * n)
            == (s * s) - 4 * (n * a) - 4 * (n * b) - 4 * (n * c) + 4 * (n * n))
            by (nonlinear_arith)
            requires
                s == a + b + c,
        ;
        assert(n * (3 * n - (a + b + c) - b)
            == -(n * a) - 2 * (n * b) - (n * c) + 3 * (n * n)) by (nonlinear_arith);
        assert({
            &&& a * a >= 0
            &&& (b - n) * (b - n) >= 0
            &&& (c - n) * (c - n) >= 0
            &&& (s - 2 * n) * (s - 2 * n) >= 0
        }) by (nonlinear_arith);
        assert(n * (3 * n - (a + b + c) - b) >= 0) by (nonlinear_arith)
            requires
                n > 0,
                3 * n - (a + b + c) - b >= 0,
        ;
    }
    if i == 1 && j == 0 && k == 0 {
        assert((a - n) * (a - n) == (a * a) - 2 * (n * a) + (n * n)) by (nonlinear_arith);
        assert((s - n) * (s - n)
            == (s * s) - 2 * (n * a) - 2 * (n * b) - 2 * (n * c) + (n * n)) by (nonlinear_arith)
            requires
                s == a + b + c,
        ;
        assert((6 * a - 5 * n) * (6 * a - 5 * n)
            == 36 * (a * a) - 60 * (n * a) + 25 * (n * n)) by (nonlinear_arith);
        assert((6 * b - 2 * n) * (6 * b - 2 * n)
            == 36 * (b * b) - 24 * (n * b) + 4 * (n * n)) by (nonlinear_arith);
        assert((6 * c - 5 * n) * (6 * c - 5 * n)
            == 36 * (c * c) - 60 * (n * c) + 25 * (n * n)) by (nonlinear_arith);
        assert((6 * s - 12 * n) * (6 * s - 12 * n)
            == 36 * (s * s) - 144 * (n * a) - 144 * (n * b) - 144 * (n * c) + 144 * (n * n))
            by (nonlinear_arith)
            requires
                s == a + b + c,
        ;
        assert(n * (c - a) == -(n * a) + (n * c)) by (nonlinear_arith);
        assert(n * (a + b + c - 2 * n)
            == (n * a) + (n * b) + (n * c) - 2 * (n * n)) by (nonlinear_arith);
        assert({
            &&& (6 * a - 5 * n) * (6 * a - 5 * n) >= 0
            &&& (6 * b - 2 * n) * (6 * b - 2 * n) >= 0
            &&& (6 * c - 5 * n) * (6 * c - 5 * n) >= 0
            &&& (6 * s - 12 * n) * (6 * s - 12 * n) >= 0
        }) by (nonlinear_arith);
        assert(n * (c - a) >= 0) by (nonlinear_arith)
            requires
                n > 0,
                c - a >= 0,
        ;
        assert(n * (a + b + c - 2 * n) >= 0) by (nonlinear_arith)
            requires
                n > 0,
                a + b + c - 2 * n >= 0,
        ;
    }
    if i == 1 && j == 0 && k == 2 {
        assert((a - n) * (a - n) == (a * a) - 2 * (n * a) + (n * n)) by (nonlinear_arith);
        assert((c - 2 * n) * (c - 2 * n)
            == (c * c) - 4 * (n * c) + 4 * (n * n)) by (nonlinear_arith);
        assert((s - 3 * n) * (s - 3 * n)
            == (s * s) - 6 * (n * a) - 6 * (n * b) - 6 * (n * c) + 9 * (n * n))
            by (nonlinear_arith)
            requires
                s == a + b + c,
        ;
        assert((6 * a - 5 * n) * (6 * a - 5 * n)
            == 36 * (a * a) - 60 * (n * a) + 25 * (n * n)) by (nonlinear_arith);
        assert((6 * b - 2 * n) * (6 * b - 2 * n)
            == 36 * (b * b) - 24 * (n * b) + 4 * (n * n)) by (nonlinear_arith);
        assert((6 * c - 6 * n) * (6 * c - 6 * n)
            == 36 * (c * c) - 72 * (n * c) + 36 * (n * n)) by (nonlinear_arith);
        assert((6 * s - 13 * n) * (6 * s - 13 * n)
            == 36 * (s * s) - 156 * (n * a) - 156 * (n * b) - 156 * (n * c) + 169 * (n * n))
            by (nonlinear_arith)
            requires
                s == a + b + c,
        ;
        assert(n * (n - c) == -(n * c) + (n * n)) by (nonlinear_arith);
        assert(n * (3 * n - (a + b + c) - a)
            == -2 * (n * a) - (n * b) - (n * c) + 3 * (n * n)) by (nonlinear_arith);
        assert({
            &&& (6 * a - 5 * n) * (6 * a - 5 * n) >= 0
            &&& (6 * b - 2 * n) * (6 * b - 2 * n) >= 0
            &&& (6 * c - 6 * n) * (6 * c - 6 * n) >= 0
            &&& (6 * s - 13 * n) * (6 * s - 13 * n) >= 0
        }) by (nonlinear_arith);
        assert(n * (n - c) >= 0) by (nonlinear_arith)
            requires
                n > 0,
                n - c >= 0,
        ;
        assert(n * (3 * n - (a + b + c) - a) >= 0) by (nonlinear_arith)
            requires
                n > 0,
                3 * n - (a + b + c) - a >= 0,
        ;
    }
    if i == 1 && j == 2 && k == 0 {
        assert((a - n) * (a - n) == (a * a) - 2 * (n * a) + (n * n)) by (nonlinear_arith);
        assert((b - 2 * n) * (b - 2 * n)
            == (b * b) - 4 * (n * b) + 4 * (n * n)) by (nonlinear_arith);
        assert((s - 3 * n) * (s - 3 * n)
            == (s * s) - 6 * (n * a) - 6 * (n * b) - 6 * (n * c) + 9 * (n * n))
            by (nonlinear_arith)
            requires
                s == a + b + c,
        ;
        assert((4 * a - 3 * n) * (4 * a - 3 * n)
            == 16 * (a * a) - 24 * (n * a) + 9 * (n * n)) by (nonlinear_arith);
        assert((4 * b - 3 * n) * (4 * b - 3 * n)
            == 16 * (b * b) - 24 * (n * b) + 9 * (n * n)) by (nonlinear_arith);
        assert((4 * c - 3 * n) * (4 * c - 3 * n)
            == 16 * (c * c) - 24 * (n * c) + 9 * (n * n)) by (nonlinear_arith);
        assert((4 * s - 9 * n) * (4 * s - 9 * n)
            == 16 * (s * s) - 72 * (n * a) - 72 * (n * b) - 72 * (n * c) + 81 * (n * n))
            by (nonlinear_arith)
            requires
                s == a + b + c,
        ;
        assert(n * (c - a) == -(n * a) + (n * c)) by (nonlinear_arith);
        assert(n * (c - b) == -(n * b) + (n * c)) by (nonlinear_arith);
        assert(n * (3 * n - (a + b + c) - b)
            == -(n * a) - 2 * (n * b) - (n * c) + 3 * (n * n)) by (nonlinear_arith);
        assert({
            &&& (4 * a - 3 * n) * (4 * a - 3 * n) >= 0
            &&& (4 * b - 3 * n) * (4 * b - 3 * n) >= 0
            &&& (4 * c - 3 * n) * (4 * c - 3 * n) >= 0
            &&& (4 * s - 9 * n) * (4 * s - 9 * n) >= 0
        }) by (nonlinear_arith);
        assert(n * (c - a) >= 0) by (nonlinear_arith)
            requires
                n > 0,
                c - a >= 0,
        ;
        assert(n * (c - b) >= 0) by (nonlinear_arith)
            requires
                n > 0,
                c - b >= 0,
        ;
        assert(n * (3 * n - (a + b + c) - b) >= 0) by (nonlinear_arith)
            requires
                n > 0,
                3 * n - (a + b + c) - b >= 0,
        ;
    }
    if i == 2 && j == 0 && k == 0 {
        assert((a - 2 * n) * (a - 2 * n)
            == (a * a) - 4 * (n * a) + 4 * (n * n)) by (nonlinear_arith);
        assert((s - 2 * n) * (s - 2 * n)
            == (s * s) - 4 * (n * a) - 4 * (n * b) - 4 * (n * c) + 4 * (n * n))
            by (nonlinear_arith)
            requires
                s == a + b + c,
        ;
        assert((a - n) * (a - n) == (a * a) - 2 * (n * a) + (n * n)) by (nonlinear_arith);
        assert((c - n) * (c - n) == (c * c) - 2 * (n * c) + (n * n)) by (nonlinear_arith);
        assert((s - 2 * n) * (s - 2 * n)
            == (s * s) - 4 * (n * a) - 4 * (n * b) - 4 * (n * c) + 4 * (n * n))
            by (nonlinear_arith)
            requires
                s == a + b + c,
        ;
        assert(n * (c - a) == -(n * a) + (n * c)) by (nonlinear_arith);
        assert({
            &&& (a - n) * (a - n) >= 0
            &&& b * b >= 0
            &&& (c - n) * (c - n) >= 0
            &&& (s - 2 * n) * (s - 2 * n) >= 0
        }) by (nonlinear_arith);
        assert(n * (c - a) >= 0) by (nonlinear_arith)
            requires
                n > 0,
                c - a >= 0,
        ;
    }
    if i == 2 && j == 0 && k == 1 {
        assert((a - 2 * n) * (a - 2 * n)
            == (a * a) - 4 * (n * a) + 4 * (n * n)) by (nonlinear_arith);
        assert((c - n) * (c - n) == (c * c) - 2 * (n * c) + (n * n)) by (nonlinear_arith);
        assert((s - 3 * n) * (s - 3 * n)
            == (s * s) - 6 * (n * a) - 6 * (n * b) - 6 * (n * c) + 9 * (n * n))
            by (nonlinear_arith)
            requires
                s == a + b + c,
        ;
        assert((a - n) * (a - n) == (a * a) - 2 * (n * a) + (n * n)) by (nonlinear_arith);
        assert((c - n) * (c - n) == (c * c) - 2 * (n * c) + (n * n)) by (nonlinear_arith);
        assert((s - 2 * n) * (s - 2 * n)
            == (s * s) - 4 * (n * a) - 4 * (n * b) - 4 * (n * c) + 4 * (n * n))
            by (nonlinear_arith)
            requires
                s == a + b + c,
        ;
        assert(n * (3 * n - (a + b + c) - a)
            == -2 * (n * a) - (n * b) - (n * c) + 3 * (n * n)) by (nonlinear_arith);
        assert({
            &&& (a - n) * (a - n) >= 0
            &&& b * b >= 0
            &&& (c - n) * (c - n) >= 0
            &&& (s - 2 * n) * (s - 2 * n) >= 0
        }) by (nonlinear_arith);
        assert(n * (3 * n - (a + b + c) - a) >= 0) by (nonlinear_arith)
            requires
                n > 0,
                3 * n - (a + b + c) - a >= 0,
        ;
    }
    if i == 2 && j == 1 && k == 0 {
        assert((a - 2 * n) * (a - 2 * n)
            == (a * a) - 4 * (n * a) + 4 * (n * n)) by (nonlinear_arith);
        assert((b - n) * (b - n) == (b * b) - 2 * (n * b) + (n * n)) by (nonlinear_arith);
        assert((s - 3 * n) * (s - 3 * n)
            == (s * s) - 6 * (n * a) - 6 * (n * b) - 6 * (n * c) + 9 * (n * n))
            by (nonlinear_arith)
            requires
                s == a + b + c,
        ;
        assert((4 * a - 3 * n) * (4 * a - 3 * n)
            == 16 * (a * a) - 24 * (n * a) + 9 * (n * n)) by (nonlinear_arith);
        assert((4 * b - 3 * n) * (4 * b - 3 * n)
            == 16 * (b * b) - 24 * (n * b) + 9 * (n * n)) by (nonlinear_arith);
        assert((4 * c - 3 * n) * (4 * c - 3 * n)
            == 16 * (c * c) - 24 * (n * c) + 9 * (n * n)) by (nonlinear_arith);
        assert((4 * s - 9 * n) * (4 * s - 9 * n)
            == 16 * (s * s) - 72 * (n * a) - 72 * (n * b) - 72 * (n * c) + 81 * (n * n))
            by (nonlinear_arith)
            requires
                s == a + b + c,
        ;
        assert(n * (c - a) == -(n * a) + (n * c)) by (nonlinear_arith);
        assert(n * (c - b) == -(n * b) + (n * c)) by (nonlinear_arith);
        assert(n * (3 * n - (a + b + c) - a)
            == -2 * (n * a) - (n * b) - (n * c) + 3 * (n * n)) by (nonlinear_arith);
        assert({
            &&& (4 * a - 3 * n) * (4 * a - 3 * n) >= 0
            &&& (4 * b - 3 * n) * (4 * b - 3 * n) >= 0
            &&& (4 * c - 3 * n) * (4 * c - 3 * n) >= 0
            &&& (4 * s - 9 * n) * (4 * s - 9 * n) >= 0
        }) by (nonlinear_arith);
        assert(n * (c - a) >= 0) by (nonlinear_arith)
            requires
                n > 0,
                c - a >= 0,
        ;
        assert(n * (c - b) >= 0) by (nonlinear_arith)
            requires
                n > 0,
                c - b >= 0,
        ;
        assert(n * (3 * n - (a + b + c) - a) >= 0) by (nonlinear_arith)
            requires
                n > 0,
                3 * n - (a + b + c) - a >= 0,
        ;
    }
}

/// The point lies in the octahedron, the sums with the first coordinate are
/// at least one, and the sum without it is no further from one than they
/// are.
pub open spec fn middle_far_x(n: int, a: int, b: int, c: int) -> bool {
    &&& n > 0
    &&& a >= 0
    &&& b >= 0
    &&& c >= 0
    &&& n - a >= 0
    &&& n - b >= 0
    &&& n - c >= 0
    &&& 2 * n - (a + b + c) >= 0
    &&& a + b - n >= 0
    &&& a + c - n >= 0
    &&& a + b - n - (b + c - n) >= 0
    &&& a + b - n - (n - (b + c)) >= 0
    &&& a + c - n - (b + c - n) >= 0
    &&& a + c - n - (n - (b + c)) >= 0
}

/// Where the corners without the last two axes are the two nearest of the
/// octahedron, no vertex near it but its corners, the opposite corner and
/// the vertex two cells along the first axis weighs anything.
proof fn lemma_middle_far_x(n: int, a: int, b: int, c: int, i: int, j: int, k: int)
    requires
        middle_far_x(n, a, b, c),
        ({
            ||| (i == -1 && j == 1 && k == 1)
            ||| (i == 0 && j == 0 && k == 0)
            ||| (i == 0 && j == 0 && k == 2)
            ||| (i == 0 && j == 2 && k == 0)
            ||| (i == 1 && j == -1 && k == 1)
            ||| (i == 1 && j == 1 && k == -1)
        }),
    ensures
        distance3(n, a, b, c, i, j, k) >= 2 * (n * n),
{
    let s = a + b + c;
    if i == -1 && j == 1 && k == 1 {
        assert((a + n) * (a + n) == (a * a) + 2 * (n * a) + (n * n)) by (nonlinear_arith);
        assert((b - n) * (b - n) == (b * b) - 2 * (n * b) + (n * n)) by (nonlinear_arith);
        assert((c - n) * (c - n) == (c * c) - 2 * (n * c) + (n * n)) by (nonlinear_arith);
        assert((s - n) * (s - n)
            == (s * s) - 2 * (n * a) - 2 * (n * b) - 2 * (n * c) + (n * n)) by (nonlinear_arith)
            requires
                s == a + b + c,
        ;
        assert((2 * a - n) * (2 * a - n)
            == 4 * (a * a) - 4 * (n * a) + (n * n)) by (nonlinear_arith);
        assert((2 * b - n) * (2 * b - n)
            == 4 * (b * b) - 4 * (n * b) + (n * n)) by (nonlinear_arith);
        assert((2 * c - n) * (2 * c - n)
            == 4 * (c * c) - 4 * (n * c) + (n * n)) by (nonlinear_arith);
        assert((2 * s - 3 * n) * (2 * s - 3 * n)
            == 4 * (s * s) - 12 * (n * a) - 12 * (n * b) - 12 * (n * c) + 9 * (n * n))
            by (nonlinear_arith)
            requires
                s == a + b + c,
        ;
        assert(n * (a + b - n) == (n * a) + (n * b) - (n * n)) by (nonlinear_arith);
        assert(n * (a + c - n - (b + c - n)) == (n * a) - (n * b)) by (nonlinear_arith);
        assert({
            &&& (2 * a - n) * (2 * a - n) >= 0
            &&& (2 * b - n) * (2 * b - n) >= 0
            &&& (2 * c - n) * (2 * c - n) >= 0
            &&& (2 * s - 3 * n) * (2 * s - 3 * n) >= 0
        }) by (nonlinear_arith);
        assert(n * (a + b - n) >= 0) by (nonlinear_arith)
            requires
                n > 0,
                a + b - n >= 0,
        ;
        assert(n * (a + c - n - (b + c - n)) >= 0) by (nonlinear_arith)
            requires
                n > 0,
                a + c - n - (b + c - n) >= 0,
        ;
    }
    if i == 0 && j == 0 && k == 0 {
        assert((2 * a - n) * (2 * a - n)
            == 4 * (a * a) - 4 * (n * a) + (n * n)) by (nonlinear_arith);
        assert((2 * b - n) * (2 * b - n)
            == 4 * (b * b) - 4 * (n * b) + (n * n)) by (nonlinear_arith);
        assert((2 * c - n) * (2 * c - n)
            == 4 * (c * c) - 4 * (n * c) + (n * n)) by (nonlinear_arith);
        assert((2 * s - 3 * n) * (2 * s - 3 * n)
            == 4 * (s * s) - 12 * (n * a) - 12 * (n * b) - 12 * (n * c) + 9 * (n * n))
            by (nonlinear_arith)
            requires
                s == a + b + c,
        ;
        assert(n * (a + b - n) == (n * a) + (n * b) - (n * n)) by (nonlinear_arith);
        assert(n * (a + c - n - (n - (b + c)))
            == (n * a) + (n * b) + 2 * (n * c) - 2 * (n * n)) by (nonlinear_arith);
        assert({
            &&& (2 * a - n) * (2 * a - n) >= 0
            &&& (2 * b - n) * (2 * b - n) >= 0
            &&& (2 * c - n) * (2 * c - n) >= 0
            &&& (2 * s - 3 * n) * (2 * s - 3 * n) >= 0
        }) by (nonlinear_arith);
        assert(n * (a + b - n) >= 0) by (nonlinear_arith)
            requires
                n > 0,
                a + b - n >= 0,
        ;
        assert(n * (a + c - n - (n - (b + c))) >= 0) by (nonlinear_arith)
            requires
                n > 0,
                a + c - n - (n - (b + c)) >= 0,
        ;
    }
    if i == 0 && j == 0 && k == 2 {
        assert((c - 2 * n) * (c - 2 * n)
            == (c * c) - 4 * (n * c) + 4 * (n * n)) by (nonlinear_arith);
        assert((s - 2 * n) * (s - 2 * n)
            == (s * s) - 4 * (n * a) - 4 * (n * b) - 4 * (n * c) + 4 * (n * n))
            by (nonlinear_arith)
            requires
                s == a + b + c,
        ;
        assert((a - n) * (a - n) == (a * a) - 2 * (n * a) + (n * n)) by (nonlinear_arith);
        assert((c - n) * (c - n) == (c * c) - 2 * (n * c) + (n * n)) by (nonlinear_arith);
        assert((s - 2 * n) * (s - 2 * n)
            == (s * s) - 4 * (n * a) - 4 * (n * b) - 4 * (n * c) + 4 * (n * n))
            by (nonlinear_arith)
            requires
                s == a + b + c,
        ;
        assert(n * (a + b - n - (b + c - n)) == (n * a) - (n * c)) by (nonlinear_arith);
        assert({
            &&& (a - n) * (a - n) >= 0
            &&& b * b >= 0
            &&& (c - n) * (c - n) >= 0
            &&& (s - 2 * n) * (s - 2 * n) >= 0
        }) by (nonlinear_arith);
        assert(n * (a + b - n - (b + c - n)) >= 0) by (nonlinear_arith)
            requires
                n > 0,
                a + b - n - (b + c - n) >= 0,
        ;
    }
    if i == 0 && j == 2 && k == 0 {
        assert((b - 2 * n) * (b - 2 * n)
            == (b * b) - 4 * (n * b) + 4 * (n * n)) by (nonlinear_arith);
        assert((s - 2 * n) * (s - 2 * n)
            == (s * s) - 4 * (n * a) - 4 * (n * b) - 4 * (n * c) + 4 * (n * n))
            by (nonlinear_arith)
            requires
                s == a + b + c,
        ;
        assert((a - n) * (a - n) == (a * a) - 2 * (n * a) + (n * n)) by (nonlinear_arith);
        assert((b - n) * (b - n) == (b * b) - 2 * (n * b) + (n * n)) by (nonlinear_arith);
        assert((s - 2 * n) * (s - 2 * n)
            == (s * s) - 4 * (n * a) - 4 * (n * b) - 4 * (n * c) + 4 * (n * n))
            by (nonlinear_arith)
            requires
                s == a + b + c,
        ;
        assert(n * (a + c - n - (b + c - n)) == (n * a) - (n * b)) by (nonlinear_arith);
        assert({
            &&& (a - n) * (a - n) >= 0
            &&& (b - n) * (b - n) >= 0
            &&& c * c >= 0
            &&& (s - 2 * n) * (s - 2 * n) >= 0
        }) by (nonlinear_arith);
        assert(n * (a + c - n - (b + c - n)) >= 0) by (nonlinear_arith)
            requires
                n > 0,
                a + c - n - (b + c - n) >= 0,
        ;
    }
    if i == 1 && j == -1 && k == 1 {
        assert((a - n) * (a - n) == (a * a) - 2 * (n * a) + (n * n)) by (nonlinear_arith);
        assert((b + n) * (b + n) == (b * b) + 2 * (n * b) + (n * n)) by (nonlinear_arith);
        assert((c - n) * (c - n) == (c * c) - 2 * (n * c) + (n * n)) by (nonlinear_arith);
        assert((s - n) * (s - n)
            == (s * s) - 2 * (n * a) - 2 * (n * b) - 2 * (n * c) + (n * n)) by (nonlinear_arith)
            requires
                s == a + b + c,
        ;
        assert((a - n) * (a - n) == (a * a) - 2 * (n * a) + (n * n)) by (nonlinear_arith);
        assert((c - n) * (c - n) == (c * c) - 2 * (n * c) + (n * n)) by (nonlinear_arith);
        assert((s - 2 * n) * (s - 2 * n)
            == (s * s) - 4 * (n * a) - 4 * (n * b) - 4 * (n * c) + 4 * (n * n))
            by (nonlinear_arith)
            requires
                s == a + b + c,
        ;
        assert(n * (a + b - n - (n - (b + c)))
            == (n * a) + 2 * (n * b) + (n * c) - 2 * (n * n)) by (nonlinear_arith);
        assert({
            &&& (a - n) * (a - n) >= 0
            &&& b * b >= 0
            &&& (c - n) * (c - n) >= 0
            &&& (s - 2 * n) * (s - 2 * n) >= 0
        }) by (nonlinear_arith);
        assert(n * (a + b - n - (n - (b + c))) >= 0) by (nonlinear_arith)
            requires
                n > 0,
                a + b - n - (n - (b + c)) >= 0,
        ;
    }
    if i == 1 && j == 1 && k == -1 {
        assert((a - n) * (a - n) == (a * a) - 2 * (n * a) + (n * n)) by (nonlinear_arith);
        assert((b - n) * (b - n) == (b * b) - 2 * (n * b) + (n * n)) by (nonlinear_arith);
        assert((c + n) * (c + n) == (c * c) + 2 * (n * c) + (n * n)) by (nonlinear_arith);
        assert((s - n) * (s - n)
            == (s * s) - 2 * (n * a) - 2 * (n * b) - 2 * (n * c) + (n * n)) by (nonlinear_arith)
            requires
                s == a + b + c,
        ;
        assert((a - n) * (a - n) == (a * a) - 2 * (n * a) + (n * n)) by (nonlinear_arith);
        assert((b - n) * (b - n) == (b * b) - 2 * (n * b) + (n * n)) by (nonlinear_arith);
        assert((s - 2 * n) * (s - 2 * n)
            == (s * s) - 4 * (n * a) - 4 * (n * b) - 4 * (n * c) + 4 * (n * n))
            by (nonlinear_arith)
            requires
                s == a + b + c,
        ;
        assert(n * (a + c - n - (n - (b + c)))
            == (n * a) + (n * b) + 2 * (n * c) - 2 * (n * n)) by (nonlinear_arith);
        assert({
            &&& (a - n) * (a - n) >= 0
            &&& (b - n) * (b - n) >= 0
            &&& c * c >= 0
            &&& (s - 2 * n) * (s - 2 * n) >= 0
        }) by (nonlinear_arith);
        assert(n * (a + c - n - (n - (b + c))) >= 0) by (nonlinear_arith)
            requires
                n > 0,
                a + c - n - (n - (b + c)) >= 0,
        ;
    }
}

/// `(i, j, k)` lies at most one step outside the cell and the lower
/// tetrahedron together.
pub open spec fn near_lower(i: int, j: int, k: int) -> bool {
    gap(0, 1, i) + gap(0, 1, j) + gap(0, 1, k) + gap(0, 1, i + j + k) <= 1
}

/// `(i, j, k)` lies at most one step outside the cell and the octahedron
/// together.
pub open spec fn near_middle(i: int, j: int, k: int) -> bool {
    gap(0, 1, i) + gap(0, 1, j) + gap(0, 1, k) + gap(1, 2, i + j + k) <= 1
}

/// `(i, j, k)` lies at most one step outside the cell and the upper
/// tetrahedron together.
pub open spec fn near_upper(i: int, j: int, k: int) -> bool {
    gap(0, 1, i) + gap(0, 1, j) + gap(0, 1, k) + gap(2, 3, i + j + k) <= 1
}

/// In the lower tetrahedron a vertex that is no corner and none of the two
/// extras weighs a sixth at most.
proof fn lemma_lower_bounded(n: int, a: int, b: int, c: int, i: int, j: int, k: int)
    requires
        in_lower(n, a, b, c),
        !chosen3(n, a, b, c, i, j, k),
    ensures
        6 * distance3(n, a, b, c, i, j, k) >= 11 * (n * n),
{
    if !near_lower(i, j, k) {
        lemma_outside(n, a, b, c, 0, 1, i, j, k);
    } else {
        let w = n - (a + b + c);
        let p = spec_pair_lower(a, b, c);
        if w > p.a_score || w > p.b_score {
            match if p.b_score > p.a_score { p.b } else { p.a } {
                Axis::X => {
                    lemma_lower_near_x(n, a, b, c, i, j, k);
                },
                Axis::Y => {
                    lemma_lower_near_x(n, b, a, c, j, i, k);
                    lemma_swap_xy(n, a, b, c, i, j, k);
                },
                Axis::Z => {
                    lemma_lower_near_x(n, c, b, a, k, j, i);
                    lemma_swap_xz(n, a, b, c, i, j, k);
                },
            }
        } else {
            match third_axis(p.a, p.b) {
                Axis::Z => {
                    lemma_lower_apart_z(n, a, b, c, i, j, k);
                },
                Axis::Y => {
                    lemma_lower_apart_z(n, a, c, b, i, k, j);
                    lemma_swap_yz(n, a, b, c, i, j, k);
                },
                Axis::X => {
                    lemma_lower_apart_z(n, c, b, a, k, j, i);
                    lemma_swap_xz(n, a, b, c, i, j, k);
                },
            }
        }
    }
}

/// In the upper tetrahedron a vertex that is no corner and none of the two
/// extras weighs a sixth at most.
proof fn lemma_upper_bounded(n: int, a: int, b: int, c: int, i: int, j: int, k: int)
    requires
        in_upper(n, a, b, c),
        !chosen3(n, a, b, c, i, j, k),
    ensures
        6 * distance3(n, a, b, c, i, j, k) >= 11 * (n * n),
{
    if !near_upper(i, j, k) {
        lemma_outside(n, a, b, c, 2, 3, i, j, k);
    } else {
        let w = 3 * n - (a + b + c);
        let p = spec_pair_upper(a, b, c);
        if w < p.a_score || w < p.b_score {
            match if p.b_score < p.a_score { p.b } else { p.a } {
                Axis::X => {
                    lemma_upper_near_x(n, a, b, c, i, j, k);
                },
                Axis::Y => {
                    lemma_upper_near_x(n, b, a, c, j, i, k);
                    lemma_swap_xy(n, a, b, c, i, j, k);
                },
                Axis::Z => {
                    lemma_upper_near_x(n, c, b, a, k, j, i);
                    lemma_swap_xz(n, a, b, c, i, j, k);
                },
            }
        } else {
            match third_axis(p.a, p.b) {
                Axis::Z => {
                    lemma_upper_apart_z(n, a, b, c, i, j, k);
                },
                Axis::Y => {
                    lemma_upper_apart_z(n, a, c, b, i, k, j);
                    lemma_swap_yz(n, a, b, c, i, j, k);
                },
                Axis::X => {
                    lemma_upper_apart_z(n, c, b, a, k, j, i);
                    lemma_swap_xz(n, a, b, c, i, j, k);
                },
            }
        }
    }
}

/// In the octahedron a vertex that is no corner and none of the two extras
/// weighs nothing.
proof fn lemma_middle_complete(n: int, a: int, b: int, c: int, i: int, j: int, k: int)
    requires
        in_middle(n, a, b, c),
        !chosen3(n, a, b, c, i, j, k),
    ensures
        distance3(n, a, b, c, i, j, k) >= 2 * (n * n),
{
    if !near_middle(i, j, k) {
        lemma_outside(n, a, b, c, 1, 2, i, j, k);
    } else {
        let poles = spec_poles(
            a + b > n,
            a + c > n,
            b + c > n,
            apart(a + b, n),
            apart(a + c, n),
            apart(b + c, n),
        );
        let (p, q) = poles;
        if p.far == q.far {
            match third_axis(p.axis, q.axis) {
                Axis::X => {
                    if p.far {
                        lemma_middle_far_x(n, a, b, c, i, j, k);
                    } else {
                        lemma_middle_near_x(n, a, b, c, i, j, k);
                    }
                },
                Axis::Y => {
                    if p.far {
                        lemma_middle_far_x(n, b, a, c, j, i, k);
                    } else {
                        lemma_middle_near_x(n, b, a, c, j, i, k);
                    }
                    lemma_swap_xy(n, a, b, c, i, j, k);
                },
                Axis::Z => {
                    if p.far {
                        lemma_middle_far_x(n, c, b, a, k, j, i);
                    } else {
                        lemma_middle_near_x(n, c, b, a, k, j, i);
                    }
                    lemma_swap_xz(n, a, b, c, i, j, k);
                },
            }
        } else {
            let (f, m) = if p.far {
                (p.axis, q.axis)
            } else {
                (q.axis, p.axis)
            };
            lemma_turn(n, a, b, c, i, j, k);
            match (f, m) {
                (Axis::Z, Axis::Y) => {
                    lemma_middle_mixed_zy(n, a, b, c, i, j, k);
                },
                (Axis::Y, Axis::Z) => {
                    lemma_middle_mixed_zy(n, a, c, b, i, k, j);
                    lemma_swap_yz(n, a, b, c, i, j, k);
                },
                (Axis::Z, Axis::X) => {
                    lemma_middle_mixed_zy(n, b, a, c, j, i, k);
                    lemma_swap_xy(n, a, b, c, i, j, k);
                },
                (Axis::X, Axis::Y) => {
                    lemma_middle_mixed_zy(n, c, b, a, k, j, i);
                    lemma_swap_xz(n, a, b, c, i, j, k);
                },
                (Axis::Y, Axis::X) => {
                    lemma_middle_mixed_zy(n, c, a, b, k, i, j);
                },
                _ => {
                    lemma_middle_mixed_zy(n, b, c, a, j, k, i);
                },
            }
        }
    }
}

/// A coordinate of the cell is at least two cells away from a step that
/// lies two or more cells before the cell or three or more after its base
/// corner.
proof fn lemma_far_step(n: int, x: int, i: int)
    requires
        n > 0,
        0 <= x <= n,
        i <= -2 || i >= 3,
    ensures
        (x - i * n) * (x - i * n) >= 2 * n * n,
{
    if i <= -2 {
        assert((x - i * n) * (x - i * n) >= 2 * n * n) by (nonlinear_arith)
            requires
                n > 0,
                0 <= x,
                i <= -2,
        ;
    } else {
        assert((x - i * n) * (x - i * n) >= 2 * n * n) by (nonlinear_arith)
            requires
                n > 0,
                x <= n,
                i >= 3,
        ;
    }
}

/// A vertex that reaches a point of a cell lies between one cell before the
/// cell and two cells after its base corner along every axis.
pub proof fn lemma_reach_is_near(n: int, a: int, b: int, c: int, i: int, j: int, k: int)
    requires
        cell3(n, a, b, c),
        reaches3(n, a, b, c, i, j, k),
    ensures
        -1 <= i <= 2,
        -1 <= j <= 2,
        -1 <= k <= 2,
{
    let u = a - i * n;
    let v = b - j * n;
    let w = c - k * n;
    assert(u * u >= 0 && v * v >= 0 && w * w >= 0 && (u + v + w) * (u + v + w) >= 0)
        by (nonlinear_arith);
    if i <= -2 || i >= 3 {
        lemma_far_step(n, a, i);
    }
    if j <= -2 || j >= 3 {
        lemma_far_step(n, b, j);
    }
    if k <= -2 || k >= 3 {
        lemma_far_step(n, c, k);
    }
}

/// In the octahedron the vertices of a point are all that reach it: in
/// exact arithmetic every lattice vertex with a positive weight at the
/// point is a corner of the octahedron or one of the two extras.
pub proof fn lemma_octahedron_complete(n: int, a: int, b: int, c: int, i: int, j: int, k: int)
    requires
        in_middle(n, a, b, c),
        reaches3(n, a, b, c, i, j, k),
    ensures
        chosen3(n, a, b, c, i, j, k),
{
    if !chosen3(n, a, b, c, i, j, k) {
        lemma_middle_complete(n, a, b, c, i, j, k);
        assert(2 * n * n == 2 * (n * n)) by (nonlinear_arith);
    }
}

/// In the two tetrahedra a vertex that is not among those of the point
/// weighs a sixth at most: its squared distance is no less than eleven
/// sixths.
pub proof fn lemma_tetrahedra_bounded(n: int, a: int, b: int, c: int, i: int, j: int, k: int)
    requires
        in_lower(n, a, b, c) || in_upper(n, a, b, c),
        !chosen3(n, a, b, c, i, j, k),
    ensures
        6 * distance3(n, a, b, c, i, j, k) >= 11 * (n * n),
{
    if in_lower(n, a, b, c) {
        lemma_lower_bounded(n, a, b, c, i, j, k);
    } else {
        lemma_upper_bounded(n, a, b, c, i, j, k);
    }
}

/// Not every vertex that reaches a point of space is among the vertices of
/// the point: at `(0, 1 / 6, 1 / 6)` of the lower tetrahedron the vertex
/// `(-1, 1, 0)` weighs a sixth, as much as the extra `(-1, 0, 1)` that
/// stands in its place. The sum over the vertices of a point of space can
/// therefore step where the extras change.
pub proof fn lemma_tetrahedron_leaves_out()
    ensures
        cell3(6, 0, 1, 1),
        stands(exact_extras3(6, 0, 1, 1).0, -1, 0, 1),
        stands(exact_extras3(6, 0, 1, 1).1, 0, -1, 1),
        !chosen3(6, 0, 1, 1, -1, 1, 0),
        reaches3(6, 0, 1, 1, -1, 1, 0),
        distance3(6, 0, 1, 1, -1, 1, 0) == distance3(6, 0, 1, 1, -1, 0, 1),
        6 * distance3(6, 0, 1, 1, -1, 1, 0) == 11 * (6 * 6),
{
    assert(distance3(6, 0, 1, 1, -1, 1, 0) == 66) by (nonlinear_arith);
    assert(distance3(6, 0, 1, 1, -1, 0, 1) == 66) by (nonlinear_arith);
}

} // verus!
