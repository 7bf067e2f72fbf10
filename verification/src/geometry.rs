//! Which particles an observer sees: the distance cull and the view cone.
//!
//! Distances and cosines of angles between integer vectors are irrational in
//! general. Every test here is therefore stated, and decided, on squares,
//! which are integers: the decisions are exact.

use crate::types::{Camera, RawAtom};
use crate::wide::product_le;
use vstd::prelude::*;

verus! {

/// Stored coordinates lie strictly between minus and plus this bound.
pub const COORD_LIMIT: i64 = 0x20_0000_0000_0000;

/// A vector with integer components.
pub struct Offset {
    pub x: int,
    pub y: int,
    pub z: int,
}

/// The scalar product of two vectors.
pub open spec fn dot(a: Offset, b: Offset) -> int {
    a.x * b.x + a.y * b.y + a.z * b.z
}

/// The squared length of a vector.
pub open spec fn norm_sq(a: Offset) -> int {
    dot(a, a)
}

/// Whether all three coordinates of a particle are within [`COORD_LIMIT`].
pub open spec fn in_bounds(atom: RawAtom) -> bool {
    &&& -COORD_LIMIT < atom.x < COORD_LIMIT
    &&& -COORD_LIMIT < atom.y < COORD_LIMIT
    &&& -COORD_LIMIT < atom.z < COORD_LIMIT
}

/// The vector from the observer to a particle.
pub open spec fn to_particle(camera: Camera, atom: RawAtom) -> Offset {
    Offset { x: atom.x - camera.x, y: atom.y - camera.y, z: atom.z - camera.z }
}

/// The squared distance from the observer to a particle.
pub open spec fn distance_sq(camera: Camera, atom: RawAtom) -> int {
    norm_sq(to_particle(camera, atom))
}

/// The direction in which the observer looks: from its position to its
/// target, or straight down the negative z axis where the two coincide.
pub open spec fn view_direction(camera: Camera) -> Offset {
    let v = Offset {
        x: camera.target_x - camera.x,
        y: camera.target_y - camera.y,
        z: camera.target_z - camera.z,
    };
    if v.x == 0 && v.y == 0 && v.z == 0 {
        Offset { x: 0, y: 0, z: -1 }
    } else {
        v
    }
}

/// Whether a squared distance is within four fifths of the far plane.
///
/// A distance `d` is at most `0.8 * far` exactly when `far` is not negative
/// and `25 * d * d <= 16 * far * far`.
pub open spec fn within_reach(dist_sq: int, far: int) -> bool {
    far >= 0 && 25 * dist_sq <= 16 * (far * far)
}

/// Whether the cosine of the angle between `view` and `to`, neither of them
/// zero, is at least `cone_cos` thousandths.
///
/// The cosine is `dot(view, to)` over the product of the two lengths. With
/// `lhs = 1000 * dot(view, to)` and `rhs = cone_cos * |view| * |to|` the test
/// is `lhs >= rhs`; the sign of `rhs` is that of `cone_cos`, and its square is
/// an integer.
pub open spec fn inside_cone(view: Offset, to: Offset, cone_cos: int) -> bool {
    let lhs = dot(view, to) * 1000;
    let rhs_sq = cone_cos * cone_cos * norm_sq(view) * norm_sq(to);
    if cone_cos <= 0 {
        lhs >= 0 || lhs * lhs <= rhs_sq
    } else {
        lhs >= 0 && lhs * lhs >= rhs_sq
    }
}

/// Whether the observer sees a particle: it is within reach of the far
/// plane, and it is at the observer's own position or inside the view cone.
pub open spec fn is_visible(camera: Camera, far: int, cone_cos: int, atom: RawAtom) -> bool {
    &&& within_reach(distance_sq(camera, atom), far)
    &&& (distance_sq(camera, atom) == 0 || inside_cone(
        view_direction(camera),
        to_particle(camera, atom),
        cone_cos,
    ))
}

/// The half-angle of the view cone for a field of view, both in thousandths
/// of a radian: six tenths of the field of view, which is wider than half of
/// it, so that particles near the edge are kept.
pub open spec fn cone_half_angle(fov: int) -> int {
    (fov * 3) / 5
}

/// Computes [`cone_half_angle`] for a field of view that is not negative.
pub fn widened_half_angle(fov: u32) -> (angle: u32)
    ensures
        angle == cone_half_angle(fov as int),
{
    ((fov as u64 * 3) / 5) as u32
}

/// Decides [`in_bounds`].
pub fn within_bounds(atom: &RawAtom) -> (inside: bool)
    ensures
        inside == in_bounds(*atom),
{
    -COORD_LIMIT < atom.x && atom.x < COORD_LIMIT && -COORD_LIMIT < atom.y && atom.y < COORD_LIMIT
        && -COORD_LIMIT < atom.z && atom.z < COORD_LIMIT
}

/// A wider cone holds whatever a narrower one holds: what is inside the cone
/// of one cosine is inside the cone of every smaller cosine.
pub proof fn lemma_cone_widens(view: Offset, to: Offset, narrow_cos: int, wide_cos: int)
    requires
        inside_cone(view, to, narrow_cos),
        wide_cos <= narrow_cos,
    ensures
        inside_cone(view, to, wide_cos),
{
    let lhs = dot(view, to) * 1000;
    let lengths = norm_sq(view) * norm_sq(to);
    assert(norm_sq(view) >= 0 && norm_sq(to) >= 0) by (nonlinear_arith)
        requires
            norm_sq(view) == view.x * view.x + view.y * view.y + view.z * view.z,
            norm_sq(to) == to.x * to.x + to.y * to.y + to.z * to.z,
    ;
    assert(lengths >= 0) by (nonlinear_arith)
        requires
            lengths == norm_sq(view) * norm_sq(to),
            norm_sq(view) >= 0,
            norm_sq(to) >= 0,
    ;
    assert(narrow_cos * narrow_cos * norm_sq(view) * norm_sq(to) == (narrow_cos * narrow_cos)
        * lengths) by (nonlinear_arith)
        requires
            lengths == norm_sq(view) * norm_sq(to),
    ;
    assert(wide_cos * wide_cos * norm_sq(view) * norm_sq(to) == (wide_cos * wide_cos) * lengths)
        by (nonlinear_arith)
        requires
            lengths == norm_sq(view) * norm_sq(to),
    ;
    if lhs < 0 {
        // both cosines are negative or zero, and the wider one has the larger square
        assert((narrow_cos * narrow_cos) * lengths <= (wide_cos * wide_cos) * lengths)
            by (nonlinear_arith)
            requires
                wide_cos <= narrow_cos <= 0,
                lengths >= 0,
        ;
    } else if wide_cos > 0 {
        assert((wide_cos * wide_cos) * lengths <= (narrow_cos * narrow_cos) * lengths)
            by (nonlinear_arith)
            requires
                0 < wide_cos <= narrow_cos,
                lengths >= 0,
        ;
    }
}

/// What lies straight ahead is inside every cone: a particle in the very
/// direction of the view passes for every cosine up to one.
pub proof fn lemma_axis_is_inside_cone(view: Offset, scale: int, cone_cos: int)
    requires
        scale > 0,
        cone_cos <= 1000,
    ensures
        inside_cone(
            view,
            Offset { x: scale * view.x, y: scale * view.y, z: scale * view.z },
            cone_cos,
        ),
{
    let to = Offset { x: scale * view.x, y: scale * view.y, z: scale * view.z };
    let v = norm_sq(view);
    assert(v >= 0) by (nonlinear_arith)
        requires
            v == view.x * view.x + view.y * view.y + view.z * view.z,
    ;
    assert(dot(view, to) == scale * v) by (nonlinear_arith)
        requires
            v == view.x * view.x + view.y * view.y + view.z * view.z,
            dot(view, to) == view.x * (scale * view.x) + view.y * (scale * view.y) + view.z * (scale
                * view.z),
    ;
    let square = scale * scale;
    assert((scale * view.x) * (scale * view.x) == square * (view.x * view.x)) by (nonlinear_arith)
        requires
            square == scale * scale,
    ;
    assert((scale * view.y) * (scale * view.y) == square * (view.y * view.y)) by (nonlinear_arith)
        requires
            square == scale * scale,
    ;
    assert((scale * view.z) * (scale * view.z) == square * (view.z * view.z)) by (nonlinear_arith)
        requires
            square == scale * scale,
    ;
    assert(square * (view.x * view.x) + square * (view.y * view.y) + square * (view.z * view.z)
        == square * v) by (nonlinear_arith)
        requires
            v == view.x * view.x + view.y * view.y + view.z * view.z,
    ;
    assert(norm_sq(to) == scale * scale * v);
    let lhs = dot(view, to) * 1000;
    let unit = scale * v;
    assert(unit >= 0) by (nonlinear_arith)
        requires
            unit == scale * v,
            scale > 0,
            v >= 0,
    ;
    assert(lhs >= 0);
    if cone_cos > 0 {
        assert(lhs * lhs == 1_000_000 * (unit * unit)) by (nonlinear_arith)
            requires
                lhs == unit * 1000,
        ;
        assert(cone_cos * cone_cos * norm_sq(view) * norm_sq(to) == (cone_cos * cone_cos) * (unit
            * unit)) by (nonlinear_arith)
            requires
                norm_sq(view) == v,
                norm_sq(to) == scale * scale * v,
                unit == scale * v,
        ;
        assert((cone_cos * cone_cos) * (unit * unit) <= 1_000_000 * (unit * unit))
            by (nonlinear_arith)
            requires
                0 < cone_cos <= 1000,
        ;
    }
}

/// A distance is within reach exactly when five times it is at most four
/// times the far plane.
pub proof fn lemma_reach_boundary(d: int, far: int)
    by (nonlinear_arith)
    requires
        d >= 0,
        far >= 0,
    ensures
        within_reach(d * d, far) <==> 5 * d <= 4 * far,
{
    assert(25 * (d * d) == (5 * d) * (5 * d));
    assert(16 * (far * far) == (4 * far) * (4 * far));
    assert((5 * d) * (5 * d) <= (4 * far) * (4 * far) <==> 5 * d <= 4 * far);
}

proof fn lemma_square_bound(x: int, bound: int)
    by (nonlinear_arith)
    requires
        -bound <= x <= bound,
    ensures
        0 <= x * x <= bound * bound,
{
}

proof fn lemma_product_bound(x: int, y: int, bx: int, by: int)
    by (nonlinear_arith)
    requires
        -bx <= x <= bx,
        -by <= y <= by,
    ensures
        -(bx * by) <= x * y <= bx * by,
{
}

proof fn lemma_square_of_abs(x: int, a: int)
    by (nonlinear_arith)
    requires
        a == x || a == -x,
    ensures
        a * a == x * x,
{
}

/// The sum of the squares of three numbers of at most 54 bits.
fn square_sum(x: i128, y: i128, z: i128) -> (sum: u128)
    requires
        -0x40_0000_0000_0000 <= x <= 0x40_0000_0000_0000,
        -0x40_0000_0000_0000 <= y <= 0x40_0000_0000_0000,
        -0x40_0000_0000_0000 <= z <= 0x40_0000_0000_0000,
    ensures
        sum == x * x + y * y + z * z,
        sum <= 3 * 0x1000_0000_0000_0000_0000_0000_0000,
{
    proof {
        lemma_square_bound(x as int, 0x40_0000_0000_0000);
        lemma_square_bound(y as int, 0x40_0000_0000_0000);
        lemma_square_bound(z as int, 0x40_0000_0000_0000);
        assert(0x40_0000_0000_0000int * 0x40_0000_0000_0000int
            == 0x1000_0000_0000_0000_0000_0000_0000);
    }
    (x * x + y * y + z * z) as u128
}

/// Decides [`is_visible`] and, for a particle that is seen, gives its squared
/// distance from the observer.
pub fn visible_distance(camera: &Camera, far: i32, cone_cos: i32, atom: &RawAtom) -> (seen: Option<
    u128,
>)
    requires
        in_bounds(*atom),
    ensures
        seen.is_some() == is_visible(*camera, far as int, cone_cos as int, *atom),
        seen.is_some() ==> seen.unwrap() == distance_sq(*camera, *atom),
{
    let dx: i128 = atom.x as i128 - camera.x as i128;
    let dy: i128 = atom.y as i128 - camera.y as i128;
    let dz: i128 = atom.z as i128 - camera.z as i128;
    let dist_sq: u128 = square_sum(dx, dy, dz);
    if far < 0 {
        return None;
    }
    let reach: u128 = far as u128;
    assert(reach * reach <= 0x4000_0000_0000_0000) by (nonlinear_arith)
        requires
            reach <= 0x8000_0000,
    ;
    if 25 * dist_sq > 16 * (reach * reach) {
        return None;
    }
    if dist_sq == 0 {
        return Some(dist_sq);
    }
    let mut vx: i128 = camera.target_x as i128 - camera.x as i128;
    let mut vy: i128 = camera.target_y as i128 - camera.y as i128;
    let mut vz: i128 = camera.target_z as i128 - camera.z as i128;
    if vx == 0 && vy == 0 && vz == 0 {
        vz = -1;
    }
    let ghost view = view_direction(*camera);
    let ghost to = to_particle(*camera, *atom);
    assert(view.x == vx && view.y == vy && view.z == vz);
    proof {
        lemma_product_bound(vx as int, dx as int, 0x1_0000_0000, 0x40_0000_0000_0000);
        lemma_product_bound(vy as int, dy as int, 0x1_0000_0000, 0x40_0000_0000_0000);
        lemma_product_bound(vz as int, dz as int, 0x1_0000_0000, 0x40_0000_0000_0000);
        lemma_square_bound(vx as int, 0x1_0000_0000);
        lemma_square_bound(vy as int, 0x1_0000_0000);
        lemma_square_bound(vz as int, 0x1_0000_0000);
        lemma_square_bound(cone_cos as int, 0x8000_0000);
    }
    let scalar: i128 = vx * dx + vy * dy + vz * dz;
    let lhs: i128 = scalar * 1000;
    let lhs_abs: u128 = if lhs < 0 {
        (-lhs) as u128
    } else {
        lhs as u128
    };
    let view_sq: u128 = (vx * vx + vy * vy + vz * vz) as u128;
    let cos_sq: u128 = (cone_cos as i128 * cone_cos as i128) as u128;
    assert(cos_sq * view_sq <= 0x4000_0000_0000_0000 * (3 * 0x1_0000_0000_0000_0000))
        by (nonlinear_arith)
        requires
            cos_sq <= 0x4000_0000_0000_0000,
            view_sq <= 3 * 0x1_0000_0000_0000_0000,
    ;
    let scaled: u128 = cos_sq * view_sq;
    proof {
        lemma_square_of_abs(lhs as int, lhs_abs as int);
        assert(dot(view, to) == scalar);
        assert(norm_sq(view) == view_sq);
        assert(norm_sq(to) == dist_sq);
        assert(cone_cos * cone_cos * norm_sq(view) * norm_sq(to) == scaled * dist_sq);
    }
    if cone_cos <= 0 {
        if lhs >= 0 || product_le(lhs_abs, lhs_abs, scaled, dist_sq) {
            Some(dist_sq)
        } else {
            None
        }
    } else {
        if lhs >= 0 && product_le(scaled, dist_sq, lhs_abs, lhs_abs) {
            Some(dist_sq)
        } else {
            None
        }
    }
}

} // verus!
