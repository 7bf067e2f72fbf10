//! The particle store's contents: a two-particle molecule for the smallest
//! requests, a cube-packed grid for all others, and the box that bounds them.

use crate::geometry::in_bounds;
use crate::types::RawAtom;
use vstd::arithmetic::div_mod::lemma_multiply_divide_lt;
use vstd::prelude::*;

verus! {

/// The distance, in thousandths, between the two particles of the small
/// molecule.
pub const BOND_LENGTH: i64 = 920;

/// No grid has more particles along an axis than this: its cube exceeds
/// every count that fits in 64 bits.
pub const MAX_AXIS: u64 = 2_642_246;

/// The cube of a number.
pub open spec fn cube(n: int) -> int {
    n * n * n
}

/// Whether `n` is the cube root of `count`, rounded up, and at least one.
pub open spec fn is_axis_count(n: int, count: int) -> bool {
    &&& n >= 1
    &&& count <= cube(n)
    &&& (n == 1 || cube(n - 1) < count)
}

/// The number of particles along each axis of the grid for `count`
/// particles: the cube root of `count`, rounded up, and at least one.
pub open spec fn axis_count(count: nat) -> int {
    choose|n: int| is_axis_count(n, count as int)
}

/// The coordinate of the first particle along each axis, so that the grid is
/// centred on the origin.
pub open spec fn grid_origin(n: int, spacing: int) -> int {
    -(((n - 1) * spacing) / 2)
}

/// The particle with index `i` in a grid of `n` particles along each axis:
/// the index counts along x first, then y, then z, and the element tag cycles
/// through four values.
pub open spec fn grid_atom(i: int, n: int, spacing: int) -> RawAtom {
    let origin = grid_origin(n, spacing);
    RawAtom {
        x: (origin + (i % n) * spacing) as i64,
        y: (origin + ((i / n) % n) * spacing) as i64,
        z: (origin + (i / (n * n)) * spacing) as i64,
        element: (i % 4) as u32,
    }
}

/// The two particles of the small molecule: element 0 at the origin and
/// element 1 one bond length along the x axis.
pub open spec fn small_molecule() -> Seq<RawAtom> {
    seq![
        RawAtom { x: 0, y: 0, z: 0, element: 0 },
        RawAtom { x: BOND_LENGTH, y: 0, z: 0, element: 1 },
    ]
}

/// The particles that a request for `count` particles yields, with `spacing`
/// thousandths between neighbours in the grid.
pub open spec fn dataset(count: nat, spacing: int) -> Seq<RawAtom> {
    if count <= 2 {
        small_molecule().take(count as int)
    } else {
        Seq::new(count, |i: int| grid_atom(i, axis_count(count), spacing))
    }
}

/// The smallest box, with sides along the axes, that holds a set of
/// particles.
#[derive(Clone, Copy, Debug, PartialEq, Eq, Structural)]
pub struct Bounds {
    pub min_x: i64,
    pub max_x: i64,
    pub min_y: i64,
    pub max_y: i64,
    pub min_z: i64,
    pub max_z: i64,
}

/// Whether `bounds` holds every particle and touches one on each of its six
/// faces.
pub open spec fn is_bounding_box(atoms: Seq<RawAtom>, bounds: Bounds) -> bool {
    &&& forall|i: int|
        0 <= i < atoms.len() ==> {
            &&& bounds.min_x <= (#[trigger] atoms[i]).x <= bounds.max_x
            &&& bounds.min_y <= atoms[i].y <= bounds.max_y
            &&& bounds.min_z <= atoms[i].z <= bounds.max_z
        }
    &&& exists|i: int| 0 <= i < atoms.len() && (#[trigger] atoms[i]).x == bounds.min_x
    &&& exists|i: int| 0 <= i < atoms.len() && (#[trigger] atoms[i]).x == bounds.max_x
    &&& exists|i: int| 0 <= i < atoms.len() && (#[trigger] atoms[i]).y == bounds.min_y
    &&& exists|i: int| 0 <= i < atoms.len() && (#[trigger] atoms[i]).y == bounds.max_y
    &&& exists|i: int| 0 <= i < atoms.len() && (#[trigger] atoms[i]).z == bounds.min_z
    &&& exists|i: int| 0 <= i < atoms.len() && (#[trigger] atoms[i]).z == bounds.max_z
}

/// The bounding box of a set of particles that is not empty.
pub open spec fn bounds_of(atoms: Seq<RawAtom>) -> Bounds {
    choose|bounds: Bounds| is_bounding_box(atoms, bounds)
}

/// Cubes grow with their roots.
pub proof fn lemma_cube_monotone(a: int, b: int)
    by (nonlinear_arith)
    requires
        0 <= a <= b,
    ensures
        cube(a) <= cube(b),
{
    assert(a * a <= b * b);
    assert(a * a * a <= b * b * a);
    assert(b * b * a <= b * b * b);
}

/// A count has one rounded-up cube root.
pub proof fn lemma_axis_count_unique(n: int, m: int, count: int)
    requires
        is_axis_count(n, count),
        is_axis_count(m, count),
    ensures
        n == m,
{
    if n < m {
        lemma_cube_monotone(n, m - 1);
    } else if m < n {
        lemma_cube_monotone(m, n - 1);
    }
}

/// A set of particles has one bounding box.
pub proof fn lemma_bounding_box_unique(atoms: Seq<RawAtom>, a: Bounds, b: Bounds)
    requires
        is_bounding_box(atoms, a),
        is_bounding_box(atoms, b),
    ensures
        a == b,
{
}

fn cube_of(n: u64) -> (c: u128)
    requires
        n <= MAX_AXIS,
    ensures
        c == cube(n as int),
{
    assert(n * n <= 2_642_246 * 2_642_246 && n * n * n <= 2_642_246 * 2_642_246 * 2_642_246)
        by (nonlinear_arith)
        requires
            n <= 2_642_246,
    ;
    (n as u128) * (n as u128) * (n as u128)
}

/// Computes [`axis_count`].
pub fn atoms_per_axis(count: usize) -> (n: u64)
    ensures
        is_axis_count(n as int, count as int),
        n == axis_count(count as nat),
        n <= MAX_AXIS,
{
    let mut n: u64 = 1;
    while cube_of(n) < count as u128
        invariant
            1 <= n <= MAX_AXIS,
            n == 1 || cube(n - 1) < count,
        decreases MAX_AXIS - n,
    {
        proof {
            if n >= MAX_AXIS {
                lemma_cube_monotone(MAX_AXIS as int, n as int);
                assert(cube(MAX_AXIS as int) == 18_446_745_128_696_702_936) by (nonlinear_arith)
                    requires
                        MAX_AXIS == 2_642_246,
                ;
            }
        }
        n = n + 1;
    }
    proof {
        assert(is_axis_count(n as int, count as int));
        lemma_axis_count_unique(n as int, axis_count(count as nat), count as int);
    }
    n
}

/// Half of `p`, rounded down.
fn floor_half(p: i64) -> (half: i64)
    requires
        p > i64::MIN,
    ensures
        half == p / 2,
{
    if p >= 0 {
        p / 2
    } else {
        -((-p) / 2 + (-p) % 2)
    }
}

proof fn lemma_scaled_index_bound(index: int, spacing: int)
    by (nonlinear_arith)
    requires
        0 <= index <= 2_642_245,
        -0x8000_0000 <= spacing <= 0x8000_0000,
    ensures
        -(2_642_245 * 0x8000_0000) <= index * spacing <= 2_642_245 * 0x8000_0000,
{
}

/// Computes [`grid_atom`], which lies within the coordinate bound.
fn grid_atom_at(i: u64, n: u64, spacing: i32) -> (atom: RawAtom)
    requires
        1 <= n <= MAX_AXIS,
        i < cube(n as int),
    ensures
        atom == grid_atom(i as int, n as int, spacing as int),
        in_bounds(atom),
{
    assert(1 <= n * n <= 2_642_246 * 2_642_246) by (nonlinear_arith)
        requires
            1 <= n <= 2_642_246,
    ;
    let x_index: u64 = i % n;
    let y_index: u64 = (i / n) % n;
    let z_index: u64 = i / (n * n);
    proof {
        lemma_multiply_divide_lt(i as int, n * n, n as int);
        lemma_scaled_index_bound(n - 1, spacing as int);
        lemma_scaled_index_bound(x_index as int, spacing as int);
        lemma_scaled_index_bound(y_index as int, spacing as int);
        lemma_scaled_index_bound(z_index as int, spacing as int);
    }
    let origin: i64 = -floor_half((n as i64 - 1) * (spacing as i64));
    let step: i64 = spacing as i64;
    RawAtom {
        x: origin + (x_index as i64) * step,
        y: origin + (y_index as i64) * step,
        z: origin + (z_index as i64) * step,
        element: (i % 4) as u32,
    }
}

/// Produces [`dataset`]. Every particle of it lies within the coordinate
/// bound.
pub fn synthesize(count: usize, spacing: i32) -> (atoms: Vec<RawAtom>)
    ensures
        atoms@ == dataset(count as nat, spacing as int),
        forall|i: int| 0 <= i < atoms@.len() ==> in_bounds(#[trigger] atoms@[i]),
{
    let mut atoms: Vec<RawAtom> = Vec::new();
    if count <= 2 {
        if count > 0 {
            atoms.push(RawAtom { x: 0, y: 0, z: 0, element: 0 });
        }
        if count > 1 {
            atoms.push(RawAtom { x: BOND_LENGTH, y: 0, z: 0, element: 1 });
        }
        assert(atoms@ =~= dataset(count as nat, spacing as int));
        return atoms;
    }
    let n: u64 = atoms_per_axis(count);
    let mut i: usize = 0;
    while i < count
        invariant
            i <= count,
            1 <= n <= MAX_AXIS,
            count <= cube(n as int),
            atoms@.len() == i,
            forall|j: int|
                0 <= j < i ==> #[trigger] atoms@[j] == grid_atom(j, n as int, spacing as int),
            forall|j: int| 0 <= j < i ==> in_bounds(#[trigger] atoms@[j]),
        decreases count - i,
    {
        atoms.push(grid_atom_at(i as u64, n, spacing));
        i = i + 1;
    }
    assert(atoms@ =~= dataset(count as nat, spacing as int));
    atoms
}

/// One of the four numbers that a particle contributes to the flat layout:
/// its three coordinates and its element tag.
pub open spec fn component(atom: RawAtom, which: int) -> i64 {
    if which == 0 {
        atom.x
    } else if which == 1 {
        atom.y
    } else if which == 2 {
        atom.z
    } else {
        atom.element as i64
    }
}

/// The store as one flat sequence, four numbers to a particle.
pub open spec fn flat_positions(atoms: Seq<RawAtom>) -> Seq<i64> {
    Seq::new(4 * atoms.len(), |k: int| component(atoms[k / 4], k % 4))
}

/// Produces [`flat_positions`].
pub fn flatten(atoms: &Vec<RawAtom>) -> (positions: Vec<i64>)
    ensures
        positions@ == flat_positions(atoms@),
{
    let mut positions: Vec<i64> = Vec::new();
    let mut i: usize = 0;
    while i < atoms.len()
        invariant
            i <= atoms.len(),
            positions@.len() == 4 * i,
            forall|k: int|
                0 <= k < 4 * i ==> #[trigger] positions@[k] == component(atoms@[k / 4], k % 4),
        decreases atoms.len() - i,
    {
        let atom = atoms[i];
        positions.push(atom.x);
        positions.push(atom.y);
        positions.push(atom.z);
        positions.push(atom.element as i64);
        i = i + 1;
    }
    assert(positions@ =~= flat_positions(atoms@));
    positions
}

/// The bounding box of the particles, or nothing where there are none.
pub fn bounding_box(atoms: &Vec<RawAtom>) -> (bounds: Option<Bounds>)
    ensures
        bounds.is_none() == (atoms@.len() == 0),
        bounds.is_some() ==> is_bounding_box(atoms@, bounds.unwrap()) && bounds.unwrap()
            == bounds_of(atoms@),
{
    if atoms.len() == 0 {
        return None;
    }
    let first = atoms[0];
    let mut bounds = Bounds {
        min_x: first.x,
        max_x: first.x,
        min_y: first.y,
        max_y: first.y,
        min_z: first.z,
        max_z: first.z,
    };
    let mut i: usize = 1;
    assert(atoms@.take(1)[0] == first);
    while i < atoms.len()
        invariant
            1 <= i <= atoms.len(),
            is_bounding_box(atoms@.take(i as int), bounds),
        decreases atoms.len() - i,
    {
        let atom = atoms[i];
        let ghost before = atoms@.take(i as int);
        let ghost after = atoms@.take(i + 1);
        let ghost old_bounds = bounds;
        if atom.x < bounds.min_x {
            bounds.min_x = atom.x;
        }
        if atom.x > bounds.max_x {
            bounds.max_x = atom.x;
        }
        if atom.y < bounds.min_y {
            bounds.min_y = atom.y;
        }
        if atom.y > bounds.max_y {
            bounds.max_y = atom.y;
        }
        if atom.z < bounds.min_z {
            bounds.min_z = atom.z;
        }
        if atom.z > bounds.max_z {
            bounds.max_z = atom.z;
        }
        proof {
            assert(after[i as int] == atom);
            assert(forall|j: int| 0 <= j < i ==> #[trigger] after[j] == before[j]);
            let w0 = choose|j: int| 0 <= j < before.len() && (#[trigger] before[j]).x == old_bounds.min_x;
            let w1 = choose|j: int| 0 <= j < before.len() && (#[trigger] before[j]).x == old_bounds.max_x;
            let w2 = choose|j: int| 0 <= j < before.len() && (#[trigger] before[j]).y == old_bounds.min_y;
            let w3 = choose|j: int| 0 <= j < before.len() && (#[trigger] before[j]).y == old_bounds.max_y;
            let w4 = choose|j: int| 0 <= j < before.len() && (#[trigger] before[j]).z == old_bounds.min_z;
            let w5 = choose|j: int| 0 <= j < before.len() && (#[trigger] before[j]).z == old_bounds.max_z;
            assert(after[w0] == before[w0] && after[w1] == before[w1] && after[w2] == before[w2]);
            assert(after[w3] == before[w3] && after[w4] == before[w4] && after[w5] == before[w5]);
            assert(is_bounding_box(after, bounds));
        }
        i = i + 1;
    }
    proof {
        assert(atoms@.take(atoms@.len() as int) =~= atoms@);
        lemma_bounding_box_unique(atoms@, bounds, bounds_of(atoms@));
    }
    Some(bounds)
}

} // verus!
