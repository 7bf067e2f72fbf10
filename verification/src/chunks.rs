//! The spatial chunk summary: the store cut into cubic cells, with the
//! number of particles in each cell that holds any.
//!
//! The grid starts at the low corner of the store's bounding box. Along each
//! axis a particle belongs to the cell whose index is its distance from that
//! corner divided by the side of a cell, rounded down. Every particle is so
//! in exactly one cell, and the counts of all cells add up to the number of
//! particles.

use crate::dataset::{bounding_box, bounds_of, is_bounding_box, Bounds};
use crate::geometry::{in_bounds, COORD_LIMIT};
use crate::types::RawAtom;
use vstd::arithmetic::div_mod::{
    lemma_div_denominator,
    lemma_div_is_ordered,
    lemma_div_pos_is_pos,
    lemma_fundamental_div_mod,
    lemma_fundamental_div_mod_converse,
    lemma_mod_bound,
    lemma_multiply_divide_lt,
};
use vstd::arithmetic::mul::lemma_mul_inequality;
use vstd::prelude::*;

verus! {

/// One cell of the summary: its centre and the length of its sides, in
/// thousandths, the number of particles in it, and three fields that are
/// kept at zero.
#[derive(Clone, Copy, Debug, PartialEq, Eq, Structural)]
pub struct SpatialChunk {
    pub center_x: i64,
    pub center_y: i64,
    pub center_z: i64,
    pub size: i32,
    pub atom_count: usize,
    pub reserved_0: i32,
    pub reserved_1: i32,
    pub reserved_2: i32,
}

/// The place of a cell in the grid: its index along each axis.
pub struct CellIndex {
    pub x: int,
    pub y: int,
    pub z: int,
}

/// The longest side of a bounding box.
pub open spec fn largest_extent(bounds: Bounds) -> int {
    let along_x = bounds.max_x - bounds.min_x;
    let along_y = bounds.max_y - bounds.min_y;
    let along_z = bounds.max_z - bounds.min_z;
    if along_x >= along_y && along_x >= along_z {
        along_x
    } else if along_y >= along_z {
        along_y
    } else {
        along_z
    }
}

/// The number of cells along each axis, for cells of a positive side: one
/// more than the number of whole sides in the extent, so that the last cell
/// holds what lies on the far face of the box.
pub open spec fn cells_per_axis(extent: int, chunk: int) -> int {
    extent / chunk + 1
}

/// The index, along one axis, of the cell that a coordinate falls in, where
/// the bounding box starts at `min`.
pub open spec fn cell_index(coordinate: int, min: int, chunk: int) -> int {
    (coordinate - min) / chunk
}

/// The centre, along one axis, of the cell with the given index.
pub open spec fn cell_center(min: int, index: int, chunk: int) -> int {
    min + index * chunk + chunk / 2
}

/// The cell that a particle belongs to.
pub open spec fn cell_of(atom: RawAtom, bounds: Bounds, chunk: int) -> CellIndex {
    CellIndex {
        x: cell_index(atom.x as int, bounds.min_x as int, chunk),
        y: cell_index(atom.y as int, bounds.min_y as int, chunk),
        z: cell_index(atom.z as int, bounds.min_z as int, chunk),
    }
}

/// The place of the cell with number `k` in a grid of `n` cells along each
/// axis. The number counts along z first, then y, then x.
pub open spec fn cell_place(k: int, n: int) -> CellIndex {
    CellIndex { x: k / (n * n), y: (k / n) % n, z: k % n }
}

/// The number of the cell at a place: the inverse of [`cell_place`].
pub open spec fn cell_number(place: CellIndex, n: int) -> int {
    (place.x * n + place.y) * n + place.z
}

/// The test that [`population`] filters by.
pub open spec fn inside(bounds: Bounds, chunk: int, place: CellIndex) -> spec_fn(RawAtom) -> bool {
    |atom: RawAtom| cell_of(atom, bounds, chunk) == place
}

/// The number of particles that belong to the cell at a place.
pub open spec fn population(atoms: Seq<RawAtom>, bounds: Bounds, chunk: int, place: CellIndex)
    -> nat {
    atoms.filter(inside(bounds, chunk, place)).len()
}

/// The record of the cell with number `k`.
pub open spec fn cell(atoms: Seq<RawAtom>, bounds: Bounds, chunk: int, n: int, k: int)
    -> SpatialChunk {
    let place = cell_place(k, n);
    SpatialChunk {
        center_x: cell_center(bounds.min_x as int, place.x, chunk) as i64,
        center_y: cell_center(bounds.min_y as int, place.y, chunk) as i64,
        center_z: cell_center(bounds.min_z as int, place.z, chunk) as i64,
        size: chunk as i32,
        atom_count: population(atoms, bounds, chunk, place) as usize,
        reserved_0: 0,
        reserved_1: 0,
        reserved_2: 0,
    }
}

/// The test that [`chunk_summary`] filters by.
pub open spec fn occupied() -> spec_fn(SpatialChunk) -> bool {
    |chunk: SpatialChunk| chunk.atom_count > 0
}

/// The number of cells along each axis of the grid that spans the bounding
/// box of `atoms`: it is taken from the longest side of the box.
pub open spec fn grid_cells(atoms: Seq<RawAtom>, chunk: int) -> int {
    cells_per_axis(largest_extent(bounds_of(atoms)), chunk)
}

/// All cells of the grid that spans the bounding box of `atoms`, in rising
/// order of their x, then y, then z index.
pub open spec fn all_cells(atoms: Seq<RawAtom>, chunk: int) -> Seq<SpatialChunk> {
    let bounds = bounds_of(atoms);
    let n = grid_cells(atoms, chunk);
    Seq::new((n * n * n) as nat, |k: int| cell(atoms, bounds, chunk, n, k))
}

/// The summary: the cells that hold at least one particle, in grid order.
/// An empty store has none, and cells without a positive side hold nothing.
pub open spec fn chunk_summary(atoms: Seq<RawAtom>, chunk: int) -> Seq<SpatialChunk> {
    if atoms.len() == 0 || chunk <= 0 {
        Seq::empty()
    } else {
        all_cells(atoms, chunk).filter(occupied())
    }
}

/// The sum of the counts of a sequence of cells.
pub open spec fn total_count(chunks: Seq<SpatialChunk>) -> int
    decreases chunks.len(),
{
    if chunks.len() == 0 {
        0
    } else {
        total_count(chunks.drop_last()) + chunks.last().atom_count
    }
}

/// The sum of the populations of the cells with a number below `upto`.
pub open spec fn tally(atoms: Seq<RawAtom>, bounds: Bounds, chunk: int, n: int, upto: nat) -> int
    decreases upto,
{
    if upto == 0 {
        0
    } else {
        tally(atoms, bounds, chunk, n, (upto - 1) as nat) + population(
            atoms,
            bounds,
            chunk,
            cell_place(upto - 1, n),
        )
    }
}

/// Whether a particle's cell lies in a grid of `n` cells along each axis.
pub open spec fn in_grid(atom: RawAtom, bounds: Bounds, chunk: int, n: int) -> bool {
    let place = cell_of(atom, bounds, chunk);
    0 <= place.x < n && 0 <= place.y < n && 0 <= place.z < n
}

/// The number of a cell, from its place, and back.
pub proof fn lemma_cell_number(place: CellIndex, n: int)
    requires
        0 <= place.x < n,
        0 <= place.y < n,
        0 <= place.z < n,
    ensures
        0 <= cell_number(place, n) < n * n * n,
        cell_place(cell_number(place, n), n) == place,
{
    let ix = place.x;
    let iy = place.y;
    let iz = place.z;
    let row = ix * n + iy;
    let k = row * n + iz;
    assert(0 <= ix * n && 0 <= row * n && 0 <= iy * n) by (nonlinear_arith)
        requires
            0 <= ix,
            0 <= iy,
            0 < n,
            row == ix * n + iy,
    ;
    lemma_fundamental_div_mod_converse(k, n, row, iz);
    lemma_fundamental_div_mod_converse(row, n, ix, iy);
    assert(k == ix * (n * n) + (iy * n + iz)) by (nonlinear_arith)
        requires
            k == (ix * n + iy) * n + iz,
    ;
    assert(iy * n + iz < n * n && ix * (n * n) + n * n <= n * n * n && n * n > 0)
        by (nonlinear_arith)
        requires
            0 <= ix < n,
            0 <= iy < n,
            0 <= iz < n,
    ;
    lemma_fundamental_div_mod_converse(k, n * n, ix, iy * n + iz);
}

/// The place of a cell, from its number, and back.
pub proof fn lemma_cell_place(k: int, n: int)
    requires
        n > 0,
        0 <= k < n * n * n,
    ensures
        0 <= cell_place(k, n).x < n,
        0 <= cell_place(k, n).y < n,
        0 <= cell_place(k, n).z < n,
        cell_number(cell_place(k, n), n) == k,
{
    let q = k / n;
    lemma_fundamental_div_mod(k, n);
    lemma_mod_bound(k, n);
    lemma_div_pos_is_pos(k, n);
    assert(n * n * n == n * (n * n)) by (nonlinear_arith);
    lemma_multiply_divide_lt(k, n, n * n);
    lemma_fundamental_div_mod(q, n);
    lemma_mod_bound(q, n);
    lemma_div_pos_is_pos(q, n);
    lemma_multiply_divide_lt(q, n, n);
    lemma_div_denominator(k, n, n);
    let x = q / n;
    let y = q % n;
    let z = k % n;
    assert((x * n + y) * n + z == k) by (nonlinear_arith)
        requires
            k == n * q + z,
            q == n * x + y,
    ;
}

/// Every set of particles that is not empty has a bounding box.
pub proof fn lemma_bounding_box_exists(atoms: Seq<RawAtom>)
    requires
        atoms.len() > 0,
    ensures
        is_bounding_box(atoms, bounds_of(atoms)),
    decreases atoms.len(),
{
    let last = atoms.last();
    if atoms.len() == 1 {
        let only = Bounds {
            min_x: last.x,
            max_x: last.x,
            min_y: last.y,
            max_y: last.y,
            min_z: last.z,
            max_z: last.z,
        };
        assert(atoms[0] == last);
        assert(is_bounding_box(atoms, only));
    } else {
        let before = atoms.drop_last();
        lemma_bounding_box_exists(before);
        let b = bounds_of(before);
        let grown = Bounds {
            min_x: if last.x < b.min_x {
                last.x
            } else {
                b.min_x
            },
            max_x: if last.x > b.max_x {
                last.x
            } else {
                b.max_x
            },
            min_y: if last.y < b.min_y {
                last.y
            } else {
                b.min_y
            },
            max_y: if last.y > b.max_y {
                last.y
            } else {
                b.max_y
            },
            min_z: if last.z < b.min_z {
                last.z
            } else {
                b.min_z
            },
            max_z: if last.z > b.max_z {
                last.z
            } else {
                b.max_z
            },
        };
        let end = atoms.len() - 1;
        assert(atoms[end] == last);
        assert(forall|j: int| 0 <= j < end ==> #[trigger] atoms[j] == before[j]);
        let w0 = choose|j: int| 0 <= j < before.len() && (#[trigger] before[j]).x == b.min_x;
        let w1 = choose|j: int| 0 <= j < before.len() && (#[trigger] before[j]).x == b.max_x;
        let w2 = choose|j: int| 0 <= j < before.len() && (#[trigger] before[j]).y == b.min_y;
        let w3 = choose|j: int| 0 <= j < before.len() && (#[trigger] before[j]).y == b.max_y;
        let w4 = choose|j: int| 0 <= j < before.len() && (#[trigger] before[j]).z == b.min_z;
        let w5 = choose|j: int| 0 <= j < before.len() && (#[trigger] before[j]).z == b.max_z;
        assert(atoms[w0] == before[w0] && atoms[w1] == before[w1] && atoms[w2] == before[w2]);
        assert(atoms[w3] == before[w3] && atoms[w4] == before[w4] && atoms[w5] == before[w5]);
        assert(is_bounding_box(atoms, grown));
    }
}

/// A coordinate inside the box falls in a cell of the grid.
proof fn lemma_index_in_grid(coordinate: int, min: int, max: int, extent: int, chunk: int)
    requires
        chunk > 0,
        min <= coordinate <= max,
        max - min <= extent,
    ensures
        0 <= cell_index(coordinate, min, chunk) < cells_per_axis(extent, chunk),
{
    lemma_div_pos_is_pos(coordinate - min, chunk);
    lemma_div_is_ordered(coordinate - min, extent, chunk);
}

/// Every particle of a store belongs to a cell of the store's grid.
pub proof fn lemma_particle_in_grid(atoms: Seq<RawAtom>, chunk: int, i: int)
    requires
        chunk > 0,
        0 <= i < atoms.len(),
    ensures
        in_grid(atoms[i], bounds_of(atoms), chunk, grid_cells(atoms, chunk)),
{
    lemma_bounding_box_exists(atoms);
    let bounds = bounds_of(atoms);
    let extent = largest_extent(bounds);
    let atom = atoms[i];
    lemma_index_in_grid(atom.x as int, bounds.min_x as int, bounds.max_x as int, extent, chunk);
    lemma_index_in_grid(atom.y as int, bounds.min_y as int, bounds.max_y as int, extent, chunk);
    lemma_index_in_grid(atom.z as int, bounds.min_z as int, bounds.max_z as int, extent, chunk);
}

/// Every particle is in exactly one cell of the grid: of all cells, the one
/// with the number of the particle's place holds it, and no other does.
pub proof fn lemma_one_cell_per_particle(atoms: Seq<RawAtom>, chunk: int, i: int)
    requires
        chunk > 0,
        0 <= i < atoms.len(),
    ensures
        ({
            let bounds = bounds_of(atoms);
            let n = grid_cells(atoms, chunk);
            let home = cell_number(cell_of(atoms[i], bounds, chunk), n);
            &&& 0 <= home < n * n * n
            &&& forall|k: int|
                0 <= k < n * n * n ==> (#[trigger] inside(bounds, chunk, cell_place(k, n))(atoms[i])
                    <==> k == home)
        }),
{
    let bounds = bounds_of(atoms);
    let n = grid_cells(atoms, chunk);
    lemma_particle_in_grid(atoms, chunk, i);
    lemma_home_cell(atoms[i], bounds, chunk, n);
}

/// A particle whose cell lies in the grid is in the cell with the number of
/// its place, and in no other.
proof fn lemma_home_cell(atom: RawAtom, bounds: Bounds, chunk: int, n: int)
    requires
        in_grid(atom, bounds, chunk, n),
    ensures
        0 <= cell_number(cell_of(atom, bounds, chunk), n) < n * n * n,
        forall|k: int|
            0 <= k < n * n * n ==> (#[trigger] inside(bounds, chunk, cell_place(k, n))(atom) <==> k
                == cell_number(cell_of(atom, bounds, chunk), n)),
{
    let place = cell_of(atom, bounds, chunk);
    let home = cell_number(place, n);
    lemma_cell_number(place, n);
    assert forall|k: int| 0 <= k < n * n * n implies (#[trigger] inside(
        bounds,
        chunk,
        cell_place(k, n),
    )(atom) <==> k == home) by {
        lemma_cell_place(k, n);
    }
}

/// Leaving out the cells that hold nothing does not change the sum.
proof fn lemma_total_of_occupied(chunks: Seq<SpatialChunk>)
    ensures
        total_count(chunks.filter(occupied())) == total_count(chunks),
    decreases chunks.len(),
{
    if chunks.len() == 0 {
        chunks.lemma_filter_len(occupied());
    } else {
        let before = chunks.drop_last();
        let last = chunks.last();
        lemma_total_of_occupied(before);
        assert(chunks =~= before.push(last));
        before.lemma_filter_push(last, occupied());
        if occupied()(last) {
            let kept = before.filter(occupied()).push(last);
            assert(kept.drop_last() =~= before.filter(occupied()));
            assert(kept.last() == last);
        }
    }
}

/// The counts of the first cells of a grid add up to their tally.
proof fn lemma_total_is_tally(atoms: Seq<RawAtom>, chunk: int, upto: nat)
    requires
        atoms.len() <= usize::MAX,
        upto <= all_cells(atoms, chunk).len(),
    ensures
        total_count(all_cells(atoms, chunk).take(upto as int)) == tally(
            atoms,
            bounds_of(atoms),
            chunk,
            grid_cells(atoms, chunk),
            upto,
        ),
    decreases upto,
{
    let all = all_cells(atoms, chunk);
    let bounds = bounds_of(atoms);
    let n = grid_cells(atoms, chunk);
    if upto > 0 {
        lemma_total_is_tally(atoms, chunk, (upto - 1) as nat);
        let first = all.take(upto as int);
        assert(first.drop_last() =~= all.take(upto - 1));
        assert(first.last() == cell(atoms, bounds, chunk, n, upto - 1));
        atoms.lemma_filter_len(inside(bounds, chunk, cell_place(upto - 1, n)));
    }
}

/// No cell holds a particle of an empty store.
proof fn lemma_tally_of_none(bounds: Bounds, chunk: int, n: int, upto: nat)
    ensures
        tally(Seq::<RawAtom>::empty(), bounds, chunk, n, upto) == 0,
    decreases upto,
{
    if upto > 0 {
        lemma_tally_of_none(bounds, chunk, n, (upto - 1) as nat);
        Seq::<RawAtom>::empty().lemma_filter_len(inside(bounds, chunk, cell_place(upto - 1, n)));
    }
}

/// One more particle raises the tally by one once the tally reaches the
/// particle's cell.
proof fn lemma_tally_push(
    atoms: Seq<RawAtom>,
    atom: RawAtom,
    bounds: Bounds,
    chunk: int,
    n: int,
    upto: nat,
)
    requires
        in_grid(atom, bounds, chunk, n),
        upto <= n * n * n,
    ensures
        tally(atoms.push(atom), bounds, chunk, n, upto) == tally(atoms, bounds, chunk, n, upto)
            + if cell_number(cell_of(atom, bounds, chunk), n) < upto {
            1int
        } else {
            0int
        },
    decreases upto,
{
    if upto > 0 {
        lemma_tally_push(atoms, atom, bounds, chunk, n, (upto - 1) as nat);
        lemma_home_cell(atom, bounds, chunk, n);
        let place = cell_place(upto - 1, n);
        atoms.lemma_filter_push(atom, inside(bounds, chunk, place));
        assert(inside(bounds, chunk, place)(atom) <==> upto - 1 == cell_number(
            cell_of(atom, bounds, chunk),
            n,
        ));
    }
}

/// The populations of all cells of a grid add up to the number of
/// particles, where every particle's cell lies in the grid.
proof fn lemma_tally_of_all(atoms: Seq<RawAtom>, bounds: Bounds, chunk: int, n: int, first: nat)
    requires
        first <= atoms.len(),
        n * n * n >= 0,
        forall|i: int| 0 <= i < atoms.len() ==> in_grid(#[trigger] atoms[i], bounds, chunk, n),
    ensures
        tally(atoms.take(first as int), bounds, chunk, n, (n * n * n) as nat) == first,
    decreases first,
{
    if first == 0 {
        assert(atoms.take(0) =~= Seq::<RawAtom>::empty());
        lemma_tally_of_none(bounds, chunk, n, (n * n * n) as nat);
    } else {
        lemma_tally_of_all(atoms, bounds, chunk, n, (first - 1) as nat);
        let before = atoms.take(first - 1);
        let atom = atoms[first - 1];
        assert(atoms.take(first as int) =~= before.push(atom));
        lemma_home_cell(atom, bounds, chunk, n);
        lemma_tally_push(before, atom, bounds, chunk, n, (n * n * n) as nat);
    }
}

/// The counts of the summary add up to the number of particles: every
/// particle is counted once.
pub proof fn lemma_counts_add_up(atoms: Seq<RawAtom>, chunk: int)
    requires
        chunk > 0,
        atoms.len() <= usize::MAX,
    ensures
        total_count(chunk_summary(atoms, chunk)) == atoms.len(),
{
    if atoms.len() > 0 {
        let all = all_cells(atoms, chunk);
        let bounds = bounds_of(atoms);
        let n = grid_cells(atoms, chunk);
        assert forall|i: int| 0 <= i < atoms.len() implies in_grid(
            #[trigger] atoms[i],
            bounds,
            chunk,
            n,
        ) by {
            lemma_particle_in_grid(atoms, chunk, i);
        }
        lemma_particle_in_grid(atoms, chunk, 0);
        assert(n * n * n >= 0) by (nonlinear_arith)
            requires
                n >= 0,
        ;
        lemma_total_of_occupied(all);
        lemma_total_is_tally(atoms, chunk, all.len());
        assert(all.take(all.len() as int) =~= all);
        lemma_tally_of_all(atoms, bounds, chunk, n, atoms.len());
        assert(atoms.take(atoms.len() as int) =~= atoms);
    }
}

/// No particle is left out of the summary: the record of the cell that a
/// particle belongs to is among the records of the summary.
pub proof fn lemma_particle_is_summarized(atoms: Seq<RawAtom>, chunk: int, i: int)
    requires
        chunk > 0,
        0 <= i < atoms.len(),
        atoms.len() <= usize::MAX,
    ensures
        chunk_summary(atoms, chunk).contains(
            cell(
                atoms,
                bounds_of(atoms),
                chunk,
                grid_cells(atoms, chunk),
                cell_number(cell_of(atoms[i], bounds_of(atoms), chunk), grid_cells(atoms, chunk)),
            ),
        ),
{
    let bounds = bounds_of(atoms);
    let n = grid_cells(atoms, chunk);
    let place = cell_of(atoms[i], bounds, chunk);
    let home = cell_number(place, n);
    let all = all_cells(atoms, chunk);
    lemma_particle_in_grid(atoms, chunk, i);
    lemma_cell_number(place, n);
    let test = inside(bounds, chunk, place);
    assert(test(atoms[i]));
    atoms.lemma_filter_contains(test, i);
    atoms.lemma_filter_len(test);
    assert(atoms.filter(test).len() > 0) by {
        let k = choose|k: int| 0 <= k < atoms.filter(test).len() && atoms.filter(test)[k] == atoms[i];
    }
    assert(all[home] == cell(atoms, bounds, chunk, n, home));
    assert(occupied()(all[home]));
    all.lemma_filter_contains(occupied(), home);
}

/// Every particle lies within half a side of the centre of its cell, along
/// each axis; the centre is rounded down to a whole thousandth.
pub proof fn lemma_particle_near_center(coordinate: int, min: int, chunk: int)
    requires
        chunk > 0,
    ensures
        -chunk <= 2 * (coordinate - cell_center(min, cell_index(coordinate, min, chunk), chunk))
            <= chunk,
{
    let index = cell_index(coordinate, min, chunk);
    lemma_fundamental_div_mod(coordinate - min, chunk);
    lemma_mod_bound(coordinate - min, chunk);
    assert(index * chunk == chunk * index) by (nonlinear_arith);
}

/// The offset of a cell from the low corner of the box is within the box.
proof fn lemma_index_step(index: int, n: int, side: int, extent: int)
    requires
        side > 0,
        extent >= 0,
        n == cells_per_axis(extent, side),
        0 <= index < n,
    ensures
        0 <= index * side <= extent,
{
    lemma_fundamental_div_mod(extent, side);
    lemma_mod_bound(extent, side);
    lemma_mul_inequality(index, extent / side, side);
    lemma_mul_inequality(0, index, side);
    assert(side * (extent / side) == (extent / side) * side) by (nonlinear_arith);
}

/// Computes [`population`].
fn count_in_cell(
    atoms: &Vec<RawAtom>,
    bounds: &Bounds,
    chunk: i32,
    ix: u64,
    iy: u64,
    iz: u64,
) -> (count: usize)
    requires
        chunk > 0,
        is_bounding_box(atoms@, *bounds),
        forall|i: int| 0 <= i < atoms@.len() ==> in_bounds(#[trigger] atoms@[i]),
        ix <= 2 * COORD_LIMIT,
        iy <= 2 * COORD_LIMIT,
        iz <= 2 * COORD_LIMIT,
    ensures
        count == population(
            atoms@,
            *bounds,
            chunk as int,
            CellIndex { x: ix as int, y: iy as int, z: iz as int },
        ),
{
    let ghost place = CellIndex { x: ix as int, y: iy as int, z: iz as int };
    let ghost test = inside(*bounds, chunk as int, place);
    let side: i64 = chunk as i64;
    let mut count: usize = 0;
    let mut i: usize = 0;
    assert(atoms@.take(0).filter(test).len() == 0) by {
        atoms@.take(0).lemma_filter_len(test);
    }
    while i < atoms.len()
        invariant
            i <= atoms.len(),
            side == chunk,
            chunk > 0,
            place == (CellIndex { x: ix as int, y: iy as int, z: iz as int }),
            test == inside(*bounds, chunk as int, place),
            is_bounding_box(atoms@, *bounds),
            forall|j: int| 0 <= j < atoms@.len() ==> in_bounds(#[trigger] atoms@[j]),
            ix <= 2 * COORD_LIMIT,
            iy <= 2 * COORD_LIMIT,
            iz <= 2 * COORD_LIMIT,
            count == atoms@.take(i as int).filter(test).len(),
            count <= i,
        decreases atoms.len() - i,
    {
        let atom = atoms[i];
        proof {
            let before = atoms@.take(i as int);
            assert(atoms@.take(i + 1) =~= before.push(atom));
            before.lemma_filter_push(atom, test);
            assert(atom == atoms@[i as int]);
            let w = choose|j: int| 0 <= j < atoms@.len() && (#[trigger] atoms@[j]).x == bounds.min_x;
            let v = choose|j: int| 0 <= j < atoms@.len() && (#[trigger] atoms@[j]).y == bounds.min_y;
            let u = choose|j: int| 0 <= j < atoms@.len() && (#[trigger] atoms@[j]).z == bounds.min_z;
            assert(in_bounds(atoms@[w]) && in_bounds(atoms@[v]) && in_bounds(atoms@[u]));
        }
        let px: i64 = (atom.x - bounds.min_x) / side;
        let py: i64 = (atom.y - bounds.min_y) / side;
        let pz: i64 = (atom.z - bounds.min_z) / side;
        proof {
            lemma_div_pos_is_pos(atom.x - bounds.min_x, side as int);
            lemma_div_pos_is_pos(atom.y - bounds.min_y, side as int);
            lemma_div_pos_is_pos(atom.z - bounds.min_z, side as int);
        }
        if px as u64 == ix && py as u64 == iy && pz as u64 == iz {
            count = count + 1;
        }
        i = i + 1;
    }
    assert(atoms@.take(atoms@.len() as int) =~= atoms@);
    count
}

/// What holds throughout [`summarize`] once the grid is laid out.
spec fn summarize_frame(
    atoms: Seq<RawAtom>,
    bounds: Bounds,
    chunk_size: i32,
    n: u64,
    extent: i64,
    side: i64,
    half: i64,
    all: Seq<SpatialChunk>,
) -> bool {
    &&& atoms.len() > 0
    &&& atoms.len() <= usize::MAX
    &&& chunk_size > 0
    &&& extent == largest_extent(bounds)
    &&& 0 <= extent < 2 * COORD_LIMIT
    &&& bounds == bounds_of(atoms)
    &&& is_bounding_box(atoms, bounds)
    &&& -COORD_LIMIT < bounds.min_x < COORD_LIMIT
    &&& -COORD_LIMIT < bounds.min_y < COORD_LIMIT
    &&& -COORD_LIMIT < bounds.min_z < COORD_LIMIT
    &&& n == cells_per_axis(extent as int, chunk_size as int)
    &&& 1 <= n <= 2 * COORD_LIMIT
    &&& side == chunk_size
    &&& half == side / 2
    &&& all == all_cells(atoms, chunk_size as int)
    &&& all.len() == n * n * n
}

/// Produces [`chunk_summary`]. Every particle is tested against every cell.
pub fn summarize(atoms: &Vec<RawAtom>, chunk_size: i32) -> (chunks: Vec<SpatialChunk>)
    requires
        forall|i: int| 0 <= i < atoms@.len() ==> in_bounds(#[trigger] atoms@[i]),
    ensures
        chunks@ == chunk_summary(atoms@, chunk_size as int),
{
    let mut chunks: Vec<SpatialChunk> = Vec::new();
    if chunk_size <= 0 {
        return chunks;
    }
    let bounds = match bounding_box(atoms) {
        None => {
            return chunks;
        },
        Some(bounds) => bounds,
    };
    proof {
        let w0 = choose|j: int| 0 <= j < atoms@.len() && (#[trigger] atoms@[j]).x == bounds.min_x;
        let w1 = choose|j: int| 0 <= j < atoms@.len() && (#[trigger] atoms@[j]).x == bounds.max_x;
        let w2 = choose|j: int| 0 <= j < atoms@.len() && (#[trigger] atoms@[j]).y == bounds.min_y;
        let w3 = choose|j: int| 0 <= j < atoms@.len() && (#[trigger] atoms@[j]).y == bounds.max_y;
        let w4 = choose|j: int| 0 <= j < atoms@.len() && (#[trigger] atoms@[j]).z == bounds.min_z;
        let w5 = choose|j: int| 0 <= j < atoms@.len() && (#[trigger] atoms@[j]).z == bounds.max_z;
        assert(in_bounds(atoms@[w0]) && in_bounds(atoms@[w1]) && in_bounds(atoms@[w2]));
        assert(in_bounds(atoms@[w3]) && in_bounds(atoms@[w4]) && in_bounds(atoms@[w5]));
        assert(bounds.min_x <= atoms@[w1].x && bounds.min_y <= atoms@[w3].y && bounds.min_z
            <= atoms@[w5].z);
    }
    let along_x: i64 = bounds.max_x - bounds.min_x;
    let along_y: i64 = bounds.max_y - bounds.min_y;
    let along_z: i64 = bounds.max_z - bounds.min_z;
    let extent: i64 = if along_x >= along_y && along_x >= along_z {
        along_x
    } else if along_y >= along_z {
        along_y
    } else {
        along_z
    };
    let side: i64 = chunk_size as i64;
    proof {
        lemma_div_pos_is_pos(extent as int, side as int);
        lemma_div_is_ordered(extent as int, 2 * COORD_LIMIT - 1, side as int);
        lemma_div_is_ordered(0, 2 * COORD_LIMIT - 1, side as int);
        lemma_fundamental_div_mod(2 * COORD_LIMIT - 1, side as int);
        lemma_mod_bound(2 * COORD_LIMIT - 1, side as int);
        let q = (2 * COORD_LIMIT - 1) / (side as int);
        assert(q <= side * q) by (nonlinear_arith)
            requires
                q >= 0,
                side >= 1,
        ;
    }
    let n: u64 = (extent / side) as u64 + 1;
    let half: i64 = side / 2;
    let ghost all = all_cells(atoms@, chunk_size as int);
    let ghost mut k: int = 0;
    assert(all.take(0).filter(occupied()).len() == 0) by {
        all.take(0).lemma_filter_len(occupied());
    }
    assert(n * n * n >= 0 && 0 * n * n == 0) by (nonlinear_arith)
        requires
            n >= 0,
    ;
    assert(atoms@.len() == atoms.len());
    let mut ix: u64 = 0;
    while ix < n
        invariant
            ix <= n,
            summarize_frame(atoms@, bounds, chunk_size, n, extent, side, half, all),
            forall|i: int| 0 <= i < atoms@.len() ==> in_bounds(#[trigger] atoms@[i]),
            k == ix * n * n,
            0 <= k <= all.len(),
            chunks@ == all.take(k).filter(occupied()),
        decreases n - ix,
    {
        proof {
            lemma_index_step(ix as int, n as int, side as int, extent as int);
        }
        let cx: i64 = bounds.min_x + (ix as i64) * side + half;
        let mut iy: u64 = 0;
        assert(ix * n * n == (ix * n + 0) * n);
        while iy < n
            invariant
                ix < n,
                iy <= n,
                summarize_frame(atoms@, bounds, chunk_size, n, extent, side, half, all),
                forall|i: int| 0 <= i < atoms@.len() ==> in_bounds(#[trigger] atoms@[i]),
                cx == cell_center(bounds.min_x as int, ix as int, chunk_size as int),
                k == (ix * n + iy) * n,
                0 <= k <= all.len(),
                chunks@ == all.take(k).filter(occupied()),
            decreases n - iy,
        {
            proof {
                lemma_index_step(iy as int, n as int, side as int, extent as int);
            }
            let cy: i64 = bounds.min_y + (iy as i64) * side + half;
            let mut iz: u64 = 0;
            while iz < n
                invariant
                    ix < n,
                    iy < n,
                    iz <= n,
                    summarize_frame(atoms@, bounds, chunk_size, n, extent, side, half, all),
                    forall|i: int| 0 <= i < atoms@.len() ==> in_bounds(#[trigger] atoms@[i]),
                    cx == cell_center(bounds.min_x as int, ix as int, chunk_size as int),
                    cy == cell_center(bounds.min_y as int, iy as int, chunk_size as int),
                    k == (ix * n + iy) * n + iz,
                    0 <= k <= all.len(),
                    chunks@ == all.take(k).filter(occupied()),
                decreases n - iz,
            {
                let ghost place = CellIndex { x: ix as int, y: iy as int, z: iz as int };
                proof {
                    lemma_index_step(iz as int, n as int, side as int, extent as int);
                    lemma_cell_number(place, n as int);
                }
                let cz: i64 = bounds.min_z + (iz as i64) * side + half;
                let count = count_in_cell(atoms, &bounds, chunk_size, ix, iy, iz);
                let chunk = SpatialChunk {
                    center_x: cx,
                    center_y: cy,
                    center_z: cz,
                    size: chunk_size,
                    atom_count: count,
                    reserved_0: 0,
                    reserved_1: 0,
                    reserved_2: 0,
                };
                proof {
                    atoms@.lemma_filter_len(inside(bounds, chunk_size as int, place));
                    assert(cell_place(k, n as int) == place);
                    assert(all[k] == chunk);
                    assert(all.take(k + 1) =~= all.take(k).push(chunk));
                    all.take(k).lemma_filter_push(chunk, occupied());
                    k = k + 1;
                }
                if count > 0 {
                    chunks.push(chunk);
                }
                iz = iz + 1;
            }
            proof {
                assert((ix * n + iy) * n + n == (ix * n + (iy + 1)) * n) by (nonlinear_arith);
            }
            iy = iy + 1;
        }
        proof {
            assert((ix * n + n) * n == (ix + 1) * n * n) by (nonlinear_arith);
        }
        ix = ix + 1;
    }
    assert(all.take(all.len() as int) =~= all);
    chunks
}

} // verus!
