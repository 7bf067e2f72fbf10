use molecular_lod::chunks::{summarize, SpatialChunk};
use molecular_lod::dataset::synthesize;
use molecular_lod::types::RawAtom;

fn chunk(x: i64, y: i64, z: i64, size: i32, count: usize) -> SpatialChunk {
    SpatialChunk {
        center_x: x,
        center_y: y,
        center_z: z,
        size,
        atom_count: count,
        reserved_0: 0,
        reserved_1: 0,
        reserved_2: 0,
    }
}

fn at(x: i64, y: i64, z: i64) -> RawAtom {
    RawAtom { x, y, z, element: 0 }
}

fn total(summary: &[SpatialChunk]) -> usize {
    summary.iter().map(|c| c.atom_count).sum()
}

#[test]
fn empty_store_has_no_chunks() {
    assert_eq!(summarize(&Vec::new(), 1000), Vec::<SpatialChunk>::new());
}

#[test]
fn corners_of_a_cube_have_a_cell_each() {
    // eight particles on the corners of a cube of side two, cells of side two
    let atoms = synthesize(8, 2000);
    assert_eq!(
        summarize(&atoms, 2000),
        vec![
            chunk(0, 0, 0, 2000, 1),
            chunk(0, 0, 2000, 2000, 1),
            chunk(0, 2000, 0, 2000, 1),
            chunk(0, 2000, 2000, 2000, 1),
            chunk(2000, 0, 0, 2000, 1),
            chunk(2000, 0, 2000, 2000, 1),
            chunk(2000, 2000, 0, 2000, 1),
            chunk(2000, 2000, 2000, 2000, 1),
        ]
    );
}

#[test]
fn corners_of_a_wider_cube_have_a_cell_each() {
    let wider = summarize(&synthesize(8, 3000), 2000);
    assert_eq!(wider.len(), 8);
    assert!(wider.iter().all(|c| c.atom_count == 1));
    assert_eq!(wider[0], chunk(-500, -500, -500, 2000, 1));
    assert_eq!(wider[7], chunk(1500, 1500, 1500, 2000, 1));
}

#[test]
fn particle_on_a_shared_face_counts_in_the_upper_cell_only() {
    // particles a unit apart, cells of a unit: each particle starts a cell
    let summary = summarize(&synthesize(27, 1000), 1000);
    assert_eq!(summary.len(), 27);
    assert!(summary.iter().all(|c| c.atom_count == 1 && c.size == 1000));
    assert_eq!(summary[0], chunk(-500, -500, -500, 1000, 1));
    assert_eq!(summary[1], chunk(-500, -500, 500, 1000, 1));
    assert_eq!(summary[2], chunk(-500, -500, 1500, 1000, 1));
    assert_eq!(summary[26], chunk(1500, 1500, 1500, 1000, 1));
}

#[test]
fn cells_of_half_the_spacing_hold_one_particle_each() {
    let summary = summarize(&synthesize(27, 1000), 500);
    assert_eq!(summary.len(), 27);
    assert!(summary.iter().all(|c| c.atom_count == 1));
    assert_eq!(total(&summary), 27);
    assert_eq!(summary[0], chunk(-750, -750, -750, 500, 1));
    assert_eq!(summary[1], chunk(-750, -750, 250, 500, 1));
    assert_eq!(summary[2], chunk(-750, -750, 1250, 500, 1));
    assert_eq!(summary[26], chunk(1250, 1250, 1250, 500, 1));
}

#[test]
fn centre_of_a_cell_of_odd_side_is_rounded_down() {
    let summary = summarize(&synthesize(27, 1000), 999);
    assert_eq!(summary.len(), 27);
    assert!(summary.iter().all(|c| c.atom_count == 1));
    assert_eq!(summary[0], chunk(-501, -501, -501, 999, 1));
    assert_eq!(summary[1], chunk(-501, -501, 498, 999, 1));
    assert_eq!(summary[26], chunk(1497, 1497, 1497, 999, 1));
}

#[test]
fn cells_without_particles_are_left_out() {
    // the molecule lies along x: of the eight cells only two hold a particle
    assert_eq!(
        summarize(&synthesize(2, 1000), 500),
        vec![chunk(250, 250, 250, 500, 1), chunk(750, 250, 250, 500, 1)]
    );
}

#[test]
fn grid_reaches_the_far_face_of_the_box() {
    // eight cells of side 0.115 span 0.92 exactly: the particle on the far
    // face is in a ninth
    assert_eq!(
        summarize(&synthesize(2, 1000), 115),
        vec![chunk(57, 57, 57, 115, 1), chunk(977, 57, 57, 115, 1)]
    );
    assert_eq!(
        summarize(&synthesize(2, 1000), 920),
        vec![chunk(460, 460, 460, 920, 1), chunk(1380, 460, 460, 920, 1)]
    );
    assert_eq!(summarize(&synthesize(2, 1000), 921), vec![chunk(460, 460, 460, 921, 2)]);
}

#[test]
fn grid_is_laid_along_the_longest_side_of_the_box() {
    let atoms = vec![at(0, 0, 0), at(0, 20_000, 0)];
    assert_eq!(
        summarize(&atoms, 10_000),
        vec![chunk(5000, 5000, 5000, 10_000, 1), chunk(5000, 25_000, 5000, 10_000, 1)]
    );
    let deep = vec![at(0, 0, 0), at(0, 0, 20_000)];
    assert_eq!(
        summarize(&deep, 10_000),
        vec![chunk(5000, 5000, 5000, 10_000, 1), chunk(5000, 5000, 25_000, 10_000, 1)]
    );
}

#[test]
fn cells_come_in_ascending_grid_order() {
    let summary = summarize(&synthesize(1000, 1000), 3000);
    assert_eq!(summary.len(), 64);
    assert_eq!(summary[0], chunk(-3000, -3000, -3000, 3000, 27));
    assert_eq!(summary[1], chunk(-3000, -3000, 0, 3000, 27));
    assert_eq!(summary[2], chunk(-3000, -3000, 3000, 3000, 27));
    assert_eq!(summary[63], chunk(6000, 6000, 6000, 3000, 1));
    assert_eq!(total(&summary), 1000);
    let coarse = summarize(&synthesize(1000, 1000), 5000);
    assert_eq!(coarse.len(), 8);
    assert!(coarse.iter().all(|c| c.atom_count == 125));
    assert_eq!(coarse[0], chunk(-2000, -2000, -2000, 5000, 125));
    assert_eq!(coarse[1], chunk(-2000, -2000, 3000, 5000, 125));
    assert_eq!(coarse[7], chunk(3000, 3000, 3000, 5000, 125));
}

#[test]
fn every_particle_is_counted_once() {
    for (count, spacing, side) in
        [(2usize, 1000, 100), (3, 1000, 400), (30, 700, 333), (64, 1000, 1500), (100, -250, 90)]
    {
        let atoms = synthesize(count, spacing);
        let summary = summarize(&atoms, side);
        assert_eq!(total(&summary), count);
        assert!(summary.iter().all(|c| c.atom_count >= 1 && c.size == side));
        // each particle is within half a side of the centre of some cell
        for atom in &atoms {
            assert!(summary.iter().any(|c| {
                2 * (atom.x - c.center_x).abs() <= side as i64
                    && 2 * (atom.y - c.center_y).abs() <= side as i64
                    && 2 * (atom.z - c.center_z).abs() <= side as i64
            }));
        }
    }
}

#[test]
fn particles_at_one_place_share_a_cell() {
    let atoms = vec![at(-7, 3, 0), at(-7, 3, 0), at(5, -4, 9)];
    assert_eq!(summarize(&atoms, 4), vec![chunk(-5, 2, 2, 4, 2), chunk(7, -2, 10, 4, 1)]);
    assert_eq!(summarize(&vec![at(0, 0, 0)], 7), vec![chunk(3, 3, 3, 7, 1)]);
}

#[test]
fn cells_without_a_positive_side_hold_nothing() {
    assert_eq!(summarize(&synthesize(2, 1000), 0), Vec::<SpatialChunk>::new());
    assert_eq!(summarize(&synthesize(2, 1000), -5), Vec::<SpatialChunk>::new());
    assert_eq!(summarize(&synthesize(27, 1000), i32::MIN), Vec::<SpatialChunk>::new());
}

#[test]
fn summary_of_particles_given_directly() {
    let atoms = vec![
        RawAtom { x: 0, y: 0, z: 0, element: 0 },
        RawAtom { x: 10, y: 0, z: 0, element: 1 },
        RawAtom { x: 10, y: 10, z: 10, element: 2 },
    ];
    assert_eq!(
        summarize(&atoms, 10),
        vec![chunk(5, 5, 5, 10, 1), chunk(15, 5, 5, 10, 1), chunk(15, 15, 15, 10, 1)]
    );
    assert_eq!(
        summarize(&atoms, 6),
        vec![chunk(3, 3, 3, 6, 1), chunk(9, 3, 3, 6, 1), chunk(9, 9, 9, 6, 1)]
    );
    assert_eq!(summarize(&atoms, 11), vec![chunk(5, 5, 5, 11, 3)]);
}
