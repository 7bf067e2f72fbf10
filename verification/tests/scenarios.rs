use molecular_lod::chunks::SpatialChunk;
use molecular_lod::system::MolecularSystem;
use molecular_lod::types::{AtomData, Camera};

const FOV: i32 = 1047;
const ASPECT: i32 = 1778;
const NEAR: i32 = 100;
const FAR: i32 = 1_000_000;
const CONE: i32 = 809;

fn tiers(records: &[AtomData]) -> [usize; 4] {
    let mut counts = [0usize; 4];
    for record in records {
        counts[record.lod_level as usize] += 1;
    }
    counts
}

fn distance_sq(camera: &Camera, record: &AtomData) -> i128 {
    let dx = record.x as i128 - camera.x as i128;
    let dy = record.y as i128 - camera.y as i128;
    let dz = record.z as i128 - camera.z as i128;
    dx * dx + dy * dy + dz * dz
}

#[test]
fn two_particles_at_rest_and_at_full_stretch() {
    let mut system = MolecularSystem::new();
    system.load_atoms_from_file(2);
    // at time zero the sine is zero
    let first = system.get_atom_data(0, 0).unwrap();
    let second = system.get_atom_data(1, 0).unwrap();
    assert_eq!((first.x, first.y, first.z, first.element), (0, 0, 0, 0));
    assert_eq!((second.x, second.y, second.z, second.element), (920, 0, 0, 1));
    // where the sine is one, the second particle is 0.09 from its base
    let stretched = system.get_atom_data(1, 1000).unwrap();
    assert_eq!(stretched.x - second.x, 90);
    assert_eq!((stretched.y, stretched.z), (0, 0));
}

#[test]
fn million_particles_are_drawn_at_aggression_eight() {
    let mut system = MolecularSystem::new();
    system.load_atoms_from_file(1_000_000);
    assert_eq!(system.get_total_atom_count(), 1_000_000);
    assert_eq!(system.calculate_aggression_factor(), 8);
    let camera = Camera::new();
    let visible = system.get_visible_atoms_for_camera(&camera, FOV, ASPECT, NEAR, FAR, CONE);
    assert_eq!(visible.len(), 112_094);
    assert_eq!(tiers(&visible), [0, 0, 454, 111_640]);
    assert_eq!(
        visible[0],
        AtomData {
            x: -42_500,
            y: -49_500,
            z: -49_500,
            element: 3,
            radius: 280,
            phase: -141_500,
            lod_level: 2
        }
    );
    // the thresholds are those of a factor of eight: 80, 160 and 400 units
    for record in &visible {
        let d = distance_sq(&camera, record);
        let expected = if d > 400_000 * 400_000 {
            0
        } else if d > 160_000 * 160_000 {
            1
        } else if d > 80_000 * 80_000 {
            2
        } else {
            3
        };
        assert_eq!(record.lod_level, expected);
        assert!(25 * d <= 16 * (FAR as i128) * (FAR as i128));
    }
}

#[test]
fn distant_observer_sees_points_in_step_with_dataset_size() {
    let camera = Camera { x: 0, y: 0, z: 300_000, target_x: 0, target_y: 0, target_z: 0 };
    let mut system = MolecularSystem::new();
    let mut points = Vec::new();
    let mut finest = Vec::new();
    let mut factors = Vec::new();
    for count in [500usize, 5_000, 50_000] {
        system.load_atoms_from_file(count);
        factors.push(system.calculate_aggression_factor());
        let visible = system.get_visible_atoms_for_camera(&camera, FOV, ASPECT, NEAR, FAR, CONE);
        let counts = tiers(&visible);
        points.push(counts[0]);
        finest.push(counts[3]);
    }
    assert_eq!(factors, vec![1, 2, 4]);
    assert_eq!(points, vec![500, 5_000, 50_000]);
    assert_eq!(finest, vec![0, 0, 0]);
    for i in 0..3 {
        assert!(points[i] > finest[i] * finest[i]);
    }
    assert!(points[0] < points[1] && points[1] < points[2]);
}

#[test]
fn nearby_observer_sees_finer_tiers_as_thresholds_grow() {
    let camera = Camera::new();
    let mut system = MolecularSystem::new();
    system.load_atoms_from_file(500);
    let small = system.get_visible_atoms_for_camera(&camera, FOV, ASPECT, NEAR, FAR, CONE);
    assert_eq!(small.len(), 326);
    assert_eq!(tiers(&small), [0, 0, 10, 316]);
    system.load_atoms_from_file(5_000);
    let medium = system.get_visible_atoms_for_camera(&camera, FOV, ASPECT, NEAR, FAR, CONE);
    assert_eq!(medium.len(), 1_594);
    assert_eq!(tiers(&medium), [0, 0, 0, 1_594]);
    system.load_atoms_from_file(50_000);
    let large = system.get_visible_atoms_for_camera(&camera, FOV, ASPECT, NEAR, FAR, CONE);
    assert_eq!(large.len(), 8_322);
    assert_eq!(tiers(&large), [0, 0, 0, 8_322]);
}

#[test]
fn million_particles_from_afar_are_all_low_detail() {
    let camera = Camera { x: 0, y: 0, z: 300_000, target_x: 0, target_y: 0, target_z: 0 };
    let mut system = MolecularSystem::new();
    system.load_atoms_from_file(1_000_000);
    let visible = system.get_visible_atoms_for_camera(&camera, FOV, ASPECT, NEAR, FAR, CONE);
    assert_eq!(tiers(&visible), [0, 1_000_000, 0, 0]);
}

#[test]
fn cube_corners_in_cells_of_the_cube_side() {
    let mut system = MolecularSystem::new();
    system.set_grid_size(2000);
    system.load_atoms_from_file(8);
    let positions = system.get_all_atom_positions();
    assert_eq!(positions[..4], [-1000, -1000, -1000, 0]);
    assert_eq!(positions[28..], [1000, 1000, 1000, 3]);
    // as many cells as corners, each with one particle
    let summary = system.get_spatial_chunks(2000);
    assert_eq!(summary.len(), 8);
    assert!(summary.iter().all(|c| c.atom_count == 1));
    assert!(summary.iter().all(|c| c.size == 2000));
    assert!(summary.iter().all(|c| (c.reserved_0, c.reserved_1, c.reserved_2) == (0, 0, 0)));
    assert_eq!(
        summary[0],
        SpatialChunk {
            center_x: 0,
            center_y: 0,
            center_z: 0,
            size: 2000,
            atom_count: 1,
            reserved_0: 0,
            reserved_1: 0,
            reserved_2: 0
        }
    );
    assert_eq!((summary[7].center_x, summary[7].center_y, summary[7].center_z), (2000, 2000, 2000));
}

#[test]
fn grid_in_cells_of_half_the_spacing_counts_each_particle_once() {
    let mut system = MolecularSystem::new();
    system.load_atoms_from_file(27);
    let summary = system.get_spatial_chunks(500);
    assert_eq!(summary.len(), 27);
    assert!(summary.iter().all(|c| c.atom_count == 1));
}

#[test]
fn frame_loop_ticks_then_queries() {
    let mut system = MolecularSystem::new();
    system.load_atoms_from_file(2);
    let camera = Camera::new();
    let mut phases = Vec::new();
    for _ in 0..4 {
        system.update(16);
        let visible = system.get_visible_atoms_for_camera(&camera, FOV, ASPECT, NEAR, FAR, CONE);
        assert_eq!(visible.len(), 2);
        phases.push(visible[1].phase);
    }
    assert_eq!(phases, vec![936, 952, 968, 984]);
}
