//! The molecular system: the particle store, the animation clock and the
//! cache of what the last observer saw.
//!
//! The cache is rebuilt only when the observer's fingerprint differs from the
//! one it was built under. Loading a dataset and advancing the clock both
//! empty it.

use crate::chunks::{chunk_summary, summarize, SpatialChunk};
use crate::dataset::{
    bounding_box,
    dataset,
    flat_positions,
    flatten,
    is_bounding_box,
    small_molecule,
    synthesize,
    Bounds,
};
use crate::fingerprint::{camera_hash, fingerprint, is_stale, stale};
use crate::geometry::in_bounds;
use crate::lod::{aggression_factor, aggression_for};
use crate::types::{AtomData, BondData, Camera, RawAtom};
use crate::visibility::{
    evaluate,
    lemma_kept_exactly_the_visible,
    saturate,
    visible_records,
};
use vstd::prelude::*;

verus! {

/// The full stretch of the small molecule's bond, in thousandths. The second
/// particle swings by half of it to either side.
pub const BOND_STRETCH: i64 = 180;

/// What a query is made with: the observer, its field of view in thousandths
/// of a radian, the far plane, and the cosine, in thousandths, of the
/// half-angle of the view cone.
#[derive(Clone, Copy, Debug, PartialEq, Eq, Structural)]
pub struct Observer {
    pub camera: Camera,
    pub fov: i32,
    pub far: i32,
    pub cone_cos: i32,
}

/// The state of a molecular system, as contracts see it.
pub struct SystemState {
    /// The particle store, in load order.
    pub atoms: Seq<RawAtom>,
    /// The size of the dataset that was asked for.
    pub total: nat,
    /// The spacing of the grid.
    pub grid_size: i32,
    /// The animation clock.
    pub time: i64,
    /// The speed of the animation clock, in thousandths.
    pub speed: i32,
    /// The fingerprint that the cache was built under, if it was built.
    pub cache_key: Option<u64>,
    /// The cached records.
    pub cache: Seq<AtomData>,
    /// How often the evaluator has run.
    pub rebuilds: nat,
}

/// How far the second particle of the small molecule is moved along x when
/// the sine of the clock is `sin_time` thousandths.
pub open spec fn stretch_offset(sin_time: i32) -> int {
    (BOND_STRETCH * sin_time) / 2000
}

impl SystemState {
    /// A system with nothing loaded: unit grid spacing, the clock at zero and
    /// running at unit speed.
    pub open spec fn initial() -> SystemState {
        SystemState {
            atoms: Seq::empty(),
            total: 0,
            grid_size: 1000,
            time: 0,
            speed: 1000,
            cache_key: None,
            cache: Seq::empty(),
            rebuilds: 0,
        }
    }

    /// The state with an empty cache that the next query must rebuild.
    pub open spec fn invalidated(self) -> SystemState {
        SystemState { cache_key: None, cache: Seq::empty(), ..self }
    }

    /// The state after a dataset of `count` particles is loaded.
    pub open spec fn loaded(self, count: nat) -> SystemState {
        SystemState {
            atoms: dataset(count, self.grid_size as int),
            total: count,
            ..self.invalidated()
        }
    }

    /// The state after the clock has advanced by `delta` at the current speed.
    pub open spec fn ticked(self, delta: i32) -> SystemState {
        SystemState {
            time: saturate(self.time + (delta * self.speed) / 1000),
            ..self.invalidated()
        }
    }

    /// The state after the grid spacing is set: the dataset is laid out anew.
    pub open spec fn regridded(self, size: i32) -> SystemState {
        (SystemState { grid_size: size, ..self }).loaded(self.total)
    }

    /// What the evaluator yields in this state for an observer.
    pub open spec fn evaluation(self, observer: Observer) -> Seq<AtomData> {
        visible_records(
            self.atoms,
            self.total,
            self.time,
            observer.camera,
            observer.far,
            observer.cone_cos,
        )
    }

    /// The state after a query: the evaluator runs if the cache is out of
    /// date for the observer's fingerprint, and not otherwise.
    pub open spec fn queried(self, observer: Observer) -> SystemState {
        let key = camera_hash(observer.camera, observer.fov);
        if is_stale(self.cache_key, key) {
            SystemState {
                cache_key: Some(key),
                cache: self.evaluation(observer),
                rebuilds: self.rebuilds + 1,
                ..self
            }
        } else {
            self
        }
    }

    /// Whether the cache was built in this state under an observer with the
    /// fingerprint that it is kept under.
    pub open spec fn cache_is_current(self) -> bool {
        match self.cache_key {
            None => self.cache.len() == 0,
            Some(key) => exists|observer: Observer|
                camera_hash(observer.camera, observer.fov) == key && self.cache
                    == #[trigger] self.evaluation(observer),
        }
    }

    /// The invariant of a system: the store holds the dataset of its size and
    /// spacing, and the cache is current.
    pub open spec fn valid(self) -> bool {
        &&& self.total <= usize::MAX
        &&& self.atoms == dataset(self.total, self.grid_size as int)
        &&& self.cache_is_current()
    }

    /// The particle of the small molecule with the given index, as the
    /// single-particle accessor gives it: none for a larger dataset or an
    /// index past the end, and the second particle moved by the bond's
    /// stretch.
    pub open spec fn small_atom(self, index: nat, sin_time: i32) -> Option<AtomData> {
        if self.total <= 2 && index < self.atoms.len() {
            let atom = self.atoms[index as int];
            let offset = if index == 1 {
                stretch_offset(sin_time)
            } else {
                0
            };
            Some(
                AtomData {
                    x: (atom.x + offset) as i64,
                    y: atom.y,
                    z: atom.z,
                    element: atom.element,
                    radius: if atom.element == 0 {
                        250
                    } else {
                        350
                    },
                    phase: 0,
                    lod_level: 3,
                },
            )
        } else {
            None
        }
    }

    /// The bond of the small molecule, as the bond accessor gives it: from
    /// the first particle to the second, where both are there.
    pub open spec fn small_bond(self, index: nat, sin_time: i32) -> Option<BondData> {
        if self.total <= 2 && index == 0 && self.atoms.len() == 2 {
            let start = self.small_atom(0, sin_time).unwrap();
            let end = self.small_atom(1, sin_time).unwrap();
            Some(
                BondData {
                    start_x: start.x,
                    start_y: start.y,
                    start_z: start.z,
                    end_x: end.x,
                    end_y: end.y,
                    end_z: end.z,
                },
            )
        } else {
            None
        }
    }
}

/// A particle store with its animation clock and its cache of visible
/// particles.
pub struct MolecularSystem {
    all_atoms: Vec<RawAtom>,
    total_atom_count: usize,
    grid_size: i32,
    time: i64,
    animation_speed: i32,
    current_camera_hash: Option<u64>,
    cached_visible_atoms: Vec<AtomData>,
    rebuilds: Ghost<nat>,
}

impl View for MolecularSystem {
    type V = SystemState;

    closed spec fn view(&self) -> SystemState {
        SystemState {
            atoms: self.all_atoms@,
            total: self.total_atom_count as nat,
            grid_size: self.grid_size,
            time: self.time,
            speed: self.animation_speed,
            cache_key: self.current_camera_hash,
            cache: self.cached_visible_atoms@,
            rebuilds: self.rebuilds@,
        }
    }
}

/// A thousandth of `product`, rounded down.
fn thousandth(product: i64) -> (quotient: i64)
    requires
        product > i64::MIN,
    ensures
        quotient == product / 1000,
{
    if product >= 0 {
        product / 1000
    } else {
        let positive: i64 = -product;
        if positive % 1000 == 0 {
            -(positive / 1000)
        } else {
            -(positive / 1000) - 1
        }
    }
}

/// Computes [`stretch_offset`].
fn stretch(sin_time: i32) -> (offset: i64)
    ensures
        offset == stretch_offset(sin_time),
{
    let product: i64 = BOND_STRETCH * (sin_time as i64);
    if product >= 0 {
        product / 2000
    } else {
        let positive: i64 = -product;
        if positive % 2000 == 0 {
            -(positive / 2000)
        } else {
            -(positive / 2000) - 1
        }
    }
}

impl MolecularSystem {
    /// Whether the system is in a state that its operations keep: its state
    /// is valid, and every stored coordinate is within the coordinate bound.
    pub closed spec fn wf(&self) -> bool {
        &&& self@.valid()
        &&& self.store_in_bounds()
    }

    /// A system that its operations keep is in a valid state.
    pub proof fn lemma_wf_is_valid(&self)
        requires
            self.wf(),
        ensures
            self@.valid(),
    {
    }

    /// Whether every stored coordinate is within the coordinate bound.
    pub closed spec fn store_in_bounds(&self) -> bool {
        forall|i: int| 0 <= i < self.all_atoms@.len() ==> in_bounds(#[trigger] self.all_atoms@[i])
    }

    /// A system with nothing loaded.
    pub fn new() -> (system: MolecularSystem)
        ensures
            system.wf(),
            system@ == SystemState::initial(),
    {
        let system = MolecularSystem {
            all_atoms: Vec::new(),
            total_atom_count: 0,
            grid_size: 1000,
            time: 0,
            animation_speed: 1000,
            current_camera_hash: None,
            cached_visible_atoms: Vec::new(),
            rebuilds: Ghost(0),
        };
        assert(system@.atoms =~= dataset(0, 1000));
        system
    }

    /// Replaces the store by the dataset of `count` particles and empties
    /// the cache.
    pub fn load_atoms_from_file(&mut self, count: usize)
        ensures
            final(self).wf(),
            final(self)@ == old(self)@.loaded(count as nat),
    {
        self.total_atom_count = count;
        self.all_atoms.clear();
        self.read_all_atoms_from_source(count);
        self.invalidate_camera_cache();
    }

    /// Fills the store with the dataset of `count` particles at the current
    /// grid spacing.
    fn read_all_atoms_from_source(&mut self, count: usize)
        ensures
            final(self)@ == (SystemState {
                atoms: dataset(count as nat, old(self)@.grid_size as int),
                ..old(self)@
            }),
            forall|i: int|
                0 <= i < final(self).all_atoms@.len() ==> in_bounds(
                    #[trigger] final(self).all_atoms@[i],
                ),
    {
        self.all_atoms = synthesize(count, self.grid_size);
    }

    /// The bounding box of the store, or nothing where the store is empty.
    pub fn analyze_complete_dataset(&self) -> (bounds: Option<Bounds>)
        ensures
            bounds.is_none() == (self@.atoms.len() == 0),
            bounds.is_some() ==> is_bounding_box(self@.atoms, bounds.unwrap()),
    {
        bounding_box(&self.all_atoms)
    }

    /// What the observer sees. The cache is rebuilt if it is out of date for
    /// the observer's fingerprint; the cached records are returned either
    /// way. `aspect` and `near` are not used. `cone_cos` is the cosine, in
    /// thousandths, of the half-angle of the view cone.
    pub fn get_visible_atoms_for_camera(
        &mut self,
        camera: &Camera,
        fov: i32,
        aspect: i32,
        near: i32,
        far: i32,
        cone_cos: i32,
    ) -> (visible: Vec<AtomData>)
        requires
            old(self).wf(),
        ensures
            final(self).wf(),
            final(self)@ == old(self)@.queried(Observer { camera: *camera, fov, far, cone_cos }),
            visible@ == final(self)@.cache,
    {
        let ghost observer = Observer { camera: *camera, fov, far, cone_cos };
        let camera_hash = self.calculate_camera_hash(camera, fov, aspect, near, far);
        if stale(self.current_camera_hash, camera_hash) {
            self.current_camera_hash = Some(camera_hash);
            self.cached_visible_atoms.clear();
            self.recalculate_visibility_for_camera(camera, fov, aspect, near, far, cone_cos);
            assert(self@.cache == self@.evaluation(observer));
        }
        let mut visible: Vec<AtomData> = Vec::new();
        let mut i: usize = 0;
        while i < self.cached_visible_atoms.len()
            invariant
                i <= self.cached_visible_atoms.len(),
                visible@ == self.cached_visible_atoms@.take(i as int),
            decreases self.cached_visible_atoms.len() - i,
        {
            visible.push(self.cached_visible_atoms[i]);
            assert(self.cached_visible_atoms@.take(i + 1) =~= self.cached_visible_atoms@.take(
                i as int,
            ).push(self.cached_visible_atoms@[i as int]));
            i = i + 1;
        }
        assert(self.cached_visible_atoms@.take(self.cached_visible_atoms@.len() as int)
            =~= self.cached_visible_atoms@);
        visible
    }

    /// Runs the evaluator over the whole store and keeps its result as the
    /// cache.
    fn recalculate_visibility_for_camera(
        &mut self,
        camera: &Camera,
        fov: i32,
        _aspect: i32,
        _near: i32,
        far: i32,
        cone_cos: i32,
    )
        requires
            forall|i: int|
                0 <= i < old(self).all_atoms@.len() ==> in_bounds(
                    #[trigger] old(self).all_atoms@[i],
                ),
        ensures
            final(self)@ == (SystemState {
                cache: old(self)@.evaluation(Observer { camera: *camera, fov, far, cone_cos }),
                rebuilds: old(self)@.rebuilds + 1,
                ..old(self)@
            }),
            final(self).all_atoms@ == old(self).all_atoms@,
    {
        self.cached_visible_atoms = evaluate(
            &self.all_atoms,
            self.total_atom_count,
            self.time,
            camera,
            far,
            cone_cos,
        );
        self.rebuilds = Ghost((self.rebuilds@ + 1) as nat);
    }

    /// The factor by which the size of the dataset scales the tier
    /// thresholds.
    pub fn calculate_aggression_factor(&self) -> (factor: u32)
        ensures
            factor == aggression_factor(self@.total),
    {
        aggression_for(self.total_atom_count)
    }

    /// The fingerprint of an observer and a field of view. The aspect ratio
    /// and the near and far planes have no part in it.
    pub fn calculate_camera_hash(
        &self,
        camera: &Camera,
        fov: i32,
        _aspect: i32,
        _near: i32,
        _far: i32,
    ) -> (hash: u64)
        ensures
            hash == camera_hash(*camera, fov),
    {
        fingerprint(camera, fov)
    }

    /// Empties the cache, so that the next query rebuilds it.
    pub fn invalidate_camera_cache(&mut self)
        ensures
            final(self)@ == old(self)@.invalidated(),
            old(self).store_in_bounds() ==> final(self).store_in_bounds(),
            old(self).wf() ==> final(self).wf(),
    {
        self.current_camera_hash = None;
        self.cached_visible_atoms.clear();
    }

    /// The store as one flat vector: x, y, z and element tag of each
    /// particle in turn.
    pub fn get_all_atom_positions(&self) -> (positions: Vec<i64>)
        ensures
            positions@ == flat_positions(self@.atoms),
    {
        flatten(&self.all_atoms)
    }

    /// The spatial chunk summary of the store for cells of side `chunk_size`:
    /// each particle is counted in one cell, and the cells that hold any are
    /// given in grid order.
    pub fn get_spatial_chunks(&self, chunk_size: i32) -> (chunks: Vec<SpatialChunk>)
        requires
            self.wf(),
        ensures
            chunks@ == chunk_summary(self@.atoms, chunk_size as int),
    {
        summarize(&self.all_atoms, chunk_size)
    }

    /// Advances the clock by `delta_time` at the current speed and empties
    /// the cache.
    pub fn update(&mut self, delta_time: i32)
        requires
            old(self).wf(),
        ensures
            final(self).wf(),
            final(self)@ == old(self)@.ticked(delta_time),
    {
        assert(-0x4000_0000_0000_0000 <= delta_time * self.animation_speed
            <= 0x4000_0000_0000_0000) by (nonlinear_arith)
            requires
                -0x8000_0000 <= delta_time <= 0x8000_0000,
                -0x8000_0000 <= self.animation_speed <= 0x8000_0000,
        ;
        let step: i64 = thousandth((delta_time as i64) * (self.animation_speed as i64));
        let moved: i128 = self.time as i128 + step as i128;
        self.time = if moved > i64::MAX as i128 {
            i64::MAX
        } else if moved < i64::MIN as i128 {
            i64::MIN
        } else {
            moved as i64
        };
        self.invalidate_camera_cache();
    }

    /// The size of the dataset that was asked for.
    pub fn get_total_atom_count(&self) -> (count: usize)
        ensures
            count == self@.total,
    {
        self.total_atom_count
    }

    /// The animation clock, in thousandths of a second.
    pub fn get_time(&self) -> (time: i64)
        ensures
            time == self@.time,
    {
        self.time
    }

    /// Sets the speed of the clock, in thousandths. The cache is kept.
    pub fn set_animation_speed(&mut self, speed: i32)
        ensures
            final(self)@ == (SystemState { speed, ..old(self)@ }),
            old(self).wf() ==> final(self).wf(),
    {
        self.animation_speed = speed;
        proof {
            if old(self).wf() && self@.cache_key.is_some() {
                let built_for = choose|observer: Observer|
                    camera_hash(observer.camera, observer.fov) == self@.cache_key.unwrap()
                        && old(self)@.cache == #[trigger] old(self)@.evaluation(observer);
                assert(self@.cache == self@.evaluation(built_for));
            }
        }
    }

    /// Sets the grid spacing and lays the dataset out anew.
    pub fn set_grid_size(&mut self, size: i32)
        ensures
            final(self).wf(),
            final(self)@ == old(self)@.regridded(size),
    {
        self.grid_size = size;
        let count = self.total_atom_count;
        self.load_atoms_from_file(count);
    }

    /// Loads a dataset, as [`MolecularSystem::load_atoms_from_file`] does.
    pub fn generate_atoms(&mut self, count: usize)
        ensures
            final(self).wf(),
            final(self)@ == old(self)@.loaded(count as nat),
    {
        self.load_atoms_from_file(count);
    }

    /// What the observer sees, as
    /// [`MolecularSystem::get_visible_atoms_for_camera`] gives it.
    pub fn cull_and_lod(
        &mut self,
        camera: &Camera,
        fov: i32,
        aspect: i32,
        near: i32,
        far: i32,
        cone_cos: i32,
    ) -> (visible: Vec<AtomData>)
        requires
            old(self).wf(),
        ensures
            final(self).wf(),
            final(self)@ == old(self)@.queried(Observer { camera: *camera, fov, far, cone_cos }),
            visible@ == final(self)@.cache,
    {
        self.get_visible_atoms_for_camera(camera, fov, aspect, near, far, cone_cos)
    }

    /// The number of particles, for a dataset of at most two; zero for a
    /// larger one.
    pub fn get_atom_count(&self) -> (count: usize)
        ensures
            count == if self@.total <= 2 {
                self@.total
            } else {
                0
            },
    {
        if self.total_atom_count <= 2 {
            self.total_atom_count
        } else {
            0
        }
    }

    /// A particle of the small molecule, where the sine of the clock is
    /// `sin_time` thousandths.
    pub fn get_atom_data(&self, index: usize, sin_time: i32) -> (atom: Option<AtomData>)
        requires
            self.wf(),
        ensures
            atom == self@.small_atom(index as nat, sin_time),
    {
        if self.total_atom_count <= 2 && index < self.all_atoms.len() {
            let atom = self.all_atoms[index];
            let animated_offset: i64 = if index == 1 {
                stretch(sin_time)
            } else {
                0
            };
            assert(-0x100_0000_0000 <= animated_offset <= 0x100_0000_0000);
            assert(small_molecule().take(self.total_atom_count as int)[index as int]
                == small_molecule()[index as int]);
            Some(
                AtomData {
                    x: atom.x + animated_offset,
                    y: atom.y,
                    z: atom.z,
                    element: atom.element,
                    radius: if atom.element == 0 {
                        250
                    } else {
                        350
                    },
                    phase: 0,
                    lod_level: 3,
                },
            )
        } else {
            None
        }
    }

    /// The number of bonds: one for a dataset of at most two particles, zero
    /// for a larger one.
    pub fn get_bond_count(&self) -> (count: usize)
        ensures
            count == if self@.total <= 2 {
                1nat
            } else {
                0nat
            },
    {
        if self.total_atom_count <= 2 {
            1
        } else {
            0
        }
    }

    /// The bond of the small molecule, where the sine of the clock is
    /// `sin_time` thousandths.
    pub fn get_bond_data(&self, index: usize, sin_time: i32) -> (bond: Option<BondData>)
        requires
            self.wf(),
        ensures
            bond == self@.small_bond(index as nat, sin_time),
    {
        if self.total_atom_count <= 2 && index == 0 {
            let h_atom = match self.get_atom_data(0, sin_time) {
                Some(atom) => atom,
                None => {
                    return None;
                },
            };
            let f_atom = match self.get_atom_data(1, sin_time) {
                Some(atom) => atom,
                None => {
                    return None;
                },
            };
            Some(
                BondData {
                    start_x: h_atom.x,
                    start_y: h_atom.y,
                    start_z: h_atom.z,
                    end_x: f_atom.x,
                    end_y: f_atom.y,
                    end_z: f_atom.z,
                },
            )
        } else {
            None
        }
    }
}

/// Two queries in a row under one fingerprint, with no tick between them:
/// the second runs no evaluation, leaves the state as it was, and returns
/// what the first returned. The far plane and the view cone of the second
/// observer play no part.
pub proof fn lemma_query_reuses_cache(state: SystemState, first: Observer, second: Observer)
    requires
        camera_hash(first.camera, first.fov) == camera_hash(second.camera, second.fov),
    ensures
        state.queried(first).queried(second) == state.queried(first),
        state.queried(first).queried(second).rebuilds == state.queried(first).rebuilds,
        state.queried(first).queried(second).cache == state.queried(first).cache,
{
}

/// A tick, whatever its length, makes the next query run the evaluator, also
/// for the observer that the cache was built for. The records are those of
/// the new time: each phase is the new time plus the particle's coordinates.
pub proof fn lemma_tick_forces_rebuild(state: SystemState, delta: i32, observer: Observer)
    ensures
        state.ticked(delta).queried(observer).rebuilds == state.rebuilds + 1,
        state.ticked(delta).queried(observer).cache_key == Some(
            camera_hash(observer.camera, observer.fov),
        ),
        state.ticked(delta).queried(observer).cache == state.ticked(delta).evaluation(observer),
        forall|k: int|
            0 <= k < state.ticked(delta).queried(observer).cache.len() ==> {
                let record = #[trigger] state.ticked(delta).queried(observer).cache[k];
                record.phase == saturate(
                    state.ticked(delta).time + record.x + record.y + record.z,
                )
            },
{
    let ticked = state.ticked(delta);
    lemma_kept_exactly_the_visible(
        ticked.atoms,
        ticked.total,
        ticked.time,
        observer.camera,
        observer.far,
        observer.cone_cos,
    );
}

/// Loading a dataset makes the next query run the evaluator on the new
/// store.
pub proof fn lemma_load_forces_rebuild(state: SystemState, count: nat, observer: Observer)
    ensures
        state.loaded(count).queried(observer).rebuilds == state.rebuilds + 1,
        state.loaded(count).queried(observer).cache == state.loaded(count).evaluation(observer),
{
}

/// Every operation keeps a valid state valid: the cache that a query returns
/// was built, in the state as it is, under an observer with the fingerprint
/// that it is kept under.
pub proof fn lemma_valid_is_kept(
    state: SystemState,
    count: nat,
    delta: i32,
    size: i32,
    speed: i32,
    observer: Observer,
)
    requires
        state.valid(),
        count <= usize::MAX,
    ensures
        SystemState::initial().valid(),
        state.invalidated().valid(),
        state.loaded(count).valid(),
        state.ticked(delta).valid(),
        state.regridded(size).valid(),
        (SystemState { speed, ..state }).valid(),
        state.queried(observer).valid(),
        state.queried(observer).cache_key == Some(camera_hash(observer.camera, observer.fov)),
{
    assert(SystemState::initial().atoms =~= dataset(0, 1000));
    let queried = state.queried(observer);
    let key = camera_hash(observer.camera, observer.fov);
    if is_stale(state.cache_key, key) {
        assert(queried.cache == queried.evaluation(observer));
    }
    if state.cache_key.is_some() {
        let built_for = choose|built_for: Observer|
            camera_hash(built_for.camera, built_for.fov) == state.cache_key.unwrap() && state.cache
                == #[trigger] state.evaluation(built_for);
        let faster = SystemState { speed, ..state };
        assert(faster.cache == faster.evaluation(built_for));
    }
}

} // verus!
