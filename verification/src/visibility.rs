//! The evaluator: which particles of a store an observer sees, and how each
//! of them is to be drawn.

use crate::geometry::{distance_sq, in_bounds, is_visible, visible_distance, within_reach};
use crate::lod::{aggression_factor, aggression_for, base_radius, lod_tier, radius_for, tier_for};
use crate::types::{AtomData, Camera, RawAtom};
use vstd::prelude::*;

verus! {

/// The 64-bit number nearest to `value`.
pub open spec fn saturate(value: int) -> i64 {
    if value > i64::MAX {
        i64::MAX
    } else if value < i64::MIN {
        i64::MIN
    } else {
        value as i64
    }
}

/// The phase of a particle's breathing at a given time: the time plus the
/// particle's three coordinates, so that no two neighbours breathe in step.
pub open spec fn phase_of(time: i64, atom: RawAtom) -> i64 {
    saturate(time + atom.x + atom.y + atom.z)
}

/// How a particle that is seen is drawn: where it is, at its element's rest
/// radius, with its phase, and at the tier of its distance.
pub open spec fn drawn(atom: RawAtom, camera: Camera, total: nat, time: i64) -> AtomData {
    AtomData {
        x: atom.x,
        y: atom.y,
        z: atom.z,
        element: atom.element,
        radius: base_radius(atom.element) as i64,
        phase: phase_of(time, atom),
        lod_level: lod_tier(distance_sq(camera, atom), aggression_factor(total)) as u32,
    }
}

/// The test that [`visible_records`] filters by.
pub open spec fn seen_by(camera: Camera, far: i32, cone_cos: i32) -> spec_fn(RawAtom) -> bool {
    |atom: RawAtom| is_visible(camera, far as int, cone_cos as int, atom)
}

/// The map that [`visible_records`] applies to what is seen.
pub open spec fn drawn_by(camera: Camera, total: nat, time: i64) -> spec_fn(RawAtom) -> AtomData {
    |atom: RawAtom| drawn(atom, camera, total, time)
}

/// What the evaluator yields: the particles that the observer sees, in the
/// order of the store, each as it is to be drawn. `total` is the size of the
/// dataset, which sets the aggression factor; `cone_cos` is the cosine, in
/// thousandths, of the half-angle of the view cone.
pub open spec fn visible_records(
    atoms: Seq<RawAtom>,
    total: nat,
    time: i64,
    camera: Camera,
    far: i32,
    cone_cos: i32,
) -> Seq<AtomData> {
    atoms.filter(seen_by(camera, far, cone_cos)).map_values(drawn_by(camera, total, time))
}

/// Computes [`saturate`] of a sum of four numbers.
fn saturating_sum(a: i64, b: i64, c: i64, d: i64) -> (sum: i64)
    ensures
        sum == saturate(a + b + c + d),
{
    let wide: i128 = a as i128 + b as i128 + c as i128 + d as i128;
    if wide > i64::MAX as i128 {
        i64::MAX
    } else if wide < i64::MIN as i128 {
        i64::MIN
    } else {
        wide as i64
    }
}

/// Scans the whole store and produces [`visible_records`].
pub fn evaluate(
    atoms: &Vec<RawAtom>,
    total: usize,
    time: i64,
    camera: &Camera,
    far: i32,
    cone_cos: i32,
) -> (records: Vec<AtomData>)
    requires
        forall|i: int| 0 <= i < atoms@.len() ==> in_bounds(#[trigger] atoms@[i]),
    ensures
        records@ == visible_records(atoms@, total as nat, time, *camera, far, cone_cos),
{
    let aggression = aggression_for(total);
    let mut records: Vec<AtomData> = Vec::new();
    let mut i: usize = 0;
    assert(atoms@.take(0) =~= Seq::<RawAtom>::empty());
    assert(visible_records(Seq::<RawAtom>::empty(), total as nat, time, *camera, far, cone_cos)
        =~= Seq::<AtomData>::empty()) by {
        reveal(Seq::filter);
    }
    while i < atoms.len()
        invariant
            i <= atoms.len(),
            aggression == aggression_factor(total as nat),
            forall|j: int| 0 <= j < atoms@.len() ==> in_bounds(#[trigger] atoms@[j]),
            records@ == visible_records(
                atoms@.take(i as int),
                total as nat,
                time,
                *camera,
                far,
                cone_cos,
            ),
        decreases atoms.len() - i,
    {
        let atom = atoms[i];
        proof {
            let before = atoms@.take(i as int);
            assert(atoms@.take(i + 1) =~= before.push(atom));
            before.lemma_filter_push(atom, seen_by(*camera, far, cone_cos));
            before.filter(seen_by(*camera, far, cone_cos)).lemma_push_map_commute(
                drawn_by(*camera, total as nat, time),
                atom,
            );
        }
        match visible_distance(camera, far, cone_cos, &atom) {
            Some(dist_sq) => {
                records.push(
                    AtomData {
                        x: atom.x,
                        y: atom.y,
                        z: atom.z,
                        element: atom.element,
                        radius: radius_for(atom.element),
                        phase: saturating_sum(time, atom.x, atom.y, atom.z),
                        lod_level: tier_for(dist_sq, aggression),
                    },
                );
            },
            None => {},
        }
        i = i + 1;
    }
    assert(atoms@.take(atoms@.len() as int) =~= atoms@);
    records
}

/// The distance cull and the view cone decide alone what is kept: every
/// record is of a particle within four fifths of the far plane, and every
/// particle that is within reach and inside the cone has its record.
pub proof fn lemma_kept_exactly_the_visible(
    atoms: Seq<RawAtom>,
    total: nat,
    time: i64,
    camera: Camera,
    far: i32,
    cone_cos: i32,
)
    ensures
        forall|k: int|
            0 <= k < visible_records(atoms, total, time, camera, far, cone_cos).len() ==> {
                let record = #[trigger] visible_records(atoms, total, time, camera, far, cone_cos)[k];
                let place = RawAtom {
                    x: record.x,
                    y: record.y,
                    z: record.z,
                    element: record.element,
                };
                is_visible(camera, far as int, cone_cos as int, place) && within_reach(
                    distance_sq(camera, place),
                    far as int,
                ) && record == drawn(place, camera, total, time)
            },
        forall|i: int|
            0 <= i < atoms.len() && is_visible(camera, far as int, cone_cos as int, atoms[i])
                ==> visible_records(atoms, total, time, camera, far, cone_cos).contains(
                drawn(#[trigger] atoms[i], camera, total, time),
            ),
        forall|i: int|
            0 <= i < atoms.len() && !within_reach(distance_sq(camera, atoms[i]), far as int)
                ==> !visible_records(atoms, total, time, camera, far, cone_cos).contains(
                drawn(#[trigger] atoms[i], camera, total, time),
            ),
{
    let seen = seen_by(camera, far, cone_cos);
    let draw = drawn_by(camera, total, time);
    let kept = atoms.filter(seen);
    let records = visible_records(atoms, total, time, camera, far, cone_cos);
    assert forall|k: int| 0 <= k < records.len() implies {
        let record = #[trigger] records[k];
        let place = RawAtom { x: record.x, y: record.y, z: record.z, element: record.element };
        is_visible(camera, far as int, cone_cos as int, place) && within_reach(
            distance_sq(camera, place),
            far as int,
        ) && record == drawn(place, camera, total, time)
    } by {
        atoms.lemma_filter_pred(seen, k);
        assert(records[k] == draw(kept[k]));
        let record = records[k];
        let place = RawAtom { x: record.x, y: record.y, z: record.z, element: record.element };
        assert(place == kept[k]);
    }
    assert forall|i: int|
        0 <= i < atoms.len() && is_visible(
            camera,
            far as int,
            cone_cos as int,
            atoms[i],
        ) implies records.contains(drawn(#[trigger] atoms[i], camera, total, time)) by {
        atoms.lemma_filter_contains(seen, i);
        let k = choose|k: int| 0 <= k < kept.len() && kept[k] == atoms[i];
        assert(records[k] == draw(kept[k]));
    }
    assert forall|i: int|
        0 <= i < atoms.len() && !within_reach(
            distance_sq(camera, atoms[i]),
            far as int,
        ) implies !records.contains(drawn(#[trigger] atoms[i], camera, total, time)) by {
        if records.contains(drawn(atoms[i], camera, total, time)) {
            let k = choose|k: int| 0 <= k < records.len() && records[k] == drawn(atoms[i], camera, total, time);
            atoms.lemma_filter_pred(seen, k);
            assert(records[k] == draw(kept[k]));
            assert(kept[k].x == atoms[i].x && kept[k].y == atoms[i].y && kept[k].z == atoms[i].z);
            assert(distance_sq(camera, kept[k]) == distance_sq(camera, atoms[i]));
        }
    }
}

} // verus!
