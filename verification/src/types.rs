//! The plain records that the library takes and hands out.

use vstd::prelude::*;

verus! {

/// An observer: where it stands and what it looks at, in thousandths.
#[derive(Clone, Copy, Debug, PartialEq, Eq, Structural)]
pub struct Camera {
    pub x: i32,
    pub y: i32,
    pub z: i32,
    pub target_x: i32,
    pub target_y: i32,
    pub target_z: i32,
}

impl Camera {
    /// An observer two units up and five units back from the origin, looking
    /// at the origin.
    pub fn new() -> (camera: Camera)
        ensures
            camera == (Camera { x: 0, y: 2000, z: 5000, target_x: 0, target_y: 0, target_z: 0 }),
    {
        Camera { x: 0, y: 2000, z: 5000, target_x: 0, target_y: 0, target_z: 0 }
    }
}

/// A stored particle: its position in thousandths and its element tag.
#[derive(Clone, Copy, Debug, PartialEq, Eq, Structural)]
pub struct RawAtom {
    pub x: i64,
    pub y: i64,
    pub z: i64,
    pub element: u32,
}

/// A particle as it is to be drawn.
///
/// `radius` is the rest radius in thousandths. The radius breathes around it
/// by [`BREATHING_AMPLITUDE`] times the sine of `phase`, which is an angle in
/// thousandths of a radian; a phase of zero leaves the radius at rest.
/// `lod_level` is the tier, from 0 (a point) to 3 (the finest).
#[derive(Clone, Copy, Debug, PartialEq, Eq, Structural)]
pub struct AtomData {
    pub x: i64,
    pub y: i64,
    pub z: i64,
    pub element: u32,
    pub radius: i64,
    pub phase: i64,
    pub lod_level: u32,
}

/// The two ends of a bond, in thousandths.
#[derive(Clone, Copy, Debug, PartialEq, Eq, Structural)]
pub struct BondData {
    pub start_x: i64,
    pub start_y: i64,
    pub start_z: i64,
    pub end_x: i64,
    pub end_y: i64,
    pub end_z: i64,
}

/// The amplitude, in thousandths, by which a drawn radius breathes around its
/// rest value.
pub const BREATHING_AMPLITUDE: i64 = 20;

} // verus!
