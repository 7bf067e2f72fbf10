//! A camera-adaptive visibility and level-of-detail cache for large particle
//! scenes, in fixed-point arithmetic.
//!
//! A [`MolecularSystem`] owns a store of particles, an animation clock and
//! the records of the particles that the last observer saw. A query compares
//! the observer's fingerprint with the one the records were built under and
//! scans the store again only if the two differ; loading a dataset and
//! advancing the clock both empty the cache.
//!
//! Every scalar is an integer count of thousandths: lengths in thousandths of
//! a scene unit, angles in thousandths of a radian, time in thousandths of a
//! second, cosines and sines in thousandths of one. The library takes no
//! sine or cosine itself. A query is handed the cosine of the half-angle of
//! the view cone, the small-molecule accessors are handed the sine of the
//! clock, and each record carries the phase of its radius's breathing for
//! the caller to take the sine of.
//!
//! - [`types`]: the records that cross the library's boundary
//! - [`dataset`]: what a load puts into the store, and its bounding box
//! - [`fingerprint`]: the observer's fingerprint and the staleness test
//! - [`geometry`]: the distance cull and the view cone, decided exactly
//! - [`lod`]: aggression factor, tiers and rest radii
//! - [`visibility`]: the scan of the store
//! - [`chunks`]: the spatial chunk summary
//! - [`system`]: the system, its state as contracts see it, and its laws
//! - [`wide`]: products of 128-bit numbers, for the view cone

pub mod chunks;
pub mod dataset;
pub mod fingerprint;
pub mod geometry;
pub mod lod;
pub mod system;
pub mod types;
pub mod visibility;
pub mod wide;

pub use crate::system::MolecularSystem;
pub use crate::types::{AtomData, BondData, Camera};
