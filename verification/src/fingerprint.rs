//! The fingerprint of an observer, by which a change of view is detected.
//!
//! Each coordinate is a whole number of thousandths and enters the
//! fingerprint as its 32-bit pattern, its sign included. The field of view
//! enters in hundredths of a radian. Each of the seven values is turned by a
//! number of bits of its own, so that none of its bits is lost, and the seven
//! are combined by exclusive or.

use crate::types::Camera;
use vstd::prelude::*;

verus! {

/// A coordinate as the fingerprint reads it: the number itself where it is
/// not negative, and two to the power 32 more where it is. No two
/// coordinates are read alike.
pub open spec fn quantise(coordinate: i32) -> u64 {
    if coordinate < 0 {
        (coordinate + 0x1_0000_0000) as u64
    } else {
        coordinate as u64
    }
}

/// A field of view, given in thousandths of a radian, in whole hundredths,
/// rounded toward zero.
pub open spec fn hundredths(fov: i32) -> i32 {
    if fov < 0 {
        (-((-fov) / 10)) as i32
    } else {
        (fov / 10) as i32
    }
}

/// A field of view as the fingerprint reads it.
pub open spec fn quantise_fov(fov: i32) -> u64 {
    quantise(hundredths(fov))
}

/// How seven quantised values combine into a fingerprint: the second to the
/// sixth are turned to the left by 10, 20, 30, 40 and 50 bits, what leaves
/// at the top coming back in at the bottom.
pub open spec fn mix(x: u64, y: u64, z: u64, tx: u64, ty: u64, tz: u64, fov: u64) -> u64 {
    x ^ ((y << 10) | (y >> 54)) ^ ((z << 20) | (z >> 44)) ^ ((tx << 30) | (tx >> 34)) ^ ((ty << 40)
        | (ty >> 24)) ^ ((tz << 50) | (tz >> 14)) ^ fov
}

/// The fingerprint of an observer and a field of view. The aspect ratio and
/// the near and far planes have no part in it.
pub open spec fn camera_hash(camera: Camera, fov: i32) -> u64 {
    mix(
        quantise(camera.x),
        quantise(camera.y),
        quantise(camera.z),
        quantise(camera.target_x),
        quantise(camera.target_y),
        quantise(camera.target_z),
        quantise_fov(fov),
    )
}

/// Whether a cache built under `key` is out of date for the fingerprint
/// `fingerprint`. A cache that was never built is out of date for every
/// fingerprint.
pub open spec fn is_stale(key: Option<u64>, fingerprint: u64) -> bool {
    key != Some(fingerprint)
}

fn quantised(coordinate: i32) -> (q: u64)
    ensures
        q == quantise(coordinate),
        q <= 0xffff_ffff,
{
    if coordinate < 0 {
        (coordinate as i64 + 0x1_0000_0000) as u64
    } else {
        coordinate as u64
    }
}

/// Computes [`camera_hash`].
pub fn fingerprint(camera: &Camera, fov: i32) -> (hash: u64)
    ensures
        hash == camera_hash(*camera, fov),
{
    let whole: i32 = if fov < 0 {
        (-((-(fov as i64)) / 10)) as i32
    } else {
        fov / 10
    };
    let x = quantised(camera.x);
    let y = quantised(camera.y);
    let z = quantised(camera.z);
    let tx = quantised(camera.target_x);
    let ty = quantised(camera.target_y);
    let tz = quantised(camera.target_z);
    let mut hash: u64 = x;
    hash ^= (y << 10) | (y >> 54);
    hash ^= (z << 20) | (z >> 44);
    hash ^= (tx << 30) | (tx >> 34);
    hash ^= (ty << 40) | (ty >> 24);
    hash ^= (tz << 50) | (tz >> 14);
    hash ^= quantised(whole);
    hash
}

/// Decides [`is_stale`].
pub fn stale(key: Option<u64>, fingerprint: u64) -> (out_of_date: bool)
    ensures
        out_of_date == is_stale(key, fingerprint),
{
    match key {
        None => true,
        Some(built) => built != fingerprint,
    }
}

/// Observers that quantise alike have the same fingerprint.
pub proof fn lemma_same_quantisation(a: Camera, a_fov: i32, b: Camera, b_fov: i32)
    requires
        quantise(a.x) == quantise(b.x),
        quantise(a.y) == quantise(b.y),
        quantise(a.z) == quantise(b.z),
        quantise(a.target_x) == quantise(b.target_x),
        quantise(a.target_y) == quantise(b.target_y),
        quantise(a.target_z) == quantise(b.target_z),
        quantise_fov(a_fov) == quantise_fov(b_fov),
    ensures
        camera_hash(a, a_fov) == camera_hash(b, b_fov),
{
}

/// Fields of view within one hundredth of a radian, on one side of zero,
/// are read alike; the fingerprint absorbs such jitter.
pub proof fn lemma_fov_jitter_absorbed(camera: Camera, a_fov: i32, b_fov: i32)
    requires
        hundredths(a_fov) == hundredths(b_fov),
    ensures
        camera_hash(camera, a_fov) == camera_hash(camera, b_fov),
{
}

/// A change of any one of the six coordinates, all else kept, changes the
/// fingerprint. So does a change of the field of view from one hundredth of
/// a radian to another.
pub proof fn lemma_change_detected(camera: Camera, fov: i32, value: i32)
    ensures
        value != camera.x ==> camera_hash(Camera { x: value, ..camera }, fov) != camera_hash(
            camera,
            fov,
        ),
        value != camera.y ==> camera_hash(Camera { y: value, ..camera }, fov) != camera_hash(
            camera,
            fov,
        ),
        value != camera.z ==> camera_hash(Camera { z: value, ..camera }, fov) != camera_hash(
            camera,
            fov,
        ),
        value != camera.target_x ==> camera_hash(Camera { target_x: value, ..camera }, fov)
            != camera_hash(camera, fov),
        value != camera.target_y ==> camera_hash(Camera { target_y: value, ..camera }, fov)
            != camera_hash(camera, fov),
        value != camera.target_z ==> camera_hash(Camera { target_z: value, ..camera }, fov)
            != camera_hash(camera, fov),
        hundredths(value) != hundredths(fov) ==> camera_hash(camera, value) != camera_hash(
            camera,
            fov,
        ),
{
    let x = quantise(camera.x);
    let y = quantise(camera.y);
    let z = quantise(camera.z);
    let tx = quantise(camera.target_x);
    let ty = quantise(camera.target_y);
    let tz = quantise(camera.target_z);
    let f = quantise_fov(fov);
    let v = quantise(value);
    let w = quantise_fov(value);
    assert(v != x ==> mix(v, y, z, tx, ty, tz, f) != mix(x, y, z, tx, ty, tz, f)) by (bit_vector);
    assert(v != y ==> mix(x, v, z, tx, ty, tz, f) != mix(x, y, z, tx, ty, tz, f)) by (bit_vector);
    assert(v != z ==> mix(x, y, v, tx, ty, tz, f) != mix(x, y, z, tx, ty, tz, f)) by (bit_vector);
    assert(v != tx ==> mix(x, y, z, v, ty, tz, f) != mix(x, y, z, tx, ty, tz, f)) by (bit_vector);
    assert(v != ty ==> mix(x, y, z, tx, v, tz, f) != mix(x, y, z, tx, ty, tz, f)) by (bit_vector);
    assert(v != tz ==> mix(x, y, z, tx, ty, v, f) != mix(x, y, z, tx, ty, tz, f)) by (bit_vector);
    assert(w != f ==> mix(x, y, z, tx, ty, tz, w) != mix(x, y, z, tx, ty, tz, f)) by (bit_vector);
}

} // verus!
