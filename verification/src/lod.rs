//! Level-of-detail rules: the aggression factor of a dataset, the tier of a
//! particle at a given distance, and the rest radius of each element.

use vstd::prelude::*;

verus! {

/// The distance, in thousandths, up to which a particle is drawn at the
/// finest tier: ten units times the aggression factor.
pub open spec fn medium_threshold(aggression: int) -> int {
    10_000 * aggression
}

/// The distance, in thousandths, up to which a particle is drawn at tier two
/// or finer: twenty units times the aggression factor.
pub open spec fn low_threshold(aggression: int) -> int {
    20_000 * aggression
}

/// The distance, in thousandths, beyond which a particle is drawn as a
/// point: fifty units times the aggression factor.
pub open spec fn point_threshold(aggression: int) -> int {
    50_000 * aggression
}

/// The factor by which a dataset of `total` particles scales the tier
/// thresholds: one up to a thousand particles, doubling at each decade, and
/// thirty-two beyond ten million.
pub open spec fn aggression_factor(total: nat) -> int {
    if total <= 1_000 {
        1
    } else if total <= 10_000 {
        2
    } else if total <= 100_000 {
        4
    } else if total <= 1_000_000 {
        8
    } else if total <= 10_000_000 {
        16
    } else {
        32
    }
}

/// The tier of a particle whose squared distance from the observer is
/// `dist_sq` (in squared thousandths): 0 is the coarsest, 3 the finest.
///
/// A distance `d` lies beyond a threshold `t` exactly when `d * d > t * t`,
/// so the squares stand for the distances themselves.
pub open spec fn lod_tier(dist_sq: int, aggression: int) -> int {
    let point = point_threshold(aggression);
    let low = low_threshold(aggression);
    let medium = medium_threshold(aggression);
    if dist_sq > point * point {
        0
    } else if dist_sq > low * low {
        1
    } else if dist_sq > medium * medium {
        2
    } else {
        3
    }
}

/// The rest radius of an element, in thousandths.
pub open spec fn base_radius(element: u32) -> int {
    if element == 0 {
        250
    } else if element == 1 {
        350
    } else if element == 2 {
        300
    } else {
        280
    }
}

/// Computes [`aggression_factor`].
pub fn aggression_for(total: usize) -> (factor: u32)
    ensures
        factor == aggression_factor(total as nat),
{
    if total <= 1_000 {
        1
    } else if total <= 10_000 {
        2
    } else if total <= 100_000 {
        4
    } else if total <= 1_000_000 {
        8
    } else if total <= 10_000_000 {
        16
    } else {
        32
    }
}

/// Computes [`lod_tier`] for a squared distance.
pub fn tier_for(dist_sq: u128, aggression: u32) -> (tier: u32)
    ensures
        tier == lod_tier(dist_sq as int, aggression as int),
{
    let a: u128 = aggression as u128;
    let point: u128 = 50_000 * a;
    let low: u128 = 20_000 * a;
    let medium: u128 = 10_000 * a;
    assert(point * point <= 0x1_0000_0000_0000_0000_0000_0000 && low * low
        <= 0x1_0000_0000_0000_0000_0000_0000 && medium * medium
        <= 0x1_0000_0000_0000_0000_0000_0000) by (nonlinear_arith)
        requires
            point <= 50_000 * 0xffff_ffff,
            low <= 50_000 * 0xffff_ffff,
            medium <= 50_000 * 0xffff_ffff,
    ;
    if dist_sq > point * point {
        0
    } else if dist_sq > low * low {
        1
    } else if dist_sq > medium * medium {
        2
    } else {
        3
    }
}

/// Computes [`base_radius`].
pub fn radius_for(element: u32) -> (radius: i64)
    ensures
        radius == base_radius(element),
{
    if element == 0 {
        250
    } else if element == 1 {
        350
    } else if element == 2 {
        300
    } else {
        280
    }
}

/// For a fixed aggression factor the tier never rises as the distance grows.
pub proof fn lemma_tier_monotone(near_sq: int, far_sq: int, aggression: int)
    requires
        near_sq <= far_sq,
        aggression >= 0,
    ensures
        lod_tier(near_sq, aggression) >= lod_tier(far_sq, aggression),
{
    let point = point_threshold(aggression);
    let low = low_threshold(aggression);
    let medium = medium_threshold(aggression);
    assert(medium * medium <= low * low && low * low <= point * point) by (nonlinear_arith)
        requires
            0 <= medium <= low <= point,
    ;
}

/// The four tiers split the distances from zero upwards into four adjoining
/// ranges: a particle at distance `d` has tier 3 up to ten units times the
/// aggression factor, tier 2 up to twenty, tier 1 up to fifty, and tier 0
/// beyond.
pub proof fn lemma_tier_ranges(d: int, aggression: int)
    requires
        d >= 0,
        aggression >= 0,
    ensures
        0 <= lod_tier(d * d, aggression) <= 3,
        lod_tier(d * d, aggression) == 3 <==> d <= medium_threshold(aggression),
        lod_tier(d * d, aggression) == 2 <==> medium_threshold(aggression) < d <= low_threshold(
            aggression,
        ),
        lod_tier(d * d, aggression) == 1 <==> low_threshold(aggression) < d <= point_threshold(
            aggression,
        ),
        lod_tier(d * d, aggression) == 0 <==> point_threshold(aggression) < d,
{
    let point = point_threshold(aggression);
    let low = low_threshold(aggression);
    let medium = medium_threshold(aggression);
    lemma_square_order(d, point);
    lemma_square_order(d, low);
    lemma_square_order(d, medium);
}

/// Squaring keeps the order of two numbers that are not negative.
pub proof fn lemma_square_order(a: int, b: int)
    by (nonlinear_arith)
    requires
        a >= 0,
        b >= 0,
    ensures
        a * a > b * b <==> a > b,
{
}

} // verus!
