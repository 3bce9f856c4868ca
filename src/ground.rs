//! Deciding whether a body stands on walkable ground from the contact normals
//! that a downward probe of its shape found this frame.

use crate::fixed::{FixedVec3, SCALE};
use vstd::prelude::*;

verus! {

/// Largest magnitude of a component of a contact normal.
pub const NORMAL_BOUND: i64 = 1_000_000;

/// The steepest slope that a body can stand and jump on, held as the cosine
/// of its angle to the world's up axis, in thousandths (`-SCALE..=SCALE`).
/// A slope is walkable when its angle is at most this one, that is when the
/// cosine of its angle is at least this cosine.
#[derive(Clone, Copy, Debug, PartialEq, Eq, Structural)]
pub struct MaxSlopeAngle(pub i64);

/// The components of `n` are within `NORMAL_BOUND`.
pub open spec fn normal_in_bounds(n: FixedVec3) -> bool {
    -NORMAL_BOUND <= n.x <= NORMAL_BOUND && -NORMAL_BOUND <= n.y <= NORMAL_BOUND && -NORMAL_BOUND
        <= n.z <= NORMAL_BOUND
}

/// Squared length of a vector in space.
pub open spec fn len3(n: FixedVec3) -> int {
    n.x * n.x + n.y * n.y + n.z * n.z
}

/// The angle between the nonzero normal `n` and the up axis is at most the
/// angle whose cosine is `cos_max / SCALE`: `n.y / |n| >= cos_max / SCALE`,
/// compared without roots by squaring both sides where their signs allow.
pub open spec fn within_slope(n: FixedVec3, cos_max: int) -> bool {
    &&& len3(n) > 0
    &&& if cos_max >= 0 {
        n.y >= 0 && n.y * n.y * SCALE * SCALE >= cos_max * cos_max * len3(n)
    } else {
        n.y >= 0 || n.y * n.y * SCALE * SCALE <= cos_max * cos_max * len3(n)
    }
}

/// A contact with normal `n` grounds the body: with no slope limit, any
/// contact does.
pub open spec fn hit_grounds(n: FixedVec3, max_slope: Option<MaxSlopeAngle>) -> bool {
    match max_slope {
        None => true,
        Some(limit) => within_slope(n, limit.0 as int),
    }
}

/// Some contact of the probe grounds the body.
pub open spec fn is_grounded(hits: Seq<FixedVec3>, max_slope: Option<MaxSlopeAngle>) -> bool {
    exists|i: int| 0 <= i < hits.len() && #[trigger] hit_grounds(hits[i], max_slope)
}

/// The limit, if any, is a cosine.
pub open spec fn slope_limit_valid(max_slope: Option<MaxSlopeAngle>) -> bool {
    match max_slope {
        None => true,
        Some(limit) => -SCALE <= limit.0 <= SCALE,
    }
}

/// Decides whether the surface with normal `n` is walkable under `limit`.
pub fn slope_walkable(n: FixedVec3, limit: MaxSlopeAngle) -> (r: bool)
    requires
        normal_in_bounds(n),
        -SCALE <= limit.0 <= SCALE,
    ensures
        r == within_slope(n, limit.0 as int),
{
    let x = n.x as i128;
    let y = n.y as i128;
    let z = n.z as i128;
    let c = limit.0 as i128;
    assert(0 <= x * x <= 1_000_000_000_000 && 0 <= y * y <= 1_000_000_000_000 && 0 <= z * z
        <= 1_000_000_000_000) by (nonlinear_arith)
        requires
            -1_000_000 <= x <= 1_000_000,
            -1_000_000 <= y <= 1_000_000,
            -1_000_000 <= z <= 1_000_000,
    ;
    assert(0 <= c * c <= 1_000_000) by (nonlinear_arith)
        requires
            -1000 <= c <= 1000,
    ;
    let len: i128 = x * x + y * y + z * z;
    assert(0 <= c * c * len <= 3_000_000_000_000_000_000) by (nonlinear_arith)
        requires
            0 <= c * c <= 1_000_000,
            0 <= len <= 3_000_000_000_000,
    ;
    let lhs: i128 = y * y * 1_000_000;
    let rhs: i128 = c * c * len;
    assert(lhs == n.y * n.y * SCALE * SCALE && rhs == c * c * len3(n)) by (nonlinear_arith)
        requires
            lhs == y * y * 1_000_000,
            rhs == c * c * len,
            len == x * x + y * y + z * z,
            x == n.x,
            y == n.y,
            z == n.z,
    ;
    if len == 0 {
        false
    } else if c >= 0 {
        y >= 0 && lhs >= rhs
    } else {
        y >= 0 || lhs <= rhs
    }
}

/// Decides whether a body stands on walkable ground: whether some contact
/// normal of its probe is within its slope limit, or, with no limit, whether
/// there is any contact at all.
pub fn classify_ground(hits: &Vec<FixedVec3>, max_slope: Option<MaxSlopeAngle>) -> (r: bool)
    requires
        forall|i: int| 0 <= i < hits@.len() ==> normal_in_bounds(#[trigger] hits@[i]),
        slope_limit_valid(max_slope),
    ensures
        r == is_grounded(hits@, max_slope),
{
    let mut i: usize = 0;
    while i < hits.len()
        invariant
            i <= hits@.len(),
            forall|j: int| 0 <= j < hits@.len() ==> normal_in_bounds(#[trigger] hits@[j]),
            slope_limit_valid(max_slope),
            forall|j: int| 0 <= j < i ==> !#[trigger] hit_grounds(hits@[j], max_slope),
        decreases hits@.len() - i,
    {
        let grounds = match max_slope {
            None => true,
            Some(limit) => slope_walkable(hits[i], limit),
        };
        if grounds {
            assert(hit_grounds(hits@[i as int], max_slope));
            return true;
        }
        i += 1;
    }
    false
}

/// With a single contact, the body is grounded exactly when the contact's
/// normal is within the slope limit, or, with no limit, always.
pub proof fn lemma_single_contact(n: FixedVec3, max_slope: Option<MaxSlopeAngle>)
    ensures
        is_grounded(seq![n], max_slope) == match max_slope {
            None => true,
            Some(limit) => within_slope(n, limit.0 as int),
        },
        !is_grounded(Seq::<FixedVec3>::empty(), max_slope),
{
    if hit_grounds(n, max_slope) {
        assert(hit_grounds(seq![n][0], max_slope));
    }
}

} // verus!
