//! Turning the keys held this frame and the camera's heading into movement
//! intents.

use crate::fixed::{lemma_normalize_unit, magnitude, normalize, normalized, FixedVec2, SCALE};
use vstd::prelude::*;

verus! {

/// Largest magnitude of a component of the camera's heading.
pub const CAMERA_BOUND: i64 = 0x8000_0000;

/// What a controller asks of its body in one frame.
#[derive(Clone, Copy, Debug, PartialEq, Eq, Structural)]
pub enum MovementAction {
    /// Accelerate along a planar direction of unit length, or zero; `x` is the
    /// world's x axis and `y` the world's z axis.
    Move(FixedVec2),
    /// Jump, if the body stands on the ground.
    Jump,
}

/// The steering keys as they stand this frame, and the jump key as it stood
/// in the frame before.
#[derive(Clone, Copy, Debug, PartialEq, Eq, Structural)]
pub struct KeyboardState {
    pub forward: bool,
    pub backward: bool,
    pub left: bool,
    pub right: bool,
    pub jump: bool,
    pub jump_before: bool,
}

/// The camera's heading has components within `CAMERA_BOUND`.
pub open spec fn camera_in_bounds(heading: FixedVec2) -> bool {
    -CAMERA_BOUND <= heading.x <= CAMERA_BOUND && -CAMERA_BOUND <= heading.y <= CAMERA_BOUND
}

/// `v` when the key is held, zero otherwise.
pub open spec fn held(key: bool, v: int) -> int {
    if key {
        v
    } else {
        0
    }
}

/// The camera's right-hand direction: its heading turned a quarter to the
/// right about the up axis.
pub open spec fn right_of(heading: FixedVec2) -> FixedVec2 {
    FixedVec2 { x: (-heading.y) as i64, y: heading.x }
}

/// The sum of the heading for forward, minus it for backward, the right-hand
/// direction for right and minus it for left.
pub open spec fn move_sum(keys: KeyboardState, heading: FixedVec2) -> FixedVec2 {
    let right = right_of(heading);
    FixedVec2 {
        x: (held(keys.forward, heading.x as int) - held(keys.backward, heading.x as int) - held(
            keys.left,
            right.x as int,
        ) + held(keys.right, right.x as int)) as i64,
        y: (held(keys.forward, heading.y as int) - held(keys.backward, heading.y as int) - held(
            keys.left,
            right.y as int,
        ) + held(keys.right, right.y as int)) as i64,
    }
}

/// The planar direction asked for: the key sum scaled to unit length.
pub open spec fn planar_intent(keys: KeyboardState, heading: FixedVec2) -> FixedVec2 {
    normalized(move_sum(keys, heading))
}

/// The jump key went down this frame.
pub open spec fn jump_just_pressed(keys: KeyboardState) -> bool {
    keys.jump && !keys.jump_before
}

/// The intents of one frame: always a move, then a jump on the frame the
/// jump key goes down.
pub open spec fn intents(keys: KeyboardState, heading: FixedVec2) -> Seq<MovementAction> {
    if jump_just_pressed(keys) {
        seq![MovementAction::Move(planar_intent(keys, heading)), MovementAction::Jump]
    } else {
        seq![MovementAction::Move(planar_intent(keys, heading))]
    }
}

/// Translates the keys held and the camera's heading into this frame's
/// movement intents. The heading is the direction that the camera faces,
/// projected on the horizontal plane (from its yaw alone): `x` along the
/// world's x axis, `y` along its z axis, in thousandths.
pub fn keyboard_input(keys: KeyboardState, heading: FixedVec2) -> (r: Vec<MovementAction>)
    requires
        camera_in_bounds(heading),
    ensures
        r@ == intents(keys, heading),
{
    let right = FixedVec2 { x: -heading.y, y: heading.x };
    let mut sum = FixedVec2 { x: 0, y: 0 };
    if keys.forward {
        sum = FixedVec2 { x: sum.x + heading.x, y: sum.y + heading.y };
    }
    if keys.backward {
        sum = FixedVec2 { x: sum.x - heading.x, y: sum.y - heading.y };
    }
    if keys.left {
        sum = FixedVec2 { x: sum.x - right.x, y: sum.y - right.y };
    }
    if keys.right {
        sum = FixedVec2 { x: sum.x + right.x, y: sum.y + right.y };
    }
    assert(sum == move_sum(keys, heading));
    let direction = normalize(sum);
    let mut r: Vec<MovementAction> = Vec::new();
    r.push(MovementAction::Move(direction));
    if keys.jump && !keys.jump_before {
        r.push(MovementAction::Jump);
    }
    assert(r@ =~= intents(keys, heading));
    r
}

/// Whatever the keys, the direction asked for is zero when the keys cancel
/// out or none is held, and otherwise has unit length up to the rounding of
/// each component: below `SCALE + 1` in length, and longer than `SCALE` were
/// each component's magnitude one step larger.
pub proof fn lemma_intent_unit_or_zero(keys: KeyboardState, heading: FixedVec2)
    requires
        camera_in_bounds(heading),
    ensures
        ({
            let d = planar_intent(keys, heading);
            let m = move_sum(keys, heading);
            &&& (m.x == 0 && m.y == 0) ==> d.x == 0 && d.y == 0
            &&& !(m.x == 0 && m.y == 0) ==> d.x * d.x + d.y * d.y < (SCALE + 1) * (SCALE + 1)
                && (magnitude(d.x as int) + 1) * (magnitude(d.x as int) + 1) + (magnitude(
                d.y as int,
            ) + 1) * (magnitude(d.y as int) + 1) > SCALE * SCALE
        }),
        !keys.forward && !keys.backward && !keys.left && !keys.right ==> planar_intent(
            keys,
            heading,
        ).x == 0 && planar_intent(keys, heading).y == 0,
{
    let m = move_sum(keys, heading);
    if !(m.x == 0 && m.y == 0) {
        lemma_normalize_unit(m);
    }
}

} // verus!
