//! A controlled body's tuning and velocity, and the per-frame stages that
//! change its velocity: movement intents, gravity and damping.

use crate::fixed::{div_toward_zero, lemma_trunc_div_abs, magnitude, trunc_div, FixedVec3, SCALE};
use vstd::arithmetic::div_mod::{lemma_fundamental_div_mod, lemma_mod_bound, lemma_mod_pos_bound};
use crate::ground::{
    classify_ground, is_grounded, normal_in_bounds, slope_limit_valid, MaxSlopeAngle,
};
use crate::intent::MovementAction;
use vstd::prelude::*;

verus! {

/// How fast movement intents speed a body up, in thousandths of a unit per
/// second squared.
#[derive(Clone, Copy, Debug, PartialEq, Eq, Structural)]
pub struct MovementAcceleration(pub i64);

/// The factor that horizontal velocity is multiplied by in each frame, in
/// thousandths; it lies strictly between `0` and `SCALE`.
#[derive(Clone, Copy, Debug, PartialEq, Eq, Structural)]
pub struct MovementDampingFactor(pub i64);

/// The upward speed that a jump sets, in thousandths of a unit per second.
#[derive(Clone, Copy, Debug, PartialEq, Eq, Structural)]
pub struct JumpImpulse(pub i64);

/// The gravitational acceleration of one body, in thousandths of a unit per
/// second squared.
#[derive(Clone, Copy, Debug, PartialEq, Eq, Structural)]
pub struct ControllerGravity(pub FixedVec3);

/// How a body moves: its acceleration, damping, jump and, if any, the
/// steepest slope it stands on.
#[derive(Clone, Copy, Debug, PartialEq, Eq, Structural)]
pub struct MovementBundle {
    pub acceleration: MovementAcceleration,
    pub damping: MovementDampingFactor,
    pub jump_impulse: JumpImpulse,
    pub max_slope_angle: Option<MaxSlopeAngle>,
}

/// Acceleration of the default tuning: 30 units per second squared.
pub const DEFAULT_ACCELERATION: i64 = 30_000;

/// Damping of the default tuning: 0.9 per frame.
pub const DEFAULT_DAMPING: i64 = 900;

/// Jump of the default tuning: 7 units per second.
pub const DEFAULT_JUMP_IMPULSE: i64 = 7_000;

/// Slope limit of the default tuning: the cosine of 0.45 pi (81 degrees).
pub const DEFAULT_MAX_SLOPE_COS: i64 = 156;

/// Scale of the ground probe's shape relative to the body's own collider,
/// in thousandths.
pub const CASTER_SCALE: i64 = 990;

/// How far down the ground probe reaches, in thousandths of a unit.
pub const CASTER_MAX_DISTANCE: i64 = 200;

impl MovementBundle {
    /// A tuning with the given acceleration, damping, jump and slope limit
    /// (the cosine of the steepest walkable slope).
    pub fn new(acceleration: i64, damping: i64, jump_impulse: i64, max_slope_angle: i64) -> (r:
        Self)
        ensures
            r.acceleration.0 == acceleration,
            r.damping.0 == damping,
            r.jump_impulse.0 == jump_impulse,
            r.max_slope_angle == Some(MaxSlopeAngle(max_slope_angle)),
    {
        MovementBundle {
            acceleration: MovementAcceleration(acceleration),
            damping: MovementDampingFactor(damping),
            jump_impulse: JumpImpulse(jump_impulse),
            max_slope_angle: Some(MaxSlopeAngle(max_slope_angle)),
        }
    }
}

impl Default for MovementBundle {
    fn default() -> (r: Self)
        ensures
            r.acceleration.0 == DEFAULT_ACCELERATION,
            r.damping.0 == DEFAULT_DAMPING,
            r.jump_impulse.0 == DEFAULT_JUMP_IMPULSE,
            r.max_slope_angle == Some(MaxSlopeAngle(DEFAULT_MAX_SLOPE_COS)),
    {
        MovementBundle::new(
            DEFAULT_ACCELERATION,
            DEFAULT_DAMPING,
            DEFAULT_JUMP_IMPULSE,
            DEFAULT_MAX_SLOPE_COS,
        )
    }
}

/// What a character controller is made of: its gravity, its movement
/// tuning, and the ground probe's scale and reach.
#[derive(Clone, Copy, Debug, PartialEq, Eq, Structural)]
pub struct CharacterControllerBundle {
    pub gravity: ControllerGravity,
    pub movement: MovementBundle,
    pub caster_scale: i64,
    pub caster_max_distance: i64,
}

impl CharacterControllerBundle {
    /// A controller with the given gravity and the default movement tuning.
    pub fn new(gravity: FixedVec3) -> (r: Self)
        ensures
            r.gravity.0 == gravity,
            r.movement.acceleration.0 == DEFAULT_ACCELERATION,
            r.movement.damping.0 == DEFAULT_DAMPING,
            r.movement.jump_impulse.0 == DEFAULT_JUMP_IMPULSE,
            r.movement.max_slope_angle == Some(MaxSlopeAngle(DEFAULT_MAX_SLOPE_COS)),
            r.caster_scale == CASTER_SCALE,
            r.caster_max_distance == CASTER_MAX_DISTANCE,
    {
        CharacterControllerBundle {
            gravity: ControllerGravity(gravity),
            movement: MovementBundle::default(),
            caster_scale: CASTER_SCALE,
            caster_max_distance: CASTER_MAX_DISTANCE,
        }
    }

    /// The same controller with another movement tuning.
    pub fn with_movement(
        self,
        acceleration: i64,
        damping: i64,
        jump_impulse: i64,
        max_slope_angle: i64,
    ) -> (r: Self)
        ensures
            r.gravity == self.gravity,
            r.caster_scale == self.caster_scale,
            r.caster_max_distance == self.caster_max_distance,
            r.movement.acceleration.0 == acceleration,
            r.movement.damping.0 == damping,
            r.movement.jump_impulse.0 == jump_impulse,
            r.movement.max_slope_angle == Some(MaxSlopeAngle(max_slope_angle)),
    {
        let mut r = self;
        r.movement = MovementBundle::new(acceleration, damping, jump_impulse, max_slope_angle);
        r
    }
}

/// A body under a character controller: its controller, its linear velocity
/// (thousandths of a unit per second) and whether it stands on the ground.
#[derive(Clone, Copy, Debug, PartialEq, Eq, Structural)]
pub struct ControlledBody {
    pub controller: CharacterControllerBundle,
    pub velocity: FixedVec3,
    pub grounded: bool,
}

/// `a` fits in an `i64`.
pub open spec fn fits(a: int) -> bool {
    i64::MIN <= a <= i64::MAX
}

/// The change of speed along one axis from a movement intent whose direction
/// has component `d` on that axis, over `dt` thousandths of a second:
/// `d * acceleration * dt`, rounded toward zero.
pub open spec fn move_delta(d: int, acceleration: int, dt: int) -> int {
    trunc_div(d * acceleration * dt, SCALE * SCALE)
}

/// The velocity after one movement intent: a move adds to the horizontal
/// components whether or not the body is grounded; a jump sets the vertical
/// component to the jump impulse only on the ground, and is dropped in the
/// air.
pub open spec fn apply_action(
    v: FixedVec3,
    action: MovementAction,
    m: MovementBundle,
    grounded: bool,
    dt: int,
) -> FixedVec3 {
    match action {
        MovementAction::Move(d) => FixedVec3 {
            x: (v.x + move_delta(d.x as int, m.acceleration.0 as int, dt)) as i64,
            y: v.y,
            z: (v.z + move_delta(d.y as int, m.acceleration.0 as int, dt)) as i64,
        },
        MovementAction::Jump => if grounded {
            FixedVec3 { x: v.x, y: m.jump_impulse.0, z: v.z }
        } else {
            v
        },
    }
}

/// The velocity after the intents of `actions`, in order.
pub open spec fn apply_actions(
    v: FixedVec3,
    actions: Seq<MovementAction>,
    m: MovementBundle,
    grounded: bool,
    dt: int,
) -> FixedVec3
    decreases actions.len(),
{
    if actions.len() == 0 {
        v
    } else {
        apply_action(
            apply_actions(v, actions.drop_last(), m, grounded, dt),
            actions.last(),
            m,
            grounded,
            dt,
        )
    }
}

/// A move's direction has components of at most unit length, and the new
/// speeds fit in an `i64`.
pub open spec fn action_fits(v: FixedVec3, action: MovementAction, m: MovementBundle, dt: int) -> bool {
    match action {
        MovementAction::Move(d) => -SCALE <= d.x <= SCALE && -SCALE <= d.y <= SCALE && fits(
            v.x + move_delta(d.x as int, m.acceleration.0 as int, dt),
        ) && fits(v.z + move_delta(d.y as int, m.acceleration.0 as int, dt)),
        MovementAction::Jump => true,
    }
}

/// Each intent of `actions` fits, applied in order from `v`.
pub open spec fn actions_fit(
    v: FixedVec3,
    actions: Seq<MovementAction>,
    m: MovementBundle,
    grounded: bool,
    dt: int,
) -> bool
    decreases actions.len(),
{
    if actions.len() == 0 {
        true
    } else {
        actions_fit(v, actions.drop_last(), m, grounded, dt) && action_fits(
            apply_actions(v, actions.drop_last(), m, grounded, dt),
            actions.last(),
            m,
            dt,
        )
    }
}

proof fn lemma_actions_fit_prefix(
    v: FixedVec3,
    actions: Seq<MovementAction>,
    m: MovementBundle,
    grounded: bool,
    dt: int,
    k: int,
)
    requires
        actions_fit(v, actions, m, grounded, dt),
        0 <= k <= actions.len(),
    ensures
        actions_fit(v, actions.take(k), m, grounded, dt),
    decreases actions.len(),
{
    if k == actions.len() {
        assert(actions.take(k) =~= actions);
    } else {
        lemma_actions_fit_prefix(v, actions.drop_last(), m, grounded, dt, k);
        assert(actions.drop_last().take(k) =~= actions.take(k));
    }
}

proof fn lemma_not_fit_extends(
    v: FixedVec3,
    actions: Seq<MovementAction>,
    m: MovementBundle,
    grounded: bool,
    dt: int,
    k: int,
)
    requires
        0 <= k <= actions.len(),
        !actions_fit(v, actions.take(k), m, grounded, dt),
    ensures
        !actions_fit(v, actions, m, grounded, dt),
{
    if actions_fit(v, actions, m, grounded, dt) {
        lemma_actions_fit_prefix(v, actions, m, grounded, dt, k);
    }
}

/// Speed along one axis after gravity `g` acted for `dt` thousandths of a
/// second: `c + g * dt`, the increment rounded toward zero.
pub open spec fn gravity_component(c: int, g: int, dt: int) -> int {
    c + trunc_div(g * dt, SCALE as int)
}

/// The velocity after gravity acted for `dt` thousandths of a second.
pub open spec fn gravity_step(v: FixedVec3, g: FixedVec3, dt: int) -> FixedVec3 {
    FixedVec3 {
        x: gravity_component(v.x as int, g.x as int, dt) as i64,
        y: gravity_component(v.y as int, g.y as int, dt) as i64,
        z: gravity_component(v.z as int, g.z as int, dt) as i64,
    }
}

/// The speeds after gravity fit in an `i64`.
pub open spec fn gravity_fits(v: FixedVec3, g: FixedVec3, dt: int) -> bool {
    fits(gravity_component(v.x as int, g.x as int, dt)) && fits(
        gravity_component(v.y as int, g.y as int, dt),
    ) && fits(gravity_component(v.z as int, g.z as int, dt))
}

/// One horizontal speed after damping by `f` thousandths, rounded toward zero.
pub open spec fn damp(c: int, f: int) -> int {
    trunc_div(c * f, SCALE as int)
}

/// The velocity after damping: both horizontal components are scaled by the
/// factor, the vertical one is kept.
pub open spec fn damping_step(v: FixedVec3, f: int) -> FixedVec3 {
    FixedVec3 { x: damp(v.x as int, f) as i64, y: v.y, z: damp(v.z as int, f) as i64 }
}

/// The change of speed for `d` thousandths of a direction component.
fn move_delta_exec(d: i64, acceleration: i64, dt: u32) -> (r: i128)
    requires
        -SCALE <= d <= SCALE,
    ensures
        r == move_delta(d as int, acceleration as int, dt as int),
        -0x1_0000_0000_0000_0000_0000_0000_0000 < r < 0x1_0000_0000_0000_0000_0000_0000_0000,
{
    assert(-0x80_0000_0000_0000_0000_0000 <= d * acceleration <= 0x80_0000_0000_0000_0000_0000)
        by (nonlinear_arith)
        requires
            -1000 <= d <= 1000,
            i64::MIN <= acceleration <= i64::MAX,
    ;
    let p: i128 = d as i128 * acceleration as i128;
    let t: i128 = dt as i128;
    assert(-0x80_0000_0000_0000_0000_0000_0000_0000 < p * t < 0x80_0000_0000_0000_0000_0000_0000_0000)
        by (nonlinear_arith)
        requires
            -0x80_0000_0000_0000_0000_0000 <= p <= 0x80_0000_0000_0000_0000_0000,
            0 <= t <= 0xFFFF_FFFF,
    ;
    proof {
        crate::fixed::lemma_trunc_div_shrinks(p * t, 1_000_000);
    }
    div_toward_zero(p * t, 1_000_000)
}

/// Adds the change of speed for `d` thousandths of a direction component to
/// the speed `c`.
fn add_move(c: i64, d: i64, acceleration: i64, dt: u32) -> (r: i64)
    requires
        -SCALE <= d <= SCALE,
        fits(c + move_delta(d as int, acceleration as int, dt as int)),
    ensures
        r == c + move_delta(d as int, acceleration as int, dt as int),
{
    let delta: i128 = move_delta_exec(d, acceleration, dt);
    (c as i128 + delta) as i64
}

/// The change of speed that gravity `g` makes over `dt`.
fn gravity_delta(g: i64, dt: u32) -> (r: i128)
    ensures
        r == trunc_div(g * dt, SCALE as int),
        -0x1_0000_0000_0000_0000_0000_0000 < r < 0x1_0000_0000_0000_0000_0000_0000,
{
    assert(-0x8000_0000_0000_0000_0000_0000 <= g * dt <= 0x8000_0000_0000_0000_0000_0000) by (
    nonlinear_arith)
        requires
            i64::MIN <= g <= i64::MAX,
            0 <= dt <= 0xFFFF_FFFF,
    ;
    let p: i128 = g as i128 * dt as i128;
    proof {
        crate::fixed::lemma_trunc_div_shrinks(p as int, 1000);
    }
    div_toward_zero(p, 1000)
}

/// Adds the change of speed that gravity `g` makes over `dt` to the speed `c`.
fn add_gravity(c: i64, g: i64, dt: u32) -> (r: i64)
    requires
        fits(gravity_component(c as int, g as int, dt as int)),
    ensures
        r == gravity_component(c as int, g as int, dt as int),
{
    let delta: i128 = gravity_delta(g, dt);
    (c as i128 + delta) as i64
}

/// Scales the speed `c` by the damping factor `f`.
fn damp_speed(c: i64, f: i64) -> (r: i64)
    requires
        0 <= f <= SCALE,
    ensures
        r == damp(c as int, f as int),
{
    assert(-0x8000_0000_0000_0000 * 1000 <= c * f <= 0x8000_0000_0000_0000 * 1000) by (
    nonlinear_arith)
        requires
            i64::MIN <= c <= i64::MAX,
            0 <= f <= 1000,
    ;
    let p: i128 = c as i128 * f as i128;
    let q: i128 = div_toward_zero(p, 1000);
    proof {
        lemma_damping_shrinks(c as int, f as int);
    }
    q as i64
}

/// Damping by a factor in `0..=SCALE` never makes a speed larger; by a factor
/// strictly between `0` and `SCALE` it makes every nonzero speed strictly
/// smaller in magnitude, and keeps its sign or brings it to zero.
pub proof fn lemma_damping_shrinks(c: int, f: int)
    requires
        0 <= f <= SCALE,
    ensures
        magnitude(damp(c, f)) <= magnitude(c),
        0 < f < SCALE && c != 0 ==> magnitude(damp(c, f)) < magnitude(c),
        c >= 0 ==> damp(c, f) >= 0,
        c <= 0 ==> damp(c, f) <= 0,
        c == 0 ==> damp(c, f) == 0,
{
    let m = magnitude(c);
    assert(magnitude(c * f) == m * f) by (nonlinear_arith)
        requires
            m == magnitude(c),
            f >= 0,
    ;
    assert((c >= 0 ==> c * f >= 0) && (c <= 0 ==> c * f <= 0)) by (nonlinear_arith)
        requires
            f >= 0,
    ;
    lemma_trunc_div_abs(c * f, 1000);
    lemma_fundamental_div_mod(m * f, 1000);
    lemma_mod_pos_bound(m * f, 1000);
    let qq = (m * f) / 1000;
    assert(qq <= m && (0 < f < 1000 && m > 0 ==> qq < m)) by (nonlinear_arith)
        requires
            m * f == 1000 * qq + (m * f) % 1000,
            0 <= (m * f) % 1000 < 1000,
            m >= 0,
            0 <= f <= 1000,
    ;
}

impl ControlledBody {
    /// Recomputes whether the body stands on walkable ground from the normals
    /// of this frame's probe contacts.
    pub fn update_grounded(&mut self, hits: &Vec<FixedVec3>)
        requires
            forall|i: int| 0 <= i < hits@.len() ==> normal_in_bounds(#[trigger] hits@[i]),
            slope_limit_valid(old(self).controller.movement.max_slope_angle),
        ensures
            final(self).grounded == is_grounded(
                hits@,
                old(self).controller.movement.max_slope_angle,
            ),
            final(self).controller == old(self).controller,
            final(self).velocity == old(self).velocity,
    {
        self.grounded = classify_ground(hits, self.controller.movement.max_slope_angle);
    }

    /// Applies this frame's movement intents, in order, over `dt` thousandths
    /// of a second.
    pub fn movement(&mut self, actions: &Vec<MovementAction>, dt: u32)
        requires
            actions_fit(
                old(self).velocity,
                actions@,
                old(self).controller.movement,
                old(self).grounded,
                dt as int,
            ),
        ensures
            final(self).velocity == apply_actions(
                old(self).velocity,
                actions@,
                old(self).controller.movement,
                old(self).grounded,
                dt as int,
            ),
            final(self).controller == old(self).controller,
            final(self).grounded == old(self).grounded,
    {
        let m = self.controller.movement;
        let grounded = self.grounded;
        let ghost v0 = self.velocity;
        let mut v = self.velocity;
        let mut i: usize = 0;
        while i < actions.len()
            invariant
                i <= actions@.len(),
                actions_fit(v0, actions@, m, grounded, dt as int),
                v == apply_actions(v0, actions@.take(i as int), m, grounded, dt as int),
            decreases actions@.len() - i,
        {
            proof {
                lemma_actions_fit_prefix(v0, actions@, m, grounded, dt as int, i + 1);
                assert(actions@.take(i + 1).drop_last() =~= actions@.take(i as int));
            }
            match actions[i] {
                MovementAction::Move(d) => {
                    let x = add_move(v.x, d.x, m.acceleration.0, dt);
                    let z = add_move(v.z, d.y, m.acceleration.0, dt);
                    v = FixedVec3 { x, y: v.y, z };
                },
                MovementAction::Jump => {
                    if grounded {
                        v = FixedVec3 { x: v.x, y: m.jump_impulse.0, z: v.z };
                    }
                },
            }
            i += 1;
        }
        assert(actions@.take(i as int) =~= actions@);
        self.velocity = v;
    }

    /// Adds the body's gravity over `dt` thousandths of a second to its
    /// velocity, grounded or not.
    pub fn apply_gravity(&mut self, dt: u32)
        requires
            gravity_fits(old(self).velocity, old(self).controller.gravity.0, dt as int),
        ensures
            final(self).velocity == gravity_step(
                old(self).velocity,
                old(self).controller.gravity.0,
                dt as int,
            ),
            final(self).controller == old(self).controller,
            final(self).grounded == old(self).grounded,
    {
        let g = self.controller.gravity.0;
        let v = self.velocity;
        self.velocity = FixedVec3 {
            x: add_gravity(v.x, g.x, dt),
            y: add_gravity(v.y, g.y, dt),
            z: add_gravity(v.z, g.z, dt),
        };
    }

    /// Scales the horizontal velocity by the body's damping factor.
    pub fn apply_movement_damping(&mut self)
        requires
            0 <= old(self).controller.movement.damping.0 <= SCALE,
        ensures
            final(self).velocity == damping_step(
                old(self).velocity,
                old(self).controller.movement.damping.0 as int,
            ),
            final(self).controller == old(self).controller,
            final(self).grounded == old(self).grounded,
    {
        let f = self.controller.movement.damping.0;
        let v = self.velocity;
        self.velocity = FixedVec3 { x: damp_speed(v.x, f), y: v.y, z: damp_speed(v.z, f) };
    }

    /// Tells whether `movement` may be called with these intents: each
    /// move's direction is within unit length per component and no speed on
    /// the way overflows.
    pub fn movement_fits(&self, actions: &Vec<MovementAction>, dt: u32) -> (r: bool)
        ensures
            r == actions_fit(
                self.velocity,
                actions@,
                self.controller.movement,
                self.grounded,
                dt as int,
            ),
    {
        let m = self.controller.movement;
        let grounded = self.grounded;
        let v0 = self.velocity;
        let mut v = self.velocity;
        let mut i: usize = 0;
        while i < actions.len()
            invariant
                i <= actions@.len(),
                v0 == self.velocity,
                m == self.controller.movement,
                grounded == self.grounded,
                actions_fit(v0, actions@.take(i as int), m, grounded, dt as int),
                v == apply_actions(v0, actions@.take(i as int), m, grounded, dt as int),
            decreases actions@.len() - i,
        {
            proof {
                assert(actions@.take(i + 1).drop_last() =~= actions@.take(i as int));
                assert(actions@.take(i + 1).last() == actions@[i as int]);
                assert(actions_fit(v0, actions@.take(i + 1), m, grounded, dt as int) == action_fits(
                    v,
                    actions@[i as int],
                    m,
                    dt as int,
                ));
            }
            match actions[i] {
                MovementAction::Move(d) => {
                    if d.x < -1000 || d.x > 1000 || d.y < -1000 || d.y > 1000 {
                        proof {
                            lemma_not_fit_extends(v0, actions@, m, grounded, dt as int, i + 1);
                        }
                        return false;
                    }
                    let x: i128 = v.x as i128 + move_delta_exec(d.x, m.acceleration.0, dt);
                    let z: i128 = v.z as i128 + move_delta_exec(d.y, m.acceleration.0, dt);
                    if x < i64::MIN as i128 || x > i64::MAX as i128 || z < i64::MIN as i128 || z
                        > i64::MAX as i128 {
                        proof {
                            lemma_not_fit_extends(v0, actions@, m, grounded, dt as int, i + 1);
                        }
                        return false;
                    }
                    v = FixedVec3 { x: x as i64, y: v.y, z: z as i64 };
                },
                MovementAction::Jump => {
                    if grounded {
                        v = FixedVec3 { x: v.x, y: m.jump_impulse.0, z: v.z };
                    }
                },
            }
            i += 1;
        }
        assert(actions@.take(i as int) =~= actions@);
        true
    }

    /// Tells whether `apply_gravity` may be called: no speed overflows.
    pub fn gravity_fits_check(&self, dt: u32) -> (r: bool)
        ensures
            r == gravity_fits(self.velocity, self.controller.gravity.0, dt as int),
    {
        let g = self.controller.gravity.0;
        let v = self.velocity;
        let x: i128 = v.x as i128 + gravity_delta(g.x, dt);
        let y: i128 = v.y as i128 + gravity_delta(g.y, dt);
        let z: i128 = v.z as i128 + gravity_delta(g.z, dt);
        i64::MIN as i128 <= x && x <= i64::MAX as i128 && i64::MIN as i128 <= y && y
            <= i64::MAX as i128 && i64::MIN as i128 <= z && z <= i64::MAX as i128
    }

    /// Runs one frame: decides groundedness from this frame's contacts, then
    /// applies the intents, then gravity, then damping.
    pub fn run_frame(&mut self, hits: &Vec<FixedVec3>, actions: &Vec<MovementAction>, dt: u32)
        requires
            frame_fits(*old(self), hits@, actions@, dt as int),
        ensures
            *final(self) == frame_result(*old(self), hits@, actions@, dt as int),
    {
        self.update_grounded(hits);
        self.movement(actions, dt);
        self.apply_gravity(dt);
        self.apply_movement_damping();
    }
}

/// The velocity after a frame's intents, gravity and damping, with
/// groundedness taken from this frame's contacts.
pub open spec fn frame_velocity(
    b: ControlledBody,
    hits: Seq<FixedVec3>,
    actions: Seq<MovementAction>,
    dt: int,
) -> FixedVec3 {
    let m = b.controller.movement;
    let grounded = is_grounded(hits, m.max_slope_angle);
    let moved = apply_actions(b.velocity, actions, m, grounded, dt);
    damping_step(gravity_step(moved, b.controller.gravity.0, dt), m.damping.0 as int)
}

/// The body after one frame.
pub open spec fn frame_result(
    b: ControlledBody,
    hits: Seq<FixedVec3>,
    actions: Seq<MovementAction>,
    dt: int,
) -> ControlledBody {
    ControlledBody {
        controller: b.controller,
        velocity: frame_velocity(b, hits, actions, dt),
        grounded: is_grounded(hits, b.controller.movement.max_slope_angle),
    }
}

/// A frame's inputs are in range and every speed on the way fits in an `i64`.
pub open spec fn frame_fits(
    b: ControlledBody,
    hits: Seq<FixedVec3>,
    actions: Seq<MovementAction>,
    dt: int,
) -> bool {
    let m = b.controller.movement;
    let grounded = is_grounded(hits, m.max_slope_angle);
    let moved = apply_actions(b.velocity, actions, m, grounded, dt);
    &&& forall|i: int| 0 <= i < hits.len() ==> normal_in_bounds(#[trigger] hits[i])
    &&& slope_limit_valid(m.max_slope_angle)
    &&& actions_fit(b.velocity, actions, m, grounded, dt)
    &&& gravity_fits(moved, b.controller.gravity.0, dt)
    &&& 0 <= m.damping.0 <= SCALE
}

/// A jump sets the vertical speed to the jump impulse on the ground and
/// changes nothing in the air: a jump read in the air leaves the velocity as
/// the other intents made it, and nothing of it remains for a later frame.
pub proof fn lemma_jump_only_when_grounded(
    v: FixedVec3,
    actions: Seq<MovementAction>,
    m: MovementBundle,
    grounded: bool,
    dt: int,
)
    ensures
        grounded ==> apply_actions(v, actions.push(MovementAction::Jump), m, grounded, dt).y
            == m.jump_impulse.0,
        grounded ==> apply_actions(v, actions.push(MovementAction::Jump), m, grounded, dt).x
            == apply_actions(v, actions, m, grounded, dt).x,
        grounded ==> apply_actions(v, actions.push(MovementAction::Jump), m, grounded, dt).z
            == apply_actions(v, actions, m, grounded, dt).z,
        !grounded ==> apply_actions(v, actions.push(MovementAction::Jump), m, grounded, dt)
            == apply_actions(v, actions, m, grounded, dt),
{
    assert(actions.push(MovementAction::Jump).drop_last() =~= actions);
}

/// The vertical speed after gravity acted over `n` frames of `dt` each.
pub open spec fn fall(c: int, g: int, dt: int, n: nat) -> int
    decreases n,
{
    if n == 0 {
        c
    } else {
        gravity_component(fall(c, g, dt, (n - 1) as nat), g, dt)
    }
}

/// Gravity accumulates linearly: after `n` frames of `dt` each the speed has
/// grown by `n` times the same step, and each step is `g * dt` up to less
/// than one fixed-point step of rounding (exactly, where `g * dt` is a whole
/// number of units).
pub proof fn lemma_gravity_linear(c: int, g: int, dt: int, n: nat)
    ensures
        fall(c, g, dt, n) == c + n * trunc_div(g * dt, SCALE as int),
        -SCALE < SCALE * trunc_div(g * dt, SCALE as int) - g * dt < SCALE,
        (g * dt) % SCALE as int == 0 ==> SCALE * trunc_div(g * dt, SCALE as int) == g * dt,
    decreases n,
{
    if n > 0 {
        lemma_gravity_linear(c, g, dt, (n - 1) as nat);
        assert(n * trunc_div(g * dt, SCALE as int) == (n - 1) * trunc_div(g * dt, SCALE as int)
            + trunc_div(g * dt, SCALE as int)) by (nonlinear_arith);
    }
    let p = g * dt;
    let mp = magnitude(p);
    lemma_trunc_div_abs(p, 1000);
    lemma_fundamental_div_mod(mp, 1000);
    lemma_mod_pos_bound(mp, 1000);
    lemma_fundamental_div_mod(p, 1000);
    lemma_mod_bound(p, 1000);
    if p < 0 && p % 1000 == 0 {
        assert((-p) % 1000 == 0) by (nonlinear_arith)
            requires
                p == 1000 * (p / 1000) + p % 1000,
                p % 1000 == 0,
                -p == 1000 * ((-p) / 1000) + (-p) % 1000,
                0 <= (-p) % 1000 < 1000,
        ;
    }
}

} // verus!
