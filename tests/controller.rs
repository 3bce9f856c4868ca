use character_controller::controller::{
    CharacterControllerBundle, ControlledBody, MovementBundle, CASTER_MAX_DISTANCE, CASTER_SCALE,
};
use character_controller::fixed::{FixedVec2, FixedVec3};
use character_controller::ground::MaxSlopeAngle;
use character_controller::intent::MovementAction;

fn body(acceleration: i64, damping: i64, jump: i64, max_slope_cos: i64) -> ControlledBody {
    ControlledBody {
        controller: CharacterControllerBundle::new(FixedVec3 { x: 0, y: -11_620, z: 0 })
            .with_movement(acceleration, damping, jump, max_slope_cos),
        velocity: FixedVec3 { x: 0, y: 0, z: 0 },
        grounded: false,
    }
}

#[test]
fn default_tuning() {
    let m = MovementBundle::default();
    assert_eq!(m.acceleration.0, 30_000);
    assert_eq!(m.damping.0, 900);
    assert_eq!(m.jump_impulse.0, 7_000);
    assert_eq!(m.max_slope_angle, Some(MaxSlopeAngle(156)));
    let c = CharacterControllerBundle::new(FixedVec3 { x: 0, y: -9_810, z: 0 });
    assert_eq!(c.movement, m);
    assert_eq!(c.gravity.0, FixedVec3 { x: 0, y: -9_810, z: 0 });
    assert_eq!(c.caster_scale, CASTER_SCALE);
    assert_eq!(c.caster_max_distance, CASTER_MAX_DISTANCE);
}

#[test]
fn with_movement_replaces_the_tuning() {
    let c = CharacterControllerBundle::new(FixedVec3 { x: 1, y: 2, z: 3 }).with_movement(1, 2, 3, 866);
    assert_eq!(c.movement, MovementBundle::new(1, 2, 3, 866));
    assert_eq!(c.movement.max_slope_angle, Some(MaxSlopeAngle(866)));
    assert_eq!(c.gravity.0, FixedVec3 { x: 1, y: 2, z: 3 });
}

#[test]
fn grounded_jump_sets_vertical_speed() {
    let mut b = body(30_000, 900, 7_000, 707);
    b.update_grounded(&vec![FixedVec3 { x: 0, y: 1000, z: 0 }]);
    assert!(b.grounded);
    b.movement(&vec![MovementAction::Jump], 16);
    assert_eq!(b.velocity, FixedVec3 { x: 0, y: 7_000, z: 0 });
}

#[test]
fn airborne_jump_is_dropped() {
    let mut b = body(30_000, 900, 7_000, 707);
    b.velocity = FixedVec3 { x: 10, y: -500, z: 20 };
    b.update_grounded(&vec![]);
    assert!(!b.grounded);
    b.movement(&vec![MovementAction::Jump], 16);
    assert_eq!(b.velocity, FixedVec3 { x: 10, y: -500, z: 20 });
    // Nothing carries over: the next frame, grounded and without a jump, keeps the speed.
    b.update_grounded(&vec![FixedVec3 { x: 0, y: 1000, z: 0 }]);
    b.movement(&vec![], 16);
    assert_eq!(b.velocity, FixedVec3 { x: 10, y: -500, z: 20 });
}

#[test]
fn steep_contact_does_not_allow_a_jump() {
    let mut b = body(30_000, 900, 7_000, 707);
    b.update_grounded(&vec![FixedVec3 { x: 866, y: 500, z: 0 }]);
    assert!(!b.grounded);
    b.movement(&vec![MovementAction::Jump], 16);
    assert_eq!(b.velocity.y, 0);
}

#[test]
fn airborne_move_then_damping() {
    let mut b = body(30_000, 900, 7_000, 707);
    b.update_grounded(&vec![]);
    b.movement(&vec![MovementAction::Move(FixedVec2 { x: 1000, y: 0 })], 100);
    assert_eq!(b.velocity, FixedVec3 { x: 3_000, y: 0, z: 0 });
    b.apply_movement_damping();
    assert_eq!(b.velocity, FixedVec3 { x: 2_700, y: 0, z: 0 });
}

#[test]
fn moves_add_up() {
    let mut b = body(30_000, 900, 7_000, 707);
    let step = MovementAction::Move(FixedVec2 { x: 707, y: -707 });
    b.movement(&vec![step, step], 100);
    assert_eq!(b.velocity, FixedVec3 { x: 4_242, y: 0, z: -4_242 });
}

#[test]
fn gravity_accumulates_linearly() {
    let mut b = body(30_000, 900, 7_000, 707);
    b.velocity.y = 1_000;
    for _ in 0..10 {
        b.apply_gravity(100);
    }
    assert_eq!(b.velocity.y, 1_000 - 11_620);
    assert_eq!(b.velocity.x, 0);
}

#[test]
fn gravity_may_point_sideways() {
    let mut b = body(30_000, 900, 7_000, 707);
    b.controller.gravity.0 = FixedVec3 { x: 2_000, y: -5_000, z: -1_000 };
    b.apply_gravity(250);
    assert_eq!(b.velocity, FixedVec3 { x: 500, y: -1_250, z: -250 });
}

#[test]
fn damping_shrinks_horizontal_speed_only() {
    let mut b = body(30_000, 920, 7_000, 707);
    b.velocity = FixedVec3 { x: -5, y: -300, z: 1 };
    b.apply_movement_damping();
    assert_eq!(b.velocity, FixedVec3 { x: -4, y: -300, z: 0 });
    let mut c = body(30_000, 900, 7_000, 707);
    c.velocity = FixedVec3 { x: 12_345, y: 0, z: -12_345 };
    for _ in 0..5 {
        let before = c.velocity;
        c.apply_movement_damping();
        assert!(c.velocity.x.abs() < before.x.abs());
        assert!(c.velocity.z.abs() < before.z.abs());
    }
}

#[test]
fn a_full_frame_runs_the_stages_in_order() {
    let mut b = body(30_000, 900, 7_000, 707);
    let hits = vec![FixedVec3 { x: 0, y: 1000, z: 0 }];
    let actions = vec![MovementAction::Move(FixedVec2 { x: 0, y: 1000 }), MovementAction::Jump];
    b.run_frame(&hits, &actions, 100);
    assert!(b.grounded);
    // jump 7000, then gravity -1162; z gets 3000, damped to 2700
    assert_eq!(b.velocity, FixedVec3 { x: 0, y: 5_838, z: 2_700 });
    b.run_frame(&vec![], &vec![MovementAction::Jump], 100);
    assert!(!b.grounded);
    assert_eq!(b.velocity, FixedVec3 { x: 0, y: 4_676, z: 2_430 });
}
