use character_controller::fixed::{FixedVec2, SCALE};
use character_controller::intent::{keyboard_input, KeyboardState, MovementAction};

fn keys(forward: bool, backward: bool, left: bool, right: bool) -> KeyboardState {
    KeyboardState { forward, backward, left, right, jump: false, jump_before: false }
}

// A camera with no yaw looks down the world's negative z axis.
const NORTH: FixedVec2 = FixedVec2 { x: 0, y: -1000 };

#[test]
fn no_keys_give_a_zero_move() {
    let r = keyboard_input(keys(false, false, false, false), NORTH);
    assert_eq!(r, vec![MovementAction::Move(FixedVec2 { x: 0, y: 0 })]);
}

#[test]
fn forward_follows_the_camera() {
    let r = keyboard_input(keys(true, false, false, false), NORTH);
    assert_eq!(r, vec![MovementAction::Move(FixedVec2 { x: 0, y: -1000 })]);
    let r = keyboard_input(keys(false, true, false, false), NORTH);
    assert_eq!(r, vec![MovementAction::Move(FixedVec2 { x: 0, y: 1000 })]);
}

#[test]
fn right_is_a_quarter_turn_from_forward() {
    let r = keyboard_input(keys(false, false, false, true), NORTH);
    assert_eq!(r, vec![MovementAction::Move(FixedVec2 { x: 1000, y: 0 })]);
    let r = keyboard_input(keys(false, false, true, false), NORTH);
    assert_eq!(r, vec![MovementAction::Move(FixedVec2 { x: -1000, y: 0 })]);
    // A camera turned to face the positive x axis has its right along positive z.
    let east = FixedVec2 { x: 1000, y: 0 };
    let r = keyboard_input(keys(false, false, false, true), east);
    assert_eq!(r, vec![MovementAction::Move(FixedVec2 { x: 0, y: 1000 })]);
}

#[test]
fn diagonal_is_not_faster() {
    let r = keyboard_input(keys(true, false, false, true), NORTH);
    assert_eq!(r, vec![MovementAction::Move(FixedVec2 { x: 707, y: -707 })]);
}

#[test]
fn opposite_keys_cancel() {
    let r = keyboard_input(keys(true, true, true, true), NORTH);
    assert_eq!(r, vec![MovementAction::Move(FixedVec2 { x: 0, y: 0 })]);
}

#[test]
fn every_key_combination_is_unit_or_zero() {
    let headings = [NORTH, FixedVec2 { x: 707, y: 707 }, FixedVec2 { x: -259, y: 966 }];
    for heading in headings {
        for mask in 0..16u32 {
            let k = keys(mask & 1 != 0, mask & 2 != 0, mask & 4 != 0, mask & 8 != 0);
            let r = keyboard_input(k, heading);
            assert_eq!(r.len(), 1);
            let MovementAction::Move(d) = r[0] else { panic!("expected a move") };
            let cancels = (k.forward == k.backward) && (k.left == k.right);
            if cancels {
                assert_eq!(d, FixedVec2 { x: 0, y: 0 });
            } else {
                let len2 = d.x * d.x + d.y * d.y;
                assert!(len2 < (SCALE + 1) * (SCALE + 1));
                let up = (d.x.abs() + 1) * (d.x.abs() + 1) + (d.y.abs() + 1) * (d.y.abs() + 1);
                assert!(up > SCALE * SCALE);
            }
        }
    }
}

#[test]
fn jump_fires_on_the_press_only() {
    let mut k = keys(false, false, false, false);
    k.jump = true;
    let r = keyboard_input(k, NORTH);
    assert_eq!(r, vec![MovementAction::Move(FixedVec2 { x: 0, y: 0 }), MovementAction::Jump]);
    k.jump_before = true;
    let r = keyboard_input(k, NORTH);
    assert_eq!(r, vec![MovementAction::Move(FixedVec2 { x: 0, y: 0 })]);
    k.jump = false;
    let r = keyboard_input(k, NORTH);
    assert_eq!(r, vec![MovementAction::Move(FixedVec2 { x: 0, y: 0 })]);
}
