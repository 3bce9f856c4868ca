use character_controller::fixed::FixedVec3;
use character_controller::ground::{classify_ground, slope_walkable, MaxSlopeAngle};

// Cosine of 45 degrees.
const COS_45: MaxSlopeAngle = MaxSlopeAngle(707);

#[test]
fn flat_ground_is_walkable() {
    assert!(slope_walkable(FixedVec3 { x: 0, y: 1000, z: 0 }, COS_45));
}

#[test]
fn slope_at_the_limit_and_beyond() {
    // 30 degrees from up
    assert!(slope_walkable(FixedVec3 { x: 500, y: 866, z: 0 }, COS_45));
    // 60 degrees from up
    assert!(!slope_walkable(FixedVec3 { x: 866, y: 500, z: 0 }, COS_45));
    // exactly 45 degrees
    assert!(slope_walkable(FixedVec3 { x: 0, y: 707, z: 707 }, COS_45));
    // a wall and a ceiling
    assert!(!slope_walkable(FixedVec3 { x: 1000, y: 0, z: 0 }, COS_45));
    assert!(!slope_walkable(FixedVec3 { x: 0, y: -1000, z: 0 }, COS_45));
}

#[test]
fn limit_beyond_a_right_angle() {
    // Cosine of 120 degrees: walls and overhangs up to 120 degrees count.
    let wide = MaxSlopeAngle(-500);
    assert!(slope_walkable(FixedVec3 { x: 1000, y: 0, z: 0 }, wide));
    // 110 degrees from up
    assert!(slope_walkable(FixedVec3 { x: 940, y: -342, z: 0 }, wide));
    assert!(!slope_walkable(FixedVec3 { x: 500, y: -866, z: 0 }, wide));
}

#[test]
fn zero_normal_is_not_walkable() {
    assert!(!slope_walkable(FixedVec3 { x: 0, y: 0, z: 0 }, MaxSlopeAngle(0)));
}

#[test]
fn any_walkable_contact_grounds() {
    let hits = vec![FixedVec3 { x: 1000, y: 0, z: 0 }, FixedVec3 { x: 0, y: 1000, z: 0 }];
    assert!(classify_ground(&hits, Some(COS_45)));
    let steep = vec![FixedVec3 { x: 1000, y: 0, z: 0 }, FixedVec3 { x: 866, y: 500, z: 0 }];
    assert!(!classify_ground(&steep, Some(COS_45)));
}

#[test]
fn without_limit_any_contact_grounds() {
    let steep = vec![FixedVec3 { x: 1000, y: 0, z: 0 }];
    assert!(classify_ground(&steep, None));
    assert!(!classify_ground(&vec![], None));
    assert!(!classify_ground(&vec![], Some(COS_45)));
}
