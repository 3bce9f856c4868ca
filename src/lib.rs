//! A character controller for physically simulated bodies, in fixed-point
//! arithmetic: keyboard input becomes movement intents, a ground probe decides
//! whether a body stands on walkable ground, and the intents, gravity and
//! damping change the body's linear velocity once per frame, in that order.

pub mod controller;
pub mod fixed;
pub mod ground;
pub mod intent;
