//! Verified core of an overlay and aiming assistant for a first-person game:
//! map-geometry loading decisions, the binary scene-description reader, the
//! triangle extraction it feeds, and the small state decisions of targeting.
use vstd::prelude::*;

pub mod dmx;
pub mod entities;
pub mod geometry;
pub mod launch;
pub mod mesh;
pub mod palette;
pub mod pod;
pub mod profiles;
pub mod session;
pub mod settings;
pub mod sounds;
pub mod steam;
pub mod targeting;

verus! {
} // verus!
