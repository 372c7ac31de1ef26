//! Game rules and data decoding of a small WebGPU arcade collection:
//! Crystal Arkanoid and the Tanks battle demo.
use vstd::prelude::*;

pub mod battle;
pub mod datauri;
pub mod grass;
pub mod hud;
pub mod levels;
pub mod mesh;
pub mod pending;
pub mod pool;
pub mod rng;
pub mod rules;
pub mod sfx;
pub mod text;
pub mod texture;
pub mod types;

verus! {

} // verus!
