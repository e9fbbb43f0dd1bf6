//! Handles to the grenade effects present in the game world.
use vstd::prelude::*;

verus! {

/// A burning area, known by its controller's address in game memory.
#[derive(Debug, Clone, Copy, PartialEq, Eq, Structural)]
pub struct Inferno {
    pub controller: u64,
}

impl Inferno {
    pub fn new(controller: u64) -> (inferno: Self)
        ensures
            inferno.controller == controller,
    {
        Self { controller }
    }
}

/// A thrown fire grenade, known by its controller's address.
#[derive(Debug, Clone, Copy, PartialEq, Eq, Structural)]
pub struct Molotov {
    pub controller: u64,
}

impl Molotov {
    pub fn new(controller: u64) -> (molotov: Self)
        ensures
            molotov.controller == controller,
    {
        Self { controller }
    }
}

/// A smoke cloud, known by its controller's address.
#[derive(Debug, Clone, Copy, PartialEq, Eq, Structural)]
pub struct Smoke {
    pub controller: u64,
}

impl Smoke {
    pub fn new(controller: u64) -> (smoke: Self)
        ensures
            smoke.controller == controller,
    {
        Self { controller }
    }
}

} // verus!
