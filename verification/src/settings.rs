//! The closed choices of the settings and of the settings window.
use vstd::prelude::*;

verus! {

/// Language of the interface texts.
#[derive(Debug, Clone, Copy, PartialEq, Eq, Structural)]
pub enum Language {
    English,
    Russian,
}

/// Screen edge where player snaplines start.
#[derive(Debug, Clone, Copy, PartialEq, Eq, Structural)]
pub enum SnaplineStart {
    Top,
    Center,
    Bottom,
}

/// How a hotkey drives a feature.
#[derive(Debug, Clone, Copy, PartialEq, Eq, Structural)]
pub enum KeyMode {
    Hold,
    Toggle,
}

/// What target selection minimises.
#[derive(Debug, Clone, Copy, PartialEq, Eq, Structural)]
pub enum TargetingMode {
    Fov,
    Distance,
}

/// How a player box or skeleton is coloured; `Hidden` draws nothing.
#[derive(Debug, Clone, Copy, PartialEq, Eq, Structural)]
pub enum DrawMode {
    Hidden,
    Health,
    Color,
}

/// Shape of a player box.
#[derive(Debug, Clone, Copy, PartialEq, Eq, Structural)]
pub enum BoxMode {
    Gap,
    Full,
}

/// Kind of sound a player made.
#[derive(Debug, Clone, Copy, PartialEq, Eq, Structural)]
pub enum SoundType {
    Footstep,
    Gunshot,
    Weapon,
}

/// Movement that a recorded grenade throw needs.
#[derive(Debug, Clone, Copy, PartialEq, Eq, Structural, Default)]
pub struct GrenadeModifiers {
    pub jump: bool,
    pub duck: bool,
    pub run: bool,
}

/// Page of the settings window.
#[derive(Debug, Clone, Copy, PartialEq, Eq, Structural)]
pub enum Tab {
    Aimbot,
    Player,
    Hud,
    Radar,
    Grenades,
    Unsafe,
    Config,
}

/// Whether the aim page edits the global settings or one weapon's.
#[derive(Debug, Clone, Copy, PartialEq, Eq, Structural)]
pub enum AimbotTab {
    Global,
    Weapon,
}

} // verus!
