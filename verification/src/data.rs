//! Constant data that a battle is set up with.

use vstd::prelude::*;

verus! {

/// What kind of opponent the battle is against.
#[derive(Debug, Clone, Copy, PartialEq, Eq, Structural)]
pub enum VersusType {
    Wild,
    Trainer,
    GymLeader,
}

/// Rules that can be switched on or off for a battle.
#[derive(Debug, Clone, Copy, PartialEq, Eq, Structural)]
pub struct BattleSettings {
    pub allow_forfeit: bool,
}

/// The data a battle is set up with; it stays constant for the whole battle.
#[derive(Debug, Clone, Copy, PartialEq, Eq, Structural)]
pub struct BattleData {
    pub versus: VersusType,
    /// How many pokemon of each party stand in battle at once.
    pub active: usize,
    pub settings: BattleSettings,
}

impl VersusType {
    pub fn is_wild(&self) -> (r: bool)
        ensures
            r == (*self is Wild),
    {
        match self {
            VersusType::Wild => true,
            _ => false,
        }
    }

    pub fn is_trainer(&self) -> (r: bool)
        ensures
            r == !(*self is Wild),
    {
        !self.is_wild()
    }
}

/// The value a missing `allow_forfeit` setting takes.
pub fn const_true() -> (r: bool)
    ensures
        r,
{
    true
}

impl Default for BattleSettings {
    fn default() -> (r: Self)
        ensures
            r.allow_forfeit,
    {
        BattleSettings { allow_forfeit: const_true() }
    }
}

impl Default for BattleData {
    fn default() -> (r: Self)
        ensures
            r.versus == VersusType::Trainer,
            r.active == 1,
            r.settings.allow_forfeit,
    {
        BattleData { versus: VersusType::Trainer, active: 1, settings: BattleSettings::default() }
    }
}

} // verus!
