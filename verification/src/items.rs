//! How items are used in battle.

use vstd::prelude::*;

use crate::moves::Health;
use crate::pokemon::Ailment;

verus! {

/// What an item does when used.
#[derive(Debug, Clone)]
pub struct ItemUsage {
    /// What must hold of the target for the item to be used.
    pub conditions: Vec<ItemCondition>,
    pub execute: ItemExecution,
}

/// How an item does what it does.
#[derive(Debug, Clone)]
pub enum ItemExecution {
    Actions(Vec<ItemAction>),
    /// The item does nothing in battle.
    NoActions,
}

/// What must hold of the target of an item.
#[derive(Debug, Clone, Copy, PartialEq, Eq, Structural)]
pub enum ItemCondition {
    Fainted,
}

/// One thing an item does to its target.
#[derive(Debug, Clone, Copy, PartialEq, Eq, Structural)]
pub enum ItemAction {
    /// Cure one ailment, or any ailment.
    CurePokemon(Option<Ailment>),
    HealPokemon(Health),
}

/// How an item is used in battle.
#[derive(Debug, Clone)]
pub enum BattleItemExecution {
    Normal(ItemExecution),
    Script,
    Pokeball,
}

impl Default for ItemExecution {
    fn default() -> (r: Self)
        ensures
            r is NoActions,
    {
        ItemExecution::NoActions
    }
}

impl Default for ItemUsage {
    fn default() -> (r: Self)
        ensures
            r.conditions@.len() == 0,
            r.execute is NoActions,
    {
        ItemUsage { conditions: Vec::new(), execute: ItemExecution::NoActions }
    }
}

impl Default for BattleItemExecution {
    fn default() -> (r: Self)
        ensures
            r matches BattleItemExecution::Normal(e) && e is NoActions,
    {
        BattleItemExecution::Normal(ItemExecution::NoActions)
    }
}

} // verus!
