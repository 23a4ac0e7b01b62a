//! What players select each turn, and what they are told in return.

use vstd::prelude::*;

use crate::moves::{ClientDamage, Health, StatType};
use crate::pokemon::LiveAilment;

verus! {

/// The identifier of a player.
pub type PlayerId = u64;
/// A slot of a party's active pokemon.
pub type ActivePosition = usize;
/// A place in a party.
pub type PartyPosition = usize;

/// The short ASCII strings that the pokedex names items by.
#[verifier::external_type_specification]
#[verifier::external_body]
pub struct ExTinyAsciiStr<const N: usize>(tinystr::TinyAsciiStr<N>);

/// A pokemon slot of a team: the team's player and an index.
#[derive(Debug, Clone, Copy, PartialEq, Eq, Structural)]
pub struct TeamIndex(pub PlayerId, pub usize);

impl TeamIndex {
    pub fn team(&self) -> (r: PlayerId)
        ensures
            r == self.0,
    {
        self.0
    }

    pub fn index(&self) -> (r: usize)
        ensures
            r == self.1,
    {
        self.1
    }
}

/// A value that concerns one pokemon slot of one team.
#[derive(Debug, Clone, Copy)]
pub struct Indexed<T>(pub TeamIndex, pub T);

/// What a player selects for an active pokemon.
#[derive(Debug, Clone, Copy)]
pub enum BattleSelection {
    /// Use a move, at an optional target.
    Move(firecore_pokedex::moves::MoveId, Option<TeamIndex>),
    /// Switch to (or replace a fainted pokemon with) the pokemon at a party position.
    Pokemon(PartyPosition),
    /// Use an item on a target.
    Item(Indexed<firecore_pokedex::item::ItemId>),
}

/// Why a selection was turned down.
#[derive(Debug, Clone, Copy, PartialEq, Eq, Structural)]
pub enum SelectReason {
    MissingPokemon,
    MissingActive,
    MissingAction,
    InvalidInput,
    NoPP,
}

/// What an accepted selection costs.
#[derive(Debug, Clone, Copy)]
pub enum SelectConfirm {
    /// A move was selected; it uses up this many PP.
    Move(firecore_pokedex::moves::MoveId, u8),
    Other,
}

/// The answer to a selection.
#[derive(Debug, Clone, Copy)]
pub enum SelectMessage {
    /// Select (again), for an optional reason.
    Request(Option<SelectReason>),
    Confirm(SelectConfirm),
    Deny,
}

/// A pokemon's health as a part of its maximum health.
#[derive(Debug, Clone, Copy, PartialEq, Eq, Structural)]
pub struct HpRatio {
    pub hp: Health,
    pub max_hp: Health,
}

/// A change of a stat stage.
pub type Stage = i8;

/// The statistics that stat stages apply to.
#[derive(Debug, Clone, Copy, PartialEq, Eq, Structural)]
pub enum BattleStatType {
    Basic(StatType),
    Accuracy,
    Evasion,
}

/// Why a move was cancelled (such as a flinch).
pub type MoveCancelId = tinystr::TinyAsciiStr<8>;

/// What every player is told happened to a pokemon.
#[derive(Debug, Clone, Copy)]
pub enum PublicAction {
    /// The pokemon's health changed to this part of its maximum.
    SetHP(ClientDamage<HpRatio>),
    Ailment(Option<LiveAilment>),
    AddStat(BattleStatType, Stage),
    Switch(PartyPosition),
    Cancel(MoveCancelId),
    Miss,
}

/// What is announced before the results of an action.
#[derive(Debug, Clone, Copy)]
pub enum ClientActionType {
    Move(firecore_pokedex::moves::MoveId),
    Item(Indexed<firecore_pokedex::item::ItemId>),
    Pokemon(PartyPosition),
    /// The end of the turn.
    Post,
}

/// One step of the results of a turn.
#[derive(Debug, Clone)]
pub enum ClientAction {
    /// The `n`th action of the turn, by an optional user.
    Announce(usize, Option<TeamIndex>, ClientActionType),
    Actions(Vec<Indexed<PublicAction>>),
    Error(String),
}

} // verus!
