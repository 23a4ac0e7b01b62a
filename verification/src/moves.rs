//! Moves as a battle sees them: categories, targets, damage, and type effectiveness.

use vstd::prelude::*;

use crate::types::{combined, Effective, PokemonType, PokemonTypes};
use crate::types::PokemonType::{
    Bug, Dark, Dragon, Electric, Fairy, Fighting, Fire, Flying, GhostType, Grass, Ground, Ice, Normal,
    Poison, Psychic, Rock, Steel, Unknown, Water,
};

verus! {

/// How powerful a move is, in points.
pub type Power = u8;
/// How accurate a move is, in values 0 - 100.
pub type Accuracy = u8;
/// The higher the value, the earlier the move goes in a turn.
pub type Priority = i8;
/// Raises the chance of a critical hit; it maxes out at 4.
pub type CriticalRate = u8;
/// 0 through 100.
pub type Percent = u8;
/// An amount of health.
pub type Health = u16;
/// How many times a move can still be used.
pub type PP = u8;

/// The identifier of a move, as the pokedex names it.
#[verifier::external_type_specification]
#[verifier::external_body]
pub struct ExMoveId(firecore_pokedex::moves::MoveId);

/// Whether two move identifiers are the same.
#[verifier::external_body]
pub fn move_id_eq(a: &firecore_pokedex::moves::MoveId, b: &firecore_pokedex::moves::MoveId) -> (r: bool)
    ensures
        r == (*a == *b),
{
    a == b
}

/// The statistics of a pokemon.
#[derive(Debug, Clone, Copy, PartialEq, Eq, Structural)]
pub enum StatType {
    Health,
    Attack,
    Defense,
    SpAttack,
    SpDefense,
    Speed,
}

/// The category of a move.
#[derive(Debug, Clone, Copy, PartialEq, Eq, Structural)]
pub enum MoveCategory {
    Status,
    Physical,
    Special,
}

/// The attack statistic that a damaging category uses.
pub open spec fn attack_stat(category: MoveCategory) -> StatType {
    if category is Physical {
        StatType::Attack
    } else {
        StatType::SpAttack
    }
}

/// The defense statistic that a damaging category is resisted with.
pub open spec fn defense_stat(category: MoveCategory) -> StatType {
    if category is Physical {
        StatType::Defense
    } else {
        StatType::SpDefense
    }
}

impl MoveCategory {
    /// The attack and defense statistics of this category.
    pub fn stats(&self) -> (r: (StatType, StatType))
        requires
            !(*self is Status),
        ensures
            r == (attack_stat(*self), defense_stat(*self)),
    {
        (self.attack(), self.defense())
    }

    /// The attack statistic of this category; a status move has none.
    pub fn attack(&self) -> (r: StatType)
        requires
            !(*self is Status),
        ensures
            r == attack_stat(*self),
    {
        match self {
            MoveCategory::Physical => StatType::Attack,
            _ => StatType::SpAttack,
        }
    }

    /// The defense statistic of this category; a status move has none.
    pub fn defense(&self) -> (r: StatType)
        requires
            !(*self is Status),
        ensures
            r == defense_stat(*self),
    {
        match self {
            MoveCategory::Physical => StatType::Defense,
            _ => StatType::SpDefense,
        }
    }
}

/// Who a move is aimed at.
#[derive(Debug, Clone, Copy, PartialEq, Eq, Structural)]
pub enum MoveTarget {
    Any,
    Ally,
    Allies,
    UserOrAlly,
    UserAndAllies,
    User,
    Opponent,
    AllOpponents,
    RandomOpponent,
    AllOtherPokemon,
    AllPokemon,
    /// A move without a target (named so because `None` is a word of Verus).
    NoTarget,
}

impl Default for MoveTarget {
    fn default() -> (r: Self)
        ensures
            r is NoTarget,
    {
        MoveTarget::NoTarget
    }
}

impl MoveTarget {
    /// Whether the player has to pick the target of a move with this target kind.
    pub fn needs_input(&self) -> (r: bool)
        ensures
            r == (*self is Ally || *self is Any || *self is Opponent || *self is UserOrAlly),
    {
        match self {
            MoveTarget::Ally | MoveTarget::Any | MoveTarget::Opponent | MoveTarget::UserOrAlly => true,
            _ => false,
        }
    }
}

/// Whether a move makes contact with its target.
#[derive(Debug, Clone, Copy, PartialEq, Eq, Structural)]
pub struct Contact(pub bool);

impl Default for Contact {
    fn default() -> (r: Self)
        ensures
            r.0,
    {
        Contact(true)
    }
}

/// A move as the battle uses it.
#[derive(Debug, Clone, Copy)]
pub struct BattleMove {
    pub id: firecore_pokedex::moves::MoveId,
    pub category: MoveCategory,
    pub pokemon_type: PokemonType,
    /// If this is `None`, the move always lands.
    pub accuracy: Option<Accuracy>,
    pub power: Option<Power>,
    pub priority: Priority,
    pub target: MoveTarget,
    pub contact: Contact,
    pub crit_rate: CriticalRate,
}

/// How the damage of a move is worked out.
#[derive(Debug, Clone, Copy, PartialEq, Eq, Structural)]
pub enum DamageKind {
    Power(Power),
    PercentCurrent(Percent),
    PercentMax(Percent),
    Constant(Health),
}

/// The outcome of an attack.
#[derive(Debug, Clone, Copy, PartialEq, Eq)]
pub struct DamageResult<N> {
    /// Inflicted damage.
    pub damage: N,
    /// Whether the attack was effective.
    pub effective: Effective,
    /// If the attack was a critical hit.
    pub crit: bool,
}

/// Damage as a client is told of it: a full result or a bare number.
#[derive(Debug, Clone, Copy, PartialEq, Eq)]
pub enum ClientDamage<N> {
    Result(DamageResult<N>),
    Number(N),
}

impl<N> ClientDamage<N> {
    /// The amount of damage, whichever way it was given.
    pub fn damage(self) -> (r: N)
        ensures
            r == (match self {
                ClientDamage::Result(res) => res.damage,
                ClientDamage::Number(n) => n,
            }),
    {
        match self {
            ClientDamage::Result(result) => result.damage,
            ClientDamage::Number(n) => n,
        }
    }
}

impl<N> DamageResult<N> {
    /// A result that deals `damage`, effective and without a critical hit.
    pub fn from_damage(damage: N) -> (r: Self)
        ensures
            r.damage == damage,
            r.effective is Effective,
            !r.crit,
    {
        DamageResult { damage, effective: Effective::Effective, crit: false }
    }
}

impl Default for DamageResult<Health> {
    fn default() -> (r: Self)
        ensures
            r.damage == 0,
            r.effective is Ineffective,
            !r.crit,
    {
        DamageResult { damage: 0, effective: Effective::Ineffective, crit: false }
    }
}

} // verus!

verus! {

/// Attacks of type `user` are super effective against type `target`.
pub open spec fn strong_against(user: PokemonType, target: PokemonType) -> bool {
    match user {
        Fire => target == Grass || target == Ice || target == Bug || target == Steel,
        Water => target == Fire || target == Ground || target == Rock,
        Electric => target == Water || target == Flying,
        Grass => target == Water || target == Ground || target == Rock,
        Ice => target == Grass || target == Ground || target == Flying || target == Dragon,
        Fighting => target == Normal || target == Ice || target == Rock || target == Dark
            || target == Steel,
        Poison => target == Grass || target == Fairy,
        Ground => target == Fire || target == Electric || target == Poison || target == Rock
            || target == Steel,
        Flying => target == Grass || target == Fighting || target == Bug,
        Psychic => target == Fighting || target == Poison,
        Bug => target == Grass || target == Psychic || target == Dark,
        Rock => target == Fire || target == Ice || target == Flying || target == Bug,
        GhostType => target == Psychic || target == GhostType,
        Dragon => target == Dragon,
        Dark => target == Psychic || target == GhostType,
        Steel => target == Ice || target == Rock || target == Fairy,
        Fairy => target == Fighting || target == Dragon || target == Dark,
        _ => false,
    }
}

/// Attacks of type `user` are not very effective against type `target`.
pub open spec fn weak_against(user: PokemonType, target: PokemonType) -> bool {
    match user {
        Normal => target == Rock || target == Steel,
        Fire => target == Fire || target == Water || target == Rock || target == Dragon,
        Water => target == Water || target == Grass || target == Dragon,
        Electric => target == Electric || target == Grass || target == Dragon,
        Grass => target == Fire || target == Grass || target == Poison || target == Flying
            || target == Bug || target == Dragon || target == Steel,
        Ice => target == Fire || target == Water || target == Ice || target == Steel,
        Fighting => target == Poison || target == Flying || target == Psychic || target == Bug
            || target == Fairy,
        Poison => target == Poison || target == Ground || target == Rock || target == GhostType,
        Ground => target == Grass || target == Bug,
        Flying => target == Electric || target == Rock || target == Steel,
        Psychic => target == Psychic || target == Steel,
        Bug => target == Fire || target == Fighting || target == Poison || target == Flying
            || target == GhostType || target == Steel || target == Fairy,
        Rock => target == Fighting || target == Ground || target == Steel,
        GhostType => target == Dark,
        Dragon => target == Steel,
        Dark => target == Fighting || target == Dark || target == Fairy,
        Steel => target == Fire || target == Water || target == Electric || target == Steel,
        Fairy => target == Fire || target == Poison || target == Steel,
        _ => false,
    }
}

/// Attacks of type `user` have no effect on type `target`.
pub open spec fn immune_to(user: PokemonType, target: PokemonType) -> bool {
    ||| user == Normal && target == GhostType
    ||| user == Electric && target == Ground
    ||| user == Fighting && target == GhostType
    ||| user == Poison && target == Steel
    ||| user == Ground && target == Flying
    ||| user == Psychic && target == Dark
    ||| user == GhostType && target == Normal
    ||| user == Dragon && target == Fairy
}

/// The type chart: how effective a move of category `category` and type
/// `user` is against a target of type `target`.
pub open spec fn chart(category: MoveCategory, user: PokemonType, target: PokemonType) -> Effective {
    if category is Status {
        Effective::Ineffective
    } else if immune_to(user, target) {
        Effective::Ineffective
    } else if strong_against(user, target) {
        Effective::SuperEffective
    } else if weak_against(user, target) {
        Effective::NotEffective
    } else {
        Effective::Effective
    }
}

/// How effective a move is against a target with the given types.
pub open spec fn effectiveness(category: MoveCategory, user: PokemonType, target: PokemonTypes) -> Effective {
    match target.secondary {
        Some(secondary) => combined(chart(category, user, target.primary), chart(category, user, secondary)),
        None => chart(category, user, target.primary),
    }
}

impl MoveCategory {
    /// How effective a move of this category and type `user` is against `target`.
    pub fn effective(&self, user: PokemonType, target: PokemonTypes) -> (r: Effective)
        ensures
            r == effectiveness(*self, user, target),
    {
        let primary = self.effective_table(user, target.primary);
        if let Some(secondary) = target.secondary {
            primary.mul(self.effective_table(user, secondary))
        } else {
            primary
        }
    }

    /// The type chart, for one type against one type.
    #[verifier::rlimit(40)]
    pub fn effective_table(&self, user: PokemonType, target: PokemonType) -> (r: Effective)
        ensures
            r == chart(*self, user, target),
    {
            match self {
            MoveCategory::Status => Effective::Ineffective,
            _ => match user {
                Unknown => Effective::Effective,
                Normal => match target {
                    GhostType => Effective::Ineffective,
                    Rock | Steel => Effective::NotEffective,
                    _ => Effective::Effective,
                },
                Fire => match target {
                    Grass | Ice | Bug | Steel => Effective::SuperEffective,
                    Fire | Water | Rock | Dragon => Effective::NotEffective,
                    _ => Effective::Effective,
                },
                Water => match target {
                    Fire | Ground | Rock => Effective::SuperEffective,
                    Water | Grass | Dragon => Effective::NotEffective,
                    _ => Effective::Effective,
                },
                Electric => match target {
                    Water | Flying => Effective::SuperEffective,
                    Electric | Grass | Dragon => Effective::NotEffective,
                    Ground => Effective::Ineffective,
                    _ => Effective::Effective,
                },
                Grass => match target {
                    Water | Ground | Rock => Effective::SuperEffective,
                    Fire | Grass | Poison | Flying | Bug | Dragon | Steel => Effective::NotEffective,
                    _ => Effective::Effective,
                },
                Ice => match target {
                    Grass | Ground | Flying | Dragon => Effective::SuperEffective,
                    Fire | Water | Ice | Steel => Effective::NotEffective,
                    _ => Effective::Effective,
                },
                Fighting => match target {
                    Normal | Ice | Rock | Dark | Steel => Effective::SuperEffective,
                    Poison | Flying | Psychic | Bug | Fairy => Effective::NotEffective,
                    GhostType => Effective::Ineffective,
                    _ => Effective::Effective,
                },
                Poison => match target {
                    Grass | Fairy => Effective::SuperEffective,
                    Poison | Ground | Rock | GhostType => Effective::NotEffective,
                    Steel => Effective::Ineffective,
                    _ => Effective::Effective,
                },
                Ground => match target {
                    Fire | Electric | Poison | Rock | Steel => Effective::SuperEffective,
                    Grass | Bug => Effective::NotEffective,
                    Flying => Effective::Ineffective,
                    _ => Effective::Effective,
                },
                Flying => match target {
                    Grass | Fighting | Bug => Effective::SuperEffective,
                    Electric | Rock | Steel => Effective::NotEffective,
                    _ => Effective::Effective,
                },
                Psychic => match target {
                    Fighting | Poison => Effective::SuperEffective,
                    Psychic | Steel => Effective::NotEffective,
                    Dark => Effective::Ineffective,
                    _ => Effective::Effective,
                },
                Bug => match target {
                    Grass | Psychic | Dark => Effective::SuperEffective,
                    Fire | Fighting | Poison | Flying | GhostType | Steel | Fairy => Effective::NotEffective,
                    _ => Effective::Effective,
                },
                Rock => match target {
                    Fire | Ice | Flying | Bug => Effective::SuperEffective,
                    Fighting | Ground | Steel => Effective::NotEffective,
                    _ => Effective::Effective,
                },
                GhostType => match target {
                    Psychic | GhostType => Effective::SuperEffective,
                    Dark => Effective::NotEffective,
                    Normal => Effective::Ineffective,
                    _ => Effective::Effective,
                },
                Dragon => match target {
                    Dragon => Effective::SuperEffective,
                    Steel => Effective::NotEffective,
                    Fairy => Effective::Ineffective,
                    _ => Effective::Effective,
                },
                Dark => match target {
                    Psychic | GhostType => Effective::SuperEffective,
                    Fighting | Dark | Fairy => Effective::NotEffective,
                    _ => Effective::Effective,
                },
                Steel => match target {
                    Ice | Rock | Fairy => Effective::SuperEffective,
                    Fire | Water | Electric | Steel => Effective::NotEffective,
                    _ => Effective::Effective,
                },
                Fairy => match target {
                    Fighting | Dragon | Dark => Effective::SuperEffective,
                    Fire | Poison | Steel => Effective::NotEffective,
                    _ => Effective::Effective,
                },
            },
        }
    }
}

/// A status move is never effective, whatever the types.
pub proof fn lemma_status_never_effective(user: PokemonType, target: PokemonTypes)
    ensures
        effectiveness(MoveCategory::Status, user, target) == Effective::Ineffective,
{
}

/// A damaging move of unknown type is neutral against every target.
pub proof fn lemma_unknown_type_neutral(category: MoveCategory, target: PokemonTypes)
    requires
        !(category is Status),
    ensures
        effectiveness(category, PokemonType::Unknown, target) == Effective::Effective,
{
}

/// The order in which a target's two types are listed does not change effectiveness.
pub proof fn lemma_type_order_irrelevant(category: MoveCategory, user: PokemonType, a: PokemonType, b: PokemonType)
    ensures
        effectiveness(category, user, PokemonTypes { primary: a, secondary: Some(b) })
            == effectiveness(category, user, PokemonTypes { primary: b, secondary: Some(a) }),
{
    crate::types::lemma_combined_laws(chart(category, user, a), chart(category, user, b));
}

/// A target that is immune through either of its types is immune.
pub proof fn lemma_immunity_wins(category: MoveCategory, user: PokemonType, target: PokemonTypes)
    requires
        immune_to(user, target.primary) || (target.secondary is Some && immune_to(user, target.secondary->0)),
    ensures
        effectiveness(category, user, target) == Effective::Ineffective,
{
}

} // verus!
