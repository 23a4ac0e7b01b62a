//! Pokemon types and how effective one is against another.

use vstd::prelude::*;

verus! {

/// The elemental type of a pokemon or a move.
#[derive(Debug, Clone, Copy, PartialEq, Eq, Structural)]
pub enum PokemonType {
    Unknown,
    Normal,
    Fire,
    Water,
    Electric,
    Grass,
    Ice,
    Fighting,
    Poison,
    Ground,
    Flying,
    Psychic,
    Bug,
    Rock,
    /// The Ghost type (named so because `Ghost` is a word of Verus).
    GhostType,
    Dragon,
    Dark,
    Steel,
    Fairy,
}

/// How effective an attack is against its target.
#[derive(Debug, Clone, Copy, PartialEq, Eq, Structural)]
pub enum Effective {
    Effective,
    Ineffective,
    NotEffective,
    SuperEffective,
}

/// The one or two types of a pokemon.
#[derive(Debug, Clone, Copy, PartialEq, Eq, Structural)]
pub struct PokemonTypes {
    pub primary: PokemonType,
    pub secondary: Option<PokemonType>,
}

/// The combined effect of two effectiveness values (one per type of a
/// dual-typed target): immunity wins, a weakness and a resistance cancel out,
/// and otherwise the stronger of the two non-neutral values stays.
pub open spec fn combined(a: Effective, b: Effective) -> Effective {
    if a is Ineffective || b is Ineffective {
        Effective::Ineffective
    } else if a is Effective {
        b
    } else if b is Effective {
        a
    } else if a == b {
        a
    } else {
        Effective::Effective
    }
}

impl Effective {
    /// Combine two effectiveness values, as for an attack on a target with two types.
    pub fn mul(self, rhs: Effective) -> (r: Effective)
        ensures
            r == combined(self, rhs),
    {
        match self {
            Effective::Ineffective => Effective::Ineffective,
            Effective::NotEffective => match rhs {
                Effective::SuperEffective => Effective::Effective,
                Effective::Ineffective => Effective::Ineffective,
                _ => Effective::NotEffective,
            },
            Effective::Effective => rhs,
            Effective::SuperEffective => match rhs {
                Effective::NotEffective => Effective::Effective,
                Effective::Ineffective => Effective::Ineffective,
                _ => Effective::SuperEffective,
            },
        }
    }
}

/// Combining effectiveness does not depend on the order of the two values,
/// `Effective` changes nothing, and `Ineffective` absorbs everything.
pub proof fn lemma_combined_laws(a: Effective, b: Effective)
    ensures
        combined(a, b) == combined(b, a),
        combined(Effective::Effective, a) == a,
        combined(a, Effective::Effective) == a,
        combined(Effective::Ineffective, a) == Effective::Ineffective,
        combined(a, Effective::Ineffective) == Effective::Ineffective,
{
}

} // verus!
