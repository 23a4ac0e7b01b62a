//! The values that move scripts work with: ailments to inflict, pokemon to
//! point at, and the results they report.

use vstd::prelude::*;

use crate::pokemon::{Ailment, LiveAilment};
use crate::moves::{DamageResult, Health};
use crate::random::{gen_range_inclusive_u8, gen_ratio};
use crate::types::Effective;
use crate::engine::ActionResult;
use crate::select::{Indexed, TeamIndex};

verus! {

/// How long an ailment lasts: until cured, or a number of turns in a range.
#[derive(Debug, Clone, Copy, PartialEq, Eq, Structural)]
pub enum AilmentLength {
    Permanent,
    /// Between the two numbers of turns, both included.
    Temporary(u8, u8),
}

/// An ailment a move inflicts, with how long it lasts.
#[derive(Debug, Clone, Copy, PartialEq, Eq, Structural)]
pub struct AilmentEffect {
    pub ailment: Ailment,
    pub turns: AilmentLength,
}

/// An ailment as a script sees it: none, or one ailment.
#[derive(Debug, Clone, Copy)]
pub struct ScriptAilment<A>(pub Option<A>);

/// The turns an ailment of this length lasts.
pub open spec fn lasts(length: AilmentLength, turns: Option<u8>) -> bool {
    match length {
        AilmentLength::Permanent => turns is None,
        AilmentLength::Temporary(min, max) => turns matches Some(t) && min <= t <= max,
    }
}

/// A length that can be drawn: a range of turns must not be empty.
pub open spec fn drawable(length: AilmentLength) -> bool {
    match length {
        AilmentLength::Permanent => true,
        AilmentLength::Temporary(min, max) => min <= max,
    }
}

impl AilmentLength {
    /// Draw how many turns an ailment lasts: none for a permanent one,
    /// otherwise a number in the range, by chance.
    pub fn get(self, random: &mut rand::rngs::StdRng) -> (r: Option<u8>)
        requires
            drawable(self),
        ensures
            lasts(self, r),
    {
        match self {
            AilmentLength::Temporary(min, max) => Some(gen_range_inclusive_u8(random, min, max)),
            AilmentLength::Permanent => None,
        }
    }

    /// The ailment, afflicting a pokemon for a drawn number of turns.
    pub fn init(self, ailment: Ailment, random: &mut rand::rngs::StdRng) -> (r: LiveAilment)
        requires
            drawable(self),
        ensures
            r.ailment == ailment,
            lasts(self, r.turns),
    {
        LiveAilment { ailment, turns: self.get(random) }
    }
}

impl ScriptAilment<AilmentEffect> {
    /// An ailment that lasts as long as `turns` says.
    pub fn ailment(ailment: Ailment, turns: AilmentLength) -> (r: Self)
        ensures
            r.0 == Some(AilmentEffect { ailment, turns }),
    {
        ScriptAilment(Some(AilmentEffect { ailment, turns }))
    }

    /// The ailment as it afflicts a pokemon, its turns drawn.
    pub fn init(&self, random: &mut rand::rngs::StdRng) -> (r: ScriptAilment<LiveAilment>)
        requires
            self.0 matches Some(e) ==> drawable(e.turns),
        ensures
            self.0 is None ==> r.0 is None,
            self.0 matches Some(e) ==> (r.0 matches Some(live) && live.ailment == e.ailment && lasts(e.turns, live.turns)),
    {
        match self.0 {
            Some(effect) => ScriptAilment(Some(effect.turns.init(effect.ailment, random))),
            None => ScriptAilment(None),
        }
    }
}

impl ScriptAilment<LiveAilment> {
    /// No ailment: the pokemon is cured.
    pub fn clear_ailment() -> (r: Self)
        ensures
            r.0 is None,
    {
        ScriptAilment(None)
    }
}

/// A shared pointer to a value, handed to scripts.
#[derive(Debug, Clone, Copy)]
pub struct DerefPtr<'a, T>(pub &'a T);

impl<'a, T> DerefPtr<'a, T> {
    /// Point at a value.
    pub fn of(t: &'a T) -> (r: Self)
        ensures
            *r.0 == *t,
    {
        DerefPtr(t)
    }

    /// The value pointed at.
    pub fn get(&self) -> (r: &'a T)
        ensures
            *r == *self.0,
    {
        self.0
    }
}

/// What a script reports of an action: the pokemon slot it hits and what it does there.
#[derive(Debug, Clone, Copy)]
pub struct ScriptActionResult(pub Indexed<ActionResult>);

impl ScriptActionResult {
    /// An action on the pokemon at `slot`.
    pub fn new(slot: TeamIndex, result: ActionResult) -> (r: Self)
        ensures
            r.0 == Indexed(slot, result),
    {
        ScriptActionResult(Indexed(slot, result))
    }

    /// Damage to the pokemon at `slot` (cut to 16 bits).
    pub fn damage(slot: TeamIndex, damage: ScriptDamage) -> (r: Self)
        ensures
            r.0 == Indexed(slot, ActionResult::Damage(DamageResult {
                damage: damage.0.damage as u16,
                effective: damage.0.effective,
                crit: damage.0.crit,
            })),
    {
        ScriptActionResult::new(slot, ActionResult::Damage(damage.to_result()))
    }

    /// Healing (or, when negative, hurting) the pokemon at `slot` (cut to 16 bits).
    pub fn heal(slot: TeamIndex, heal: i64) -> (r: Self)
        ensures
            r.0 == Indexed(slot, ActionResult::Heal(heal as i16)),
    {
        ScriptActionResult::new(slot, ActionResult::Heal(heal as i16))
    }

    /// An ailment for (or, with none, a cure of) the pokemon at `slot`.
    pub fn ailment(slot: TeamIndex, ailment: ScriptAilment<LiveAilment>) -> (r: Self)
        ensures
            r.0 == Indexed(slot, ActionResult::Ailment(ailment.0)),
    {
        ScriptActionResult::new(slot, ActionResult::Ailment(ailment.0))
    }

    /// The move missed the pokemon at `slot`.
    pub fn miss(slot: TeamIndex) -> (r: Self)
        ensures
            r.0 == Indexed(slot, ActionResult::Miss),
    {
        ScriptActionResult::new(slot, ActionResult::Miss)
    }
}

/// The random number generator, handed to scripts.
pub struct ScriptRandom<'a>(pub &'a mut rand::rngs::StdRng);

impl<'a> ScriptRandom<'a> {
    /// Point scripts at the battle's random number generator.
    pub fn new(random: &'a mut rand::rngs::StdRng) -> (r: Self)
        ensures
            *r.0 == *old(random),
    {
        ScriptRandom(random)
    }

    /// Whether something that happens `percent` percent of the time happens.
    pub fn chance(&mut self, percent: i64) -> (r: bool)
        requires
            0 <= percent <= 100,
        ensures
            percent == 0 ==> !r,
            percent == 100 ==> r,
    {
        gen_ratio(self.0, percent as u32, 100)
    }
}

/// The damage of an attack, as scripts see it.
#[derive(Debug, Clone, Copy)]
pub struct ScriptDamage(pub DamageResult<i64>);

impl ScriptDamage {
    /// Damage that is effective and no critical hit.
    pub fn with_damage(damage: i64) -> (r: Self)
        ensures
            r.0 == (DamageResult { damage, effective: Effective::Effective, crit: false }),
    {
        ScriptDamage(DamageResult::from_damage(damage))
    }

    pub fn set_damage(&mut self, damage: i64)
        ensures
            final(self).0 == (DamageResult { damage, ..old(self).0 }),
    {
        self.0.damage = damage;
    }

    pub fn get_damage(&mut self) -> (r: i64)
        ensures
            r == old(self).0.damage,
            *final(self) == *old(self),
    {
        self.0.damage
    }

    pub fn effective(&mut self) -> (r: Effective)
        ensures
            r == old(self).0.effective,
            *final(self) == *old(self),
    {
        self.0.effective
    }

    /// The damage of an attack, for scripts.
    pub fn from_result(result: DamageResult<Health>) -> (r: Self)
        ensures
            r.0 == (DamageResult { damage: result.damage as i64, effective: result.effective, crit: result.crit }),
    {
        ScriptDamage(DamageResult { damage: result.damage as i64, effective: result.effective, crit: result.crit })
    }

    /// The damage of an attack that a script worked out; it is cut to 16 bits.
    pub fn to_result(self) -> (r: DamageResult<Health>)
        ensures
            r == (DamageResult { damage: self.0.damage as u16, effective: self.0.effective, crit: self.0.crit }),
    {
        DamageResult { damage: self.0.damage as u16, effective: self.0.effective, crit: self.0.crit }
    }
}

} // verus!
