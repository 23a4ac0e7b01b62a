//! A pokemon in battle, and the chances that decide its moves.

use vstd::prelude::*;

use crate::data::VersusType;
use crate::moves::{Accuracy, CriticalRate, Health, Percent, StatType, PP};
use crate::types::PokemonTypes;
use crate::moves::move_id_eq;
use crate::random::{gen_range_inclusive_u8, gen_range_u8, gen_ratio};
use crate::select::{BattleStatType, Stage};

verus! {

/// The experience a pokemon gives or has.
pub type Experience = u32;
/// The level of a pokemon, usually 1 - 100.
pub type Level = u8;

/// A lasting status effect.
#[derive(Debug, Clone, Copy, PartialEq, Eq, Structural)]
pub enum Ailment {
    Paralysis,
    Sleep,
    Freeze,
    Burn,
    Poison,
}

/// An ailment that afflicts a pokemon, with the turns it has left (`None`: until cured).
#[derive(Debug, Clone, Copy, PartialEq, Eq, Structural)]
pub struct LiveAilment {
    pub ailment: Ailment,
    pub turns: Option<u8>,
}

/// A move a pokemon knows, with the uses it has left.
#[derive(Debug, Clone, Copy)]
pub struct OwnedMove {
    pub id: firecore_pokedex::moves::MoveId,
    pub pp: PP,
}

impl OwnedMove {
    /// Whether the move has no uses left.
    pub fn is_empty(&self) -> (r: bool)
        ensures
            r == (self.pp == 0),
    {
        self.pp == 0
    }
}

/// The lowest stage a statistic can be lowered to.
pub const MIN_STAGE: Stage = -6;
/// The highest stage a statistic can be raised to.
pub const MAX_STAGE: Stage = 6;

/// How far each statistic of a pokemon in battle is raised (above 0) or
/// lowered (below 0), from `MIN_STAGE` to `MAX_STAGE`. Health has no stage.
#[derive(Debug, Clone, Copy, PartialEq, Eq, Structural)]
pub struct StatStages {
    pub attack: Stage,
    pub defense: Stage,
    pub sp_attack: Stage,
    pub sp_defense: Stage,
    pub speed: Stage,
    pub accuracy: Stage,
    pub evasion: Stage,
}

/// The stage of a statistic (health is always at stage 0).
pub open spec fn stage_of(s: StatStages, stat: BattleStatType) -> int {
    match stat {
        BattleStatType::Basic(StatType::Health) => 0,
        BattleStatType::Basic(StatType::Attack) => s.attack as int,
        BattleStatType::Basic(StatType::Defense) => s.defense as int,
        BattleStatType::Basic(StatType::SpAttack) => s.sp_attack as int,
        BattleStatType::Basic(StatType::SpDefense) => s.sp_defense as int,
        BattleStatType::Basic(StatType::Speed) => s.speed as int,
        BattleStatType::Accuracy => s.accuracy as int,
        BattleStatType::Evasion => s.evasion as int,
    }
}

/// A stage brought into the range from `MIN_STAGE` to `MAX_STAGE`.
pub open spec fn clamped(x: int) -> int {
    if x < MIN_STAGE { MIN_STAGE as int } else if x > MAX_STAGE { MAX_STAGE as int } else { x }
}

/// The stages with the stage of `stat` set to `v` (health has none to set).
pub open spec fn staged(s: StatStages, stat: BattleStatType, v: Stage) -> StatStages {
    match stat {
        BattleStatType::Basic(StatType::Health) => s,
        BattleStatType::Basic(StatType::Attack) => StatStages { attack: v, ..s },
        BattleStatType::Basic(StatType::Defense) => StatStages { defense: v, ..s },
        BattleStatType::Basic(StatType::SpAttack) => StatStages { sp_attack: v, ..s },
        BattleStatType::Basic(StatType::SpDefense) => StatStages { sp_defense: v, ..s },
        BattleStatType::Basic(StatType::Speed) => StatStages { speed: v, ..s },
        BattleStatType::Accuracy => StatStages { accuracy: v, ..s },
        BattleStatType::Evasion => StatStages { evasion: v, ..s },
    }
}

/// The stages after the stage of `stat` moved by `change`, within the range.
pub open spec fn stage_changed(s: StatStages, stat: BattleStatType, change: Stage) -> StatStages {
    staged(s, stat, clamped(stage_of(s, stat) + change) as i8)
}

/// A statistic at a stage: from stage 0 each stage up adds half of the base,
/// each stage down divides the base by one half more (stage -1 gives 2/3 of
/// it, stage -6 a quarter); the stage counts within the range, and the
/// result stops at the largest `u16`.
pub open spec fn stage_multiplied(base: u16, stage: int) -> int {
    let s = clamped(stage);
    let v = if s >= 0 { base * (2 + s) / 2 } else { base * 2 / (2 - s) };
    if v > u16::MAX { u16::MAX as int } else { v }
}

/// Every stage lies from `MIN_STAGE` to `MAX_STAGE`.
pub open spec fn stages_in_range(s: StatStages) -> bool {
    forall|stat: BattleStatType| MIN_STAGE <= #[trigger] stage_of(s, stat) <= MAX_STAGE
}

/// A stage change keeps every stage in its range, and changes no other
/// statistic's stage than the one it is for.
pub proof fn lemma_stage_change_in_range(s: StatStages, stat: BattleStatType, change: Stage, other: BattleStatType)
    requires
        stages_in_range(s),
    ensures
        stages_in_range(stage_changed(s, stat, change)),
        other != stat ==> stage_of(stage_changed(s, stat, change), other) == stage_of(s, other),
{
    assert forall|t: BattleStatType| MIN_STAGE <= #[trigger] stage_of(stage_changed(s, stat, change), t) <= MAX_STAGE by {
        assert(MIN_STAGE <= stage_of(s, t) <= MAX_STAGE);
    }
}

impl StatStages {
    /// Every statistic at stage 0.
    pub fn new() -> (r: Self)
        ensures
            forall|stat: BattleStatType| stage_of(r, stat) == 0,
            r == (StatStages { attack: 0, defense: 0, sp_attack: 0, sp_defense: 0, speed: 0, accuracy: 0, evasion: 0 }),
    {
        StatStages { attack: 0, defense: 0, sp_attack: 0, sp_defense: 0, speed: 0, accuracy: 0, evasion: 0 }
    }

    /// The stage of a statistic.
    pub fn get(&self, stat: BattleStatType) -> (r: Stage)
        ensures
            r == stage_of(*self, stat),
    {
        match stat {
            BattleStatType::Basic(StatType::Health) => 0,
            BattleStatType::Basic(StatType::Attack) => self.attack,
            BattleStatType::Basic(StatType::Defense) => self.defense,
            BattleStatType::Basic(StatType::SpAttack) => self.sp_attack,
            BattleStatType::Basic(StatType::SpDefense) => self.sp_defense,
            BattleStatType::Basic(StatType::Speed) => self.speed,
            BattleStatType::Accuracy => self.accuracy,
            BattleStatType::Evasion => self.evasion,
        }
    }

    /// The stage a statistic would have after moving by `change`, within the range.
    fn moved(&self, stat: BattleStatType, change: Stage) -> (r: Stage)
        ensures
            r == clamped(stage_of(*self, stat) + change),
    {
        let v: i16 = self.get(stat) as i16 + change as i16;
        if v < MIN_STAGE as i16 {
            MIN_STAGE
        } else if v > MAX_STAGE as i16 {
            MAX_STAGE
        } else {
            v as i8
        }
    }

    /// Whether moving the stage of `stat` by `change` changes anything: it
    /// does not for health, nor where the stage already is at the end of the
    /// range that the change goes toward.
    pub fn can_change(&self, stat: BattleStatType, change: Stage) -> (r: bool)
        ensures
            r == (stage_changed(*self, stat, change) != *self),
    {
        if stat == BattleStatType::Basic(StatType::Health) {
            false
        } else {
            self.moved(stat, change) != self.get(stat)
        }
    }

    /// Move the stage of `stat` by `change`, within the range.
    pub fn change_stage(&mut self, stat: BattleStatType, change: Stage)
        ensures
            *final(self) == stage_changed(*old(self), stat, change),
    {
        let v = self.moved(stat, change);
        match stat {
            BattleStatType::Basic(StatType::Health) => {},
            BattleStatType::Basic(StatType::Attack) => self.attack = v,
            BattleStatType::Basic(StatType::Defense) => self.defense = v,
            BattleStatType::Basic(StatType::SpAttack) => self.sp_attack = v,
            BattleStatType::Basic(StatType::SpDefense) => self.sp_defense = v,
            BattleStatType::Basic(StatType::Speed) => self.speed = v,
            BattleStatType::Accuracy => self.accuracy = v,
            BattleStatType::Evasion => self.evasion = v,
        }
    }

    /// A statistic of `base` at stage `stage`.
    pub fn mult(base: u16, stage: Stage) -> (r: u16)
        ensures
            r == stage_multiplied(base, stage as int),
    {
        let s: u32 = if stage < MIN_STAGE { 6 } else if stage > MAX_STAGE { 6 } else if stage < 0 { (-(stage as i16)) as u32 } else { stage as u32 };
        let b = base as u32;
        let v: u32 = if stage >= 0 {
            assert(b * (2 + s) <= 65535 * 8) by (nonlinear_arith)
                requires b <= 65535, s <= 6;
            b * (2 + s) / 2
        } else {
            b * 2 / (2 + s)
        };
        if v > 65535 { 65535 } else { v as u16 }
    }
}

impl Default for StatStages {
    fn default() -> (r: Self)
        ensures
            r == (StatStages { attack: 0, defense: 0, sp_attack: 0, sp_defense: 0, speed: 0, accuracy: 0, evasion: 0 }),
    {
        StatStages::new()
    }
}

/// A pokemon as the rules of a battle read and change it.
#[derive(Debug, Clone)]
pub struct BattlePokemon {
    pub hp: Health,
    pub max_hp: Health,
    pub level: Level,
    /// Base experience of the species.
    pub base_exp: u16,
    /// The pokemon's types.
    pub types: PokemonTypes,
    /// The attack statistic, before stat stages.
    pub attack: u16,
    pub defense: u16,
    pub sp_attack: u16,
    pub sp_defense: u16,
    pub speed: u16,
    /// How far the battle has raised or lowered each statistic.
    pub stages: StatStages,
    pub moves: Vec<OwnedMove>,
    pub ailment: Option<LiveAilment>,
    /// Moves the pokemon may learn after levelling up.
    pub learnable: Vec<firecore_pokedex::moves::MoveId>,
    /// Whether the other players have seen this pokemon.
    pub revealed: bool,
}

/// A statistic of a pokemon before its stage applies.
pub open spec fn base_stat(p: BattlePokemon, stat: StatType) -> u16 {
    match stat {
        StatType::Health => p.max_hp,
        StatType::Attack => p.attack,
        StatType::Defense => p.defense,
        StatType::SpAttack => p.sp_attack,
        StatType::SpDefense => p.sp_defense,
        StatType::Speed => p.speed,
    }
}

/// A statistic of a pokemon in battle: its maximum health for health, else the
/// base statistic at the pokemon's stage for it.
pub open spec fn stat_value(p: BattlePokemon, stat: StatType) -> int {
    if stat is Health {
        p.max_hp as int
    } else {
        stage_multiplied(base_stat(p, stat), stage_of(p.stages, BattleStatType::Basic(stat)))
    }
}

impl BattlePokemon {
    /// A statistic of the pokemon, with its stage applied; its health
    /// statistic is its maximum health.
    pub fn stat(&self, stat: StatType) -> (r: u16)
        ensures
            r == stat_value(*self, stat),
    {
        let base = match stat {
            StatType::Health => self.max_hp,
            StatType::Attack => self.attack,
            StatType::Defense => self.defense,
            StatType::SpAttack => self.sp_attack,
            StatType::SpDefense => self.sp_defense,
            StatType::Speed => self.speed,
        };
        if stat == StatType::Health {
            base
        } else {
            StatStages::mult(base, self.stages.get(BattleStatType::Basic(stat)))
        }
    }

    /// A pokemon with no health left has fainted.
    pub fn fainted(&self) -> (r: bool)
        ensures
            r == (self.hp == 0),
    {
        self.hp == 0
    }

    /// Show this pokemon to the other players.
    pub fn make_known(&mut self)
        ensures
            *final(self) == (BattlePokemon { revealed: true, ..*old(self) }),
    {
        self.revealed = true;
    }
}

/// How many moves a pokemon can know at once.
pub const MOVE_SLOTS: usize = 4;

/// The first place at or after `k` where a list of move ids holds `id`.
pub open spec fn find_id(ids: Seq<firecore_pokedex::moves::MoveId>, id: firecore_pokedex::moves::MoveId, k: int) -> Option<int>
    decreases ids.len() - k,
{
    if k < 0 || k >= ids.len() {
        None
    } else if ids[k] == id {
        Some(k)
    } else {
        find_id(ids, id, k + 1)
    }
}

/// The moves after learning move `m`: it is added while there is room; once
/// all slots are taken, it takes the place of the move at `index`, if there
/// is one there, and is not learnt otherwise.
pub open spec fn with_move(moves: Seq<OwnedMove>, index: Option<usize>, m: OwnedMove) -> Seq<OwnedMove> {
    if moves.len() >= MOVE_SLOTS {
        match index {
            Some(x) => if x < moves.len() { moves.update(x as int, m) } else { moves },
            None => moves,
        }
    } else {
        moves.push(m)
    }
}

/// Learning a move never takes a pokemon past its move slots; the move is
/// learnt exactly when there is room, or a move to forget is named.
pub proof fn lemma_move_slots_kept(moves: Seq<OwnedMove>, index: Option<usize>, m: OwnedMove)
    requires
        moves.len() <= MOVE_SLOTS,
    ensures
        with_move(moves, index, m).len() <= MOVE_SLOTS,
        with_move(moves, index, m).len() >= moves.len(),
        with_move(moves, index, m).contains(m) <==> (moves.len() < MOVE_SLOTS || (index matches Some(x) && x < moves.len()) || moves.contains(m)),
{
    let r = with_move(moves, index, m);
    if moves.len() < MOVE_SLOTS {
        assert(r[moves.len() as int] == m);
        if moves.contains(m) {
            let k = choose|k: int| 0 <= k < moves.len() && moves[k] == m;
            assert(r[k] == m);
        }
    } else if let Some(x) = index {
        if x < moves.len() {
            assert(r[x as int] == m);
        }
    }
}

impl BattlePokemon {
    /// Whether the pokemon may learn the move.
    pub fn can_learn(&self, id: &firecore_pokedex::moves::MoveId) -> (r: bool)
        ensures
            r == find_id(self.learnable@, *id, 0) is Some,
    {
        let mut k: usize = 0;
        while k < self.learnable.len()
            invariant
                k <= self.learnable@.len(),
                find_id(self.learnable@, *id, 0) == find_id(self.learnable@, *id, k as int),
            decreases self.learnable@.len() - k,
        {
            if move_id_eq(&self.learnable[k], id) {
                assert(find_id(self.learnable@, *id, k as int) == Some(k as int));
                return true;
            }
            assert(find_id(self.learnable@, *id, k as int) == find_id(self.learnable@, *id, k + 1));
            k = k + 1;
        }
        false
    }

    /// Strike a move off the moves the pokemon may learn; whether it was there.
    pub fn forget_learnable(&mut self, id: &firecore_pokedex::moves::MoveId) -> (r: bool)
        ensures
            r == find_id(old(self).learnable@, *id, 0) is Some,
            final(self).learnable@ == match find_id(old(self).learnable@, *id, 0) {
                Some(k) => old(self).learnable@.remove(k),
                None => old(self).learnable@,
            },
            *final(self) == (BattlePokemon { learnable: final(self).learnable, ..*old(self) }),
    {
        let mut k: usize = 0;
        while k < self.learnable.len()
            invariant
                k <= self.learnable@.len(),
                self.learnable@ == old(self).learnable@,
                *self == *old(self),
                find_id(self.learnable@, *id, 0) == find_id(self.learnable@, *id, k as int),
            decreases self.learnable@.len() - k,
        {
            if move_id_eq(&self.learnable[k], id) {
                assert(find_id(self.learnable@, *id, k as int) == Some(k as int));
                self.learnable.remove(k);
                return true;
            }
            assert(find_id(self.learnable@, *id, k as int) == find_id(self.learnable@, *id, k + 1));
            k = k + 1;
        }
        false
    }

    /// Learn a move, as `with_move` says; whether it was learnt.
    pub fn add_move(&mut self, index: Option<usize>, m: OwnedMove) -> (r: bool)
        ensures
            final(self).moves@ == with_move(old(self).moves@, index, m),
            r == (old(self).moves@.len() < MOVE_SLOTS || (index matches Some(x) && x < old(self).moves@.len())),
            *final(self) == (BattlePokemon { moves: final(self).moves, ..*old(self) }),
    {
        if self.moves.len() >= MOVE_SLOTS {
            match index {
                Some(x) => {
                    if x < self.moves.len() {
                        self.moves.set(x, m);
                        true
                    } else {
                        false
                    }
                },
                None => false,
            }
        } else {
            self.moves.push(m);
            true
        }
    }
}

/// Whether a move of the given accuracy lands, on a roll in `0..100`.
pub open spec fn lands(accuracy: Option<Accuracy>, roll: u8) -> bool {
    match accuracy {
        Some(a) => roll < a,
        None => true,
    }
}

/// Roll whether a move of the given accuracy lands: a move without an
/// accuracy always lands; otherwise it lands when a roll in `0..100` falls
/// below the accuracy.
pub fn throw_move(random: &mut rand::rngs::StdRng, accuracy: Option<Accuracy>) -> (r: bool)
    ensures
        exists|roll: u8| roll < 100 && r == lands(accuracy, roll),
{
    match accuracy {
        Some(accuracy) => {
            let roll = gen_range_u8(random, 0, 100);
            assert(lands(Some(accuracy), roll) == (roll < accuracy));
            roll < accuracy
        },
        None => {
            assert(lands(accuracy, 0u8));
            true
        },
    }
}

/// The odds of a critical hit for a critical-hit rate, as (numerator, denominator).
pub open spec fn crit_chance(crit_rate: CriticalRate) -> (u32, u32) {
    if crit_rate == 0 {
        (1, 16)
    } else if crit_rate == 1 {
        (1, 8)
    } else if crit_rate == 2 {
        (1, 4)
    } else if crit_rate == 3 {
        (1, 3)
    } else {
        (1, 2)
    }
}

/// The odds of a critical hit: 1/16, 1/8, 1/4, 1/3, and 1/2 for rates 4 and above.
pub fn crit_odds(crit_rate: CriticalRate) -> (r: (u32, u32))
    ensures
        r == crit_chance(crit_rate),
{
    match crit_rate {
        0 => (1, 16),
        1 => (1, 8),
        2 => (1, 4),
        3 => (1, 3),
        _ => (1, 2),
    }
}

/// Roll whether a move with the given critical-hit rate lands a critical hit,
/// with the odds of `crit_odds`. Every rate leaves both outcomes possible.
pub fn crit(random: &mut rand::rngs::StdRng, crit_rate: CriticalRate) -> (r: bool) {
    let (numerator, denominator) = crit_odds(crit_rate);
    gen_ratio(random, numerator, denominator)
}

/// Roll the random part of a damage roll, a percentage in `85..=100`.
pub fn damage_range(random: &mut rand::rngs::StdRng) -> (r: Percent)
    ensures
        85 <= r <= 100,
{
    gen_range_inclusive_u8(random, 85, 100)
}

/// The experience a pokemon of the given base experience gives at a level.
pub open spec fn exp_yield(base_exp: u16, level: Level) -> int {
    (base_exp * level) / 7
}

/// The experience a defeated pokemon gives: its base experience times its
/// level, divided by 7. The product is computed in 16 bits and must fit.
pub fn exp_from(base_exp: u16, level: Level) -> (r: Experience)
    requires
        base_exp * level <= u16::MAX,
    ensures
        r == exp_yield(base_exp, level),
{
    let product: u16 = base_exp * (level as u16);
    (product / 7) as u32
}

/// The experience gained in a battle: half as much again against a wild
/// pokemon (the tripling saturates at the largest `u32`).
pub open spec fn battle_exp(experience: Experience, versus: VersusType) -> int {
    if versus is Wild {
        (if experience * 3 > u32::MAX { u32::MAX as int } else { experience * 3 }) / 2
    } else {
        experience as int
    }
}

impl BattlePokemon {
    /// The experience that defeating this pokemon gives in a battle of the given kind.
    pub fn battle_exp_from(&self, versus: VersusType) -> (r: Experience)
        requires
            self.base_exp * self.level <= u16::MAX,
        ensures
            r == battle_exp(exp_yield(self.base_exp, self.level) as Experience, versus),
    {
        let experience = exp_from(self.base_exp, self.level);
        match versus {
            VersusType::Wild => {
                let tripled = if experience > u32::MAX / 3 { u32::MAX } else { experience * 3 };
                tripled / 2
            },
            _ => experience,
        }
    }
}

} // verus!
