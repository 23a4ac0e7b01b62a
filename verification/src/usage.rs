//! How the default engine carries out a move: the list of things it does.

use vstd::prelude::*;

use crate::data::BattleData;
use crate::engine::{
    ailment_outcome, ailment_use, chance_roll, heal_fits_in, heal_ok, in_battle, pokemon_at, pokemon_in_battle, ran,
    run_action, supported, ActionResult,
};
use crate::player::{BattlePlayer, PlayerQuery};
use crate::moves::{BattleMove, DamageKind, DamageResult, Health, Percent};
use crate::pokemon::{crit, damage_range, lands, stage_changed, throw_move, Ailment, BattlePokemon};
use crate::scripting::{drawable, AilmentLength};
use crate::select::{BattleStatType, Indexed, MoveCancelId, PublicAction, Stage, TeamIndex};
use crate::target::{create_targets, targets_of};

verus! {

/// One thing a move does to its target.
#[derive(Debug)]
pub enum MoveUse {
    Damage(DamageKind),
    /// Inflict an ailment (or, with none, cure one) some percent of the time.
    Ailment(Option<(Ailment, AilmentLength)>, Percent),
    /// Damage the target and heal the user by a percentage of the damage.
    Drain(DamageKind, i8),
    Stat(BattleStatType, Stage),
    Flinch,
    /// Do these things some percent of the time.
    Chance(Vec<MoveUse>, Percent),
}

/// How a move is carried out.
#[derive(Debug)]
pub enum MoveExecution {
    /// A list of things the move does.
    Actions(Vec<MoveUse>),
    /// A script that the scripting engine runs.
    Script,
    /// The move does nothing yet.
    NoUsage,
}

/// A move the engine knows: its battle data and how it is carried out.
#[derive(Debug)]
pub struct EngineMove {
    pub data: BattleMove,
    pub usage: MoveExecution,
}

/// How many results a use of a move gives at most: a drain gives two, a
/// chance as many as the uses it holds, anything else one.
pub open spec fn use_size(u: MoveUse) -> nat
    decreases u,
{
    match u {
        MoveUse::Chance(uses, _) => uses_size(uses@),
        MoveUse::Drain(..) => 2,
        _ => 1,
    }
}

/// How many results a list of uses gives at most, all together.
pub open spec fn uses_size(s: Seq<MoveUse>) -> nat
    decreases s,
{
    if s.len() == 0 {
        0
    } else {
        uses_size(s.drop_last()) + use_size(s.last())
    }
}

/// The results of the first uses of a list are no more than those of all of them.
pub proof fn lemma_uses_size_prefix(s: Seq<MoveUse>, k: int)
    requires
        0 <= k <= s.len(),
    ensures
        uses_size(s.take(k)) <= uses_size(s),
        k < s.len() ==> uses_size(s.take(k + 1)) == uses_size(s.take(k)) + use_size(s[k]),
    decreases s.len() - k,
{
    if k < s.len() {
        assert(s.take(k + 1).drop_last() =~= s.take(k));
        lemma_uses_size_prefix(s, k + 1);
    } else {
        assert(s.take(k) =~= s);
    }
}

/// Add up the sizes of a list of uses.
fn sum_sizes(uses: &Vec<MoveUse>) -> (r: usize)
    requires
        uses_size(uses@) <= usize::MAX,
    ensures
        r == uses_size(uses@),
    decreases uses@, 1nat,
{
    let mut total: usize = 0;
    let mut k: usize = 0;
    while k < uses.len()
        invariant
            k <= uses@.len(),
            total == uses_size(uses@.take(k as int)),
            uses_size(uses@) <= usize::MAX,
        decreases uses@.len() - k,
    {
        proof {
            lemma_uses_size_prefix(uses@, k as int);
            lemma_uses_size_prefix(uses@, k + 1);
        }
        assert(decreases_to!(uses@ => uses@[k as int]));
        let size = uses[k].size();
        total = total + size;
        k = k + 1;
    }
    proof {
        assert(uses@.take(uses@.len() as int) =~= uses@);
    }
    total
}

impl MoveUse {
    /// How many results this use gives at most, as `use_size` says.
    pub fn size(&self) -> (r: usize)
        requires
            use_size(*self) <= usize::MAX,
        ensures
            r == use_size(*self),
        decreases *self, 0nat,
    {
        match self {
            MoveUse::Chance(uses, _) => {
                assert(decreases_to!(*self => uses@));
                sum_sizes(uses)
            },
            MoveUse::Drain(..) => 2,
            _ => 1,
        }
    }
}

impl MoveExecution {
    /// How many results the move gives at most per target: what its uses give
    /// all together, or one for a script or a move that does nothing yet.
    pub fn size(&self) -> (r: usize)
        requires
            self matches MoveExecution::Actions(uses) ==> uses_size(uses@) <= usize::MAX,
        ensures
            r == match self {
                MoveExecution::Actions(uses) => uses_size(uses@),
                _ => 1,
            },
    {
        match self {
            MoveExecution::Actions(uses) => sum_sizes(uses),
            _ => 1,
        }
    }
}

/// A use that the engine can carry out: its chances are at most 100 percent,
/// and the ranges of turns of its ailments are not empty.
pub open spec fn use_valid(u: MoveUse) -> bool
    decreases u,
{
    match u {
        MoveUse::Ailment(effect, chance) => chance <= 100 && (effect matches Some((_, length)) ==> drawable(length)),
        MoveUse::Chance(uses, _) => uses_valid(uses@),
        _ => true,
    }
}

/// Every use of a list can be carried out.
pub open spec fn uses_valid(s: Seq<MoveUse>) -> bool
    decreases s,
{
    if s.len() == 0 {
        true
    } else {
        uses_valid(s.drop_last()) && use_valid(s.last())
    }
}

/// Whether every use of a list can be carried out, as `uses_valid` says.
pub fn uses_are_valid(uses: &Vec<MoveUse>) -> (r: bool)
    ensures
        r == uses_valid(uses@),
    decreases uses@, 1nat,
{
    let mut k: usize = 0;
    while k < uses.len()
        invariant
            k <= uses@.len(),
            uses_valid(uses@.take(k as int)),
        decreases uses@.len() - k,
    {
        assert(uses@.take(k + 1).drop_last() =~= uses@.take(k as int));
        assert(decreases_to!(uses@ => uses@[k as int]));
        if !uses[k].is_valid() {
            proof {
                lemma_valid_prefix(uses@, k + 1);
            }
            return false;
        }
        k = k + 1;
    }
    assert(uses@.take(uses@.len() as int) =~= uses@);
    true
}

/// A valid list has a valid prefix.
proof fn lemma_valid_prefix(s: Seq<MoveUse>, k: int)
    requires
        0 <= k <= s.len(),
    ensures
        uses_valid(s) ==> uses_valid(s.take(k)),
    decreases s.len() - k,
{
    if k < s.len() {
        lemma_valid_prefix(s, k + 1);
        assert(s.take(k + 1).drop_last() =~= s.take(k));
    } else {
        assert(s.take(k) =~= s);
    }
}

impl MoveUse {
    /// Whether this use can be carried out, as `use_valid` says.
    pub fn is_valid(&self) -> (r: bool)
        ensures
            r == use_valid(*self),
        decreases *self, 0nat,
    {
        match self {
            MoveUse::Ailment(effect, chance) => {
                *chance <= 100 && match effect {
                    Some((_, AilmentLength::Temporary(min, max))) => *min <= *max,
                    _ => true,
                }
            },
            MoveUse::Chance(uses, _) => {
                assert(decreases_to!(*self => uses@));
                uses_are_valid(uses)
            },
            _ => true,
        }
    }
}

/// The health a drain heals the user by: `percent` percent of the damage,
/// rounded toward zero and kept within the `i16` range.
pub open spec fn drained(damage: Health, percent: i8) -> int {
    let n = damage * percent;
    let q = if n >= 0 { n / 100 } else { -((-n) / 100) };
    if q > i16::MAX { i16::MAX as int } else if q < i16::MIN { i16::MIN as int } else { q }
}

/// The health a drain heals the user by, as `drained` says.
pub fn drain_healing(damage: Health, percent: i8) -> (r: i16)
    ensures
        r == drained(damage, percent),
{
    let p: i32 = percent as i32;
    let d: i32 = damage as i32;
    assert(-128 * 65535 <= d * p <= 127 * 65535) by (nonlinear_arith)
        requires 0 <= d <= 65535, -128 <= p <= 127;
    let n: i32 = d * p;
    let q: i32 = if n >= 0 { n / 100 } else { -((-n) / 100) };
    if q > 32767 {
        32767
    } else if q < -32768 {
        -32768
    } else {
        q as i16
    }
}

/// The damage formula may be worked out on any pokemon and draws.
pub open spec fn formula_callable<D: Fn(&BattlePokemon, &BattlePokemon, DamageKind, bool, u8) -> DamageResult<Health>>(damage: D) -> bool {
    forall|u: &BattlePokemon, t: &BattlePokemon, k: DamageKind, c: bool, range: u8| #[trigger] damage.requires((u, t, k, c, range))
}

/// `d` is a result that the damage formula gives for user `up` and target
/// `tp`, with a drawn critical hit and (for a move with power) a damage roll
/// in `85..=100`; other kinds are worked out at a roll of 100.
pub open spec fn formula_gives<D: Fn(&BattlePokemon, &BattlePokemon, DamageKind, bool, u8) -> DamageResult<Health>>(
    damage: D,
    up: BattlePokemon,
    tp: BattlePokemon,
    kind: DamageKind,
    d: DamageResult<Health>,
) -> bool {
    exists|c: bool, range: u8| (if kind is Power { 85 <= range <= 100 } else { range == 100 })
        && #[trigger] damage.ensures((&up, &tp, kind, c, range), d)
}

/// What one use of a move may give, `out`, against target `target` (pokemon
/// `tp`) used by `user` (pokemon `up`): a damage result from the formula; an
/// ailment as `ailment_outcome` says; a damage result and, for the user, a heal
/// by the drained part of it; a stage change where it changes the stage; a
/// cancel for a flinch; and for a chance, nothing or what its uses give
/// (nothing at 0 percent, always its uses at 100 percent).
pub open spec fn use_gives<D: Fn(&BattlePokemon, &BattlePokemon, DamageKind, bool, u8) -> DamageResult<Health>>(
    u: MoveUse,
    user: TeamIndex,
    up: BattlePokemon,
    target: TeamIndex,
    tp: BattlePokemon,
    flinch: MoveCancelId,
    damage: D,
    out: Seq<Indexed<ActionResult>>,
) -> bool
    decreases u,
{
    match u {
        MoveUse::Damage(kind) => out.len() == 1 && out[0].0 == target
            && (out[0].1 matches ActionResult::Damage(d) && formula_gives(damage, up, tp, kind, d)),
        MoveUse::Ailment(effect, chance) => {
            ||| out.len() == 0 && ailment_outcome(tp, effect, chance, None)
            ||| out.len() == 1 && out[0].0 == target && ailment_outcome(tp, effect, chance, Some(out[0].1))
        },
        MoveUse::Drain(kind, percent) => out.len() == 2 && out[0].0 == target
            && (out[0].1 matches ActionResult::Damage(d) && formula_gives(damage, up, tp, kind, d)
                && out[1] == Indexed(user, ActionResult::Heal(drained(d.damage, percent) as i16))),
        MoveUse::Stat(stat, stage) => out == if stage_changed(tp.stages, stat, stage) != tp.stages {
            seq![Indexed(target, ActionResult::Stat(stat, stage))]
        } else {
            Seq::empty()
        },
        MoveUse::Flinch => out == seq![Indexed(target, ActionResult::Cancel(flinch))],
        MoveUse::Chance(uses, chance) => {
            &&& chance == 0 ==> out.len() == 0
            &&& chance >= 100 ==> uses_give(uses@, user, up, target, tp, flinch, damage, out)
            &&& out.len() == 0 || uses_give(uses@, user, up, target, tp, flinch, damage, out)
        },
    }
}

/// What a list of uses may give, one after the other.
pub open spec fn uses_give<D: Fn(&BattlePokemon, &BattlePokemon, DamageKind, bool, u8) -> DamageResult<Health>>(
    s: Seq<MoveUse>,
    user: TeamIndex,
    up: BattlePokemon,
    target: TeamIndex,
    tp: BattlePokemon,
    flinch: MoveCancelId,
    damage: D,
    out: Seq<Indexed<ActionResult>>,
) -> bool
    decreases s,
{
    if s.len() == 0 {
        out.len() == 0
    } else {
        exists|k: int| #![trigger out.take(k)] 0 <= k <= out.len()
            && uses_give(s.drop_last(), user, up, target, tp, flinch, damage, out.take(k))
            && use_gives(s.last(), user, up, target, tp, flinch, damage, out.skip(k))
    }
}

/// Work out a damage result: draw a critical hit at the move's rate and, for
/// a move with power, a damage roll, then apply the formula.
fn draw_damage<D: Fn(&BattlePokemon, &BattlePokemon, DamageKind, bool, u8) -> DamageResult<Health>>(
    up: &BattlePokemon,
    tp: &BattlePokemon,
    kind: DamageKind,
    m: &BattleMove,
    random: &mut rand::rngs::StdRng,
    damage: &D,
) -> (r: DamageResult<Health>)
    requires
        formula_callable(*damage),
    ensures
        formula_gives(*damage, *up, *tp, kind, r),
{
    let c = crit(random, m.crit_rate);
    let range = match kind {
        DamageKind::Power(_) => damage_range(random),
        _ => 100,
    };
    assert(damage.requires((up, tp, kind, c, range)));
    let r = damage(up, tp, kind, c, range);
    assert(damage.ensures((up, tp, kind, c, range), r));
    r
}

/// Carry out one use of a move against one target, adding what it gives to `results`.
fn use_once<D: Fn(&BattlePokemon, &BattlePokemon, DamageKind, bool, u8) -> DamageResult<Health>>(
    u: &MoveUse,
    user: TeamIndex,
    up: &BattlePokemon,
    target: TeamIndex,
    tp: &BattlePokemon,
    m: &BattleMove,
    flinch: MoveCancelId,
    random: &mut rand::rngs::StdRng,
    results: &mut Vec<Indexed<ActionResult>>,
    damage: &D,
)
    requires
        use_valid(*u),
        formula_callable(*damage),
    ensures
        final(results)@.len() >= old(results)@.len(),
        final(results)@.take(old(results)@.len() as int) == old(results)@,
        use_gives(*u, user, *up, target, *tp, flinch, *damage, final(results)@.skip(old(results)@.len() as int)),
    decreases *u, 0nat,
{
    let ghost r0 = results@;
    match u {
        MoveUse::Damage(kind) => {
            let d = draw_damage(up, tp, *kind, m, random, damage);
            results.push(Indexed(target, ActionResult::Damage(d)));
            assert(results@.skip(r0.len() as int) =~= seq![Indexed(target, ActionResult::Damage(d))]);
        },
        MoveUse::Ailment(effect, chance) => {
            let r = ailment_use(tp, *effect, *chance, random);
            if let Some(a) = r {
                results.push(Indexed(target, a));
                assert(results@.skip(r0.len() as int) =~= seq![Indexed(target, a)]);
            } else {
                assert(results@.skip(r0.len() as int) =~= Seq::<Indexed<ActionResult>>::empty());
            }
        },
        MoveUse::Drain(kind, percent) => {
            let d = draw_damage(up, tp, *kind, m, random, damage);
            let healing = drain_healing(d.damage, *percent);
            results.push(Indexed(target, ActionResult::Damage(d)));
            results.push(Indexed(user, ActionResult::Heal(healing)));
            assert(results@.skip(r0.len() as int) =~= seq![Indexed(target, ActionResult::Damage(d)), Indexed(user, ActionResult::Heal(healing))]);
        },
        MoveUse::Stat(stat, stage) => {
            if tp.stages.can_change(*stat, *stage) {
                results.push(Indexed(target, ActionResult::Stat(*stat, *stage)));
                assert(results@.skip(r0.len() as int) =~= seq![Indexed(target, ActionResult::Stat(*stat, *stage))]);
            } else {
                assert(results@.skip(r0.len() as int) =~= Seq::<Indexed<ActionResult>>::empty());
            }
        },
        MoveUse::Flinch => {
            results.push(Indexed(target, ActionResult::Cancel(flinch)));
            assert(results@.skip(r0.len() as int) =~= seq![Indexed(target, ActionResult::Cancel(flinch))]);
        },
        MoveUse::Chance(uses, chance) => {
            assert(decreases_to!(*u => uses@));
            if chance_roll(random, *chance) {
                move_usage(uses, user, up, target, tp, m, flinch, random, results, damage);
            } else {
                assert(results@.skip(r0.len() as int) =~= Seq::<Indexed<ActionResult>>::empty());
            }
        },
    }
    assert(results@.take(r0.len() as int) =~= r0);
}

/// What the uses of a move do to one target, added to `results` in order:
/// each use gives what `use_gives` says, with the damage formula `damage`
/// worked out on drawn critical hits and damage rolls.
pub fn move_usage<D: Fn(&BattlePokemon, &BattlePokemon, DamageKind, bool, u8) -> DamageResult<Health>>(
    uses: &Vec<MoveUse>,
    user: TeamIndex,
    up: &BattlePokemon,
    target: TeamIndex,
    tp: &BattlePokemon,
    m: &BattleMove,
    flinch: MoveCancelId,
    random: &mut rand::rngs::StdRng,
    results: &mut Vec<Indexed<ActionResult>>,
    damage: &D,
)
    requires
        uses_valid(uses@),
        formula_callable(*damage),
    ensures
        final(results)@.len() >= old(results)@.len(),
        final(results)@.take(old(results)@.len() as int) == old(results)@,
        uses_give(uses@, user, *up, target, *tp, flinch, *damage, final(results)@.skip(old(results)@.len() as int)),
    decreases uses@, 1nat,
{
    let ghost r0 = results@;
    let mut k: usize = 0;
    proof {
        assert(uses@.take(0) =~= Seq::<MoveUse>::empty());
        assert(results@.skip(r0.len() as int) =~= Seq::<Indexed<ActionResult>>::empty());
    }
    while k < uses.len()
        invariant
            k <= uses@.len(),
            uses_valid(uses@),
            formula_callable(*damage),
            results@.len() >= r0.len(),
            results@.take(r0.len() as int) == r0,
            uses_give(uses@.take(k as int), user, *up, target, *tp, flinch, *damage, results@.skip(r0.len() as int)),
        decreases uses@.len() - k,
    {
        proof {
            lemma_uses_valid_at(uses@, k as int);
        }
        let ghost before = results@;
        assert(decreases_to!(uses@ => uses@[k as int]));
        use_once(&uses[k], user, up, target, tp, m, flinch, random, results, damage);
        proof {
            let s = uses@.take(k + 1);
            let out = results@.skip(r0.len() as int);
            let split = before.len() - r0.len();
            assert(s.drop_last() =~= uses@.take(k as int));
            assert(s.last() == uses@[k as int]);
            assert(out.take(split) =~= before.skip(r0.len() as int));
            assert(out.skip(split) =~= results@.skip(before.len() as int));
            assert(results@.take(r0.len() as int) =~= before.take(r0.len() as int));
            assert(0 <= split <= out.len());
            assert(uses_give(s.drop_last(), user, *up, target, *tp, flinch, *damage, out.take(split)));
            assert(use_gives(s.last(), user, *up, target, *tp, flinch, *damage, out.skip(split)));
            lemma_uses_give_step(s, user, *up, target, *tp, flinch, *damage, out, split);
        }
        k = k + 1;
    }
    proof {
        assert(uses@.take(uses@.len() as int) =~= uses@);
    }
}

/// A list gives what its uses but the last give, followed by what the last gives.
proof fn lemma_uses_give_step<D: Fn(&BattlePokemon, &BattlePokemon, DamageKind, bool, u8) -> DamageResult<Health>>(
    s: Seq<MoveUse>,
    user: TeamIndex,
    up: BattlePokemon,
    target: TeamIndex,
    tp: BattlePokemon,
    flinch: MoveCancelId,
    damage: D,
    out: Seq<Indexed<ActionResult>>,
    j: int,
)
    requires
        s.len() > 0,
        0 <= j <= out.len(),
        uses_give(s.drop_last(), user, up, target, tp, flinch, damage, out.take(j)),
        use_gives(s.last(), user, up, target, tp, flinch, damage, out.skip(j)),
    ensures
        uses_give(s, user, up, target, tp, flinch, damage, out),
{
}

/// Each use of a valid list is valid.
proof fn lemma_uses_valid_at(s: Seq<MoveUse>, k: int)
    requires
        uses_valid(s),
        0 <= k < s.len(),
    ensures
        use_valid(s[k]),
    decreases s.len(),
{
    if k < s.len() - 1 {
        assert(s.drop_last()[k] == s[k]);
        lemma_uses_valid_at(s.drop_last(), k);
    }
}

/// Every result that a use gives is one the engine carries out.
proof fn lemma_use_supported<D: Fn(&BattlePokemon, &BattlePokemon, DamageKind, bool, u8) -> DamageResult<Health>>(
    u: MoveUse,
    user: TeamIndex,
    up: BattlePokemon,
    target: TeamIndex,
    tp: BattlePokemon,
    flinch: MoveCancelId,
    damage: D,
    out: Seq<Indexed<ActionResult>>,
)
    requires
        use_gives(u, user, up, target, tp, flinch, damage, out),
    ensures
        forall|k: int| 0 <= k < out.len() ==> supported(#[trigger] out[k].1),
    decreases u, 0nat,
{
    match u {
        MoveUse::Chance(uses, _) => {
            if out.len() > 0 {
                assert(decreases_to!(u => uses@));
                lemma_uses_supported(uses@, user, up, target, tp, flinch, damage, out);
            }
        },
        MoveUse::Stat(stat, stage) => {},
        MoveUse::Flinch => {},
        _ => {},
    }
}

/// Every result that a list of uses gives is one the engine carries out.
proof fn lemma_uses_supported<D: Fn(&BattlePokemon, &BattlePokemon, DamageKind, bool, u8) -> DamageResult<Health>>(
    s: Seq<MoveUse>,
    user: TeamIndex,
    up: BattlePokemon,
    target: TeamIndex,
    tp: BattlePokemon,
    flinch: MoveCancelId,
    damage: D,
    out: Seq<Indexed<ActionResult>>,
)
    requires
        uses_give(s, user, up, target, tp, flinch, damage, out),
    ensures
        forall|k: int| 0 <= k < out.len() ==> supported(#[trigger] out[k].1),
    decreases s, 1nat,
{
    if s.len() > 0 {
        let k = choose|k: int| #![trigger out.take(k)] 0 <= k <= out.len()
            && uses_give(s.drop_last(), user, up, target, tp, flinch, damage, out.take(k))
            && use_gives(s.last(), user, up, target, tp, flinch, damage, out.skip(k));
        assert(decreases_to!(s => s[s.len() - 1]));
        lemma_use_supported(s.last(), user, up, target, tp, flinch, damage, out.skip(k));
        lemma_uses_supported(s.drop_last(), user, up, target, tp, flinch, damage, out.take(k));
        assert forall|j: int| 0 <= j < out.len() implies supported(#[trigger] out[j].1) by {
            if j < k {
                assert(out.take(k)[j] == out[j]);
            } else {
                assert(out.skip(k)[j - k] == out[j]);
            }
        }
    }
}

/// Why carrying out a move stopped: a target or the user was not in battle
/// when its turn came, or a heal would have carried a pokemon's health past the
/// largest `u16`.
#[derive(Debug, Clone, Copy, PartialEq, Eq, Structural)]
pub enum ExecuteFault {
    MissingTarget,
    MissingUser,
    HealOverflow,
}

/// Applying `results` in order to the players `before` and the told actions
/// `told0` gives `after` and `told1`, each heal fitting its target's health.
pub open spec fn applied(
    before: Seq<BattlePlayer>,
    results: Seq<Indexed<ActionResult>>,
    told0: Seq<Indexed<PublicAction>>,
    after: Seq<BattlePlayer>,
    told1: Seq<Indexed<PublicAction>>,
) -> bool
    decreases results.len(),
{
    if results.len() == 0 {
        after == before && told1 == told0
    } else {
        let last = results.last();
        exists|mid: Seq<BattlePlayer>, mtold: Seq<Indexed<PublicAction>>|
            #![trigger ran(mid, last.0, last.1, mtold, after, told1)]
            applied(before, results.drop_last(), told0, mid, mtold) && heal_ok(mid, last.0, last.1)
                && ran(mid, last.0, last.1, mtold, after, told1)
    }
}

/// Applying `results` stops at a heal that does not fit its target's health,
/// with the players and the told actions at `after` and `told1`.
pub open spec fn applied_until_overflow(
    before: Seq<BattlePlayer>,
    results: Seq<Indexed<ActionResult>>,
    told0: Seq<Indexed<PublicAction>>,
    after: Seq<BattlePlayer>,
    told1: Seq<Indexed<PublicAction>>,
) -> bool {
    exists|k: int| #![trigger results.take(k)] 0 <= k < results.len()
        && applied(before, results.take(k), told0, after, told1) && !heal_ok(after, results[k].0, results[k].1)
}

/// The user's move against target `t`, from `before`/`told0` to
/// `after`/`told1`: the target is in battle, and the move either missed (the
/// user is told so) or hit, and the results its uses give were applied.
pub open spec fn target_done<D: Fn(&BattlePokemon, &BattlePokemon, DamageKind, bool, u8) -> DamageResult<Health>>(
    before: Seq<BattlePlayer>,
    t: TeamIndex,
    user: TeamIndex,
    m: BattleMove,
    uses: Seq<MoveUse>,
    flinch: MoveCancelId,
    damage: D,
    told0: Seq<Indexed<PublicAction>>,
    after: Seq<BattlePlayer>,
    told1: Seq<Indexed<PublicAction>>,
) -> bool {
    &&& in_battle(before, t)
    &&& {
        ||| (exists|roll: u8| roll < 100 && !lands(m.accuracy, roll)) && after == before
            && told1 == told0.push(Indexed(user, PublicAction::Miss))
        ||| in_battle(before, user) && exists|results: Seq<Indexed<ActionResult>>|
            #![trigger applied(before, results, told0, after, told1)]
            uses_give(uses, user, pokemon_at(before, user), t, pokemon_at(before, t), flinch, damage, results)
                && applied(before, results, told0, after, told1)
    }
}

/// The user's move stopped at target `t` for `fault`, with the players and
/// the told actions at `after` and `told1`.
pub open spec fn target_failed<D: Fn(&BattlePokemon, &BattlePokemon, DamageKind, bool, u8) -> DamageResult<Health>>(
    before: Seq<BattlePlayer>,
    t: TeamIndex,
    user: TeamIndex,
    m: BattleMove,
    uses: Seq<MoveUse>,
    flinch: MoveCancelId,
    damage: D,
    told0: Seq<Indexed<PublicAction>>,
    after: Seq<BattlePlayer>,
    told1: Seq<Indexed<PublicAction>>,
    fault: ExecuteFault,
) -> bool {
    match fault {
        ExecuteFault::MissingTarget => !in_battle(before, t) && after == before && told1 == told0,
        ExecuteFault::MissingUser => in_battle(before, t) && !in_battle(before, user) && after == before && told1 == told0,
        ExecuteFault::HealOverflow => in_battle(before, t) && in_battle(before, user)
            && exists|results: Seq<Indexed<ActionResult>>| #![trigger applied_until_overflow(before, results, told0, after, told1)]
                uses_give(uses, user, pokemon_at(before, user), t, pokemon_at(before, t), flinch, damage, results)
                    && applied_until_overflow(before, results, told0, after, told1),
    }
}

/// The user's move against `targets` in order, from `before` (with nothing
/// told) to `after`/`told1`.
pub open spec fn targets_done<D: Fn(&BattlePokemon, &BattlePokemon, DamageKind, bool, u8) -> DamageResult<Health>>(
    before: Seq<BattlePlayer>,
    targets: Seq<TeamIndex>,
    user: TeamIndex,
    m: BattleMove,
    uses: Seq<MoveUse>,
    flinch: MoveCancelId,
    damage: D,
    after: Seq<BattlePlayer>,
    told1: Seq<Indexed<PublicAction>>,
) -> bool
    decreases targets.len(),
{
    if targets.len() == 0 {
        after == before && told1 == Seq::<Indexed<PublicAction>>::empty()
    } else {
        exists|mid: Seq<BattlePlayer>, mtold: Seq<Indexed<PublicAction>>|
            #![trigger target_done(mid, targets.last(), user, m, uses, flinch, damage, mtold, after, told1)]
            targets_done(before, targets.drop_last(), user, m, uses, flinch, damage, mid, mtold)
                && target_done(mid, targets.last(), user, m, uses, flinch, damage, mtold, after, told1)
    }
}

/// The user's move went through the first `k` of `targets` and stopped at
/// the next for `fault`.
pub open spec fn targets_failed<D: Fn(&BattlePokemon, &BattlePokemon, DamageKind, bool, u8) -> DamageResult<Health>>(
    before: Seq<BattlePlayer>,
    targets: Seq<TeamIndex>,
    user: TeamIndex,
    m: BattleMove,
    uses: Seq<MoveUse>,
    flinch: MoveCancelId,
    damage: D,
    after: Seq<BattlePlayer>,
    fault: ExecuteFault,
) -> bool {
    exists|k: int, mid: Seq<BattlePlayer>, mtold: Seq<Indexed<PublicAction>>, told1: Seq<Indexed<PublicAction>>|
        #![trigger target_failed(mid, targets[k], user, m, uses, flinch, damage, mtold, after, told1, fault)]
        0 <= k < targets.len() && targets_done(before, targets.take(k), user, m, uses, flinch, damage, mid, mtold)
            && target_failed(mid, targets[k], user, m, uses, flinch, damage, mtold, after, told1, fault)
}

/// Carry out a move whose uses are `uses`, by `user`, aimed at `targeting`:
/// against each target that `create_targets` picks, in order, the move is
/// thrown; a miss is told to the user, a hit gives the results of its uses
/// (`move_usage`, with the damage formula `damage`), which are applied in
/// order. It stops with a fault where a target or the user is not in battle
/// when its turn comes, or where a heal would overflow a pokemon's health.
#[verifier::loop_isolation(false)]
pub fn execute_uses<D: Fn(&BattlePokemon, &BattlePokemon, DamageKind, bool, u8) -> DamageResult<Health>>(
    m: &BattleMove,
    uses: &Vec<MoveUse>,
    user: TeamIndex,
    targeting: Option<TeamIndex>,
    flinch: MoveCancelId,
    data: &BattleData,
    players: &mut PlayerQuery,
    random: &mut rand::rngs::StdRng,
    damage: &D,
) -> (r: Result<Vec<Indexed<PublicAction>>, ExecuteFault>)
    requires
        uses_valid(uses@),
        formula_callable(*damage),
    ensures
        exists|targets: Seq<TeamIndex>| #[trigger] targets_of(old(players).0@, user, m.target, m.category, targeting, targets)
            && match r {
                Ok(told) => targets_done(old(players).0@, targets, user, *m, uses@, flinch, *damage, final(players).0@, told@),
                Err(fault) => targets_failed(old(players).0@, targets, user, *m, uses@, flinch, *damage, final(players).0@, fault),
            },
{
    let ghost p0 = players.0@;
    let targets = create_targets(players, user, m, targeting, random);
    let mut told: Vec<Indexed<PublicAction>> = Vec::new();
    let mut k: usize = 0;
    proof {
        assert(targets@.take(0) =~= Seq::<TeamIndex>::empty());
    }
    while k < targets.len()
        invariant
            k <= targets@.len(),
            targets_of(p0, user, m.target, m.category, targeting, targets@),
            uses_valid(uses@),
            formula_callable(*damage),
            targets_done(p0, targets@.take(k as int), user, *m, uses@, flinch, *damage, players.0@, told@),
        decreases targets@.len() - k,
    {
        let t = targets[k];
        let ghost before = players.0@;
        let ghost told0 = told@;
        proof {
            assert(targets@.take(k + 1).drop_last() =~= targets@.take(k as int));
            assert(targets@.take(k + 1).last() == t);
        }
        let hit: Option<Vec<Indexed<ActionResult>>> = match pokemon_in_battle(players, t) {
            None => {
                proof {
                    assert(target_failed(before, targets@[k as int], user, *m, uses@, flinch, *damage, told0, players.0@, told@, ExecuteFault::MissingTarget));
                    assert(targets_failed(p0, targets@, user, *m, uses@, flinch, *damage, players.0@, ExecuteFault::MissingTarget));
                }
                return Err(ExecuteFault::MissingTarget);
            },
            Some(tp) => {
                if throw_move(random, m.accuracy) {
                    match pokemon_in_battle(players, user) {
                        None => {
                            proof {
                                assert(target_failed(before, targets@[k as int], user, *m, uses@, flinch, *damage, told0, players.0@, told@, ExecuteFault::MissingUser));
                                assert(targets_failed(p0, targets@, user, *m, uses@, flinch, *damage, players.0@, ExecuteFault::MissingUser));
                            }
                            return Err(ExecuteFault::MissingUser);
                        },
                        Some(up) => {
                            let mut found: Vec<Indexed<ActionResult>> = Vec::new();
                            move_usage(uses, user, up, t, tp, m, flinch, random, &mut found, damage);
                            assert(found@.skip(0) =~= found@);
                            Some(found)
                        },
                    }
                } else {
                    None
                }
            },
        };
        match hit {
            None => {
                told.push(Indexed(user, PublicAction::Miss));
                proof {
                    assert(target_done(before, t, user, *m, uses@, flinch, *damage, told0, players.0@, told@));
                }
            },
            Some(found) => {
                let ghost results = found@;
                proof {
                    lemma_uses_supported(uses@, user, pokemon_at(before, user), t, pokemon_at(before, t), flinch, *damage, results);
                    assert(results.take(0) =~= Seq::<Indexed<ActionResult>>::empty());
                }
                let mut j: usize = 0;
                while j < found.len()
                    invariant
                        j <= found@.len(),
                        results == found@,
                        forall|x: int| 0 <= x < results.len() ==> supported(#[trigger] results[x].1),
                        applied(before, results.take(j as int), told0, players.0@, told@),
                    decreases found@.len() - j,
                {
                    let Indexed(slot, action) = found[j];
                    let ghost mid = players.0@;
                    let ghost mtold = told@;
                    proof {
                        assert(results.take(j + 1).drop_last() =~= results.take(j as int));
                        assert(results.take(j + 1).last() == results[j as int]);
                    }
                    if !heal_fits_in(players, slot, action) {
                        proof {
                            assert(applied_until_overflow(before, results, told0, players.0@, told@));
                            assert(target_failed(before, targets@[k as int], user, *m, uses@, flinch, *damage, told0, players.0@, told@, ExecuteFault::HealOverflow));
                            assert(targets_failed(p0, targets@, user, *m, uses@, flinch, *damage, players.0@, ExecuteFault::HealOverflow));
                        }
                        return Err(ExecuteFault::HealOverflow);
                    }
                    assert(supported(results[j as int].1));
                    run_action(slot, action, data, &mut told, players);
                    proof {
                        assert(ran(mid, slot, action, mtold, players.0@, told@));
                        assert(applied(before, results.take(j + 1), told0, players.0@, told@));
                    }
                    j = j + 1;
                }
                proof {
                    assert(results.take(results.len() as int) =~= results);
                    assert(target_done(before, t, user, *m, uses@, flinch, *damage, told0, players.0@, told@));
                }
            },
        }
        proof {
            assert(targets_done(p0, targets@.take(k + 1), user, *m, uses@, flinch, *damage, players.0@, told@));
        }
        k = k + 1;
    }
    proof {
        assert(targets@.take(targets@.len() as int) =~= targets@);
    }
    Ok(told)
}


/// Every result of a use of a move goes to the target, but a heal, which goes
/// to the user; an ailment never replaces one the target already has.
pub proof fn lemma_use_results_addressed<D: Fn(&BattlePokemon, &BattlePokemon, DamageKind, bool, u8) -> DamageResult<Health>>(
    u: MoveUse,
    user: TeamIndex,
    up: BattlePokemon,
    target: TeamIndex,
    tp: BattlePokemon,
    flinch: MoveCancelId,
    damage: D,
    out: Seq<Indexed<ActionResult>>,
)
    requires
        use_gives(u, user, up, target, tp, flinch, damage, out),
    ensures
        forall|k: int| 0 <= k < out.len() ==> {
            ||| (#[trigger] out[k]).0 == target && !(out[k].1 is Heal)
            ||| out[k].0 == user && out[k].1 is Heal
        },
        forall|k: int| 0 <= k < out.len() && tp.ailment is Some && (#[trigger] out[k]).1 is Ailment ==> out[k].1 == ActionResult::Ailment(None),
    decreases u, 0nat,
{
    match u {
        MoveUse::Chance(uses, _) => {
            if out.len() > 0 {
                assert(decreases_to!(u => uses@));
                lemma_uses_results_addressed(uses@, user, up, target, tp, flinch, damage, out);
            }
        },
        MoveUse::Ailment(effect, chance) => {
            if out.len() == 1 {
                assert(ailment_outcome(tp, effect, chance, Some(out[0].1)));
            }
        },
        _ => {},
    }
}

/// Every result of a list of uses goes to the target, but a heal, which goes
/// to the user; an ailment never replaces one the target already has.
pub proof fn lemma_uses_results_addressed<D: Fn(&BattlePokemon, &BattlePokemon, DamageKind, bool, u8) -> DamageResult<Health>>(
    s: Seq<MoveUse>,
    user: TeamIndex,
    up: BattlePokemon,
    target: TeamIndex,
    tp: BattlePokemon,
    flinch: MoveCancelId,
    damage: D,
    out: Seq<Indexed<ActionResult>>,
)
    requires
        uses_give(s, user, up, target, tp, flinch, damage, out),
    ensures
        forall|k: int| 0 <= k < out.len() ==> {
            ||| (#[trigger] out[k]).0 == target && !(out[k].1 is Heal)
            ||| out[k].0 == user && out[k].1 is Heal
        },
        forall|k: int| 0 <= k < out.len() && tp.ailment is Some && (#[trigger] out[k]).1 is Ailment ==> out[k].1 == ActionResult::Ailment(None),
    decreases s, 1nat,
{
    if s.len() > 0 {
        let k = choose|k: int| #![trigger out.take(k)] 0 <= k <= out.len()
            && uses_give(s.drop_last(), user, up, target, tp, flinch, damage, out.take(k))
            && use_gives(s.last(), user, up, target, tp, flinch, damage, out.skip(k));
        assert(decreases_to!(s => s[s.len() - 1]));
        lemma_use_results_addressed(s.last(), user, up, target, tp, flinch, damage, out.skip(k));
        lemma_uses_results_addressed(s.drop_last(), user, up, target, tp, flinch, damage, out.take(k));
        assert forall|j: int| 0 <= j < out.len() implies {
            ||| (#[trigger] out[j]).0 == target && !(out[j].1 is Heal)
            ||| out[j].0 == user && out[j].1 is Heal
        } && (tp.ailment is Some && out[j].1 is Ailment ==> out[j].1 == ActionResult::Ailment(None)) by {
            if j < k {
                assert(out.take(k)[j] == out[j]);
            } else {
                assert(out.skip(k)[j - k] == out[j]);
            }
        }
    }
}

/// What a drain heals the user by has the sign of its percentage and is no
/// more than that percentage of the damage: a drain never hurts its user for
/// a positive percentage, nor heals it more than the damage allows.
pub proof fn lemma_drain_bounded(damage: Health, percent: i8)
    ensures
        percent >= 0 ==> 0 <= drained(damage, percent) && 100 * drained(damage, percent) <= damage * percent,
        percent < 0 ==> drained(damage, percent) <= 0 && 100 * drained(damage, percent) >= damage * percent,
        percent == 100 ==> drained(damage, percent) == (if damage > i16::MAX { i16::MAX as int } else { damage as int }),
{
    assert(0 <= damage * percent <= 65535 * 127 || percent < 0) by (nonlinear_arith)
        requires 0 <= damage <= 65535, -128 <= percent <= 127;
    assert(percent < 0 ==> -65535 * 128 <= damage * percent <= 0) by (nonlinear_arith)
        requires 0 <= damage <= 65535, -128 <= percent <= 127;
}

} // verus!
