//! The default battle engine: checking selections and applying the results of actions.

use vstd::prelude::*;

use crate::data::BattleData;
use crate::moves::{move_id_eq, ClientDamage, DamageResult, Health};
use crate::player::{bag_contains, bag_items, first_in_play, BattlePlayer, PlayerQuery};
use crate::pokemon::{stage_changed, Ailment, BattlePokemon, LiveAilment, OwnedMove};
use crate::random::gen_ratio;
use crate::scripting::{drawable, lasts, AilmentLength};
use crate::select::{
    BattleSelection, BattleStatType, HpRatio, Indexed, MoveCancelId, PublicAction, SelectConfirm, SelectMessage,
    SelectReason, Stage, TeamIndex,
};

verus! {

/// What an action does to its target.
#[derive(Debug, Clone, Copy)]
pub enum ActionResult {
    Damage(DamageResult<Health>),
    /// Heal (or, when negative, hurt) by an amount of health.
    Heal(i16),
    Ailment(Option<LiveAilment>),
    Stat(BattleStatType, Stage),
    /// Partial reveal = false, full reveal = true.
    Reveal(bool),
    Cancel(MoveCancelId),
    Remove(MoveCancelId),
    Fail,
    Miss,
}

/// An error of the default engine.
#[derive(Debug)]
pub enum DefaultError<S> {
    Script(S),
    Unknown,
    NoTarget,
    NoExecution,
    Unimplemented,
}

/// The error of an engine without scripting.
#[derive(Debug, Clone, Copy, PartialEq, Eq, Structural)]
pub enum NoScriptError {
    NoScriptEngine,
}

/// The scripting engine that runs no scripts.
#[derive(Debug, Clone, Copy)]
pub struct DefaultScriptEngine;

/// The error of the scripting engine that runs no scripts.
#[derive(Debug, Clone, Copy, PartialEq, Eq, Structural)]
pub struct DefaultScriptError;

impl DefaultScriptEngine {
    /// A move script cannot run here.
    pub fn execute_move(&self) -> (r: Result<Vec<Indexed<PublicAction>>, DefaultScriptError>)
        ensures
            r is Err,
    {
        Err(DefaultScriptError)
    }

    /// An item script cannot run here.
    pub fn execute_item(&self) -> (r: Result<Vec<Indexed<PublicAction>>, DefaultScriptError>)
        ensures
            r is Err,
    {
        Err(DefaultScriptError)
    }
}

/// The health part a pokemon is at.
pub open spec fn ratio(p: BattlePokemon) -> HpRatio {
    HpRatio { hp: p.hp, max_hp: p.max_hp }
}

/// The size of a heal.
pub open spec fn heal_amount(h: i16) -> int {
    if h < 0 { -h } else { h as int }
}

/// The health an action heals.
pub open spec fn healed(p: BattlePokemon, h: i16) -> int {
    if heal_amount(h) < p.max_hp { heal_amount(h) } else { p.max_hp as int }
}

/// A heal does not carry the health past the largest `u16`.
pub open spec fn heal_fits(p: BattlePokemon, action: ActionResult) -> bool {
    match action {
        ActionResult::Heal(h) => h > 0 ==> p.hp + healed(p, h) <= u16::MAX,
        _ => true,
    }
}

/// A pokemon after an action hits it.
pub open spec fn after_action(p: BattlePokemon, action: ActionResult) -> BattlePokemon {
    match action {
        ActionResult::Damage(d) => BattlePokemon { hp: if p.hp > d.damage { (p.hp - d.damage) as u16 } else { 0 }, ..p },
        ActionResult::Ailment(a) => BattlePokemon { ailment: a, ..p },
        ActionResult::Stat(stat, change) => BattlePokemon { stages: stage_changed(p.stages, stat, change), ..p },
        ActionResult::Heal(h) => if h > 0 {
            BattlePokemon { hp: (p.hp + healed(p, h)) as u16, ..p }
        } else {
            BattlePokemon { hp: if p.hp > heal_amount(h) { (p.hp - heal_amount(h)) as u16 } else { 0 }, ..p }
        },
        _ => p,
    }
}

/// What the players are told of an action, given the pokemon after it.
pub open spec fn told(after: BattlePokemon, action: ActionResult) -> Option<PublicAction> {
    match action {
        ActionResult::Damage(d) => Some(PublicAction::SetHP(ClientDamage::Result(
            DamageResult { damage: ratio(after), effective: d.effective, crit: d.crit },
        ))),
        ActionResult::Ailment(a) => Some(PublicAction::Ailment(a)),
        ActionResult::Heal(_) => Some(PublicAction::SetHP(ClientDamage::Number(ratio(after)))),
        ActionResult::Stat(s, st) => Some(PublicAction::AddStat(s, st)),
        ActionResult::Cancel(reason) => Some(PublicAction::Cancel(reason)),
        ActionResult::Miss => Some(PublicAction::Miss),
        _ => None,
    }
}

/// Actions that the engine carries out (revealing, removing and failing are not done yet).
pub open spec fn supported(action: ActionResult) -> bool {
    !(action is Reveal || action is Remove || action is Fail)
}

/// The party position of the pokemon at a team slot, for the first player in play of that team.
pub open spec fn target_of(players: Seq<BattlePlayer>, target: TeamIndex, i: int, pos: usize) -> bool {
    &&& first_in_play(players, target.0, i)
    &&& players[i].party.index_of(target.1 as int) == Some(pos)
    &&& pos < players[i].party.pokemon@.len()
}

/// Where the first player in play of team `t.0` stands, and the party
/// position of its pokemon in active slot `t.1`, when there is one.
pub open spec fn place_of(players: Seq<BattlePlayer>, t: TeamIndex) -> (int, usize) {
    choose|i: int, pos: usize| target_of(players, t, i, pos)
}

/// The pokemon at team slot `t` is in battle: the first player in play of the
/// team has a pokemon of its party standing in that slot.
pub open spec fn in_battle(players: Seq<BattlePlayer>, t: TeamIndex) -> bool {
    exists|i: int, pos: usize| target_of(players, t, i, pos)
}

/// The pokemon in battle at team slot `t`.
pub open spec fn pokemon_at(players: Seq<BattlePlayer>, t: TeamIndex) -> BattlePokemon {
    players[place_of(players, t).0].party.pokemon@[place_of(players, t).1 as int]
}

/// The result `action` for team slot `t` fits the health of its target, if
/// there is one.
pub open spec fn heal_ok(players: Seq<BattlePlayer>, t: TeamIndex, action: ActionResult) -> bool {
    forall|i: int, pos: usize| target_of(players, t, i, pos) ==> heal_fits(players[i].party.pokemon@[pos as int], action)
}

/// The players `after` and the told actions `told` are what applying result
/// `action` to team slot `t` makes of `before` and `told0`: the pokemon there
/// changes as `after_action` says and is taken out of battle if it fainted,
/// the players are told as `told` says; with no pokemon there nothing changes.
pub open spec fn ran(
    before: Seq<BattlePlayer>,
    t: TeamIndex,
    action: ActionResult,
    told0: Seq<Indexed<PublicAction>>,
    after: Seq<BattlePlayer>,
    told1: Seq<Indexed<PublicAction>>,
) -> bool {
    &&& after.len() == before.len()
    &&& (forall|i: int, pos: usize| !target_of(before, t, i, pos)) ==> after == before && told1 == told0
    &&& forall|i: int, pos: usize| target_of(before, t, i, pos) ==> ({
        let b = before[i];
        let after_p = after_action(b.party.pokemon@[pos as int], action);
        let a = after[i];
        &&& a.party.pokemon@ == b.party.pokemon@.update(pos as int, after_p)
        &&& a.party.id == b.party.id
        &&& a.party.name == b.party.name
        &&& a.removed == b.removed
        &&& a.ready == b.ready
        &&& a.settings == b.settings
        &&& a.bag == b.bag
        &&& a.party.active@ == if after_p.hp == 0 {
            b.party.active@.update(t.1 as int, None)
        } else {
            b.party.active@
        }
        &&& forall|j: int| 0 <= j < before.len() && j != i ==> after[j] == before[j]
        &&& told1 == match told(after_p, action) {
            Some(x) => told0.push(Indexed(t, x)),
            None => told0,
        }
    })
}

/// The pokemon in battle at team slot `t`, if there is one.
pub fn pokemon_in_battle(players: &PlayerQuery, t: TeamIndex) -> (r: Option<&BattlePokemon>)
    ensures
        r is Some <==> in_battle(players.0@, t),
        r matches Some(p) ==> *p == pokemon_at(players.0@, t),
{
    let ghost p0 = players.0@;
    match players.position(t.0) {
        Some(i) => match players.0[i].party.index(t.1) {
            Some(pos) => {
                if pos < players.0[i].party.pokemon.len() {
                    proof {
                        assert(target_of(p0, t, i as int, pos));
                        let (i2, pos2) = place_of(p0, t);
                        crate::target::lemma_first_in_play_unique(p0, t.0, i as int, i2);
                    }
                    Some(&players.0[i].party.pokemon[pos])
                } else {
                    proof {
                        assert forall|i2: int, pos2: usize| !target_of(p0, t, i2, pos2) by {
                            if target_of(p0, t, i2, pos2) {
                                crate::target::lemma_first_in_play_unique(p0, t.0, i as int, i2);
                            }
                        }
                    }
                    None
                }
            },
            None => {
                proof {
                    assert forall|i2: int, pos2: usize| !target_of(p0, t, i2, pos2) by {
                        if target_of(p0, t, i2, pos2) {
                            crate::target::lemma_first_in_play_unique(p0, t.0, i as int, i2);
                        }
                    }
                }
                None
            },
        },
        None => {
            proof {
                assert forall|i2: int, pos2: usize| !target_of(p0, t, i2, pos2) by {
                    if 0 <= i2 < p0.len() {
                        assert(!(crate::player::in_play(p0[i2]) && p0[i2].party.id == t.0));
                    }
                }
            }
            None
        },
    }
}

/// Whether result `action` for team slot `t` fits the health of its target.
pub fn heal_fits_in(players: &PlayerQuery, t: TeamIndex, action: ActionResult) -> (r: bool)
    ensures
        r == heal_ok(players.0@, t, action),
{
    let ghost p0 = players.0@;
    match pokemon_in_battle(players, t) {
        Some(p) => {
            proof {
                let (i, pos) = place_of(p0, t);
                assert forall|i2: int, pos2: usize| target_of(p0, t, i2, pos2) implies i2 == i && pos2 == pos by {
                    crate::target::lemma_first_in_play_unique(p0, t.0, i, i2);
                }
            }
            match action {
                ActionResult::Heal(h) => {
                    if h > 0 {
                        let amount: u32 = h as u32;
                        let add: u32 = if amount < p.max_hp as u32 { amount } else { p.max_hp as u32 };
                        p.hp as u32 + add <= 65535
                    } else {
                        true
                    }
                },
                _ => true,
            }
        },
        None => true,
    }
}

/// Apply the result of an action to its target: change its health, its
/// ailment or a stat stage, tell the players, and take it out of battle if it fainted.
pub fn run_action(
    target: TeamIndex,
    action: ActionResult,
    data: &BattleData,
    actions: &mut Vec<Indexed<PublicAction>>,
    players: &mut PlayerQuery,
)
    requires
        supported(action),
        forall|i: int, pos: usize| target_of(old(players).0@, target, i, pos) ==> ({
            let p = old(players).0@[i].party.pokemon@[pos as int];
            heal_fits(p, action)
        }),
    ensures
        ran(old(players).0@, target, action, old(actions)@, final(players).0@, final(actions)@),
{
    let ghost p0 = players.0@;
    let i = match players.position(target.0) {
        Some(i) => i,
        None => {
            proof {
                assert forall|i: int, pos: usize| !target_of(p0, target, i, pos) by {
                    if 0 <= i < p0.len() {
                        assert(!(crate::player::in_play(p0[i]) && p0[i].party.id == target.0));
                    }
                }
            }
            return;
        },
    };
    let pos = match players.0[i].party.index(target.1) {
        Some(pos) => pos,
        None => {
            proof {
                assert forall|i2: int, pos2: usize| !target_of(p0, target, i2, pos2) by {
                    if target_of(p0, target, i2, pos2) {
                        crate::target::lemma_first_in_play_unique(p0, target.0, i as int, i2);
                    }
                }
            }
            return;
        },
    };
    if pos >= players.0[i].party.pokemon.len() {
        proof {
            assert forall|i2: int, pos2: usize| !target_of(p0, target, i2, pos2) by {
                if target_of(p0, target, i2, pos2) {
                    crate::target::lemma_first_in_play_unique(p0, target.0, i as int, i2);
                }
            }
        }
        return;
    }
    proof {
        assert(target_of(p0, target, i as int, pos));
        assert forall|i2: int, pos2: usize| target_of(p0, target, i2, pos2) implies i2 == i && pos2 == pos by {
            crate::target::lemma_first_in_play_unique(p0, target.0, i as int, i2);
        }
    }
    let player = &mut players.0[i];
    let pokemon = &mut player.party.pokemon[pos];
    let ghost before_p = *pokemon;
    let public = match action {
        ActionResult::Damage(result) => {
            pokemon.hp = pokemon.hp.saturating_sub(result.damage);
            Some(PublicAction::SetHP(ClientDamage::Result(DamageResult {
                damage: HpRatio { hp: pokemon.hp, max_hp: pokemon.max_hp },
                effective: result.effective,
                crit: result.crit,
            })))
        },
        ActionResult::Ailment(ailment) => {
            pokemon.ailment = ailment;
            Some(PublicAction::Ailment(ailment))
        },
        ActionResult::Heal(health) => {
            let amount: u16 = if health < 0 { (-(health as i32)) as u16 } else { health as u16 };
            if health > 0 {
                let add = if amount < pokemon.max_hp { amount } else { pokemon.max_hp };
                pokemon.hp = pokemon.hp + add;
            } else {
                pokemon.hp = pokemon.hp.saturating_sub(amount);
            }
            Some(PublicAction::SetHP(ClientDamage::Number(HpRatio { hp: pokemon.hp, max_hp: pokemon.max_hp })))
        },
        ActionResult::Stat(stat, stage) => {
            pokemon.stages.change_stage(stat, stage);
            Some(PublicAction::AddStat(stat, stage))
        },
        ActionResult::Cancel(reason) => Some(PublicAction::Cancel(reason)),
        ActionResult::Miss => Some(PublicAction::Miss),
        _ => None,
    };
    let fainted = pokemon.fainted();
    assert(*pokemon == after_action(before_p, action));
    if let Some(public) = public {
        actions.push(Indexed(target, public));
    }
    if fainted {
        player.party.remove_active(target.1);
    }
    proof {
        let after_p = after_action(before_p, action);
        assert(players.0@[i as int].party.active@ =~= if after_p.hp == 0 {
            p0[i as int].party.active@.update(target.1 as int, None)
        } else {
            p0[i as int].party.active@
        });
    }
}

/// The first place at or after `k` where the moves list holds the move `id`.
pub open spec fn find_move(moves: Seq<crate::pokemon::OwnedMove>, id: firecore_pokedex::moves::MoveId, k: int) -> Option<int>
    decreases moves.len() - k,
{
    if k < 0 || k >= moves.len() {
        None
    } else if moves[k].id == id {
        Some(k)
    } else {
        find_move(moves, id, k + 1)
    }
}

/// The answer of the default engine to a move or item selection.
pub open spec fn select_answer(active: usize, selection: BattleSelection, player: BattlePlayer, r: SelectMessage) -> bool {
    match selection {
        BattleSelection::Move(id, _) => match player.party.index_of(active as int) {
            Some(pos) => if pos < player.party.pokemon@.len() {
                let moves = player.party.pokemon@[pos as int].moves@;
                match find_move(moves, id, 0) {
                    Some(k) => if moves[k].pp == 0 {
                        r matches SelectMessage::Request(Some(SelectReason::NoPP))
                    } else {
                        r matches SelectMessage::Confirm(SelectConfirm::Move(mid, 1)) && mid == id
                    },
                    None => r matches SelectMessage::Request(Some(SelectReason::MissingAction)),
                }
            } else {
                r matches SelectMessage::Confirm(SelectConfirm::Other)
            },
            None => r matches SelectMessage::Confirm(SelectConfirm::Other),
        },
        BattleSelection::Item(Indexed(_, item)) => if bag_items(player.bag).contains(item) {
            r matches SelectMessage::Confirm(SelectConfirm::Other)
        } else {
            r matches SelectMessage::Request(Some(SelectReason::MissingAction))
        },
        BattleSelection::Pokemon(_) => false,
    }
}

/// The party position and the place among its moves of the move that the
/// default engine confirms for a selection: a move known to the pokemon in
/// active slot `active`, with PP left.
pub open spec fn confirmed_move(active: usize, selection: BattleSelection, player: BattlePlayer) -> Option<(int, int)> {
    match selection {
        BattleSelection::Move(id, _) => match player.party.index_of(active as int) {
            Some(pos) => if pos < player.party.pokemon@.len() {
                let moves = player.party.pokemon@[pos as int].moves@;
                match find_move(moves, id, 0) {
                    Some(k) => if moves[k].pp > 0 { Some((pos as int, k)) } else { None },
                    None => None,
                }
            } else {
                None
            },
            None => None,
        },
        _ => None,
    }
}

/// Pokemon `q` is pokemon `p` after one use of its move at place `k`: that
/// move has one PP less, and all else stays.
pub open spec fn spent_one(p: BattlePokemon, k: int, q: BattlePokemon) -> bool {
    let m = p.moves@[k];
    &&& q.moves@ == p.moves@.update(k, OwnedMove { pp: (m.pp - 1) as u8, ..m })
    &&& q == (BattlePokemon { moves: q.moves, ..p })
}

/// The pokemon of a player's party after the default engine answered a
/// selection: a confirmed move costs its pokemon one PP; nothing else changes.
pub open spec fn pokemon_after_select(active: usize, selection: BattleSelection, before: BattlePlayer, after: Seq<BattlePokemon>) -> bool {
    let pokemon = before.party.pokemon@;
    match confirmed_move(active, selection, before) {
        Some((pos, k)) => {
            &&& after.len() == pokemon.len()
            &&& forall|j: int| 0 <= j < pokemon.len() && j != pos ==> #[trigger] after[j] == pokemon[j]
            &&& spent_one(pokemon[pos], k, after[pos])
        },
        None => after == pokemon,
    }
}

/// Check a move or item selection against the party and the bag: a move must
/// be known and have PP left, and then costs one PP; an item must be in the bag.
#[verifier::loop_isolation(false)]
pub fn select(active: usize, selection: &BattleSelection, player: &mut BattlePlayer) -> (r: SelectMessage)
    requires
        !(*selection is Pokemon),
    ensures
        select_answer(active, *selection, *old(player), r),
        confirmed_move(active, *selection, *old(player)) is None ==> *final(player) == *old(player),
        pokemon_after_select(active, *selection, *old(player), final(player).party.pokemon@),
        final(player).party.active@ == old(player).party.active@,
        final(player).party.id == old(player).party.id,
        final(player).party.name == old(player).party.name,
        final(player).bag == old(player).bag,
        final(player).settings == old(player).settings,
        final(player).removed == old(player).removed,
        final(player).ready == old(player).ready,
{
    let ghost before = *player;
    match selection {
        BattleSelection::Move(id, _) => {
            match player.party.index(active) {
                Some(pos) => {
                    if pos < player.party.pokemon.len() {
                        let n = player.party.pokemon[pos].moves.len();
                        let mut k: usize = 0;
                        while k < n
                            invariant
                                *player == before,
                                n == player.party.pokemon@[pos as int].moves@.len(),
                                k <= n,
                                find_move(player.party.pokemon@[pos as int].moves@, *id, 0) == find_move(player.party.pokemon@[pos as int].moves@, *id, k as int),
                            decreases n - k,
                        {
                            let ghost moves = player.party.pokemon@[pos as int].moves@;
                            if move_id_eq(&player.party.pokemon[pos].moves[k].id, id) {
                                assert(find_move(moves, *id, k as int) == Some(k as int));
                                let m = player.party.pokemon[pos].moves[k];
                                if m.is_empty() {
                                    return SelectMessage::Request(Some(SelectReason::NoPP));
                                } else {
                                    let pokemon = &mut player.party.pokemon[pos];
                                    pokemon.moves.set(k, OwnedMove { pp: m.pp - 1, ..m });
                                    return SelectMessage::Confirm(SelectConfirm::Move(*id, 1));
                                }
                            }
                            assert(find_move(moves, *id, k as int) == find_move(moves, *id, k + 1));
                            k = k + 1;
                        }
                        SelectMessage::Request(Some(SelectReason::MissingAction))
                    } else {
                        SelectMessage::Confirm(SelectConfirm::Other)
                    }
                },
                None => SelectMessage::Confirm(SelectConfirm::Other),
            }
        },
        BattleSelection::Item(Indexed(_, item)) => {
            if !bag_contains(&player.bag, item) {
                SelectMessage::Request(Some(SelectReason::MissingAction))
            } else {
                SelectMessage::Confirm(SelectConfirm::Other)
            }
        },
        BattleSelection::Pokemon(_) => SelectMessage::Confirm(SelectConfirm::Other),
    }
}

/// Whether an effect that happens `chance` percent of the time happens: it
/// does with odds of `chance` in 100, never at 0 and always at 100 (or more).
pub fn chance_roll(random: &mut rand::rngs::StdRng, chance: crate::moves::Percent) -> (r: bool)
    ensures
        chance == 0 ==> !r,
        chance >= 100 ==> r,
{
    let odds: u32 = if chance > 100 { 100 } else { chance as u32 };
    gen_ratio(random, odds, 100)
}

/// What an ailment use may give for its target: nothing at a chance of 0;
/// when it gives something, the ailment (lasting a drawn number of turns) for
/// a target without one, or the cure for a target with one where the use has
/// no ailment; at a chance of 100 it gives something exactly where it applies.
pub open spec fn ailment_outcome(
    target: BattlePokemon,
    effect: Option<(Ailment, AilmentLength)>,
    chance: crate::moves::Percent,
    r: Option<ActionResult>,
) -> bool {
    &&& chance == 0 ==> r is None
    &&& r matches Some(a) ==> match effect {
        Some((ailment, length)) => target.ailment is None && (a matches ActionResult::Ailment(Some(live))
            && live.ailment == ailment && lasts(length, live.turns)),
        None => target.ailment is Some && (a matches ActionResult::Ailment(None)),
    }
    &&& chance == 100 ==> (r is Some <==> match effect {
        Some(_) => target.ailment is None,
        None => target.ailment is Some,
    })
}

/// What an ailment use of a move does to its target, when it happens
/// (`chance` percent of the time): it inflicts its ailment, lasting a drawn
/// number of turns, on a target without one; a use without an ailment cures a
/// target that has one; otherwise it does nothing.
pub fn ailment_use(
    target: &BattlePokemon,
    effect: Option<(Ailment, AilmentLength)>,
    chance: crate::moves::Percent,
    random: &mut rand::rngs::StdRng,
) -> (r: Option<ActionResult>)
    requires
        chance <= 100,
        effect matches Some((_, length)) ==> drawable(length),
    ensures
        ailment_outcome(*target, effect, chance, r),
{
    if !gen_ratio(random, chance as u32, 100) {
        return None;
    }
    match effect {
        Some((ailment, length)) => {
            if target.ailment.is_none() {
                Some(ActionResult::Ailment(Some(length.init(ailment, random))))
            } else {
                None
            }
        },
        None => {
            if target.ailment.is_some() {
                Some(ActionResult::Ailment(None))
            } else {
                None
            }
        },
    }
}


/// An ailment result sets the ailment of the pokemon it hits to exactly what
/// it carries, a cure (`None`) as well as an ailment, and the players are told
/// so; nothing else of that pokemon changes.
pub proof fn lemma_ailment_result_sets_ailment(
    before: Seq<BattlePlayer>,
    t: TeamIndex,
    a: Option<LiveAilment>,
    told0: Seq<Indexed<PublicAction>>,
    after: Seq<BattlePlayer>,
    told1: Seq<Indexed<PublicAction>>,
    i: int,
    pos: usize,
)
    requires
        ran(before, t, ActionResult::Ailment(a), told0, after, told1),
        target_of(before, t, i, pos),
    ensures
        after[i].party.pokemon@.len() == before[i].party.pokemon@.len(),
        after[i].party.pokemon@[pos as int].ailment == a,
        after[i].party.pokemon@[pos as int].hp == before[i].party.pokemon@[pos as int].hp,
        after[i].party.pokemon@[pos as int].stages == before[i].party.pokemon@[pos as int].stages,
        told1 == told0.push(Indexed(t, PublicAction::Ailment(a))),
{
}


/// A damage result takes its damage off the health of the pokemon it hits
/// (down to no health), and a pokemon left with no health leaves its active
/// slot, while one with health left keeps it; the players are told the health
/// left, against the maximum.
pub proof fn lemma_damage_result_lowers_health(
    before: Seq<BattlePlayer>,
    t: TeamIndex,
    d: DamageResult<Health>,
    told0: Seq<Indexed<PublicAction>>,
    after: Seq<BattlePlayer>,
    told1: Seq<Indexed<PublicAction>>,
    i: int,
    pos: usize,
)
    requires
        ran(before, t, ActionResult::Damage(d), told0, after, told1),
        target_of(before, t, i, pos),
    ensures
        ({
            let hp0 = before[i].party.pokemon@[pos as int].hp;
            let hp1 = after[i].party.pokemon@[pos as int].hp;
            &&& hp1 <= hp0
            &&& hp1 == 0 || hp0 - hp1 == d.damage
            &&& hp1 == 0 ==> hp0 <= d.damage
            &&& after[i].party.pokemon@[pos as int].max_hp == before[i].party.pokemon@[pos as int].max_hp
            &&& after[i].party.active@.len() == before[i].party.active@.len()
            &&& (hp1 == 0 ==> after[i].party.active@[t.1 as int] is None)
            &&& (hp1 != 0 ==> after[i].party.active@[t.1 as int] == before[i].party.active@[t.1 as int])
            &&& told1.len() == told0.len() + 1
            &&& told1[told0.len() as int].0 == t
            &&& told1[told0.len() as int].1 matches PublicAction::SetHP(ClientDamage::Result(r))
                && r.damage.hp == hp1 && r.damage.max_hp == before[i].party.pokemon@[pos as int].max_hp
        }),
{
}

/// A heal result of `h` raises the health of the pokemon it hits by `h`, but
/// by no more than its maximum health; a negative one lowers it by `-h`, down
/// to no health.
pub proof fn lemma_heal_result_moves_health(
    before: Seq<BattlePlayer>,
    t: TeamIndex,
    h: i16,
    told0: Seq<Indexed<PublicAction>>,
    after: Seq<BattlePlayer>,
    told1: Seq<Indexed<PublicAction>>,
    i: int,
    pos: usize,
)
    requires
        ran(before, t, ActionResult::Heal(h), told0, after, told1),
        target_of(before, t, i, pos),
        h > 0 ==> before[i].party.pokemon@[pos as int].hp + (if h < before[i].party.pokemon@[pos as int].max_hp { h as int } else { before[i].party.pokemon@[pos as int].max_hp as int }) <= u16::MAX,
    ensures
        ({
            let p0 = before[i].party.pokemon@[pos as int];
            let hp1 = after[i].party.pokemon@[pos as int].hp;
            &&& h > 0 ==> hp1 >= p0.hp && hp1 - p0.hp <= h && hp1 - p0.hp <= p0.max_hp
                && (hp1 - p0.hp == h || hp1 - p0.hp == p0.max_hp)
            &&& h <= 0 ==> hp1 <= p0.hp && (hp1 == 0 || p0.hp - hp1 == -h)
        }),
{
}

} // verus!
