//! Which pokemon a move hits.

use vstd::prelude::*;

use crate::moves::{BattleMove, MoveCategory, MoveTarget};
use crate::party::ActiveBattlePokemon;
use crate::player::{first_in_play, in_play, BattlePlayer, PlayerQuery};
use crate::random::{choose_index, gen_ratio};
use crate::select::{PlayerId, TeamIndex};

verus! {

/// The party positions held by the active slots, in slot order, leaving out `except`.
pub open spec fn held_positions(active: Seq<Option<ActiveBattlePokemon>>, except: Option<usize>) -> Seq<usize>
    decreases active.len(),
{
    if active.len() == 0 {
        Seq::empty()
    } else {
        let rest = held_positions(active.drop_last(), except);
        match active.last() {
            Some(a) => if except == Some(a.index) {
                rest
            } else {
                rest.push(a.index)
            },
            None => rest,
        }
    }
}

/// The positions `positions` on the team of player `team`.
pub open spec fn on_team(team: PlayerId, positions: Seq<usize>) -> Seq<TeamIndex> {
    positions.map_values(|i: usize| TeamIndex(team, i))
}

/// The pokemon in battle of every player in play, in player order; with
/// `exclude` set, leaving out the players with that id.
pub open spec fn fielded(players: Seq<BattlePlayer>, exclude: Option<PlayerId>) -> Seq<TeamIndex>
    decreases players.len(),
{
    if players.len() == 0 {
        Seq::empty()
    } else {
        let rest = fielded(players.drop_last(), exclude);
        let p = players.last();
        if in_play(p) && exclude != Some(p.party.id) {
            rest + on_team(p.party.id, held_positions(p.party.active@, None))
        } else {
            rest
        }
    }
}

/// A player that a move with target `Any` and no chosen target may hit.
pub open spec fn any_candidate(p: BattlePlayer, team: PlayerId, category: MoveCategory) -> bool {
    in_play(p) && !(p.party.id == team && !(category is Status)) && !p.party.fainted_all()
}

/// A player whose pokemon a move aimed at an opponent may hit.
pub open spec fn opponent_candidate(p: BattlePlayer, team: PlayerId) -> bool {
    in_play(p) && p.party.id != team && !p.party.fainted_all()
}

/// The player has a pokemon in battle.
pub open spec fn fielding(p: BattlePlayer) -> bool {
    exists|a: int| 0 <= a < p.party.active@.len() && p.party.active@[a] is Some
}

/// `r` is one pokemon in battle of a player meeting `pred`, or nothing; nothing
/// exactly when no player meets `pred`, or when the player picked has no pokemon
/// in battle. So when some player meets `pred` and every such player has a
/// pokemon in battle, one is picked.
pub open spec fn random_pick(players: Seq<BattlePlayer>, pred: spec_fn(BattlePlayer) -> bool, r: Seq<TeamIndex>) -> bool {
    &&& r.len() <= 1
    &&& (forall|j: int| 0 <= j < players.len() ==> !pred(#[trigger] players[j])) ==> r.len() == 0
    &&& (exists|j: int| 0 <= j < players.len() && pred(#[trigger] players[j]))
        && (forall|j: int| 0 <= j < players.len() && pred(#[trigger] players[j]) ==> fielding(players[j]))
        ==> r.len() == 1
    &&& r.len() == 1 ==> exists|j: int| {
        &&& 0 <= j < players.len()
        &&& pred(#[trigger] players[j])
        &&& r[0].0 == players[j].party.id
        &&& r[0].1 < players[j].party.active@.len()
        &&& players[j].party.active@[r[0].1 as int] is Some
    }
}

/// The pokemon in battle of the first player in play with id `team`, leaving
/// out party position `except`.
pub open spec fn team_slots(players: Seq<BattlePlayer>, team: PlayerId, except: Option<usize>) -> Seq<TeamIndex> {
    if exists|i: int| first_in_play(players, team, i) {
        let i = choose|i: int| first_in_play(players, team, i);
        on_team(team, held_positions(players[i].party.active@, except))
    } else {
        Seq::empty()
    }
}

/// `r` is one of `candidates`, or nothing exactly when there is none.
pub open spec fn one_of(candidates: Seq<TeamIndex>, r: Seq<TeamIndex>) -> bool {
    &&& r.len() <= 1
    &&& r.len() == 0 <==> candidates.len() == 0
    &&& r.len() == 1 ==> candidates.contains(r[0])
}

/// What `create_targets` returns for a move of target kind `target` and
/// category `category`, used by `user`, aimed at `targeting`.
pub open spec fn targets_of(
    players: Seq<BattlePlayer>,
    user: TeamIndex,
    target: MoveTarget,
    category: MoveCategory,
    targeting: Option<TeamIndex>,
    r: Seq<TeamIndex>,
) -> bool {
    match target {
        MoveTarget::Any => match targeting {
            Some(id) => r == seq![id],
            None => random_pick(players, |p: BattlePlayer| any_candidate(p, user.0, category), r),
        },
        MoveTarget::Ally => match targeting {
            Some(id) => if id.0 == user.0 && id.1 != user.1 {
                r == seq![id]
            } else {
                one_of(team_slots(players, id.0, Some(user.1)), r)
            },
            None => one_of(team_slots(players, user.0, Some(user.1)), r),
        },
        MoveTarget::Allies => r == team_slots(players, user.0, Some(user.1)),
        MoveTarget::UserOrAlly => match targeting {
            Some(id) if id.0 == user.0 => if id.1 == user.1 {
                r == seq![user]
            } else {
                r == team_slots(players, user.0, Some(user.1))
            },
            _ => r == seq![user] || r == team_slots(players, user.0, Some(user.1)),
        },
        MoveTarget::UserAndAllies => r == team_slots(players, user.0, None),
        MoveTarget::User => r == seq![user],
        MoveTarget::Opponent => match targeting {
            Some(id) if id.0 != user.0 => r == seq![id],
            _ => random_pick(players, |p: BattlePlayer| opponent_candidate(p, user.0), r),
        },
        MoveTarget::AllOpponents => r == fielded(players, Some(user.0)),
        MoveTarget::RandomOpponent => random_pick(players, |p: BattlePlayer| opponent_candidate(p, user.0), r),
        MoveTarget::AllOtherPokemon => r == team_slots(players, user.0, Some(user.1)) + fielded(players, Some(user.0)),
        MoveTarget::AllPokemon => r == fielded(players, None),
        MoveTarget::NoTarget => r.len() == 0,
    }
}

/// Only one player can be the first in play with an id.
pub proof fn lemma_first_in_play_unique(players: Seq<BattlePlayer>, id: PlayerId, i: int, k: int)
    requires
        first_in_play(players, id, i),
        first_in_play(players, id, k),
    ensures
        i == k,
{
    if i < k {
        assert(!(in_play(players[i]) && players[i].party.id == id));
    } else if k < i {
        assert(!(in_play(players[k]) && players[k].party.id == id));
    }
}

/// The party positions held by the active slots, leaving out `except`.
pub fn held(active: &Vec<Option<ActiveBattlePokemon>>, except: Option<usize>) -> (r: Vec<usize>)
    ensures
        r@ == held_positions(active@, except),
{
    let mut r: Vec<usize> = Vec::new();
    let mut i: usize = 0;
    while i < active.len()
        invariant
            i <= active@.len(),
            r@ == held_positions(active@.take(i as int), except),
        decreases active@.len() - i,
    {
        assert(active@.take(i + 1).drop_last() =~= active@.take(i as int));
        if let Some(a) = &active[i] {
            if except != Some(a.index) {
                r.push(a.index);
            }
        }
        i = i + 1;
    }
    assert(active@.take(active@.len() as int) =~= active@);
    r
}

/// Put every position on the given team.
pub fn on_team_vec(team: PlayerId, positions: Vec<usize>) -> (r: Vec<TeamIndex>)
    ensures
        r@ == on_team(team, positions@),
{
    let mut r: Vec<TeamIndex> = Vec::new();
    let mut i: usize = 0;
    while i < positions.len()
        invariant
            i <= positions@.len(),
            r@ == on_team(team, positions@.take(i as int)),
        decreases positions@.len() - i,
    {
        r.push(TeamIndex(team, positions[i]));
        assert(on_team(team, positions@.take(i + 1)) =~= on_team(team, positions@.take(i as int)).push(TeamIndex(team, positions@[i as int])));
        i = i + 1;
    }
    assert(positions@.take(positions@.len() as int) =~= positions@);
    r
}

/// Pick one of the given players at random, then one of its pokemon in battle at random.
fn pick_random_slot(
    players: &Vec<BattlePlayer>,
    candidates: &Vec<usize>,
    random: &mut rand::rngs::StdRng,
) -> (r: Vec<TeamIndex>)
    requires
        forall|k: int| 0 <= k < candidates@.len() ==> candidates@[k] < players@.len(),
    ensures
        r@.len() <= 1,
        candidates@.len() == 0 ==> r@.len() == 0,
        candidates@.len() > 0 && (forall|k: int| 0 <= k < candidates@.len() ==> fielding(#[trigger] players@[candidates@[k] as int]))
            ==> r@.len() == 1,
        r@.len() == 1 ==> exists|k: int| {
            &&& 0 <= k < candidates@.len()
            &&& r@[0].0 == players@[candidates@[k] as int].party.id
            &&& r@[0].1 < players@[candidates@[k] as int].party.active@.len()
            &&& players@[candidates@[k] as int].party.active@[r@[0].1 as int] is Some
        },
{
    let mut r: Vec<TeamIndex> = Vec::new();
    match choose_index(random, candidates.len()) {
        None => {},
        Some(k) => {
            let p = &players[candidates[k]];
            let mut slots: Vec<usize> = Vec::new();
            let mut s: usize = 0;
            while s < p.party.active.len()
                invariant
                    s <= p.party.active@.len(),
                    forall|t: int| 0 <= t < slots@.len() ==> slots@[t] < s && p.party.active@[slots@[t] as int] is Some,
                    slots@.len() == 0 ==> forall|t: int| 0 <= t < s ==> p.party.active@[t] is None,
                decreases p.party.active@.len() - s,
            {
                if p.party.active[s].is_some() {
                    slots.push(s);
                }
                s = s + 1;
            }
            if let Some(t) = choose_index(random, slots.len()) {
                r.push(TeamIndex(p.party.id, slots[t]));
            }
        },
    }
    r
}

/// A random pokemon in battle of a random player in play, other than the user's
/// team, that has not lost all its pokemon.
pub fn opponent(query: &PlayerQuery, random: &mut rand::rngs::StdRng, user: TeamIndex) -> (r: Vec<TeamIndex>)
    ensures
        random_pick(query.0@, |p: BattlePlayer| opponent_candidate(p, user.0), r@),
{
    let players = &query.0;
    let mut candidates: Vec<usize> = Vec::new();
    let mut j: usize = 0;
    while j < players.len()
        invariant
            j <= players@.len(),
            forall|k: int| 0 <= k < candidates@.len() ==> candidates@[k] < j && opponent_candidate(players@[candidates@[k] as int], user.0),
            candidates@.len() == 0 ==> forall|i: int| 0 <= i < j ==> !opponent_candidate(#[trigger] players@[i], user.0),
        decreases players@.len() - j,
    {
        let p = &players[j];
        if p.removed.is_none() && p.ready && p.party.id != user.0 && !p.party.all_fainted() {
            candidates.push(j);
        }
        j = j + 1;
    }
    let r = pick_random_slot(players, &candidates, random);
    proof {
        if r@.len() == 1 {
            let k = choose|k: int| {
                &&& 0 <= k < candidates@.len()
                &&& r@[0].0 == players@[candidates@[k] as int].party.id
                &&& r@[0].1 < players@[candidates@[k] as int].party.active@.len()
                &&& players@[candidates@[k] as int].party.active@[r@[0].1 as int] is Some
            };
            let pred = |p: BattlePlayer| opponent_candidate(p, user.0);
            assert(pred(players@[candidates@[k] as int]));
        }
    }
    r
}

/// The pokemon in battle of the first player in play with id `team`, leaving
/// out party position `except`.
pub fn team_slots_vec(query: &PlayerQuery, team: PlayerId, except: Option<usize>) -> (r: Vec<TeamIndex>)
    ensures
        r@ == team_slots(query.0@, team, except),
{
    match query.position(team) {
        Some(i) => {
            proof {
                assert forall|k: int| first_in_play(query.0@, team, k) implies k == i by {
                    lemma_first_in_play_unique(query.0@, team, i as int, k);
                }
            }
            on_team_vec(team, held(&query.0[i].party.active, except))
        },
        None => {
            proof {
                assert forall|k: int| !first_in_play(query.0@, team, k) by {
                    if 0 <= k < query.0@.len() {
                        assert(!(in_play(query.0@[k]) && query.0@[k].party.id == team));
                    }
                }
            }
            Vec::new()
        },
    }
}

/// The pokemon in battle of every player in play, leaving out the team `exclude`.
pub fn fielded_vec(query: &PlayerQuery, exclude: Option<PlayerId>) -> (r: Vec<TeamIndex>)
    ensures
        r@ == fielded(query.0@, exclude),
{
    let players = &query.0;
    let mut r: Vec<TeamIndex> = Vec::new();
    let mut j: usize = 0;
    while j < players.len()
        invariant
            j <= players@.len(),
            r@ == fielded(players@.take(j as int), exclude),
        decreases players@.len() - j,
    {
        assert(players@.take(j + 1).drop_last() =~= players@.take(j as int));
        let p = &players[j];
        if p.removed.is_none() && p.ready && exclude != Some(p.party.id) {
            let more = on_team_vec(p.party.id, held(&p.party.active, None));
            let mut t: usize = 0;
            let ghost before = r@;
            while t < more.len()
                invariant
                    t <= more@.len(),
                    r@ == before + more@.take(t as int),
                decreases more@.len() - t,
            {
                r.push(more[t]);
                assert(more@.take(t + 1) =~= more@.take(t as int).push(more@[t as int]));
                t = t + 1;
            }
            assert(more@.take(more@.len() as int) =~= more@);
        }
        j = j + 1;
    }
    assert(players@.take(players@.len() as int) =~= players@);
    r
}

/// One pokemon at random from `candidates`, or nothing when there is none.
fn pick_one(candidates: Vec<TeamIndex>, random: &mut rand::rngs::StdRng) -> (r: Vec<TeamIndex>)
    ensures
        one_of(candidates@, r@),
{
    let mut r: Vec<TeamIndex> = Vec::new();
    if let Some(k) = choose_index(random, candidates.len()) {
        r.push(candidates[k]);
        assert(candidates@.contains(r@[0]));
    }
    r
}

/// A random pokemon in battle of the team `id`, other than party position `user.1`.
pub fn ally(query: &PlayerQuery, random: &mut rand::rngs::StdRng, user: TeamIndex, id: TeamIndex) -> (r: Vec<TeamIndex>)
    ensures
        one_of(team_slots(query.0@, id.0, Some(user.1)), r@),
{
    pick_one(team_slots_vec(query, id.0, Some(user.1)), random)
}

/// The other pokemon in battle of the user's team.
pub fn allies(query: &PlayerQuery, user: TeamIndex) -> (r: Vec<TeamIndex>)
    ensures
        r@ == team_slots(query.0@, user.0, Some(user.1)),
{
    team_slots_vec(query, user.0, Some(user.1))
}

/// The pokemon in battle of every other team.
pub fn all_opponents(query: &PlayerQuery, user: TeamIndex) -> (r: Vec<TeamIndex>)
    ensures
        r@ == fielded(query.0@, Some(user.0)),
{
    fielded_vec(query, Some(user.0))
}

/// The user's allies, then every other team's pokemon in battle.
pub fn all_other_pokemon(query: &PlayerQuery, user: TeamIndex) -> (r: Vec<TeamIndex>)
    ensures
        r@ == team_slots(query.0@, user.0, Some(user.1)) + fielded(query.0@, Some(user.0)),
{
    let mut v = allies(query, user);
    let others = all_opponents(query, user);
    let ghost before = v@;
    let mut t: usize = 0;
    while t < others.len()
        invariant
            t <= others@.len(),
            v@ == before + others@.take(t as int),
        decreases others@.len() - t,
    {
        v.push(others[t]);
        assert(others@.take(t + 1) =~= others@.take(t as int).push(others@[t as int]));
        t = t + 1;
    }
    assert(others@.take(others@.len() as int) =~= others@);
    v
}

/// The user's team in battle, the user included.
pub fn user_and_allies(query: &PlayerQuery, user: TeamIndex) -> (r: Vec<TeamIndex>)
    ensures
        r@ == team_slots(query.0@, user.0, None),
{
    team_slots_vec(query, user.0, None)
}

/// The user alone, or else its allies.
pub fn user_or_allies(query: &PlayerQuery, is_user: bool, user: TeamIndex) -> (r: Vec<TeamIndex>)
    ensures
        is_user ==> r@ == seq![user],
        !is_user ==> r@ == team_slots(query.0@, user.0, Some(user.1)),
{
    if is_user {
        let mut r: Vec<TeamIndex> = Vec::new();
        r.push(user);
        r
    } else {
        allies(query, user)
    }
}

/// The user alone or its allies, at even odds.
pub fn random_user_or_allies(query: &PlayerQuery, random: &mut rand::rngs::StdRng, user: TeamIndex) -> (r: Vec<TeamIndex>)
    ensures
        r@ == seq![user] || r@ == team_slots(query.0@, user.0, Some(user.1)),
{
    let is_user = gen_ratio(random, 1, 2);
    user_or_allies(query, is_user, user)
}

/// The pokemon a move hits, when `user` uses it aimed at `targeting`.
pub fn create_targets(
    query: &PlayerQuery,
    user: TeamIndex,
    m: &BattleMove,
    targeting: Option<TeamIndex>,
    random: &mut rand::rngs::StdRng,
) -> (r: Vec<TeamIndex>)
    ensures
        targets_of(query.0@, user, m.target, m.category, targeting, r@),
{
    match m.target {
        MoveTarget::Any => match targeting {
            Some(id) => {
                let mut r: Vec<TeamIndex> = Vec::new();
                r.push(id);
                r
            },
            None => {
                let players = &query.0;
                let ghost category = m.category;
                let mut candidates: Vec<usize> = Vec::new();
                let mut j: usize = 0;
                while j < players.len()
                    invariant
                        j <= players@.len(),
                        category == m.category,
                        forall|k: int| 0 <= k < candidates@.len() ==> candidates@[k] < j && any_candidate(players@[candidates@[k] as int], user.0, category),
                        candidates@.len() == 0 ==> forall|i: int| 0 <= i < j ==> !any_candidate(#[trigger] players@[i], user.0, category),
                    decreases players@.len() - j,
                {
                    let p = &players[j];
                    let damaging = match m.category {
                        MoveCategory::Status => false,
                        _ => true,
                    };
                    if p.removed.is_none() && p.ready && !(p.party.id == user.0 && damaging) && !p.party.all_fainted() {
                        candidates.push(j);
                    }
                    j = j + 1;
                }
                let r = pick_random_slot(players, &candidates, random);
                proof {
                    if r@.len() == 1 {
                        let k = choose|k: int| {
                            &&& 0 <= k < candidates@.len()
                            &&& r@[0].0 == players@[candidates@[k] as int].party.id
                            &&& r@[0].1 < players@[candidates@[k] as int].party.active@.len()
                            &&& players@[candidates@[k] as int].party.active@[r@[0].1 as int] is Some
                        };
                        let pred = |p: BattlePlayer| any_candidate(p, user.0, category);
                        assert(pred(players@[candidates@[k] as int]));
                    }
                }
                r
            },
        },
        MoveTarget::Ally => match targeting {
            Some(id) => {
                if id.0 == user.0 && id.1 != user.1 {
                    let mut r: Vec<TeamIndex> = Vec::new();
                    r.push(id);
                    r
                } else {
                    ally(query, random, user, id)
                }
            },
            None => ally(query, random, user, user),
        },
        MoveTarget::Allies => allies(query, user),
        MoveTarget::UserOrAlly => match targeting {
            Some(id) => {
                if id.0 == user.0 {
                    user_or_allies(query, id.1 == user.1, user)
                } else {
                    random_user_or_allies(query, random, user)
                }
            },
            None => random_user_or_allies(query, random, user),
        },
        MoveTarget::UserAndAllies => user_and_allies(query, user),
        MoveTarget::User => {
            let mut r: Vec<TeamIndex> = Vec::new();
            r.push(user);
            r
        },
        MoveTarget::Opponent => match targeting {
            Some(id) => {
                if id.0 != user.0 {
                    let mut r: Vec<TeamIndex> = Vec::new();
                    r.push(id);
                    r
                } else {
                    opponent(query, random, user)
                }
            },
            None => opponent(query, random, user),
        },
        MoveTarget::AllOpponents => all_opponents(query, user),
        MoveTarget::RandomOpponent => opponent(query, random, user),
        MoveTarget::AllOtherPokemon => all_other_pokemon(query, user),
        MoveTarget::AllPokemon => fielded_vec(query, None),
        MoveTarget::NoTarget => Vec::new(),
    }
}


/// A damaging move of target kind `Any` with no target chosen never hits the
/// user's own team: what it hits is a pokemon in battle of a player in play of
/// another team, one of whose pokemon has not fainted.
pub proof fn lemma_any_spares_own_team(
    players: Seq<BattlePlayer>,
    user: TeamIndex,
    category: MoveCategory,
    r: Seq<TeamIndex>,
)
    requires
        targets_of(players, user, MoveTarget::Any, category, None, r),
        !(category is Status),
    ensures
        forall|k: int| 0 <= k < r.len() ==> #[trigger] r[k].0 != user.0,
        r.len() <= 1,
        r.len() == 1 ==> exists|j: int| {
            &&& 0 <= j < players.len()
            &&& #[trigger] players[j].party.id == r[0].0
            &&& players[j].removed is None
            &&& players[j].ready
            &&& exists|k: int| 0 <= k < players[j].party.pokemon@.len() && players[j].party.pokemon@[k].hp != 0
            &&& r[0].1 < players[j].party.active@.len()
            &&& players[j].party.active@[r[0].1 as int] is Some
        },
{
    if r.len() == 1 {
        let j = choose|j: int| {
            &&& 0 <= j < players.len()
            &&& any_candidate(#[trigger] players[j], user.0, category)
            &&& r[0].0 == players[j].party.id
            &&& r[0].1 < players[j].party.active@.len()
            &&& players[j].party.active@[r[0].1 as int] is Some
        };
        assert(!players[j].party.fainted_all());
        let k = choose|k: int| !(0 <= k < players[j].party.pokemon@.len() ==> players[j].party.pokemon@[k].hp == 0);
        assert(players[j].party.id == r[0].0);
    }
}


/// The pokemon in battle that `fielded` lists belong to players in play, of
/// teams other than the one left out.
proof fn lemma_fielded_teams(players: Seq<BattlePlayer>, exclude: Option<PlayerId>)
    ensures
        forall|k: int| 0 <= k < fielded(players, exclude).len() ==> exclude != Some(#[trigger] fielded(players, exclude)[k].0),
    decreases players.len(),
{
    if players.len() > 0 {
        let rest = fielded(players.drop_last(), exclude);
        lemma_fielded_teams(players.drop_last(), exclude);
        let p = players.last();
        if in_play(p) && exclude != Some(p.party.id) {
            let more = on_team(p.party.id, held_positions(p.party.active@, None));
            assert forall|k: int| 0 <= k < (rest + more).len() implies exclude != Some(#[trigger] (rest + more)[k].0) by {
                if k >= rest.len() {
                    assert((rest + more)[k] == more[k - rest.len()]);
                } else {
                    assert((rest + more)[k] == rest[k]);
                }
            }
        }
    }
}

/// The slots that `team_slots` lists are on the team asked for.
proof fn lemma_team_slots_team(players: Seq<BattlePlayer>, team: PlayerId, except: Option<usize>)
    ensures
        forall|k: int| 0 <= k < team_slots(players, team, except).len() ==> (#[trigger] team_slots(players, team, except)[k]).0 == team,
{
}

/// A move aimed at opponents (target kinds `Opponent`, `RandomOpponent` and
/// `AllOpponents`) never hits a pokemon of the user's own team.
pub proof fn lemma_opponent_moves_spare_own_team(
    players: Seq<BattlePlayer>,
    user: TeamIndex,
    target: MoveTarget,
    category: MoveCategory,
    targeting: Option<TeamIndex>,
    r: Seq<TeamIndex>,
)
    requires
        targets_of(players, user, target, category, targeting, r),
        target is Opponent || target is RandomOpponent || target is AllOpponents,
    ensures
        forall|k: int| 0 <= k < r.len() ==> #[trigger] r[k].0 != user.0,
{
    if target is AllOpponents {
        lemma_fielded_teams(players, Some(user.0));
    } else if r.len() == 1 {
        if !(target is Opponent && (targeting matches Some(id) && id.0 != user.0)) {
            let j = choose|j: int| {
                &&& 0 <= j < players.len()
                &&& opponent_candidate(#[trigger] players[j], user.0)
                &&& r[0].0 == players[j].party.id
                &&& r[0].1 < players[j].party.active@.len()
                &&& players[j].party.active@[r[0].1 as int] is Some
            };
        }
    }
}

/// A move aimed at the user's side (target kinds `Allies`, `UserAndAllies`,
/// and `Ally` with no target chosen) hits only pokemon of the user's own team.
pub proof fn lemma_ally_moves_stay_on_own_team(
    players: Seq<BattlePlayer>,
    user: TeamIndex,
    target: MoveTarget,
    category: MoveCategory,
    targeting: Option<TeamIndex>,
    r: Seq<TeamIndex>,
)
    requires
        targets_of(players, user, target, category, targeting, r),
        target is Allies || target is UserAndAllies || (target is Ally && targeting is None),
    ensures
        forall|k: int| 0 <= k < r.len() ==> #[trigger] r[k].0 == user.0,
{
    lemma_team_slots_team(players, user.0, Some(user.1));
    lemma_team_slots_team(players, user.0, None);
    if target is Ally && r.len() == 1 {
        assert(team_slots(players, user.0, Some(user.1)).contains(r[0]));
    }
}

} // verus!
