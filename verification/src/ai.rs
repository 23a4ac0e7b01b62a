//! A battle AI: it keeps track of the battle from one player's side and picks
//! that player's selections.

use vstd::prelude::*;

use crate::endpoint::ConnectionError;
use crate::host::ClientMessage;
use crate::moves::{move_id_eq, Health};
use crate::engine::find_move;
use crate::party::RemoteParty;
use crate::pokemon::BattlePokemon;
use crate::random::choose_index;
use crate::select::{
    ActivePosition, BattleSelection, ClientAction, HpRatio, Indexed, PlayerId, PublicAction, SelectConfirm, SelectMessage,
    TeamIndex,
};

verus! {

/// Why the AI could not go on.
#[derive(Debug, Clone, Copy, PartialEq, Eq, Structural)]
pub enum AiError {
    MissingMove,
    /// No pokemon stood where one was looked for; the number tells at which step.
    MissingPokemon(u32),
    MissingDex,
    OutOfPokemon,
    Connection(ConnectionError),
    SelectDenied,
}

/// The step that confirms a move selection.
pub const AT_CONFIRM: u32 = 1;
/// The step that picks a move for an active pokemon.
pub const AT_QUEUE: u32 = 2;

/// The AI's own party.
#[derive(Debug, Clone)]
pub struct AiParty {
    pub id: PlayerId,
    /// The party position standing in each active slot.
    pub active: Vec<Option<usize>>,
    pub pokemon: Vec<BattlePokemon>,
}

/// The party position standing in active slot `a`, when there is a pokemon there.
pub open spec fn slot_pokemon(active: Seq<Option<usize>>, len: nat, a: int) -> Option<usize> {
    if 0 <= a < active.len() && active[a] is Some && active[a]->0 < len {
        active[a]
    } else {
        None
    }
}

/// Some active slot holds party position `i`.
pub open spec fn holds_position(active: Seq<Option<usize>>, i: int) -> bool {
    exists|a: int| 0 <= a < active.len() && active[a] == Some(i as usize)
}

/// Active slots after `index` takes `new`; an index out of range changes nothing.
pub open spec fn replaced(active: Seq<Option<usize>>, index: usize, new: Option<usize>) -> Seq<Option<usize>> {
    if index < active.len() {
        active.update(index as int, new)
    } else {
        active
    }
}

/// The health a pokemon of the given maximum has at a part of its maximum,
/// rounded up (and capped at the largest `u16`); none where the part has no maximum.
pub open spec fn scaled_hp(ratio: HpRatio, max_hp: Health) -> Health {
    if ratio.max_hp == 0 {
        0
    } else {
        let v = (ratio.hp * max_hp + ratio.max_hp - 1) / (ratio.max_hp as int);
        if v > u16::MAX { u16::MAX } else { v as u16 }
    }
}

/// Scale a part of a maximum health to another maximum, as `scaled_hp` says.
pub fn scale_hp(ratio: HpRatio, max_hp: Health) -> (r: Health)
    ensures
        r == scaled_hp(ratio, max_hp),
{
    if ratio.max_hp == 0 {
        return 0;
    }
    let hp = ratio.hp as u64;
    let max = max_hp as u64;
    assert(hp * max <= 65535 * 65535) by (nonlinear_arith)
        requires
            hp <= 65535,
            max <= 65535,
    ;
    let v = (hp * max + ratio.max_hp as u64 - 1) / (ratio.max_hp as u64);
    if v > 65535 { 65535 } else { v as u16 }
}

impl AiParty {
    /// Whether some active slot holds party position `index`.
    pub fn active_contains(&self, index: usize) -> (r: bool)
        ensures
            r == holds_position(self.active@, index as int),
    {
        let mut a: usize = 0;
        while a < self.active.len()
            invariant
                a <= self.active@.len(),
                forall|b: int| 0 <= b < a ==> self.active@[b] != Some(index),
            decreases self.active@.len() - a,
        {
            if let Some(i) = self.active[a] {
                if i == index {
                    return true;
                }
            }
            a = a + 1;
        }
        false
    }

    /// The party position of the pokemon in active slot `a`, if one stands there.
    pub fn active_index(&self, a: usize) -> (r: Option<usize>)
        ensures
            r == slot_pokemon(self.active@, self.pokemon@.len(), a as int),
    {
        if a < self.active.len() {
            match self.active[a] {
                Some(i) => if i < self.pokemon.len() { Some(i) } else { None },
                None => None,
            }
        } else {
            None
        }
    }

    /// Put party position `new` (or nobody) in active slot `index`, if there is such a slot.
    pub fn replace(&mut self, index: usize, new: Option<usize>)
        ensures
            final(self).active@ == replaced(old(self).active@, index, new),
            final(self).id == old(self).id,
            final(self).pokemon@ == old(self).pokemon@,
    {
        if index < self.active.len() {
            self.active.set(index, new);
        }
    }

    /// The first active slot whose pokemon has fainted.
    pub fn active_fainted(&self) -> (r: Option<usize>)
        ensures
            r matches Some(a) ==> (slot_pokemon(self.active@, self.pokemon@.len(), a as int) matches Some(p)
                && self.pokemon@[p as int].hp == 0),
            r matches Some(a) ==> forall|b: int| 0 <= b < a ==> !fainted_at(self.active@, self.pokemon@, b),
            r is None ==> forall|b: int| 0 <= b < self.active@.len() ==> !fainted_at(self.active@, self.pokemon@, b),
    {
        let mut a: usize = 0;
        while a < self.active.len()
            invariant
                a <= self.active@.len(),
                forall|b: int| 0 <= b < a ==> !fainted_at(self.active@, self.pokemon@, b),
            decreases self.active@.len() - a,
        {
            if let Some(p) = self.active_index(a) {
                if self.pokemon[p].fainted() {
                    return Some(a);
                }
            }
            a = a + 1;
        }
        None
    }
}

/// The pokemon in active slot `b` has fainted.
pub open spec fn fainted_at(active: Seq<Option<usize>>, pokemon: Seq<BattlePokemon>, b: int) -> bool {
    slot_pokemon(active, pokemon.len(), b) matches Some(p) && pokemon[p as int].hp == 0
}

/// Pick one of the moves of a pokemon that has uses left, by chance, to use
/// at no chosen target.
pub fn pick_move(pokemon: &BattlePokemon, random: &mut rand::rngs::StdRng) -> (r: Result<BattleSelection, AiError>)
    ensures
        r is Err <==> forall|k: int| 0 <= k < pokemon.moves@.len() ==> pokemon.moves@[k].pp == 0,
        r is Err ==> r == Err::<BattleSelection, AiError>(AiError::MissingMove),
        r matches Ok(s) ==> exists|k: int| 0 <= k < pokemon.moves@.len() && pokemon.moves@[k].pp != 0
            && s == BattleSelection::Move(pokemon.moves@[k].id, None),
{
    let moves = &pokemon.moves;
    let mut usable: Vec<usize> = Vec::new();
    let mut k: usize = 0;
    while k < moves.len()
        invariant
            k <= moves@.len(),
            forall|j: int| 0 <= j < usable@.len() ==> #[trigger] usable@[j] < moves@.len() && moves@[usable@[j] as int].pp != 0,
            forall|j: int| 0 <= j < k && moves@[j].pp != 0 ==> exists|u: int| 0 <= u < usable@.len() && usable@[u] == j,
        decreases moves@.len() - k,
    {
        let ghost before = usable@;
        if !moves[k].is_empty() {
            usable.push(k);
        }
        assert forall|j: int| 0 <= j < k + 1 && moves@[j].pp != 0 implies exists|u: int| 0 <= u < usable@.len() && usable@[u] == j by {
            if j == k {
                assert(usable@[usable@.len() - 1] == j);
            } else {
                let u = choose|u: int| 0 <= u < before.len() && before[u] == j;
                assert(usable@[u] == j);
            }
        }
        k = k + 1;
    }
    match choose_index(random, usable.len()) {
        Some(u) => {
            let k = usable[u];
            Ok(BattleSelection::Move(moves[k].id, None))
        },
        None => {
            assert forall|j: int| 0 <= j < moves@.len() implies moves@[j].pp == 0 by {
                if moves@[j].pp != 0 {
                    let u = choose|u: int| 0 <= u < usable@.len() && usable@[u] == j;
                }
            }
            Err(AiError::MissingMove)
        },
    }
}

/// Pick, by chance, a party position that no active slot holds (fainted or not).
pub fn pick_replacement(party: &AiParty, random: &mut rand::rngs::StdRng) -> (r: Option<usize>)
    ensures
        r is None <==> forall|i: int| 0 <= i < party.pokemon@.len() ==> holds_position(party.active@, i),
        r matches Some(n) ==> n < party.pokemon@.len() && !holds_position(party.active@, n as int),
{
    let mut free: Vec<usize> = Vec::new();
    let mut i: usize = 0;
    while i < party.pokemon.len()
        invariant
            i <= party.pokemon@.len(),
            forall|j: int| 0 <= j < free@.len() ==> #[trigger] free@[j] < party.pokemon@.len()
                && !holds_position(party.active@, free@[j] as int),
            forall|j: int| 0 <= j < i && !holds_position(party.active@, j) ==> exists|u: int| 0 <= u < free@.len() && free@[u] == j,
        decreases party.pokemon@.len() - i,
    {
        let ghost before = free@;
        if !party.active_contains(i) {
            free.push(i);
        }
        assert forall|j: int| 0 <= j < i + 1 && !holds_position(party.active@, j) implies exists|u: int| 0 <= u < free@.len() && free@[u] == j by {
            if j == i {
                assert(free@[free@.len() - 1] == j);
            } else {
                let u = choose|u: int| 0 <= u < before.len() && before[u] == j;
                assert(free@[u] == j);
            }
        }
        i = i + 1;
    }
    match choose_index(random, free.len()) {
        Some(u) => Some(free[u]),
        None => {
            assert forall|j: int| 0 <= j < party.pokemon@.len() implies holds_position(party.active@, j) by {
                if !holds_position(party.active@, j) {
                    let u = choose|u: int| 0 <= u < free@.len() && free@[u] == j;
                }
            }
            None
        },
    }
}

/// A battle AI's picture of the battle.
#[derive(Debug)]
pub struct BattleAi {
    /// Its own party, once the battle has sent it.
    pub local: Option<AiParty>,
    /// The opponents it faces, one per team.
    pub remotes: Vec<RemoteParty>,
}

/// Party `after` is party `before` once the move at place `k` of pokemon `p`
/// used up `sub` PP (down to none); all else stays.
pub open spec fn pp_used(before: AiParty, after: AiParty, p: int, k: int, sub: u8) -> bool {
    let pokemon = before.pokemon@[p];
    let m = pokemon.moves@[k];
    &&& after.id == before.id
    &&& after.active@ == before.active@
    &&& after.pokemon@.len() == before.pokemon@.len()
    &&& forall|j: int| 0 <= j < before.pokemon@.len() && j != p ==> #[trigger] after.pokemon@[j] == before.pokemon@[j]
    &&& after.pokemon@[p].moves@ == pokemon.moves@.update(k, crate::pokemon::OwnedMove {
        pp: if m.pp > sub { (m.pp - sub) as u8 } else { 0 },
        ..m
    })
    &&& after.pokemon@[p] == (BattlePokemon { moves: after.pokemon@[p].moves, ..pokemon })
}

/// The first opponent party of team `id`, at or after `k`.
pub open spec fn remote_of(remotes: Seq<RemoteParty>, id: PlayerId, k: int) -> Option<int>
    decreases remotes.len() - k,
{
    if k < 0 || k >= remotes.len() {
        None
    } else if remotes[k].id == id {
        Some(k)
    } else {
        remote_of(remotes, id, k + 1)
    }
}

/// The remote parties after party `k` changed its active slots; the rest stays.
pub open spec fn remote_replaced(before: Seq<RemoteParty>, after: Seq<RemoteParty>, k: int, index: usize, new: Option<usize>) -> bool {
    &&& after.len() == before.len()
    &&& forall|j: int| 0 <= j < before.len() && j != k ==> #[trigger] after[j] == before[j]
    &&& after[k].id == before[k].id
    &&& after[k].pokemon@ == before[k].pokemon@
    &&& after[k].active@ == replaced(before[k].active@, index, new)
}

/// Health set on one of the AI's own pokemon is scaled to that pokemon's
/// maximum; when the pokemon fainted, the AI asks to replace it with a party
/// position no slot holds, and fails when there is none.
pub open spec fn own_hp_set(before: BattleAi, after: BattleAi, target: TeamIndex, ratio: HpRatio, out: Result<Option<ClientMessage>, AiError>) -> bool {
    let local = before.local->0;
    &&& after.remotes@ == before.remotes@
    &&& match slot_pokemon(local.active@, local.pokemon@.len(), target.1 as int) {
        Some(p) => {
            let hp = scaled_hp(ratio, local.pokemon@[p as int].max_hp);
            &&& after.local matches Some(l) && l.id == local.id && l.active@ == local.active@
                && l.pokemon@ == local.pokemon@.update(p as int, BattlePokemon { hp, ..local.pokemon@[p as int] })
            &&& if hp == 0 {
                match out {
                    Ok(Some(ClientMessage::Select(a, BattleSelection::Pokemon(n)))) => a == target.1
                        && n < local.pokemon@.len() && !holds_position(local.active@, n as int),
                    Err(e) => e == AiError::OutOfPokemon
                        && forall|i: int| 0 <= i < local.pokemon@.len() ==> holds_position(local.active@, i),
                    _ => false,
                }
            } else {
                out == Ok::<Option<ClientMessage>, AiError>(None)
            }
        },
        None => after.local == before.local && out == Ok::<Option<ClientMessage>, AiError>(None),
    }
}

/// Health set on an opponent's pokemon is noted when the AI knows that pokemon.
pub open spec fn remote_hp_set(before: BattleAi, after: BattleAi, target: TeamIndex, ratio: HpRatio) -> bool {
    &&& after.local == before.local
    &&& match remote_of(before.remotes@, target.0, 0) {
        Some(k) => {
            let r = before.remotes@[k];
            match slot_pokemon(r.active@, r.pokemon@.len(), target.1 as int) {
                Some(p) => if r.pokemon@[p as int] is Some {
                    &&& after.remotes@.len() == before.remotes@.len()
                    &&& forall|j: int| 0 <= j < before.remotes@.len() && j != k ==> #[trigger] after.remotes@[j] == before.remotes@[j]
                    &&& after.remotes@[k].id == r.id
                    &&& after.remotes@[k].active@ == r.active@
                    &&& after.remotes@[k].pokemon@ == r.pokemon@.update(p as int, Some(ratio))
                } else {
                    after.remotes@ == before.remotes@
                },
                None => after.remotes@ == before.remotes@,
            }
        },
        None => after.remotes@ == before.remotes@,
    }
}

/// Active slot `slot.1` of team `slot.0` took party position `new`, on the AI's
/// own party or on the opponent party of that team.
pub open spec fn slot_moved(before: BattleAi, after: BattleAi, slot: TeamIndex, new: usize) -> bool {
    let local = before.local->0;
    if slot.0 == local.id {
        &&& after.remotes == before.remotes
        &&& after.local matches Some(l) && l.id == local.id && l.pokemon@ == local.pokemon@
            && l.active@ == replaced(local.active@, slot.1, Some(new))
    } else {
        &&& after.local == before.local
        &&& match remote_of(before.remotes@, slot.0, 0) {
            Some(k) => remote_replaced(before.remotes@, after.remotes@, k, slot.1, Some(new)),
            None => after.remotes == before.remotes,
        }
    }
}

/// What the AI does with one action of a turn's results, `out` being what it
/// returns: health set on its own pokemon as `own_hp_set` says, on an
/// opponent's as `remote_hp_set` says; a switch moves the user's team's slot.
pub open spec fn ai_step(
    before: BattleAi,
    after: BattleAi,
    user: Option<TeamIndex>,
    action: Indexed<PublicAction>,
    out: Result<Option<ClientMessage>, AiError>,
) -> bool {
    let target = action.0;
    match action.1 {
        PublicAction::SetHP(d) => {
            let ratio = match d {
                crate::moves::ClientDamage::Result(res) => res.damage,
                crate::moves::ClientDamage::Number(n) => n,
            };
            if target.0 == before.local->0.id {
                own_hp_set(before, after, target, ratio, out)
            } else {
                remote_hp_set(before, after, target, ratio) && out == Ok::<Option<ClientMessage>, AiError>(None)
            }
        },
        PublicAction::Switch(new) => slot_moved(before, after, user->0, new) && out == Ok::<Option<ClientMessage>, AiError>(None),
        _ => after == before && out == Ok::<Option<ClientMessage>, AiError>(None),
    }
}

/// The opponent party found for a team is one of that team.
pub proof fn lemma_remote_of(remotes: Seq<RemoteParty>, id: PlayerId, k: int)
    ensures
        remote_of(remotes, id, k) matches Some(j) ==> k <= j < remotes.len() && remotes[j].id == id,
    decreases remotes.len() - k,
{
    if 0 <= k < remotes.len() && remotes[k].id != id {
        lemma_remote_of(remotes, id, k + 1);
    }
}

/// The user announced last in a list of results.
pub open spec fn last_user(actions: Seq<ClientAction>) -> Option<TeamIndex>
    decreases actions.len(),
{
    if actions.len() == 0 {
        None
    } else {
        match actions.last() {
            ClientAction::Announce(_, u, _) => u,
            _ => last_user(actions.drop_last()),
        }
    }
}

/// The actions of a turn's results, in order, each with the user announced before it.
pub open spec fn result_steps(actions: Seq<ClientAction>) -> Seq<(Option<TeamIndex>, Indexed<PublicAction>)>
    decreases actions.len(),
{
    if actions.len() == 0 {
        Seq::empty()
    } else {
        let rest = result_steps(actions.drop_last());
        match actions.last() {
            ClientAction::Actions(v) => rest + v@.map_values(|a: Indexed<PublicAction>| (last_user(actions.drop_last()), a)),
            _ => rest,
        }
    }
}

/// Every switch in the results comes after a user was announced.
pub open spec fn switches_announced(steps: Seq<(Option<TeamIndex>, Indexed<PublicAction>)>) -> bool {
    forall|k: int| 0 <= k < steps.len() && (#[trigger] steps[k]).1.1 is Switch ==> steps[k].0 is Some
}

/// The messages that outcomes ask to send, in order.
pub open spec fn asked(outs: Seq<Result<Option<ClientMessage>, AiError>>) -> Seq<ClientMessage>
    decreases outs.len(),
{
    if outs.len() == 0 {
        Seq::empty()
    } else {
        let rest = asked(outs.drop_last());
        match outs.last() {
            Ok(Some(m)) => rest.push(m),
            _ => rest,
        }
    }
}

/// The AI went through the first steps in turn: `trace` holds its states and
/// `outs` what each step returned.
pub open spec fn traced(
    trace: Seq<BattleAi>,
    outs: Seq<Result<Option<ClientMessage>, AiError>>,
    steps: Seq<(Option<TeamIndex>, Indexed<PublicAction>)>,
) -> bool {
    &&& trace.len() == outs.len() + 1
    &&& outs.len() <= steps.len()
    &&& forall|k: int| 0 <= k < outs.len() ==> (#[trigger] trace[k]).local is Some
    &&& forall|k: int| 0 <= k < outs.len() ==> ai_step(#[trigger] trace[k], trace[k + 1], steps[k].0, steps[k].1, outs[k])
}

/// One more step of the AI extends its trace.
proof fn lemma_trace_push(
    trace: Seq<BattleAi>,
    outs: Seq<Result<Option<ClientMessage>, AiError>>,
    steps: Seq<(Option<TeamIndex>, Indexed<PublicAction>)>,
    after: BattleAi,
    out: Result<Option<ClientMessage>, AiError>,
)
    requires
        traced(trace, outs, steps),
        outs.len() < steps.len(),
        trace.last().local is Some,
        ai_step(trace.last(), after, steps[outs.len() as int].0, steps[outs.len() as int].1, out),
        forall|k: int| 0 <= k < outs.len() ==> (#[trigger] outs[k]) is Ok,
    ensures
        traced(trace.push(after), outs.push(out), steps),
        trace.push(after)[0] == trace[0],
        trace.push(after).last() == after,
        forall|k: int| 0 <= k < outs.len() ==> (#[trigger] outs.push(out)[k]) is Ok,
        out is Ok ==> forall|k: int| 0 <= k < outs.len() + 1 ==> (#[trigger] outs.push(out)[k]) is Ok,
        asked(outs.push(out)) == match out {
            Ok(Some(m)) => asked(outs).push(m),
            _ => asked(outs),
        },
{
    let t = trace.push(after);
    let o = outs.push(out);
    assert(o.drop_last() =~= outs);
    assert forall|k: int| 0 <= k < o.len() implies (#[trigger] t[k]).local is Some by {
        if k < outs.len() {
            assert(t[k] == trace[k]);
        }
    }
    assert forall|k: int| 0 <= k < o.len() implies ai_step(#[trigger] t[k], t[k + 1], steps[k].0, steps[k].1, o[k]) by {
        if k < outs.len() {
            assert(t[k] == trace[k]);
            assert(t[k + 1] == trace[k + 1]);
            assert(o[k] == outs[k]);
        }
    }
}

/// The steps of a prefix of the results come first among those of a longer prefix.
pub proof fn lemma_steps_prefix(actions: Seq<ClientAction>, i: int, m: int)
    requires
        0 <= i <= m <= actions.len(),
    ensures
        result_steps(actions.take(i)).len() <= result_steps(actions.take(m)).len(),
        forall|k: int| 0 <= k < result_steps(actions.take(i)).len()
            ==> #[trigger] result_steps(actions.take(i))[k] == result_steps(actions.take(m))[k],
    decreases m - i,
{
    if i < m {
        lemma_steps_prefix(actions, i, m - 1);
        assert(actions.take(m).drop_last() =~= actions.take(m - 1));
    }
}

/// Move `k` of the pokemon has uses left.
pub open spec fn usable(moves: Seq<crate::pokemon::OwnedMove>, k: int) -> bool {
    0 <= k < moves.len() && moves[k].pp != 0
}

/// `messages` pick, slot by slot among the first `n` active slots, a move with
/// uses left for each pokemon that has one.
pub open spec fn moves_picked(local: AiParty, n: int, messages: Seq<ClientMessage>) -> bool
    decreases n,
{
    if n <= 0 {
        messages.len() == 0
    } else {
        match slot_pokemon(local.active@, local.pokemon@.len(), n - 1) {
            Some(p) => {
                let moves = local.pokemon@[p as int].moves@;
                if exists|k: int| usable(moves, k) {
                    &&& messages.len() >= 1
                    &&& moves_picked(local, n - 1, messages.drop_last())
                    &&& exists|k: int| usable(moves, k) && messages.last() == ClientMessage::Select(
                        (n - 1) as usize,
                        BattleSelection::Move(moves[k].id, None),
                    )
                } else {
                    moves_picked(local, n - 1, messages)
                }
            },
            None => moves_picked(local, n - 1, messages),
        }
    }
}

impl BattleAi {
    /// An AI that knows nothing yet.
    pub fn new() -> (r: Self)
        ensures
            r.local is None,
            r.remotes@.len() == 0,
    {
        BattleAi { local: None, remotes: Vec::new() }
    }

    /// The AI's pokemon, once it knows its party.
    pub fn party(&self) -> (r: Option<&Vec<BattlePokemon>>)
        ensures
            r is Some <==> self.local is Some,
            r matches Some(p) ==> p@ == self.local->0.pokemon@,
    {
        match &self.local {
            Some(local) => Some(&local.pokemon),
            None => None,
        }
    }

    /// Whether the AI takes part in a battle.
    pub fn active(&self) -> (r: bool)
        ensures
            r == self.local is Some,
    {
        self.local.is_some()
    }

    /// Forget the battle.
    pub fn stop_running(&mut self)
        ensures
            final(self).local is None,
            final(self).remotes@.len() == 0,
    {
        self.local = None;
        self.remotes = Vec::new();
    }

    /// Take the party the battle sent.
    pub fn set_local(&mut self, party: AiParty)
        ensures
            final(self).local == Some(party),
            final(self).remotes == old(self).remotes,
    {
        self.local = Some(party);
    }

    /// The place of the opponent party of team `id`.
    fn find_remote(&self, id: PlayerId) -> (r: Option<usize>)
        ensures
            r matches Some(k) ==> remote_of(self.remotes@, id, 0) == Some(k as int) && k < self.remotes@.len(),
            r is None ==> remote_of(self.remotes@, id, 0) is None,
    {
        let mut k: usize = 0;
        while k < self.remotes.len()
            invariant
                k <= self.remotes@.len(),
                remote_of(self.remotes@, id, 0) == remote_of(self.remotes@, id, k as int),
            decreases self.remotes@.len() - k,
        {
            if self.remotes[k].id == id {
                return Some(k);
            }
            k = k + 1;
        }
        None
    }

    /// Take an opponent's party; it takes the place of one of the same team.
    pub fn add_remote(&mut self, remote: RemoteParty)
        ensures
            final(self).local == old(self).local,
            final(self).remotes@ == match remote_of(old(self).remotes@, remote.id, 0) {
                Some(k) => old(self).remotes@.update(k, remote),
                None => old(self).remotes@.push(remote),
            },
    {
        match self.find_remote(remote.id) {
            Some(k) => self.remotes.set(k, remote),
            None => self.remotes.push(remote),
        }
    }

    /// A player left the battle: if it is the AI's own, the AI stops; the
    /// opponent party of that team is forgotten.
    pub fn remove(&mut self, id: PlayerId)
        ensures
            ({
                let own = old(self).local matches Some(l) && l.id == id;
                let remotes = if own { Seq::<RemoteParty>::empty() } else { old(self).remotes@ };
                &&& final(self).local == if own { None } else { old(self).local }
                &&& final(self).remotes@ == match remote_of(remotes, id, 0) {
                    Some(k) => remotes.remove(k),
                    None => remotes,
                }
            }),
    {
        let own = match &self.local {
            Some(local) => local.id == id,
            None => false,
        };
        if own {
            self.stop_running();
            assert(self.remotes@ =~= Seq::<RemoteParty>::empty());
        }
        if let Some(k) = self.find_remote(id) {
            self.remotes.remove(k);
        }
    }

    /// Pick a move for the pokemon in active slot `active`.
    pub fn queue_move(&self, random: &mut rand::rngs::StdRng, active: ActivePosition) -> (r: Result<ClientMessage, AiError>)
        requires
            self.local is Some,
        ensures
            match slot_pokemon(self.local->0.active@, self.local->0.pokemon@.len(), active as int) {
                Some(p) => {
                    let moves = self.local->0.pokemon@[p as int].moves@;
                    &&& r is Err <==> forall|k: int| 0 <= k < moves.len() ==> moves[k].pp == 0
                    &&& r is Err ==> r == Err::<ClientMessage, AiError>(AiError::MissingMove)
                    &&& r matches Ok(m) ==> exists|k: int| 0 <= k < moves.len() && moves[k].pp != 0
                        && m == ClientMessage::Select(active, BattleSelection::Move(moves[k].id, None))
                },
                None => r == Err::<ClientMessage, AiError>(AiError::MissingPokemon(AT_QUEUE)),
            },
    {
        let local = self.local.as_ref().unwrap();
        match local.active_index(active) {
            Some(p) => match pick_move(&local.pokemon[p], random) {
                Ok(selection) => Ok(ClientMessage::Select(active, selection)),
                Err(e) => Err(e),
            },
            None => Err(AiError::MissingPokemon(AT_QUEUE)),
        }
    }

    /// A move selection for active slot `index` was confirmed: the move uses
    /// up `sub` PP (down to none).
    pub fn confirm_move(&mut self, index: ActivePosition, id: firecore_pokedex::moves::MoveId, sub: u8) -> (r: Result<(), AiError>)
        requires
            old(self).local is Some,
        ensures
            final(self).remotes == old(self).remotes,
            ({
                let local = old(self).local->0;
                match slot_pokemon(local.active@, local.pokemon@.len(), index as int) {
                    Some(p) => match find_move(local.pokemon@[p as int].moves@, id, 0) {
                        Some(k) => r is Ok && (final(self).local matches Some(l) && pp_used(local, l, p as int, k, sub)),
                        None => r == Err::<(), AiError>(AiError::MissingMove) && final(self).local == old(self).local,
                    },
                    None => r == Err::<(), AiError>(AiError::MissingPokemon(AT_CONFIRM)) && final(self).local == old(self).local,
                }
            }),
    {
        let ghost local0 = self.local->0;
        let p = match self.local.as_ref().unwrap().active_index(index) {
            Some(p) => p,
            None => return Err(AiError::MissingPokemon(AT_CONFIRM)),
        };
        let k = {
            let moves = &self.local.as_ref().unwrap().pokemon[p].moves;
            let mut k: usize = 0;
            while k < moves.len() && !move_id_eq(&moves[k].id, &id)
                invariant
                    k <= moves@.len(),
                    find_move(moves@, id, 0) == find_move(moves@, id, k as int),
                decreases moves@.len() - k,
            {
                k = k + 1;
            }
            if k == moves.len() {
                return Err(AiError::MissingMove);
            }
            assert(find_move(moves@, id, k as int) == Some(k as int));
            k
        };
        let mut local = self.local.take().unwrap();
        let pokemon = &mut local.pokemon[p];
        let m = pokemon.moves[k];
        let pp = m.pp.saturating_sub(sub);
        pokemon.moves.set(k, crate::pokemon::OwnedMove { pp, ..m });
        self.local = Some(local);
        Ok(())
    }

    /// The answer to a selection for active slot `index`: a request is met by
    /// picking a move, a confirmed move uses up its PP, and a denial stops the AI.
    pub fn select(&mut self, index: ActivePosition, answer: SelectMessage, random: &mut rand::rngs::StdRng) -> (r: Result<Option<ClientMessage>, AiError>)
        requires
            !(answer is Deny) && !(answer matches SelectMessage::Confirm(SelectConfirm::Other)) ==> old(self).local is Some,
        ensures
            match answer {
                SelectMessage::Request(_) => final(self).local == old(self).local && final(self).remotes == old(self).remotes
                    && match slot_pokemon(old(self).local->0.active@, old(self).local->0.pokemon@.len(), index as int) {
                        Some(p) => {
                            let moves = old(self).local->0.pokemon@[p as int].moves@;
                            &&& r is Err <==> forall|k: int| 0 <= k < moves.len() ==> moves[k].pp == 0
                            &&& r is Err ==> r == Err::<Option<ClientMessage>, AiError>(AiError::MissingMove)
                            &&& r matches Ok(m) ==> exists|k: int| 0 <= k < moves.len() && moves[k].pp != 0
                                && m == Some(ClientMessage::Select(index, BattleSelection::Move(moves[k].id, None)))
                        },
                        None => r == Err::<Option<ClientMessage>, AiError>(AiError::MissingPokemon(AT_QUEUE)),
                    },
                SelectMessage::Confirm(SelectConfirm::Move(id, sub)) => final(self).remotes == old(self).remotes
                    && match slot_pokemon(old(self).local->0.active@, old(self).local->0.pokemon@.len(), index as int) {
                        Some(p) => match find_move(old(self).local->0.pokemon@[p as int].moves@, id, 0) {
                            Some(k) => r == Ok::<Option<ClientMessage>, AiError>(None)
                                && (final(self).local matches Some(l) && pp_used(old(self).local->0, l, p as int, k, sub)),
                            None => r == Err::<Option<ClientMessage>, AiError>(AiError::MissingMove) && final(self).local == old(self).local,
                        },
                        None => r == Err::<Option<ClientMessage>, AiError>(AiError::MissingPokemon(AT_CONFIRM)) && final(self).local == old(self).local,
                    },
                SelectMessage::Confirm(SelectConfirm::Other) => r == Ok::<Option<ClientMessage>, AiError>(None)
                    && final(self).local == old(self).local && final(self).remotes == old(self).remotes,
                SelectMessage::Deny => r == Err::<Option<ClientMessage>, AiError>(AiError::SelectDenied)
                    && final(self).local == old(self).local && final(self).remotes == old(self).remotes,
            },
    {
        match answer {
            SelectMessage::Request(_) => match self.queue_move(random, index) {
                Ok(m) => Ok(Some(m)),
                Err(e) => Err(e),
            },
            SelectMessage::Confirm(SelectConfirm::Move(id, sub)) => match self.confirm_move(index, id, sub) {
                Ok(()) => Ok(None),
                Err(e) => Err(e),
            },
            SelectMessage::Confirm(SelectConfirm::Other) => Ok(None),
            SelectMessage::Deny => Err(AiError::SelectDenied),
        }
    }

    /// Active slot `target.1` of team `target.0` now holds party position `new`.
    pub fn replace(&mut self, target: TeamIndex, new: usize)
        requires
            old(self).local is Some,
        ensures
            slot_moved(*old(self), *final(self), target, new),
            final(self).local is Some,
    {
        let own = self.local.as_ref().unwrap().id == target.0;
        if own {
            let mut local = self.local.take().unwrap();
            local.replace(target.1, Some(new));
            self.local = Some(local);
        } else if let Some(k) = self.find_remote(target.0) {
            let ghost before = self.remotes@;
            let remote = &mut self.remotes[k];
            if target.1 < remote.active.len() {
                remote.active.set(target.1, Some(new));
            }
            proof {
                assert forall|j: int| 0 <= j < before.len() && j != k implies #[trigger] self.remotes@[j] == before[j] by {}
            }
        }
    }

    /// A pokemon of an opponent was revealed, with the health seen of it.
    pub fn note_revealed(&mut self, target: TeamIndex, seen: HpRatio)
        ensures
            final(self).local == old(self).local,
            match remote_of(old(self).remotes@, target.0, 0) {
                Some(k) => {
                    let r = old(self).remotes@[k];
                    &&& final(self).remotes@.len() == old(self).remotes@.len()
                    &&& forall|j: int| 0 <= j < old(self).remotes@.len() && j != k ==> #[trigger] final(self).remotes@[j] == old(self).remotes@[j]
                    &&& final(self).remotes@[k].id == r.id
                    &&& final(self).remotes@[k].active@ == r.active@
                    &&& final(self).remotes@[k].pokemon@ == if target.1 < r.pokemon@.len() {
                        r.pokemon@.update(target.1 as int, Some(seen))
                    } else {
                        r.pokemon@
                    }
                },
                None => final(self).remotes == old(self).remotes,
            },
    {
        if let Some(k) = self.find_remote(target.0) {
            let remote = &mut self.remotes[k];
            if target.1 < remote.pokemon.len() {
                remote.pokemon.set(target.1, Some(seen));
            }
        }
    }

    /// Health set on one of the AI's own pokemon, as `own_hp_set` says.
    fn set_own_hp(&mut self, target: TeamIndex, ratio: HpRatio, random: &mut rand::rngs::StdRng) -> (r: Result<Option<ClientMessage>, AiError>)
        requires
            old(self).local is Some,
        ensures
            own_hp_set(*old(self), *final(self), target, ratio, r),
            final(self).local is Some,
    {
        let p = match self.local.as_ref().unwrap().active_index(target.1) {
            Some(p) => p,
            None => return Ok(None),
        };
        let mut local = self.local.take().unwrap();
        let hp = scale_hp(ratio, local.pokemon[p].max_hp);
        local.pokemon[p].hp = hp;
        let fainted = local.pokemon[p].fainted();
        let pick = if fainted { pick_replacement(&local, random) } else { None };
        self.local = Some(local);
        if fainted {
            match pick {
                Some(new) => Ok(Some(ClientMessage::Select(target.1, BattleSelection::Pokemon(new)))),
                None => Err(AiError::OutOfPokemon),
            }
        } else {
            Ok(None)
        }
    }

    /// Health set on an opponent's pokemon, as `remote_hp_set` says.
    fn set_remote_hp(&mut self, target: TeamIndex, ratio: HpRatio)
        ensures
            remote_hp_set(*old(self), *final(self), target, ratio),
    {
        if let Some(k) = self.find_remote(target.0) {
            let remote = &self.remotes[k];
            if target.1 < remote.active.len() {
                if let Some(p) = remote.active[target.1] {
                    if p < remote.pokemon.len() && remote.pokemon[p].is_some() {
                        let ghost before = self.remotes@;
                        let remote = &mut self.remotes[k];
                        remote.pokemon.set(p, Some(ratio));
                        proof {
                            assert forall|j: int| 0 <= j < before.len() && j != k implies #[trigger] self.remotes@[j] == before[j] by {}
                        }
                    }
                }
            }
        }
    }

    /// Take in one action of a turn's results, as `ai_step` says.
    pub fn handle_action(
        &mut self,
        user: Option<TeamIndex>,
        action: Indexed<PublicAction>,
        random: &mut rand::rngs::StdRng,
    ) -> (r: Result<Option<ClientMessage>, AiError>)
        requires
            old(self).local is Some,
            action.1 is Switch ==> user is Some,
        ensures
            ai_step(*old(self), *final(self), user, action, r),
            final(self).local is Some,
    {
        let Indexed(target, public) = action;
        let local_id = self.local.as_ref().unwrap().id;
        match public {
            PublicAction::SetHP(damage) => {
                let ratio = damage.damage();
                if target.0 == local_id {
                    self.set_own_hp(target, ratio, random)
                } else {
                    self.set_remote_hp(target, ratio);
                    Ok(None)
                }
            },
            PublicAction::Switch(new) => {
                let u = user.unwrap();
                self.replace(u, new);
                Ok(None)
            },
            _ => Ok(None),
        }
    }

    /// Take in the results of a turn, action by action, as `ai_step` says;
    /// stop at the first step that fails.
    #[verifier::spinoff_prover]
    #[verifier::rlimit(40)]
    pub fn results(&mut self, actions: &Vec<ClientAction>, random: &mut rand::rngs::StdRng) -> (r: Result<Vec<ClientMessage>, AiError>)
        requires
            old(self).local is Some,
            switches_announced(result_steps(actions@)),
        ensures
            exists|trace: Seq<BattleAi>, outs: Seq<Result<Option<ClientMessage>, AiError>>| {
                &&& traced(trace, outs, result_steps(actions@))
                &&& trace[0] == *old(self)
                &&& trace.last() == *final(self)
                &&& forall|k: int| 0 <= k < outs.len() - 1 ==> (#[trigger] outs[k]) is Ok
                &&& match r {
                    Ok(messages) => outs.len() == result_steps(actions@).len() && messages@ == asked(outs)
                        && forall|k: int| 0 <= k < outs.len() ==> (#[trigger] outs[k]) is Ok,
                    Err(e) => outs.len() >= 1 && outs.last() == Err::<Option<ClientMessage>, AiError>(e),
                }
            },
    {
        let ghost steps = result_steps(actions@);
        let ghost mut trace: Seq<BattleAi> = seq![*self];
        let ghost mut outs: Seq<Result<Option<ClientMessage>, AiError>> = Seq::empty();
        let mut user: Option<TeamIndex> = None;
        let mut messages: Vec<ClientMessage> = Vec::new();
        let mut i: usize = 0;
        while i < actions.len()
            invariant
                i <= actions@.len(),
                steps == result_steps(actions@),
                switches_announced(steps),
                user == last_user(actions@.take(i as int)),
                outs.len() == result_steps(actions@.take(i as int)).len(),
                traced(trace, outs, steps),
                trace[0] == *old(self),
                trace.last() == *self,
                self.local is Some,
                forall|k: int| 0 <= k < outs.len() ==> (#[trigger] outs[k]) is Ok,
                messages@ == asked(outs),
            decreases actions@.len() - i,
        {
            proof {
                assert(actions@.take(i + 1).drop_last() =~= actions@.take(i as int));
                lemma_steps_prefix(actions@, i as int, actions@.len() as int);
                lemma_steps_prefix(actions@, i + 1, actions@.len() as int);
                assert(actions@.take(actions@.len() as int) =~= actions@);
            }
            match &actions[i] {
                ClientAction::Announce(_, u, _) => {
                    user = *u;
                },
                ClientAction::Actions(list) => {
                    let ghost base = outs.len();
                    let mut j: usize = 0;
                    while j < list.len()
                        invariant
                            i < actions@.len(),
                            actions@[i as int] == ClientAction::Actions(*list),
                            j <= list@.len(),
                            steps == result_steps(actions@),
                            switches_announced(steps),
                            user == last_user(actions@.take(i as int)),
                            base == result_steps(actions@.take(i as int)).len(),
                            result_steps(actions@.take(i + 1)) == result_steps(actions@.take(i as int))
                                + list@.map_values(|a: Indexed<PublicAction>| (last_user(actions@.take(i as int)), a)),
                            result_steps(actions@.take(i + 1)).len() <= steps.len(),
                            forall|k: int| 0 <= k < result_steps(actions@.take(i + 1)).len()
                                ==> #[trigger] result_steps(actions@.take(i + 1))[k] == steps[k],
                            outs.len() == base + j,
                            traced(trace, outs, steps),
                            trace[0] == *old(self),
                            trace.last() == *self,
                            self.local is Some,
                            forall|k: int| 0 <= k < outs.len() ==> (#[trigger] outs[k]) is Ok,
                            messages@ == asked(outs),
                        decreases list@.len() - j,
                    {
                        let ghost k: int = outs.len() as int;
                        let ghost before = *self;
                        assert(steps[k] == (user, list@[j as int])) by {
                            assert(result_steps(actions@.take(i + 1))[k] == steps[k]);
                        }
                        let out = self.handle_action(user, list[j], random);
                        proof {
                            lemma_trace_push(trace, outs, steps, *self, out);
                            trace = trace.push(*self);
                            outs = outs.push(out);
                        }
                        match out {
                            Ok(Some(m)) => {
                                messages.push(m);
                            },
                            Ok(None) => {},
                            Err(e) => {
                                return Err(e);
                            },
                        }
                        j = j + 1;
                    }
                },
                ClientAction::Error(_) => {},
            }
            i = i + 1;
        }
        proof {
            assert(actions@.take(actions@.len() as int) =~= actions@);
        }
        Ok(messages)
    }

    /// What the AI selects on its own each update: a replacement for the first
    /// active pokemon that fainted, if there is one; otherwise a move for each
    /// active pokemon that has one left.
    pub fn turn(&mut self, random: &mut rand::rngs::StdRng) -> (r: Vec<ClientMessage>)
        requires
            old(self).local matches Some(l) ==> ((exists|b: int| 0 <= b < l.active@.len() && fainted_at(l.active@, l.pokemon@, b))
                ==> exists|i: int| 0 <= i < l.pokemon@.len() && !holds_position(l.active@, i)),
        ensures
            final(self).local == old(self).local,
            final(self).remotes == old(self).remotes,
            match old(self).local {
                None => r@.len() == 0,
                Some(l) => if exists|b: int| 0 <= b < l.active@.len() && fainted_at(l.active@, l.pokemon@, b) {
                    &&& r@.len() == 1
                    &&& r@[0] matches ClientMessage::Select(a, BattleSelection::Pokemon(n))
                        && fainted_at(l.active@, l.pokemon@, a as int)
                        && (forall|b: int| 0 <= b < a ==> !fainted_at(l.active@, l.pokemon@, b))
                        && n < l.pokemon@.len() && !holds_position(l.active@, n as int)
                } else {
                    moves_picked(l, l.active@.len() as int, r@)
                },
            },
    {
        let mut r: Vec<ClientMessage> = Vec::new();
        if self.local.is_none() {
            return r;
        }
        let local = self.local.as_ref().unwrap();
        match local.active_fainted() {
            Some(a) => {
                assert(fainted_at(local.active@, local.pokemon@, a as int));
                let new = pick_replacement(local, random).unwrap();
                r.push(ClientMessage::Select(a, BattleSelection::Pokemon(new)));
            },
            None => {
                let mut a: usize = 0;
                while a < local.active.len()
                    invariant
                        self.local == Some(*local),
                        a <= local.active@.len(),
                        moves_picked(*local, a as int, r@),
                    decreases local.active@.len() - a,
                {
                    let ghost before = r@;
                    match self.queue_move(random, a) {
                        Ok(m) => {
                            r.push(m);
                            proof {
                                assert(r@.drop_last() =~= before);
                                let p = slot_pokemon(local.active@, local.pokemon@.len(), a as int)->0;
                                let moves = local.pokemon@[p as int].moves@;
                                let k = choose|k: int| 0 <= k < moves.len() && moves[k].pp != 0
                                    && m == ClientMessage::Select(a, BattleSelection::Move(moves[k].id, None));
                                assert(usable(moves, k));
                            }
                        },
                        Err(_) => {
                            proof {
                                if let Some(p) = slot_pokemon(local.active@, local.pokemon@.len(), a as int) {
                                    let moves = local.pokemon@[p as int].moves@;
                                    assert(!exists|k: int| usable(moves, k));
                                }
                            }
                        },
                    }
                    a = a + 1;
                }
            },
        }
        r
    }
}

} // verus!
