//! The battle host: it runs the battle, answers the players and tells them what happens.

use vstd::prelude::*;

use crate::data::{BattleData, VersusType};
use crate::dex::{dex_move_pp, dex_moves, Movedex};
use crate::engine::{in_battle, pokemon_after_select, pokemon_in_battle, select, select_answer};
use crate::party::{ActiveBattlePokemon, PlayerParty};
use crate::player::{first_in_play, in_play, initialized, BattlePlayer, PlayerData, PlayerQuery, RemovalReason};
use crate::moves::BattleMove;
use crate::pokemon::{find_id, with_move, BattlePokemon, OwnedMove};
use crate::queue::{actions, all_handed, dequeued, distinct_ids, fits_player, move_queue, moves_fit_queue, no_clashing_selections, sorted, QueueEntry};
use crate::select::{
    ActivePosition, BattleSelection, ClientAction, ClientActionType, Indexed, PartyPosition, PlayerId, PublicAction, SelectConfirm,
    SelectMessage, SelectReason, TeamIndex,
};

verus! {

/// Where the battle stands.
#[derive(Debug, Clone, Copy, PartialEq, Eq, Structural)]
pub enum BattleState {
    Start,
    /// Asking for selections; `true` once the requests are sent.
    Selecting(bool),
    /// Carrying out the turn; `true` once it has been carried out.
    Moves(bool),
    Winner(Option<PlayerId>),
}

/// A message from a player to the host.
#[derive(Debug, Clone, Copy)]
pub enum ClientMessage {
    Select(ActivePosition, BattleSelection),
    TryForfeit,
    /// Learn a move with a pokemon of the party, in place of the move at an optional index.
    LearnMove(PartyPosition, firecore_pokedex::moves::MoveId, Option<usize>),
}

/// A message from the host to a player.
#[derive(Debug, Clone, Copy)]
pub enum ServerMessage {
    /// Select for an active position, or the answer to a selection.
    Select(ActivePosition, SelectMessage),
    /// The results of the turn just carried out, which go along with it.
    Results,
    /// A pokemon replaced the one at a team slot.
    Replace(Indexed<usize>),
    /// A pokemon of a team is now known; its view is taken from the team's party.
    Reveal(TeamIndex),
    /// The battle data, and the receiving player's party and bag.
    PlayerData,
    /// The party of the player at this index joins as an opponent.
    AddOpponent(usize),
    /// A player left the battle, with money.
    Remove(PlayerId, RemovalReason, u32),
    /// The battle ended, with an optional winner.
    End(Option<PlayerId>),
}

/// A message for the player at an index of the battle's players.
#[derive(Debug, Clone, Copy)]
pub struct Outgoing {
    pub to: usize,
    pub message: ServerMessage,
}

/// A battle host.
#[derive(Debug)]
pub struct Battle {
    pub state: BattleState,
    pub data: BattleData,
    pub players: PlayerQuery,
}

/// The messages that tell the ready players that the pokemon at party position
/// `new` of team `id` replaced the one in active slot `active`: first its
/// reveal (to the other teams, when it was revealed), then the replacement.
pub open spec fn replace_notices(players: Seq<BattlePlayer>, id: PlayerId, active: usize, new: usize, revealed: bool) -> Seq<Outgoing>
    decreases players.len(),
{
    if players.len() == 0 {
        Seq::empty()
    } else {
        let rest = replace_notices(players.drop_last(), id, active, new, revealed);
        let j = (players.len() - 1) as usize;
        let p = players.last();
        if p.ready {
            let reveal = if id != p.party.id && revealed {
                seq![Outgoing { to: j, message: ServerMessage::Reveal(TeamIndex(id, new)) }]
            } else {
                Seq::empty()
            };
            rest + reveal + seq![Outgoing { to: j, message: ServerMessage::Replace(Indexed(TeamIndex(id, active), new)) }]
        } else {
            rest
        }
    }
}

/// The same message to every player, in order.
pub open spec fn to_all(n: nat, message: ServerMessage) -> Seq<Outgoing> {
    Seq::new(n, |j: int| Outgoing { to: j as usize, message })
}

/// The same message to every ready player, in order.
pub open spec fn to_ready(players: Seq<BattlePlayer>, message: ServerMessage) -> Seq<Outgoing>
    decreases players.len(),
{
    if players.len() == 0 {
        Seq::empty()
    } else {
        let rest = to_ready(players.drop_last(), message);
        if players.last().ready {
            rest.push(Outgoing { to: (players.len() - 1) as usize, message })
        } else {
            rest
        }
    }
}

/// How many players are in play.
pub open spec fn in_play_count(players: Seq<BattlePlayer>) -> nat
    decreases players.len(),
{
    if players.len() == 0 {
        0
    } else {
        in_play_count(players.drop_last()) + if in_play(players.last()) { 1nat } else { 0nat }
    }
}

/// The id of the first player in play, if there is one.
pub open spec fn first_in_play_id(players: Seq<BattlePlayer>) -> Option<PlayerId>
    decreases players.len(),
{
    if players.len() == 0 {
        None
    } else {
        let earlier = first_in_play_id(players.drop_last());
        if earlier is Some {
            earlier
        } else if in_play(players.last()) {
            Some(players.last().party.id)
        } else {
            None
        }
    }
}

/// The state after checking for a winner, and the messages it sends: once at
/// most one player is in play, the battle ends and the one left, if any, wins.
pub open spec fn win_check(players: Seq<BattlePlayer>, state: BattleState) -> (BattleState, Seq<Outgoing>) {
    if in_play_count(players) <= 1 {
        (BattleState::Winner(first_in_play_id(players)), to_all(players.len(), ServerMessage::End(first_in_play_id(players))))
    } else {
        (state, Seq::empty())
    }
}

/// The players after the first player in play with the given id leaves, and
/// the messages that tell everyone; nothing happens when there is no such player.
pub open spec fn removal(players: Seq<BattlePlayer>, id: PlayerId, reason: RemovalReason) -> (Seq<BattlePlayer>, Seq<Outgoing>) {
    if exists|i: int| first_in_play(players, id, i) {
        let i = choose|i: int| first_in_play(players, id, i);
        (
            players.update(i, BattlePlayer { removed: Some(reason), ..players[i] }),
            to_all(players.len(), ServerMessage::Remove(id, reason, 0)),
        )
    } else {
        (players, Seq::empty())
    }
}

/// A player that is still in the battle and can no longer fight: all its
/// pokemon fainted, or none of them has a move with uses left.
pub open spec fn lost(p: BattlePlayer) -> bool {
    p.removed is None && (p.party.fainted_all() || p.party.no_moves_left())
}

/// The players, from the `i`th on, that have lost leave the battle in turn;
/// the players after that, and the messages that tell everyone.
pub open spec fn losses(players: Seq<BattlePlayer>, i: int) -> (Seq<BattlePlayer>, Seq<Outgoing>)
    decreases players.len() - i,
{
    if i < 0 || i >= players.len() {
        (players, Seq::empty())
    } else {
        let step = if lost(players[i]) {
            removal(players, players[i].party.id, RemovalReason::Loss)
        } else {
            (players, Seq::empty())
        };
        if step.0.len() == players.len() {
            let rest = losses(step.0, i + 1);
            (rest.0, step.1 + rest.1)
        } else {
            step
        }
    }
}

/// Every player in play has selected an action for each of its pokemon in battle.
pub open spec fn all_selected(players: Seq<BattlePlayer>) -> bool {
    forall|i: int| 0 <= i < players.len() && in_play(#[trigger] players[i]) ==> players[i].party.ready()
}

/// No player in play has an empty active slot that its reserve could fill.
pub open spec fn all_replaced(players: Seq<BattlePlayer>) -> bool {
    forall|i: int| 0 <= i < players.len() && in_play(#[trigger] players[i]) ==> !players[i].party.replace_needed()
}

/// Requests to select, to player `to`, for each of the first `n` active slots that hold a pokemon.
pub open spec fn slot_requests(active: Seq<Option<ActiveBattlePokemon>>, to: usize, n: int) -> Seq<Outgoing>
    decreases n,
{
    if n <= 0 || n > active.len() {
        Seq::empty()
    } else {
        let rest = slot_requests(active, to, n - 1);
        if active[n - 1] is Some {
            rest.push(Outgoing { to, message: ServerMessage::Select((n - 1) as usize, SelectMessage::Request(None)) })
        } else {
            rest
        }
    }
}

/// Requests to select, to every player in play, for each of its pokemon in battle.
pub open spec fn select_requests(players: Seq<BattlePlayer>) -> Seq<Outgoing>
    decreases players.len(),
{
    if players.len() == 0 {
        Seq::empty()
    } else {
        let rest = select_requests(players.drop_last());
        let p = players.last();
        if in_play(p) {
            rest + slot_requests(p.party.active@, (players.len() - 1) as usize, p.party.active@.len() as int)
        } else {
            rest
        }
    }
}

/// The opponents among the first `n` players that player `to`, of team `id`,
/// is told of: those not removed, of another team.
pub open spec fn opponent_notices(players: Seq<BattlePlayer>, id: PlayerId, to: usize, n: int) -> Seq<Outgoing>
    decreases n,
{
    if n <= 0 || n > players.len() {
        Seq::empty()
    } else {
        let rest = opponent_notices(players, id, to, n - 1);
        let o = players[n - 1];
        if o.removed is None && o.party.id != id {
            rest.push(Outgoing { to, message: ServerMessage::AddOpponent((n - 1) as usize) })
        } else {
            rest
        }
    }
}

/// What player `k` is sent as it joins: its own data, then the opponents it faces.
pub open spec fn data_notices(players: Seq<BattlePlayer>, k: int) -> Seq<Outgoing> {
    seq![Outgoing { to: k as usize, message: ServerMessage::PlayerData }]
        + opponent_notices(players, players[k].party.id, k as usize, players.len() as int)
}

/// Who is told of as an opponent rests only on who is removed and on the ids.
proof fn lemma_opponent_notices_same(a: Seq<BattlePlayer>, b: Seq<BattlePlayer>, id: PlayerId, to: usize, n: int)
    requires
        a.len() == b.len(),
        forall|i: int| 0 <= i < b.len() ==> (#[trigger] a[i]).removed == b[i].removed && a[i].party.id == b[i].party.id,
    ensures
        opponent_notices(a, id, to, n) == opponent_notices(b, id, to, n),
    decreases n,
{
    if 0 < n <= a.len() {
        lemma_opponent_notices_same(a, b, id, to, n - 1);
    }
}

/// What the first `n` players are sent as the battle starts: each player not
/// removed gets its own data, then the opponents it faces.
pub open spec fn player_data_notices(players: Seq<BattlePlayer>, n: int) -> Seq<Outgoing>
    decreases n,
{
    if n <= 0 || n > players.len() {
        Seq::empty()
    } else {
        let rest = player_data_notices(players, n - 1);
        let p = players[n - 1];
        if p.removed is None {
            rest + data_notices(players, n - 1)
        } else {
            rest
        }
    }
}

/// A player after it was sent its data, if it is not removed.
pub open spec fn readied(p: BattlePlayer) -> BattlePlayer {
    BattlePlayer { ready: p.ready || p.removed is None, ..p }
}

/// Two players differ at most in their parties' active slots and pokemon.
pub open spec fn same_but_team(a: BattlePlayer, b: BattlePlayer) -> bool {
    &&& a.party.id == b.party.id
    &&& a.party.name == b.party.name
    &&& a.bag == b.bag
    &&& a.settings == b.settings
    &&& a.removed == b.removed
    &&& a.ready == b.ready
}

/// The battle changed at most the player at index `i`.
pub open spec fn only_player_changed(before: Battle, after: Battle, i: int) -> bool {
    &&& after.state == before.state
    &&& after.data == before.data
    &&& after.players.0@.len() == before.players.0@.len()
    &&& forall|j: int| 0 <= j < before.players.0@.len() && j != i ==> #[trigger] after.players.0@[j] == before.players.0@[j]
}

/// Why a player that forfeits leaves: it runs from a wild pokemon, and loses
/// against a trainer where the battle allows forfeiting.
pub open spec fn forfeit_reason(data: BattleData) -> Option<RemovalReason> {
    if data.versus is Wild {
        Some(RemovalReason::Run)
    } else if data.settings.allow_forfeit {
        Some(RemovalReason::Loss)
    } else {
        None
    }
}

/// Player `i` tried to forfeit: if it is still in the battle and may
/// forfeit, it leaves and every player is told; nothing changes otherwise.
pub open spec fn forfeited(before: Battle, after: Battle, i: int, r: Seq<Outgoing>) -> bool {
    let p = before.players.0@[i];
    &&& only_player_changed(before, after, i)
    &&& if p.removed is None && forfeit_reason(before.data) is Some {
        &&& after.players.0@[i] == (BattlePlayer { removed: forfeit_reason(before.data), ..p })
        &&& r == to_all(before.players.0@.len(), ServerMessage::Remove(p.party.id, forfeit_reason(before.data)->0, 0))
    } else {
        &&& after.players.0@[i] == p
        &&& r == Seq::<Outgoing>::empty()
    }
}

/// The answer to selecting party position `new` for active slot `active`. The
/// pokemon checked for fainting is the one at party position `active`: when it
/// fainted, `new` replaces it unless `new` already stands in battle; otherwise
/// the choice is only checked.
pub open spec fn pokemon_answer(party: PlayerParty, active: usize, new: usize) -> SelectMessage {
    if active >= party.active@.len() {
        SelectMessage::Request(Some(SelectReason::InvalidInput))
    } else if active >= party.pokemon@.len() {
        SelectMessage::Request(Some(SelectReason::MissingPokemon))
    } else if party.pokemon@[active as int].hp == 0 {
        if !party.holds(new as int) {
            SelectMessage::Confirm(SelectConfirm::Other)
        } else {
            SelectMessage::Request(Some(SelectReason::InvalidInput))
        }
    } else if party.holds(new as int) || new >= party.pokemon@.len() {
        SelectMessage::Request(Some(SelectReason::MissingAction))
    } else {
        SelectMessage::Confirm(SelectConfirm::Other)
    }
}

/// Selecting party position `new` for active slot `active` puts it there.
pub open spec fn replaces(party: PlayerParty, active: usize, new: usize) -> bool {
    &&& active < party.active@.len()
    &&& active < party.pokemon@.len()
    &&& party.pokemon@[active as int].hp == 0
    &&& !party.holds(new as int)
}

/// Player `i` selected party position `new` for active slot `active`: when the
/// selection replaces, the pokemon stands in the slot and is revealed, and the
/// ready players are told; the player is answered in any case.
pub open spec fn pokemon_selected(before: Battle, after: Battle, i: int, active: usize, new: usize, r: Seq<Outgoing>) -> bool {
    let p = before.players.0@[i];
    let answer = Outgoing { to: i as usize, message: ServerMessage::Select(active, pokemon_answer(p.party, active, new)) };
    &&& only_player_changed(before, after, i)
    &&& if replaces(p.party, active, new) {
        let q = after.players.0@[i];
        let known = new < p.party.pokemon@.len();
        &&& same_but_team(q, p)
        &&& q.party.active@ == p.party.active@.update(active as int, Some(ActiveBattlePokemon { index: new, queued_move: None }))
        &&& q.party.pokemon@ == if known {
            p.party.pokemon@.update(new as int, BattlePokemon { revealed: true, ..p.party.pokemon@[new as int] })
        } else {
            p.party.pokemon@
        }
        &&& r == replace_notices(before.players.0@, p.party.id, active, new, known).push(answer)
    } else {
        &&& after.players.0@[i] == p
        &&& r == seq![answer]
    }
}

/// Player `i` selected a move or an item for active slot `active`: a slot
/// that holds a pokemon gets the engine's answer, and the selection is queued
/// unless the answer asks to select again.
pub open spec fn action_selected(before: Battle, after: Battle, i: int, active: usize, selection: BattleSelection, r: Seq<Outgoing>) -> bool {
    let p = before.players.0@[i];
    &&& only_player_changed(before, after, i)
    &&& r.len() == 1
    &&& r[0].to == i
    &&& if active < p.party.active@.len() && p.party.active@[active as int] is Some {
        &&& r[0].message matches ServerMessage::Select(a, answer) && a == active && select_answer(active, selection, p, answer)
            && if answer is Request {
                after.players.0@[i] == p
            } else {
                let q = after.players.0@[i];
                &&& same_but_team(q, p)
                &&& pokemon_after_select(active, selection, p, q.party.pokemon@)
                &&& q.party.active@ == p.party.active@.update(
                    active as int,
                    Some(ActiveBattlePokemon { index: p.party.active@[active as int]->0.index, queued_move: Some(selection) }),
                )
            }
    } else {
        &&& after.players.0@[i] == p
        &&& r[0].message == ServerMessage::Select(active, SelectMessage::Request(Some(
            if active >= p.party.active@.len() { SelectReason::InvalidInput } else { SelectReason::MissingActive },
        )))
    }
}

/// Player `i` asked pokemon `pokemon` to learn move `id`: if the pokemon may
/// learn it, the move is struck off that list, and learnt from the move dex
/// with its full PP, as `with_move` says, when the dex has it.
pub open spec fn move_learnt(
    before: Battle,
    after: Battle,
    i: int,
    pokemon: usize,
    id: firecore_pokedex::moves::MoveId,
    index: Option<usize>,
    dex: Movedex,
) -> bool {
    let p = before.players.0@[i];
    &&& only_player_changed(before, after, i)
    &&& if pokemon < p.party.pokemon@.len() && find_id(p.party.pokemon@[pokemon as int].learnable@, id, 0) is Some {
        let q = after.players.0@[i];
        let before_p = p.party.pokemon@[pokemon as int];
        let after_p = q.party.pokemon@[pokemon as int];
        let k = find_id(before_p.learnable@, id, 0)->0;
        &&& same_but_team(q, p)
        &&& q.party.active@ == p.party.active@
        &&& q.party.pokemon@ == p.party.pokemon@.update(pokemon as int, after_p)
        &&& after_p.learnable@ == before_p.learnable@.remove(k)
        &&& after_p.moves@ == if dex_moves(dex).contains_key(id) {
            with_move(before_p.moves@, index, OwnedMove { id, pp: dex_moves(dex)[id] })
        } else {
            before_p.moves@
        }
        &&& after_p == (BattlePokemon { learnable: after_p.learnable, moves: after_p.moves, ..before_p })
    } else {
        after.players.0@[i] == p
    }
}

/// The same message to every player in play, in order.
pub open spec fn to_in_play(players: Seq<BattlePlayer>, message: ServerMessage) -> Seq<Outgoing>
    decreases players.len(),
{
    if players.len() == 0 {
        Seq::empty()
    } else {
        let rest = to_in_play(players.drop_last(), message);
        if in_play(players.last()) {
            rest.push(Outgoing { to: (players.len() - 1) as usize, message })
        } else {
            rest
        }
    }
}

/// The actions of a turn, `order`, as the players in play selected them: the
/// same actions, sorted by priority, and the players after handing them over.
pub open spec fn turn_of(before: Seq<BattlePlayer>, after: Seq<BattlePlayer>, table: Seq<BattleMove>, order: Seq<Indexed<BattleSelection>>) -> bool {
    &&& order.to_multiset() == all_handed(before).to_multiset()
    &&& exists|q: Seq<QueueEntry>| {
        &&& sorted(q)
        &&& actions(q) == order
        &&& forall|j: int| 0 <= j < q.len() ==> fits_player(#[trigger] q[j], before, table)
    }
    &&& after.len() == before.len()
    &&& forall|i: int| 0 <= i < before.len() ==> dequeued(#[trigger] before[i], after[i])
}

/// The first player in play of team `team` can switch the pokemon in its active slot `slot`.
pub open spec fn can_switch(players: Seq<BattlePlayer>, team: PlayerId, slot: usize) -> bool {
    exists|i: int| first_in_play(players, team, i) && slot < players[i].party.active@.len()
}

/// Party position `new` of the first player in play of team `user.0` took
/// active slot `user.1`: it stands there and is revealed, every player in play
/// is shown it, and the turn's results report the switch.
pub open spec fn switched(
    before: Battle,
    after: Battle,
    user: TeamIndex,
    new: usize,
    r: (Seq<Outgoing>, Indexed<PublicAction>),
) -> bool {
    let i = choose|i: int| first_in_play(before.players.0@, user.0, i);
    let p = before.players.0@[i];
    let q = after.players.0@[i];
    let known = new < p.party.pokemon@.len();
    &&& only_player_changed(before, after, i)
    &&& same_but_team(q, p)
    &&& q.party.active@ == p.party.active@.update(user.1 as int, Some(ActiveBattlePokemon { index: new, queued_move: None }))
    &&& q.party.pokemon@ == if known {
        p.party.pokemon@.update(new as int, BattlePokemon { revealed: true, ..p.party.pokemon@[new as int] })
    } else {
        p.party.pokemon@
    }
    &&& r.0 == if known { to_in_play(before.players.0@, ServerMessage::Reveal(TeamIndex(user.0, new))) } else { Seq::empty() }
    &&& r.1 == Indexed(user, PublicAction::Switch(new))
}

/// What the engine is asked to carry out for an entry of a turn.
#[derive(Debug, Clone, Copy)]
pub enum TurnRequest {
    /// A move, by its user, aimed at an optional target.
    Move(firecore_pokedex::moves::MoveId, TeamIndex, Option<TeamIndex>),
    /// An item, used on a target.
    Item(firecore_pokedex::item::ItemId, TeamIndex),
}

/// What an entry of a turn gives: its announcement, what the engine is to
/// carry out, and for a switch the messages it sends and the switch reported.
#[derive(Debug)]
pub struct TurnStep {
    pub announce: ClientAction,
    pub request: Option<TurnRequest>,
    pub told: Vec<Outgoing>,
    pub switch: Option<Indexed<PublicAction>>,
}

/// How an entry of a turn is announced.
pub open spec fn announced(index: usize, entry: Indexed<BattleSelection>) -> ClientAction {
    ClientAction::Announce(index, Some(entry.0), match entry.1 {
        BattleSelection::Move(id, _) => ClientActionType::Move(id),
        BattleSelection::Item(item) => ClientActionType::Item(item),
        BattleSelection::Pokemon(new) => ClientActionType::Pokemon(new),
    })
}

/// What one update of the battle does.
#[derive(Debug)]
pub struct Step {
    pub messages: Vec<Outgoing>,
    /// The actions of the turn to carry out, in order, when the turn begins.
    pub turn: Option<Vec<Indexed<BattleSelection>>>,
}

/// The first place, at or after `k`, of a player of team `id`.
pub open spec fn first_of_team(players: Seq<BattlePlayer>, id: PlayerId, k: int) -> Option<int>
    decreases players.len() - k,
{
    if k < 0 || k >= players.len() {
        None
    } else if players[k].party.id == id {
        Some(k)
    } else {
        first_of_team(players, id, k + 1)
    }
}

/// For each id in turn, the first player of that team is sent its data and
/// marked ready; the players after that, and the messages sent.
pub open spec fn data_rounds(players: Seq<BattlePlayer>, ids: Seq<PlayerId>) -> (Seq<BattlePlayer>, Seq<Outgoing>)
    decreases ids.len(),
{
    if ids.len() == 0 {
        (players, Seq::empty())
    } else {
        let (now, sent) = data_rounds(players, ids.drop_last());
        match first_of_team(now, ids.last(), 0) {
            Some(k) => (now.update(k, BattlePlayer { ready: true, ..now[k] }), sent + data_notices(now, k)),
            None => (now, sent),
        }
    }
}

impl Battle {
    /// A battle in its starting state, with the players that join it.
    pub fn new(data: BattleData, players: Vec<PlayerData>) -> (r: Self)
        ensures
            r.state is Start,
            r.data == data,
            r.players.0@.len() == players@.len(),
            forall|i: int| 0 <= i < players@.len() ==> initialized(players@[i], data.active, #[trigger] r.players.0@[i]),
    {
        let mut joined: Vec<BattlePlayer> = Vec::new();
        let mut players = players;
        let ghost given = players@;
        let total = players.len();
        let mut taken: usize = 0;
        while players.len() > 0
            invariant
                given.len() == total,
                taken + players@.len() == given.len(),
                players@ == given.subrange(taken as int, given.len() as int),
                joined@.len() == taken,
                forall|i: int| 0 <= i < taken ==> initialized(given[i], data.active, #[trigger] joined@[i]),
            decreases players@.len(),
        {
            let next = players.remove(0);
            assert(next == given[taken as int]);
            joined.push(next.init(data.active));
            taken = taken + 1;
            assert(players@ =~= given.subrange(taken as int, given.len() as int));
        }
        Battle { state: BattleState::Start, data, players: PlayerQuery(joined) }
    }

    /// Start over with no players.
    pub fn reset(&mut self)
        ensures
            final(self).state is Start,
            final(self).data == old(self).data,
            final(self).players.0@ == Seq::<BattlePlayer>::empty(),
    {
        self.players.0.clear();
        self.state = BattleState::Start;
    }

    /// The battle data, to change.
    pub fn get_data_mut(&mut self) -> (r: &mut BattleData)
        ensures
            *r == old(self).data,
            final(self).data == *final(r),
            final(self).state == old(self).state,
            final(self).players == old(self).players,
    {
        &mut self.data
    }

    /// Add players to the battle. Each new player, in order, is looked up by
    /// its id among all the players (the first with that id is found), and
    /// that player is sent its data and marked ready.
    pub fn add_players(&mut self, players: Vec<PlayerData>) -> (r: Vec<Outgoing>)
        ensures
            final(self).state == old(self).state,
            final(self).data == old(self).data,
            exists|joined: Seq<BattlePlayer>| {
                &&& joined.len() == old(self).players.0@.len() + players@.len()
                &&& joined.take(old(self).players.0@.len() as int) == old(self).players.0@
                &&& forall|m: int| 0 <= m < players@.len()
                    ==> initialized(players@[m], old(self).data.active, #[trigger] joined[old(self).players.0@.len() + m])
                &&& (final(self).players.0@, r@) == data_rounds(joined, players@.map_values(|d: PlayerData| d.id))
            },
    {
        let ghost p0 = self.players.0@;
        let ghost given = players@;
        let ghost ids = players@.map_values(|d: PlayerData| d.id);
        let mut new_ids: Vec<PlayerId> = Vec::new();
        let mut players = players;
        let total = players.len();
        let mut taken: usize = 0;
        while players.len() > 0
            invariant
                given.len() == total,
                taken + players@.len() == given.len(),
                players@ == given.subrange(taken as int, given.len() as int),
                self.players.0@.len() == p0.len() + taken,
                self.players.0@.take(p0.len() as int) == p0,
                forall|m: int| 0 <= m < taken ==> initialized(given[m], self.data.active, #[trigger] self.players.0@[p0.len() + m]),
                new_ids@ == ids.take(taken as int),
                ids == given.map_values(|d: PlayerData| d.id),
                self.state == old(self).state,
                self.data == old(self).data,
            decreases players@.len(),
        {
            let next = players.remove(0);
            assert(next == given[taken as int]);
            new_ids.push(next.id);
            let ghost before = self.players.0@;
            self.players.0.push(next.init(self.data.active));
            proof {
                assert(self.players.0@.take(p0.len() as int) =~= before.take(p0.len() as int));
                assert(new_ids@ =~= ids.take(taken + 1));
            }
            taken = taken + 1;
            assert(players@ =~= given.subrange(taken as int, given.len() as int));
        }
        let ghost joined = self.players.0@;
        assert(new_ids@ =~= ids);
        let mut r: Vec<Outgoing> = Vec::new();
        let mut m: usize = 0;
        while m < new_ids.len()
            invariant
                m <= new_ids@.len(),
                (self.players.0@, r@) == data_rounds(joined, new_ids@.take(m as int)),
                self.players.0@.len() == joined.len(),
                self.state == old(self).state,
                self.data == old(self).data,
            decreases new_ids@.len() - m,
        {
            assert(new_ids@.take(m + 1).drop_last() =~= new_ids@.take(m as int));
            let id = new_ids[m];
            let ghost cur = self.players.0@;
            let mut k: usize = 0;
            while k < self.players.0.len() && self.players.0[k].party.id != id
                invariant
                    k <= cur.len(),
                    self.players.0@ == cur,
                    first_of_team(cur, id, 0) == first_of_team(cur, id, k as int),
                decreases cur.len() - k,
            {
                k = k + 1;
            }
            if k < self.players.0.len() {
                assert(first_of_team(cur, id, k as int) == Some(k as int));
                let mut told = self.send_player_data(k);
                r.append(&mut told);
            } else {
                assert(first_of_team(cur, id, k as int) is None);
            }
            m = m + 1;
        }
        assert(new_ids@.take(new_ids@.len() as int) =~= new_ids@);
        r
    }

    /// The battle data.
    pub fn data(&self) -> (r: &BattleData)
        ensures
            *r == self.data,
    {
        &self.data
    }

    /// The winner, once the battle is over: `Some(None)` when nobody won.
    pub fn winner(&self) -> (r: Option<Option<PlayerId>>)
        ensures
            r == (match self.state {
                BattleState::Winner(w) => Some(w),
                _ => None,
            }),
    {
        match self.state {
            BattleState::Winner(w) => Some(w),
            _ => None,
        }
    }

    /// Whether the battle is still going on.
    pub fn running(&self) -> (r: bool)
        ensures
            r == !(self.state is Winner),
    {
        match self.state {
            BattleState::Winner(_) => false,
            _ => true,
        }
    }

    /// Notify the ready players of a replacement.
    fn replace_messages(&self, id: PlayerId, active: usize, new: usize, revealed: bool) -> (r: Vec<Outgoing>)
        ensures
            r@ == replace_notices(self.players.0@, id, active, new, revealed),
    {
        let players = &self.players.0;
        let mut r: Vec<Outgoing> = Vec::new();
        let mut j: usize = 0;
        while j < players.len()
            invariant
                j <= players@.len(),
                r@ == replace_notices(players@.take(j as int), id, active, new, revealed),
            decreases players@.len() - j,
        {
            assert(players@.take(j + 1).drop_last() =~= players@.take(j as int));
            let ghost before = r@;
            if players[j].ready {
                if id != players[j].party.id && revealed {
                    r.push(Outgoing { to: j, message: ServerMessage::Reveal(TeamIndex(id, new)) });
                }
                r.push(Outgoing { to: j, message: ServerMessage::Replace(Indexed(TeamIndex(id, active), new)) });
                proof {
                    let reveal = if id != players@[j as int].party.id && revealed {
                        seq![Outgoing { to: j, message: ServerMessage::Reveal(TeamIndex(id, new)) }]
                    } else {
                        Seq::empty()
                    };
                    assert(r@ =~= before + reveal + seq![Outgoing { to: j, message: ServerMessage::Replace(Indexed(TeamIndex(id, active), new)) }]);
                }
            }
            j = j + 1;
        }
        assert(players@.take(players@.len() as int) =~= players@);
        r
    }

    /// The same message to every player.
    fn tell_all(&self, message: ServerMessage) -> (r: Vec<Outgoing>)
        ensures
            r@ == to_all(self.players.0@.len(), message),
    {
        let mut r: Vec<Outgoing> = Vec::new();
        let mut j: usize = 0;
        while j < self.players.0.len()
            invariant
                j <= self.players.0@.len(),
                r@ == to_all(j as nat, message),
            decreases self.players.0@.len() - j,
        {
            r.push(Outgoing { to: j, message });
            assert(r@ =~= to_all((j + 1) as nat, message));
            j = j + 1;
        }
        r
    }

    /// The same message to every ready player.
    fn tell_ready(&self, message: ServerMessage) -> (r: Vec<Outgoing>)
        ensures
            r@ == to_ready(self.players.0@, message),
    {
        let players = &self.players.0;
        let mut r: Vec<Outgoing> = Vec::new();
        let mut j: usize = 0;
        while j < players.len()
            invariant
                j <= players@.len(),
                r@ == to_ready(players@.take(j as int), message),
            decreases players@.len() - j,
        {
            assert(players@.take(j + 1).drop_last() =~= players@.take(j as int));
            if players[j].ready {
                r.push(Outgoing { to: j, message });
            }
            j = j + 1;
        }
        assert(players@.take(players@.len() as int) =~= players@);
        r
    }

    /// End the battle with an optional winner, and tell every player.
    pub fn end(&mut self, winner: Option<PlayerId>) -> (r: Vec<Outgoing>)
        ensures
            final(self).state == BattleState::Winner(winner),
            final(self).data == old(self).data,
            final(self).players.0@ == old(self).players.0@,
            r@ == to_all(old(self).players.0@.len(), ServerMessage::End(winner)),
    {
        let r = self.tell_all(ServerMessage::End(winner));
        self.state = BattleState::Winner(winner);
        r
    }

    /// How many players are in play, and the first of them.
    fn players_left(&self) -> (r: (usize, Option<PlayerId>))
        ensures
            r.0 == in_play_count(self.players.0@),
            r.1 == first_in_play_id(self.players.0@),
    {
        let players = &self.players.0;
        let mut count: usize = 0;
        let mut first: Option<PlayerId> = None;
        let mut j: usize = 0;
        while j < players.len()
            invariant
                j <= players@.len(),
                count == in_play_count(players@.take(j as int)),
                count <= j,
                first == first_in_play_id(players@.take(j as int)),
            decreases players@.len() - j,
        {
            assert(players@.take(j + 1).drop_last() =~= players@.take(j as int));
            if players[j].removed.is_none() && players[j].ready {
                if first.is_none() {
                    first = Some(players[j].party.id);
                }
                count = count + 1;
            }
            j = j + 1;
        }
        assert(players@.take(players@.len() as int) =~= players@);
        (count, first)
    }

    /// End the battle once at most one player is in play; the one left, if
    /// any, wins.
    fn check_win(&mut self) -> (r: Vec<Outgoing>)
        ensures
            final(self).data == old(self).data,
            final(self).players.0@ == old(self).players.0@,
            (final(self).state, r@) == win_check(old(self).players.0@, old(self).state),
    {
        let (count, first) = self.players_left();
        if count <= 1 {
            self.end(first)
        } else {
            Vec::new()
        }
    }

    /// Take the first player in play with the given id out of the battle, and
    /// tell every player.
    pub fn remove(&mut self, id: PlayerId, reason: RemovalReason) -> (r: Vec<Outgoing>)
        ensures
            final(self).state == old(self).state,
            final(self).data == old(self).data,
            (final(self).players.0@, r@) == removal(old(self).players.0@, id, reason),
    {
        let ghost p0 = self.players.0@;
        match self.players.position(id) {
            Some(i) => {
                proof {
                    assert(first_in_play(p0, id, i as int));
                    let k = choose|k: int| first_in_play(p0, id, k);
                    crate::target::lemma_first_in_play_unique(p0, id, i as int, k);
                }
                self.players.0[i].removed = Some(reason);
                assert(self.players.0@ =~= p0.update(i as int, BattlePlayer { removed: Some(reason), ..p0[i as int] }));
                self.tell_all(ServerMessage::Remove(id, reason, 0))
            },
            None => {
                proof {
                    assert forall|k: int| !first_in_play(p0, id, k) by {
                        if 0 <= k < p0.len() {
                            assert(!(in_play(p0[k]) && p0[k].party.id == id));
                        }
                    }
                }
                Vec::new()
            },
        }
    }

    /// Take every player that has lost out of the battle, in order.
    fn check_loss(&mut self) -> (r: Vec<Outgoing>)
        ensures
            final(self).state == old(self).state,
            final(self).data == old(self).data,
            (final(self).players.0@, r@) == losses(old(self).players.0@, 0),
    {
        let ghost p0 = self.players.0@;
        let mut r: Vec<Outgoing> = Vec::new();
        let mut i: usize = 0;
        while i < self.players.0.len()
            invariant
                i <= self.players.0@.len(),
                self.players.0@.len() == p0.len(),
                self.state == old(self).state,
                self.data == old(self).data,
                losses(p0, 0) == (losses(self.players.0@, i as int).0, r@ + losses(self.players.0@, i as int).1),
            decreases p0.len() - i,
        {
            let ghost cur = self.players.0@;
            let ghost r0 = r@;
            let player = &self.players.0[i];
            if player.removed.is_none() && (player.party.all_fainted() || player.party.all_moves_empty()) {
                let id = player.party.id;
                let mut told = self.remove(id, RemovalReason::Loss);
                proof {
                    let step = removal(cur, id, RemovalReason::Loss);
                    if exists|k: int| first_in_play(cur, id, k) {
                        let k = choose|k: int| first_in_play(cur, id, k);
                        assert(step.0.len() == cur.len());
                    }
                    assert(r0 + (step.1 + losses(step.0, i + 1).1) =~= (r0 + step.1) + losses(step.0, i + 1).1);
                }
                r.append(&mut told);
            } else {
                proof {
                    assert(r0 + (Seq::<Outgoing>::empty() + losses(cur, i + 1).1) =~= r0 + losses(cur, i + 1).1);
                }
            }
            i = i + 1;
        }
        proof {
            assert(r@ + Seq::<Outgoing>::empty() =~= r@);
        }
        r
    }

    /// Move on to the turn once every player in play has selected.
    #[verifier::loop_isolation(false)]
    fn wait_select(&mut self)
        ensures
            final(self).data == old(self).data,
            final(self).players.0@ == old(self).players.0@,
            final(self).state == if all_selected(old(self).players.0@) { BattleState::Moves(false) } else { old(self).state },
    {
        let players = &self.players.0;
        let mut j: usize = 0;
        while j < players.len()
            invariant
                j <= players@.len(),
                forall|k: int| 0 <= k < j && in_play(#[trigger] players@[k]) ==> players@[k].party.ready(),
            decreases players@.len() - j,
        {
            if players[j].removed.is_none() && players[j].ready && !players[j].party.ready_to_move() {
                assert(in_play(players@[j as int]));
                return;
            }
            j = j + 1;
        }
        self.state = BattleState::Moves(false);
    }

    /// Move on to selecting once no player in play has a slot left to fill.
    #[verifier::loop_isolation(false)]
    fn wait_moves(&mut self)
        ensures
            final(self).data == old(self).data,
            final(self).players.0@ == old(self).players.0@,
            final(self).state == if all_replaced(old(self).players.0@) { BattleState::Selecting(false) } else { old(self).state },
    {
        let players = &self.players.0;
        let mut j: usize = 0;
        while j < players.len()
            invariant
                j <= players@.len(),
                forall|k: int| 0 <= k < j && in_play(#[trigger] players@[k]) ==> !players@[k].party.replace_needed(),
            decreases players@.len() - j,
        {
            if players[j].removed.is_none() && players[j].ready && players[j].party.needs_replace() {
                assert(in_play(players@[j as int]));
                return;
            }
            j = j + 1;
        }
        self.state = BattleState::Selecting(false);
    }

    /// Ask every player in play to select for each of its pokemon in battle.
    fn send_select(&self) -> (r: Vec<Outgoing>)
        ensures
            r@ == select_requests(self.players.0@),
    {
        let players = &self.players.0;
        let mut r: Vec<Outgoing> = Vec::new();
        let mut j: usize = 0;
        while j < players.len()
            invariant
                j <= players@.len(),
                r@ == select_requests(players@.take(j as int)),
            decreases players@.len() - j,
        {
            assert(players@.take(j + 1).drop_last() =~= players@.take(j as int));
            let player = &players[j];
            if player.removed.is_none() && player.ready {
                let active = &player.party.active;
                let ghost before = r@;
                let mut a: usize = 0;
                while a < active.len()
                    invariant
                        j < players@.len(),
                        active@ == players@[j as int].party.active@,
                        a <= active@.len(),
                        r@ == before + slot_requests(active@, j, a as int),
                    decreases active@.len() - a,
                {
                    if active[a].is_some() {
                        r.push(Outgoing { to: j, message: ServerMessage::Select(a, SelectMessage::Request(None)) });
                    }
                    proof {
                        assert(r@ =~= before + slot_requests(active@, j, a + 1));
                    }
                    a = a + 1;
                }
            }
            j = j + 1;
        }
        assert(players@.take(players@.len() as int) =~= players@);
        r
    }

    /// Send player `k` its data and the opponents it faces, and mark it ready.
    fn send_player_data(&mut self, k: usize) -> (r: Vec<Outgoing>)
        requires
            k < old(self).players.0@.len(),
        ensures
            final(self).state == old(self).state,
            final(self).data == old(self).data,
            r@ == data_notices(old(self).players.0@, k as int),
            final(self).players.0@ == old(self).players.0@.update(k as int, BattlePlayer { ready: true, ..old(self).players.0@[k as int] }),
    {
        let ghost p0 = self.players.0@;
        let id = self.players.0[k].party.id;
        let mut r: Vec<Outgoing> = Vec::new();
        r.push(Outgoing { to: k, message: ServerMessage::PlayerData });
        let ghost with_data = r@;
        let mut o: usize = 0;
        while o < self.players.0.len()
            invariant
                k < p0.len(),
                o <= p0.len(),
                self.players.0@ == p0,
                id == p0[k as int].party.id,
                with_data == seq![Outgoing { to: k, message: ServerMessage::PlayerData }],
                r@ == with_data + opponent_notices(p0, id, k, o as int),
            decreases p0.len() - o,
        {
            let other = &self.players.0[o];
            if other.removed.is_none() && other.party.id != id {
                r.push(Outgoing { to: k, message: ServerMessage::AddOpponent(o) });
            }
            proof {
                assert(r@ =~= with_data + opponent_notices(p0, id, k, o + 1));
            }
            o = o + 1;
        }
        self.players.0[k].ready = true;
        assert(self.players.0@ =~= p0.update(k as int, BattlePlayer { ready: true, ..p0[k as int] }));
        r
    }

    /// Send every player that is not removed its data and its opponents, and
    /// mark it ready.
    fn send_all_player_data(&mut self) -> (r: Vec<Outgoing>)
        ensures
            final(self).state == old(self).state,
            final(self).data == old(self).data,
            r@ == player_data_notices(old(self).players.0@, old(self).players.0@.len() as int),
            final(self).players.0@.len() == old(self).players.0@.len(),
            forall|i: int| 0 <= i < old(self).players.0@.len() ==> #[trigger] final(self).players.0@[i] == readied(old(self).players.0@[i]),
    {
        let ghost p0 = self.players.0@;
        let mut r: Vec<Outgoing> = Vec::new();
        let mut j: usize = 0;
        while j < self.players.0.len()
            invariant
                j <= self.players.0@.len(),
                self.players.0@.len() == p0.len(),
                self.state == old(self).state,
                self.data == old(self).data,
                r@ == player_data_notices(p0, j as int),
                forall|i: int| 0 <= i < j ==> #[trigger] self.players.0@[i] == readied(p0[i]),
                forall|i: int| j <= i < p0.len() ==> #[trigger] self.players.0@[i] == p0[i],
            decreases p0.len() - j,
        {
            if self.players.0[j].removed.is_none() {
                let ghost cur = self.players.0@;
                let mut told = self.send_player_data(j);
                proof {
                    assert forall|i: int| 0 <= i < p0.len() implies (#[trigger] cur[i]).removed == p0[i].removed
                        && cur[i].party.id == p0[i].party.id by {
                        if i < j {
                            assert(cur[i] == readied(p0[i]));
                        } else {
                            assert(cur[i] == p0[i]);
                        }
                    }
                    lemma_opponent_notices_same(cur, p0, p0[j as int].party.id, j, p0.len() as int);
                }
                r.append(&mut told);
                proof {
                    assert(r@ =~= player_data_notices(p0, j + 1));
                }
            }
            j = j + 1;
        }
        r
    }

    /// Player `i` tries to forfeit.
    fn forfeit(&mut self, i: usize) -> (r: Vec<Outgoing>)
        requires
            i < old(self).players.0@.len(),
        ensures
            forfeited(*old(self), *final(self), i as int, r@),
    {
        let ghost b0 = *self;
        if self.players.0[i].removed.is_none() {
            let reason = match self.data.versus {
                VersusType::Wild => Some(RemovalReason::Run),
                _ => if self.data.settings.allow_forfeit { Some(RemovalReason::Loss) } else { None },
            };
            if let Some(reason) = reason {
                let id = self.players.0[i].party.id;
                self.players.0[i].removed = Some(reason);
                assert(self.players.0@ =~= b0.players.0@.update(i as int, BattlePlayer { removed: Some(reason), ..b0.players.0@[i as int] }));
                return self.tell_all(ServerMessage::Remove(id, reason, 0));
            }
        }
        Vec::new()
    }

    /// Player `i` asks pokemon `pokemon` of its party to learn move `id`, in
    /// place of the move at `index` once all its slots are taken.
    fn learn_move(
        &mut self,
        i: usize,
        pokemon: usize,
        id: firecore_pokedex::moves::MoveId,
        index: Option<usize>,
        movedex: &Movedex,
    ) -> (r: Vec<Outgoing>)
        requires
            i < old(self).players.0@.len(),
        ensures
            move_learnt(*old(self), *final(self), i as int, pokemon, id, index, *movedex),
            r@ == Seq::<Outgoing>::empty(),
    {
        let ghost b0 = *self;
        if pokemon < self.players.0[i].party.pokemon.len() && self.players.0[i].party.pokemon[pokemon].can_learn(&id) {
            let found = dex_move_pp(movedex, &id);
            let player = &mut self.players.0[i];
            let target = &mut player.party.pokemon[pokemon];
            target.forget_learnable(&id);
            if let Some(pp) = found {
                target.add_move(index, OwnedMove { id, pp });
            }
        }
        Vec::new()
    }

    /// Player `i` selects party position `new` for active slot `active`.
    fn select_pokemon(&mut self, i: usize, active: usize, new: usize) -> (r: Vec<Outgoing>)
        requires
            i < old(self).players.0@.len(),
        ensures
            pokemon_selected(*old(self), *final(self), i as int, active, new, r@),
    {
        let ghost b0 = *self;
        let answer = if active < self.players.0[i].party.active.len() {
            if active < self.players.0[i].party.pokemon.len() {
                if self.players.0[i].party.pokemon[active].fainted() {
                    if !self.players.0[i].party.active_contains(new) {
                        let id = self.players.0[i].party.id;
                        let known = new < self.players.0[i].party.pokemon.len();
                        let mut r = self.replace_messages(id, active, new, known);
                        let player = &mut self.players.0[i];
                        player.party.active.set(active, Some(ActiveBattlePokemon::from_index(new)));
                        if known {
                            player.party.pokemon[new].make_known();
                        }
                        r.push(Outgoing { to: i, message: ServerMessage::Select(active, SelectMessage::Confirm(SelectConfirm::Other)) });
                        return r;
                    } else {
                        SelectMessage::Request(Some(SelectReason::InvalidInput))
                    }
                } else if self.players.0[i].party.active_contains(new) || new >= self.players.0[i].party.pokemon.len() {
                    SelectMessage::Request(Some(SelectReason::MissingAction))
                } else {
                    SelectMessage::Confirm(SelectConfirm::Other)
                }
            } else {
                SelectMessage::Request(Some(SelectReason::MissingPokemon))
            }
        } else {
            SelectMessage::Request(Some(SelectReason::InvalidInput))
        };
        let mut r: Vec<Outgoing> = Vec::new();
        r.push(Outgoing { to: i, message: ServerMessage::Select(active, answer) });
        r
    }

    /// Player `i` selects a move or an item for active slot `active`.
    fn select_action(&mut self, i: usize, active: usize, selection: BattleSelection) -> (r: Vec<Outgoing>)
        requires
            i < old(self).players.0@.len(),
            !(selection is Pokemon),
        ensures
            action_selected(*old(self), *final(self), i as int, active, selection, r@),
    {
        let ghost b0 = *self;
        let answer = if active < self.players.0[i].party.active.len() {
            if self.players.0[i].party.active[active].is_some() {
                let answer = select(active, &selection, &mut self.players.0[i]);
                match answer {
                    SelectMessage::Request(_) => {},
                    _ => {
                        let index = self.players.0[i].party.active[active].unwrap().index;
                        let player = &mut self.players.0[i];
                        player.party.active.set(active, Some(ActiveBattlePokemon { index, queued_move: Some(selection) }));
                    },
                }
                answer
            } else {
                SelectMessage::Request(Some(SelectReason::MissingActive))
            }
        } else {
            SelectMessage::Request(Some(SelectReason::InvalidInput))
        };
        let mut r: Vec<Outgoing> = Vec::new();
        r.push(Outgoing { to: i, message: ServerMessage::Select(active, answer) });
        r
    }

    /// Handle a message from player `i`, and give the messages it sends in
    /// return.
    pub fn receive(&mut self, i: usize, message: ClientMessage, movedex: &Movedex) -> (r: Vec<Outgoing>)
        requires
            i < old(self).players.0@.len(),
        ensures
            match message {
                ClientMessage::Select(active, BattleSelection::Pokemon(new)) => pokemon_selected(*old(self), *final(self), i as int, active, new, r@),
                ClientMessage::Select(active, selection) => action_selected(*old(self), *final(self), i as int, active, selection, r@),
                ClientMessage::TryForfeit => forfeited(*old(self), *final(self), i as int, r@),
                ClientMessage::LearnMove(pokemon, id, index) => move_learnt(*old(self), *final(self), i as int, pokemon, id, index, *movedex)
                    && r@ == Seq::<Outgoing>::empty(),
            },
    {
        match message {
            ClientMessage::Select(active, BattleSelection::Pokemon(new)) => self.select_pokemon(i, active, new),
            ClientMessage::Select(active, selection) => self.select_action(i, active, selection),
            ClientMessage::TryForfeit => self.forfeit(i),
            ClientMessage::LearnMove(pokemon, id, index) => self.learn_move(i, pokemon, id, index, movedex),
        }
    }

    /// The same message to every player in play.
    fn tell_in_play(&self, message: ServerMessage) -> (r: Vec<Outgoing>)
        ensures
            r@ == to_in_play(self.players.0@, message),
    {
        let players = &self.players.0;
        let mut r: Vec<Outgoing> = Vec::new();
        let mut j: usize = 0;
        while j < players.len()
            invariant
                j <= players@.len(),
                r@ == to_in_play(players@.take(j as int), message),
            decreases players@.len() - j,
        {
            assert(players@.take(j + 1).drop_last() =~= players@.take(j as int));
            if players[j].removed.is_none() && players[j].ready {
                r.push(Outgoing { to: j, message });
            }
            j = j + 1;
        }
        assert(players@.take(players@.len() as int) =~= players@);
        r
    }

    /// Whether the pokemon at team slot `t` is in battle.
    pub fn in_battle(&self, t: TeamIndex) -> (r: bool)
        ensures
            r == in_battle(self.players.0@, t),
    {
        pokemon_in_battle(&self.players, t).is_some()
    }

    /// The `index`th entry of a turn: it is announced; a move is handed to the
    /// engine when its user is in battle, an item always; a switch is carried out.
    pub fn turn_step(&mut self, index: usize, entry: Indexed<BattleSelection>) -> (r: TurnStep)
        requires
            entry.1 is Pokemon ==> can_switch(old(self).players.0@, entry.0.0, entry.0.1),
        ensures
            r.announce == announced(index, entry),
            match entry.1 {
                BattleSelection::Move(id, target) => {
                    &&& r.request == if in_battle(old(self).players.0@, entry.0) {
                        Some(TurnRequest::Move(id, entry.0, target))
                    } else {
                        None::<TurnRequest>
                    }
                    &&& *final(self) == *old(self)
                    &&& r.told@.len() == 0
                    &&& r.switch is None
                },
                BattleSelection::Item(Indexed(target, id)) => {
                    &&& r.request == Some(TurnRequest::Item(id, target))
                    &&& *final(self) == *old(self)
                    &&& r.told@.len() == 0
                    &&& r.switch is None
                },
                BattleSelection::Pokemon(new) => {
                    &&& r.request is None
                    &&& r.switch matches Some(sw) && switched(*old(self), *final(self), entry.0, new, (r.told@, sw))
                },
            },
    {
        let user = entry.0;
        match entry.1 {
            BattleSelection::Move(id, target) => {
                let request = if self.in_battle(user) { Some(TurnRequest::Move(id, user, target)) } else { None };
                TurnStep {
                    announce: ClientAction::Announce(index, Some(user), ClientActionType::Move(id)),
                    request,
                    told: Vec::new(),
                    switch: None,
                }
            },
            BattleSelection::Item(Indexed(target, id)) => TurnStep {
                announce: ClientAction::Announce(index, Some(user), ClientActionType::Item(Indexed(target, id))),
                request: Some(TurnRequest::Item(id, target)),
                told: Vec::new(),
                switch: None,
            },
            BattleSelection::Pokemon(new) => {
                let (told, switch) = self.switch_in(user, new);
                TurnStep {
                    announce: ClientAction::Announce(index, Some(user), ClientActionType::Pokemon(new)),
                    request: None,
                    told,
                    switch: Some(switch),
                }
            },
        }
    }

    /// Carry out a switch of the turn: party position `new` of the user's team
    /// takes the user's active slot.
    pub fn switch_in(&mut self, user: TeamIndex, new: usize) -> (r: (Vec<Outgoing>, Indexed<PublicAction>))
        requires
            can_switch(old(self).players.0@, user.0, user.1),
        ensures
            switched(*old(self), *final(self), user, new, (r.0@, r.1)),
    {
        let ghost b0 = *self;
        let i = match self.players.position(user.0) {
            Some(i) => i,
            None => {
                proof {
                    let k = choose|k: int| first_in_play(b0.players.0@, user.0, k) && user.1 < b0.players.0@[k].party.active@.len();
                    assert(!(in_play(b0.players.0@[k]) && b0.players.0@[k].party.id == user.0));
                }
                return (Vec::new(), Indexed(user, PublicAction::Switch(new)));
            },
        };
        proof {
            let k = choose|k: int| first_in_play(b0.players.0@, user.0, k) && user.1 < b0.players.0@[k].party.active@.len();
            crate::target::lemma_first_in_play_unique(b0.players.0@, user.0, i as int, k);
            let c = choose|c: int| first_in_play(b0.players.0@, user.0, c);
            crate::target::lemma_first_in_play_unique(b0.players.0@, user.0, i as int, c);
        }
        let known = new < self.players.0[i].party.pokemon.len();
        let messages = if known {
            self.tell_in_play(ServerMessage::Reveal(TeamIndex(user.0, new)))
        } else {
            Vec::new()
        };
        let player = &mut self.players.0[i];
        let ghost active0 = player.party.active@;
        player.party.replace(user.1, Some(new));
        assert(player.party.active@ =~= active0.update(user.1 as int, Some(ActiveBattlePokemon { index: new, queued_move: None })));
        if known {
            player.party.pokemon[new].make_known();
        }
        (messages, Indexed(user, PublicAction::Switch(new)))
    }

    /// One step of the battle. It starts by sending the players their data;
    /// then it asks for selections and waits for them; then it hands out the
    /// turn to carry out, and (once the turn was carried out, see `finish_turn`)
    /// waits for fainted pokemon to be replaced before asking again. While
    /// selecting and waiting, the battle ends once at most one player is in play.
    pub fn update(&mut self, table: &Vec<BattleMove>, random: &mut rand::rngs::StdRng) -> (r: Step)
        requires
            old(self).state == BattleState::Moves(false) ==> no_clashing_selections(old(self).players.0@)
                && moves_fit_queue(old(self).players.0@, table@),
        ensures
            final(self).data == old(self).data,
            match old(self).state {
                BattleState::Start => {
                    &&& final(self).state == BattleState::Selecting(false)
                    &&& final(self).players.0@.len() == old(self).players.0@.len()
                    &&& forall|i: int| 0 <= i < old(self).players.0@.len()
                        ==> #[trigger] final(self).players.0@[i] == readied(old(self).players.0@[i])
                    &&& r.messages@ == player_data_notices(old(self).players.0@, old(self).players.0@.len() as int)
                    &&& r.turn is None
                },
                BattleState::Selecting(false) => {
                    let (state, end) = win_check(old(self).players.0@, BattleState::Selecting(true));
                    &&& final(self).state == state
                    &&& final(self).players.0@ == old(self).players.0@
                    &&& r.messages@ == select_requests(old(self).players.0@) + end
                    &&& r.turn is None
                },
                BattleState::Selecting(true) => {
                    let next = if all_selected(old(self).players.0@) { BattleState::Moves(false) } else { old(self).state };
                    let (state, end) = win_check(old(self).players.0@, next);
                    &&& final(self).state == state
                    &&& final(self).players.0@ == old(self).players.0@
                    &&& r.messages@ == end
                    &&& r.turn is None
                },
                BattleState::Moves(false) => {
                    &&& final(self).state == BattleState::Moves(true)
                    &&& r.messages@ == Seq::<Outgoing>::empty()
                    &&& r.turn matches Some(order) && turn_of(old(self).players.0@, final(self).players.0@, table@, order@)
                },
                BattleState::Moves(true) => {
                    let next = if all_replaced(old(self).players.0@) { BattleState::Selecting(false) } else { old(self).state };
                    let (state, end) = win_check(old(self).players.0@, next);
                    &&& final(self).state == state
                    &&& final(self).players.0@ == old(self).players.0@
                    &&& r.messages@ == end
                    &&& r.turn is None
                },
                BattleState::Winner(_) => {
                    &&& final(self).state == old(self).state
                    &&& final(self).players.0@ == old(self).players.0@
                    &&& r.messages@ == Seq::<Outgoing>::empty()
                    &&& r.turn is None
                },
            },
    {
        match self.state {
            BattleState::Start => {
                let messages = self.send_all_player_data();
                self.state = BattleState::Selecting(false);
                Step { messages, turn: None }
            },
            BattleState::Selecting(false) => {
                self.state = BattleState::Selecting(true);
                let mut messages = self.send_select();
                let mut end = self.check_win();
                messages.append(&mut end);
                Step { messages, turn: None }
            },
            BattleState::Selecting(true) => {
                self.wait_select();
                let messages = self.check_win();
                Step { messages, turn: None }
            },
            BattleState::Moves(false) => {
                self.state = BattleState::Moves(true);
                let order = move_queue(&mut self.players, table, random);
                Step { messages: Vec::new(), turn: Some(order) }
            },
            BattleState::Moves(true) => {
                self.wait_moves();
                let messages = self.check_win();
                Step { messages, turn: None }
            },
            BattleState::Winner(_) => Step { messages: Vec::new(), turn: None },
        }
    }

    /// Once the turn was carried out: send its results to the ready players,
    /// take every player that has lost out of the battle, and end the battle
    /// once at most one player is in play.
    pub fn finish_turn(&mut self) -> (r: Vec<Outgoing>)
        ensures
            final(self).data == old(self).data,
            ({
                let (players, lost) = losses(old(self).players.0@, 0);
                let (state, end) = win_check(players, old(self).state);
                &&& final(self).players.0@ == players
                &&& final(self).state == state
                &&& r@ == to_ready(old(self).players.0@, ServerMessage::Results) + lost + end
            }),
    {
        let mut messages = self.tell_ready(ServerMessage::Results);
        let mut lost = self.check_loss();
        let mut end = self.check_win();
        messages.append(&mut lost);
        messages.append(&mut end);
        messages
    }
}

/// The battle has a winner after a check exactly when it had one before or at
/// most one player is in play; a battle that has a winner keeps having one.
pub proof fn lemma_win_check_ends(players: Seq<BattlePlayer>, state: BattleState)
    ensures
        win_check(players, state).0 is Winner <==> (state is Winner || in_play_count(players) <= 1),
        state is Winner ==> win_check(players, state).0 is Winner,
{
}

/// The first player in play is in play, and there is one exactly when some
/// player is in play.
pub proof fn lemma_first_in_play_id(players: Seq<BattlePlayer>)
    ensures
        first_in_play_id(players) is Some <==> in_play_count(players) > 0,
        first_in_play_id(players) is Some ==> exists|i: int|
            0 <= i < players.len() && in_play(players[i]) && players[i].party.id == first_in_play_id(players)->0,
    decreases players.len(),
{
    if players.len() > 0 {
        lemma_first_in_play_id(players.drop_last());
        if first_in_play_id(players.drop_last()) is Some {
            let id = first_in_play_id(players.drop_last())->0;
            let i = choose|i: int| 0 <= i < players.drop_last().len() && in_play(players.drop_last()[i]) && players.drop_last()[i].party.id == id;
            assert(players[i] == players.drop_last()[i]);
        }
    }
}

/// A player that left the battle never comes back: removing a player changes
/// nothing but the removal of one player in play, and tells every player.
pub proof fn lemma_removal_permanent(players: Seq<BattlePlayer>, id: PlayerId, reason: RemovalReason, i: int)
    requires
        0 <= i < players.len(),
    ensures
        removal(players, id, reason).0.len() == players.len(),
        players[i].removed is Some ==> removal(players, id, reason).0[i] == players[i],
        removal(players, id, reason).0[i] == players[i]
            || removal(players, id, reason).0[i] == (BattlePlayer { removed: Some(reason), ..players[i] }),
{
    if exists|k: int| first_in_play(players, id, k) {
        let k = choose|k: int| first_in_play(players, id, k);
        assert(0 <= k < players.len());
    }
}

/// Checking for losses leaves the players as they were but for some removals:
/// no player comes back, and only players in play of a team that lost leave.
pub proof fn lemma_losses_only_remove(players: Seq<BattlePlayer>, i: int, j: int)
    requires
        0 <= j < players.len(),
    ensures
        losses(players, i).0.len() == players.len(),
        losses(players, i).0[j] == players[j]
            || losses(players, i).0[j] == (BattlePlayer { removed: Some(RemovalReason::Loss), ..players[j] }),
    decreases players.len() - i,
{
    if 0 <= i < players.len() {
        let step = if lost(players[i]) {
            removal(players, players[i].party.id, RemovalReason::Loss)
        } else {
            (players, Seq::<Outgoing>::empty())
        };
        lemma_removal_permanent(players, players[i].party.id, RemovalReason::Loss, j);
        lemma_losses_only_remove(step.0, i + 1, j);
        if step.0[j] != players[j] {
            assert(step.0[j] == (BattlePlayer { removed: Some(RemovalReason::Loss), ..players[j] }));
            let after = losses(step.0, i + 1).0[j];
            assert(after == step.0[j] || after == (BattlePlayer { removed: Some(RemovalReason::Loss), ..step.0[j] }));
        }
    }
}

/// Once losses are checked, no player in play has lost, when no two players
/// in play share an id.
pub proof fn lemma_losses_leave_no_loser(players: Seq<BattlePlayer>)
    requires
        distinct_ids(players),
    ensures
        forall|j: int| 0 <= j < players.len() && #[trigger] in_play(losses(players, 0).0[j]) ==> !lost(losses(players, 0).0[j]),
{
    lemma_losses_no_loser_from(players, 0);
}

proof fn lemma_losses_no_loser_from(players: Seq<BattlePlayer>, i: int)
    requires
        distinct_ids(players),
        0 <= i <= players.len(),
        forall|j: int| 0 <= j < i && #[trigger] in_play(players[j]) ==> !lost(players[j]),
    ensures
        forall|j: int| 0 <= j < players.len() && #[trigger] in_play(losses(players, i).0[j]) ==> !lost(losses(players, i).0[j]),
    decreases players.len() - i,
{
    if i < players.len() {
        let id = players[i].party.id;
        let step = if lost(players[i]) {
            removal(players, id, RemovalReason::Loss)
        } else {
            (players, Seq::<Outgoing>::empty())
        };
        assert forall|j: int| 0 <= j < players.len() implies step.0[j] == players[j]
            || step.0[j] == (BattlePlayer { removed: Some(RemovalReason::Loss), ..players[j] }) by {
            lemma_removal_permanent(players, id, RemovalReason::Loss, j);
        }
        if lost(players[i]) && in_play(players[i]) {
            assert(exists|k: int| first_in_play(players, id, k)) by {
                lemma_some_first_in_play(players, id, i);
            }
            let k = choose|k: int| first_in_play(players, id, k);
            if k != i {
                assert(k < i);
            }
            assert(step.0[i].removed is Some);
        }
        assert(step.0.len() == players.len()) by {
            lemma_removal_permanent(players, id, RemovalReason::Loss, 0);
        }
        assert forall|a: int, b: int| 0 <= a < b < step.0.len() && in_play(step.0[a]) && in_play(step.0[b])
            implies step.0[a].party.id != step.0[b].party.id by {
            assert(in_play(players[a]) && in_play(players[b]));
        }
        assert forall|j: int| 0 <= j < i + 1 && #[trigger] in_play(step.0[j]) implies !lost(step.0[j]) by {
            assert(step.0[j] == players[j]);
        }
        lemma_losses_no_loser_from(step.0, i + 1);
        assert(losses(players, i).0 == losses(step.0, i + 1).0);
    }
}

/// A player in play is preceded by the first player in play of its team.
proof fn lemma_some_first_in_play(players: Seq<BattlePlayer>, id: PlayerId, i: int)
    requires
        0 <= i < players.len(),
        in_play(players[i]),
        players[i].party.id == id,
    ensures
        exists|k: int| first_in_play(players, id, k),
    decreases i,
{
    if forall|j: int| 0 <= j < i ==> !(in_play(#[trigger] players[j]) && players[j].party.id == id) {
        assert(first_in_play(players, id, i));
    } else {
        let j = choose|j: int| 0 <= j < i && in_play(#[trigger] players[j]) && players[j].party.id == id;
        lemma_some_first_in_play(players, id, j);
    }
}


/// The battle moves on from waiting for replacements exactly when no player
/// in play has an empty active slot together with a pokemon that has not
/// fainted and stands in no active slot.
pub proof fn lemma_replaced_means_nothing_to_fill(players: Seq<BattlePlayer>)
    ensures
        all_replaced(players) <==> forall|i: int| 0 <= i < players.len() && (#[trigger] players[i]).removed is None && players[i].ready ==> !({
            &&& exists|a: int| 0 <= a < players[i].party.active@.len() && players[i].party.active@[a] is None
            &&& exists|k: int| 0 <= k < players[i].party.pokemon@.len() && players[i].party.pokemon@[k].hp != 0
                && forall|a: int| 0 <= a < players[i].party.active@.len() && players[i].party.active@[a] is Some
                    ==> players[i].party.active@[a]->0.index != k
        }),
{
    assert forall|i: int| 0 <= i < players.len() implies (in_play(#[trigger] players[i]) ==> !players[i].party.replace_needed()) == (
        players[i].removed is None && players[i].ready ==> !({
            &&& exists|a: int| 0 <= a < players[i].party.active@.len() && players[i].party.active@[a] is None
            &&& exists|k: int| 0 <= k < players[i].party.pokemon@.len() && players[i].party.pokemon@[k].hp != 0
                && forall|a: int| 0 <= a < players[i].party.active@.len() && players[i].party.active@[a] is Some
                    ==> players[i].party.active@[a]->0.index != k
        })) by {
        let party = players[i].party;
        let raw_reserve = exists|k: int| 0 <= k < party.pokemon@.len() && party.pokemon@[k].hp != 0
            && forall|a: int| 0 <= a < party.active@.len() && party.active@[a] is Some ==> party.active@[a]->0.index != k;
        if party.has_reserve() {
            let k = choose|k: int| 0 <= k < party.pokemon@.len() && !party.holds(k) && party.pokemon@[k].hp != 0;
            assert forall|a: int| 0 <= a < party.active@.len() && party.active@[a] is Some implies party.active@[a]->0.index != k by {
                if party.active@[a]->0.index == k {
                    assert(party.holds(k));
                }
            }
            assert(raw_reserve);
        }
        if raw_reserve {
            let k = choose|k: int| 0 <= k < party.pokemon@.len() && party.pokemon@[k].hp != 0
                && forall|a: int| 0 <= a < party.active@.len() && party.active@[a] is Some ==> party.active@[a]->0.index != k;
            assert(!party.holds(k));
            assert(party.has_reserve());
        }
    }
}

/// Once the losses of a turn are taken, every player in play still has a
/// pokemon that has not fainted and a move with uses left, when no two players
/// in play share an id.
pub proof fn lemma_players_left_can_fight(players: Seq<BattlePlayer>)
    requires
        distinct_ids(players),
    ensures
        forall|j: int| 0 <= j < players.len() && (#[trigger] losses(players, 0).0[j]).removed is None
            && losses(players, 0).0[j].ready ==> {
            let p = losses(players, 0).0[j];
            &&& exists|k: int| 0 <= k < p.party.pokemon@.len() && p.party.pokemon@[k].hp != 0
            &&& exists|k: int, m: int| 0 <= k < p.party.pokemon@.len() && 0 <= m < p.party.pokemon@[k].moves@.len()
                && p.party.pokemon@[k].moves@[m].pp != 0
        },
{
    lemma_losses_leave_no_loser(players);
    assert forall|j: int| 0 <= j < players.len() && (#[trigger] losses(players, 0).0[j]).removed is None
        && losses(players, 0).0[j].ready implies {
        let p = losses(players, 0).0[j];
        &&& exists|k: int| 0 <= k < p.party.pokemon@.len() && p.party.pokemon@[k].hp != 0
        &&& exists|k: int, m: int| 0 <= k < p.party.pokemon@.len() && 0 <= m < p.party.pokemon@[k].moves@.len()
            && p.party.pokemon@[k].moves@[m].pp != 0
    } by {
        let p = losses(players, 0).0[j];
        assert(in_play(p));
        assert(!lost(p));
        assert(!p.party.fainted_all());
        assert(!p.party.no_moves_left());
    }
}


/// Every player in play has picked an action for each pokemon it has in
/// battle: that is when the battle moves on to carrying out the turn.
pub proof fn lemma_selected_means_every_slot_chose(players: Seq<BattlePlayer>)
    ensures
        all_selected(players) <==> forall|i: int, a: int| 0 <= i < players.len() && (#[trigger] players[i]).removed is None
            && players[i].ready && 0 <= a < players[i].party.active@.len() && (#[trigger] players[i].party.active@[a]) is Some
            ==> players[i].party.active@[a]->0.queued_move is Some,
{
}

/// A player that can still fight (in play, with a pokemon that has not
/// fainted and a move with uses left) is never taken out when the losses of a
/// turn are checked, when every player has an id of its own.
pub proof fn lemma_fighter_stays(players: Seq<BattlePlayer>, j: int)
    requires
        forall|a: int, b: int| 0 <= a < b < players.len() ==> players[a].party.id != players[b].party.id,
        0 <= j < players.len(),
        players[j].removed is None,
        exists|k: int| 0 <= k < players[j].party.pokemon@.len() && players[j].party.pokemon@[k].hp != 0,
        exists|k: int, m: int| 0 <= k < players[j].party.pokemon@.len() && 0 <= m < players[j].party.pokemon@[k].moves@.len()
            && players[j].party.pokemon@[k].moves@[m].pp != 0,
    ensures
        losses(players, 0).0[j] == players[j],
{
    lemma_fighter_stays_from(players, 0, j);
}

proof fn lemma_fighter_stays_from(players: Seq<BattlePlayer>, i: int, j: int)
    requires
        forall|a: int, b: int| 0 <= a < b < players.len() ==> players[a].party.id != players[b].party.id,
        0 <= j < players.len(),
        players[j].removed is None,
        exists|k: int| 0 <= k < players[j].party.pokemon@.len() && players[j].party.pokemon@[k].hp != 0,
        exists|k: int, m: int| 0 <= k < players[j].party.pokemon@.len() && 0 <= m < players[j].party.pokemon@[k].moves@.len()
            && players[j].party.pokemon@[k].moves@[m].pp != 0,
        0 <= i,
    ensures
        losses(players, i).0[j] == players[j],
    decreases players.len() - i,
{
    let pj = players[j];
    assert(!lost(pj)) by {
        let k = choose|k: int| 0 <= k < pj.party.pokemon@.len() && pj.party.pokemon@[k].hp != 0;
        let (k2, m2) = choose|k: int, m: int| 0 <= k < pj.party.pokemon@.len() && 0 <= m < pj.party.pokemon@[k].moves@.len()
            && pj.party.pokemon@[k].moves@[m].pp != 0;
        assert(!pj.party.fainted_all());
        assert(!pj.party.no_moves_left());
    }
    if i < players.len() {
        let id = players[i].party.id;
        let step = if lost(players[i]) {
            removal(players, id, RemovalReason::Loss)
        } else {
            (players, Seq::<Outgoing>::empty())
        };
        if lost(players[i]) {
            assert(i != j);
            if exists|k: int| first_in_play(players, id, k) {
                let k = choose|k: int| first_in_play(players, id, k);
                if k == j {
                    assert(players[i].party.id == players[j].party.id);
                }
                assert(k != j);
                assert(step.0[j] == players[j]);
            }
        }
        assert(step.0.len() == players.len()) by {
            lemma_removal_permanent(players, id, RemovalReason::Loss, 0);
        }
        assert forall|a: int, b: int| 0 <= a < b < step.0.len() implies step.0[a].party.id != step.0[b].party.id by {
            lemma_removal_permanent(players, id, RemovalReason::Loss, a);
            lemma_removal_permanent(players, id, RemovalReason::Loss, b);
        }
        lemma_fighter_stays_from(step.0, i + 1, j);
        assert(losses(players, i).0 == losses(step.0, i + 1).0);
    }
}

} // verus!
