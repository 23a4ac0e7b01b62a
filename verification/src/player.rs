//! The players of a battle.

use vstd::prelude::*;

use crate::party::{opening, ActiveBattlePokemon, PlayerParty};
use crate::pokemon::BattlePokemon;
use crate::select::PlayerId;

verus! {

/// Why a player left the battle.
#[derive(Debug, Clone, Copy, PartialEq, Eq, Structural)]
pub enum RemovalReason {
    Loss,
    Run,
}

/// How a player takes part in battles.
#[derive(Debug, Clone, Copy, PartialEq, Eq, Structural)]
pub struct PlayerSettings {
    /// Whether the player's pokemon gain experience.
    pub gains_exp: bool,
}

/// The bag of items of a player, as the pokedex keeps it.
#[verifier::external_type_specification]
#[verifier::external_body]
#[verifier::reject_recursive_types(I)]
pub struct ExBag<I>(firecore_pokedex::item::bag::Bag<I>);

/// The items that a bag holds stacks of.
pub uninterp spec fn bag_items(
    bag: firecore_pokedex::item::bag::Bag<firecore_pokedex::item::ItemId>,
) -> Set<firecore_pokedex::item::ItemId>;

/// `Bag::contains`: whether the bag holds a stack of the item (a lookup
/// of the item's key in the bag's map).
#[verifier::external_body]
pub fn bag_contains(
    bag: &firecore_pokedex::item::bag::Bag<firecore_pokedex::item::ItemId>,
    id: &firecore_pokedex::item::ItemId,
) -> (r: bool)
    ensures
        r == bag_items(*bag).contains(*id),
{
    bag.contains(id)
}

/// What the battle keeps on a player besides its data.
#[derive(Debug, Clone, Copy, PartialEq, Eq, Structural)]
pub struct Properties {
    /// Whether the player still takes part.
    pub active: bool,
    /// Whether the battle waits on the player.
    pub waiting: bool,
}

impl Default for Properties {
    fn default() -> (r: Self)
        ensures
            r.active,
            !r.waiting,
    {
        Properties { active: true, waiting: false }
    }
}

/// A player in battle.
#[derive(Debug)]
pub struct BattlePlayer {
    pub party: PlayerParty,
    pub bag: firecore_pokedex::item::bag::Bag<firecore_pokedex::item::ItemId>,
    pub settings: PlayerSettings,
    /// Why the player left the battle, once it has.
    pub removed: Option<RemovalReason>,
    /// Whether the player has been sent its data and may be sent game messages.
    pub ready: bool,
}

impl BattlePlayer {
    pub fn id(&self) -> (r: PlayerId)
        ensures
            r == self.party.id,
    {
        self.party.id
    }

    /// Mark the player as ready to be sent game messages.
    pub fn ready(&mut self)
        ensures
            final(self).ready,
            final(self).party == old(self).party,
            final(self).removed == old(self).removed,
            final(self).settings == old(self).settings,
            final(self).bag == old(self).bag,
    {
        self.ready = true;
    }

    pub fn is_ready(&self) -> (r: bool)
        ensures
            r == self.ready,
    {
        self.ready
    }
}

/// What a player brings to a battle.
#[derive(Debug)]
pub struct PlayerData {
    pub id: PlayerId,
    pub name: Option<String>,
    pub party: Vec<BattlePokemon>,
    pub bag: firecore_pokedex::item::bag::Bag<firecore_pokedex::item::ItemId>,
    pub settings: PlayerSettings,
}

/// The pokemon of a party after the ones in its opening slots were revealed.
pub open spec fn revealed_opening(pokemon: Seq<BattlePokemon>, active: Seq<Option<ActiveBattlePokemon>>) -> Seq<BattlePokemon> {
    Seq::new(pokemon.len(), |k: int| shown_if(pokemon[k], exists|a: int| 0 <= a < active.len() && #[trigger] active[a] == Some(ActiveBattlePokemon { index: k as usize, queued_move: None })))
}

/// The pokemon, revealed when `shown` holds.
pub open spec fn shown_if(p: BattlePokemon, shown: bool) -> BattlePokemon {
    if shown {
        BattlePokemon { revealed: true, ..p }
    } else {
        p
    }
}

/// The player a battle starts with, given what it brought and the number of active slots.
pub open spec fn initialized(data: PlayerData, active: usize, p: BattlePlayer) -> bool {
    &&& p.party.id == data.id
    &&& p.party.name == data.name
    &&& p.party.active@ == opening(data.party@, active as nat)
    &&& p.party.pokemon@ == revealed_opening(data.party@, p.party.active@)
    &&& p.bag == data.bag
    &&& p.settings == data.settings
    &&& p.removed is None
    &&& !p.ready
}

impl PlayerData {
    /// The player in battle: its party opens with the first pokemon that have
    /// not fainted in its active slots, and those are revealed.
    pub fn init(self, active: usize) -> (r: BattlePlayer)
        ensures
            initialized(self, active, r),
    {
        let ghost data = self;
        let mut party = PlayerParty::new(self.id, self.name, active, self.party);
        let ghost opened = party.active@;
        let mut a: usize = 0;
        while a < party.active.len()
            invariant
                a <= opened.len(),
                party.active@ == opened,
                party.id == data.id,
                party.name == data.name,
                party.pokemon@.len() == data.party@.len(),
                forall|k: int| 0 <= k < data.party@.len() ==> #[trigger] party.pokemon@[k] == shown_if(
                    data.party@[k],
                    exists|b: int| 0 <= b < a && #[trigger] opened[b] == Some(ActiveBattlePokemon { index: k as usize, queued_move: None }),
                ),
                opened == opening(data.party@, active as nat),
            decreases opened.len() - a,
        {
            if let Some(slot) = party.active[a] {
                let index = slot.index;
                proof {
                    assert(opened[a as int] == Some(ActiveBattlePokemon { index, queued_move: None }));
                }
                if index < party.pokemon.len() {
                    party.pokemon[index].make_known();
                }
            }
            proof {
                assert forall|k: int| 0 <= k < data.party@.len() implies #[trigger] party.pokemon@[k] == shown_if(
                    data.party@[k],
                    exists|b: int| 0 <= b < a + 1 && #[trigger] opened[b] == Some(ActiveBattlePokemon { index: k as usize, queued_move: None }),
                ) by {
                    if opened[a as int] == Some(ActiveBattlePokemon { index: k as usize, queued_move: None }) {
                        assert(exists|b: int| 0 <= b < a + 1 && #[trigger] opened[b] == Some(ActiveBattlePokemon { index: k as usize, queued_move: None }));
                    }
                }
            }
            a = a + 1;
        }
        assert(party.pokemon@ =~= revealed_opening(data.party@, party.active@));
        BattlePlayer { party, bag: self.bag, settings: self.settings, removed: None, ready: false }
    }
}

/// A player that still takes part: not removed, and ready.
pub open spec fn in_play(p: BattlePlayer) -> bool {
    p.removed is None && p.ready
}

/// The first player in play whose id is `id`, by its place among all players.
pub open spec fn first_in_play(players: Seq<BattlePlayer>, id: PlayerId, i: int) -> bool {
    &&& 0 <= i < players.len()
    &&& in_play(players[i])
    &&& players[i].party.id == id
    &&& forall|j: int| 0 <= j < i ==> !(in_play(#[trigger] players[j]) && players[j].party.id == id)
}

/// No player in play has the id `id`.
pub open spec fn none_in_play(players: Seq<BattlePlayer>, id: PlayerId) -> bool {
    forall|j: int| 0 <= j < players.len() ==> !(in_play(#[trigger] players[j]) && players[j].party.id == id)
}

/// The players in play, in order.
pub open spec fn in_play_players(s: Seq<BattlePlayer>) -> Seq<BattlePlayer>
    decreases s.len(),
{
    if s.len() == 0 {
        Seq::empty()
    } else {
        let rest = in_play_players(s.drop_last());
        if in_play(s.last()) { rest.push(s.last()) } else { rest }
    }
}

/// All the players of a battle, the removed and the not yet ready among them.
#[derive(Debug)]
pub struct PlayerQuery(pub Vec<BattlePlayer>);

impl PlayerQuery {
    pub fn new(inner: Vec<BattlePlayer>) -> (r: Self)
        ensures
            r.0@ == inner@,
    {
        PlayerQuery(inner)
    }

    pub fn len(&self) -> (r: usize)
        ensures
            r == self.0@.len(),
    {
        self.0.len()
    }

    /// Where the first player in play with the given id stands.
    pub fn position(&self, id: PlayerId) -> (r: Option<usize>)
        ensures
            r matches Some(i) ==> first_in_play(self.0@, id, i as int),
            r is None ==> none_in_play(self.0@, id),
    {
        let mut i: usize = 0;
        while i < self.0.len()
            invariant
                i <= self.0@.len(),
                forall|j: int| 0 <= j < i ==> !(in_play(#[trigger] self.0@[j]) && self.0@[j].party.id == id),
            decreases self.0@.len() - i,
        {
            let p = &self.0[i];
            if p.removed.is_none() && p.ready && p.party.id == id {
                return Some(i);
            }
            i = i + 1;
        }
        None
    }

    /// The players in play, in order.
    pub fn iter(&self) -> (r: Vec<&BattlePlayer>)
        ensures
            r@.len() == in_play_players(self.0@).len(),
            forall|k: int| 0 <= k < r@.len() ==> *#[trigger] r@[k] == in_play_players(self.0@)[k],
    {
        let mut r: Vec<&BattlePlayer> = Vec::new();
        let mut i: usize = 0;
        while i < self.0.len()
            invariant
                i <= self.0@.len(),
                r@.len() == in_play_players(self.0@.take(i as int)).len(),
                forall|k: int| 0 <= k < r@.len() ==> *#[trigger] r@[k] == in_play_players(self.0@.take(i as int))[k],
            decreases self.0@.len() - i,
        {
            assert(self.0@.take(i + 1).drop_last() =~= self.0@.take(i as int));
            let p = &self.0[i];
            if p.removed.is_none() && p.ready {
                r.push(p);
            }
            i = i + 1;
        }
        assert(self.0@.take(self.0@.len() as int) =~= self.0@);
        r
    }

    /// The first player in play with the given id.
    pub fn get(&self, id: PlayerId) -> (r: Option<&BattlePlayer>)
        ensures
            r matches Some(p) ==> exists|i: int| first_in_play(self.0@, id, i) && self.0@[i] == *p,
            r is None ==> none_in_play(self.0@, id),
    {
        match self.position(id) {
            Some(i) => Some(&self.0[i]),
            None => None,
        }
    }
}

} // verus!
