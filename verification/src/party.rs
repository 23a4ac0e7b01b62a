//! A player's party: its pokemon and which of them stand in battle.

use vstd::prelude::*;

use crate::pokemon::BattlePokemon;
use crate::select::{BattleSelection, HpRatio, PartyPosition, PlayerId};

verus! {

/// A pokemon standing in battle: its place in the party and what its player selected for it.
#[derive(Debug, Clone, Copy)]
pub struct ActiveBattlePokemon {
    pub index: PartyPosition,
    pub queued_move: Option<BattleSelection>,
}

/// The party position that an active slot holds, if it holds one.
pub open spec fn slot_of(slot: Option<ActiveBattlePokemon>) -> Option<usize> {
    match slot {
        Some(a) => Some(a.index),
        None => None,
    }
}

impl ActiveBattlePokemon {
    /// A freshly sent-out pokemon at a party position, with nothing selected yet.
    pub fn from_index(index: PartyPosition) -> (r: Self)
        ensures
            r.index == index,
            r.queued_move is None,
    {
        ActiveBattlePokemon { index, queued_move: None }
    }

    pub fn index(&self) -> (r: PartyPosition)
        ensures
            r == self.index,
    {
        self.index
    }

    /// Whether the player has selected an action for this pokemon.
    pub fn queued(&self) -> (r: bool)
        ensures
            r == self.queued_move is Some,
    {
        self.queued_move.is_some()
    }

    /// The party positions held by a list of active slots.
    pub fn as_usize(this: &Vec<Option<Self>>) -> (r: Vec<Option<usize>>)
        ensures
            r@.len() == this@.len(),
            forall|i: int| 0 <= i < this@.len() ==> r@[i] == slot_of(#[trigger] this@[i]),
    {
        let mut r: Vec<Option<usize>> = Vec::new();
        let mut i: usize = 0;
        while i < this.len()
            invariant
                i <= this@.len(),
                r@.len() == i,
                forall|j: int| 0 <= j < i ==> r@[j] == slot_of(#[trigger] this@[j]),
            decreases this@.len() - i,
        {
            let slot = match &this[i] {
                Some(a) => Some(a.index),
                None => None,
            };
            r.push(slot);
            i = i + 1;
        }
        r
    }
}

impl From<usize> for ActiveBattlePokemon {
    /// A freshly sent-out pokemon at a party position.
    fn from(index: usize) -> (r: Self) {
        ActiveBattlePokemon { index, queued_move: None }
    }
}

impl vstd::std_specs::convert::FromSpecImpl<usize> for ActiveBattlePokemon {
    open spec fn obeys_from_spec() -> bool {
        true
    }

    open spec fn from_spec(index: usize) -> ActiveBattlePokemon {
        ActiveBattlePokemon { index, queued_move: None }
    }
}

/// A party as the other players know it: which pokemon stand in each active
/// slot, and the health of the pokemon they have seen.
#[derive(Debug, Clone)]
pub struct RemoteParty {
    pub id: PlayerId,
    pub active: Vec<Option<usize>>,
    pub pokemon: Vec<Option<HpRatio>>,
}

/// What the other players know of a pokemon: its health part, once it is revealed.
pub open spec fn seen(p: BattlePokemon) -> Option<HpRatio> {
    if p.revealed {
        Some(HpRatio { hp: p.hp, max_hp: p.max_hp })
    } else {
        None
    }
}

/// A player's party in battle.
#[derive(Debug, Clone)]
pub struct PlayerParty {
    pub id: PlayerId,
    pub name: Option<String>,
    /// The active slots; each holds the party position of the pokemon standing there.
    pub active: Vec<Option<ActiveBattlePokemon>>,
    pub pokemon: Vec<BattlePokemon>,
}

/// The party positions, below `n`, of the pokemon that have not fainted, in order.
pub open spec fn alive_positions(pokemon: Seq<BattlePokemon>, n: int) -> Seq<usize>
    decreases n,
{
    if n <= 0 || n > pokemon.len() {
        Seq::empty()
    } else {
        let rest = alive_positions(pokemon, n - 1);
        if pokemon[n - 1].hp != 0 {
            rest.push((n - 1) as usize)
        } else {
            rest
        }
    }
}

/// The slot that holds the `a`th of the given party positions, if there is one.
pub open spec fn slot_at(positions: Seq<usize>, a: int) -> Option<ActiveBattlePokemon> {
    if 0 <= a < positions.len() {
        Some(ActiveBattlePokemon { index: positions[a], queued_move: None })
    } else {
        None
    }
}

/// The active slots a party opens a battle with: the first pokemon that have
/// not fainted, in party order, one per slot; slots left over stay empty.
pub open spec fn opening(pokemon: Seq<BattlePokemon>, size: nat) -> Seq<Option<ActiveBattlePokemon>> {
    let alive = alive_positions(pokemon, pokemon.len() as int);
    Seq::new(size, |a: int| slot_at(alive, a))
}

/// The pokemon found alive below `n` come first among those found below `m`.
pub proof fn lemma_alive_prefix(pokemon: Seq<BattlePokemon>, n: int, m: int)
    requires
        0 <= n <= m <= pokemon.len(),
    ensures
        alive_positions(pokemon, n).len() <= alive_positions(pokemon, m).len(),
        forall|a: int| 0 <= a < alive_positions(pokemon, n).len()
            ==> #[trigger] alive_positions(pokemon, n)[a] == alive_positions(pokemon, m)[a],
    decreases m - n,
{
    if n < m {
        lemma_alive_prefix(pokemon, n, m - 1);
    }
}

/// The opening slots hold the first pokemon that have not fainted, each at
/// most once; a slot stays empty only once no such pokemon is left.
pub proof fn lemma_opening_valid(pokemon: Seq<BattlePokemon>, size: nat)
    requires
        pokemon.len() <= usize::MAX,
    ensures
        opening(pokemon, size).len() == size,
        forall|a: int| 0 <= a < size && (#[trigger] opening(pokemon, size)[a]) is Some ==> ({
            let i = opening(pokemon, size)[a]->0.index;
            &&& i < pokemon.len()
            &&& pokemon[i as int].hp != 0
            &&& opening(pokemon, size)[a]->0.queued_move is None
        }),
        forall|a: int, b: int| 0 <= a < b < size && (#[trigger] opening(pokemon, size)[a]) is Some
            && (#[trigger] opening(pokemon, size)[b]) is Some ==> opening(pokemon, size)[a]->0.index < opening(pokemon, size)[b]->0.index,
        forall|a: int, b: int| 0 <= a < b < size && (#[trigger] opening(pokemon, size)[a]) is None
            ==> (#[trigger] opening(pokemon, size)[b]) is None,
{
    let alive = alive_positions(pokemon, pokemon.len() as int);
    let o = opening(pokemon, size);
    lemma_alive_sorted(pokemon, pokemon.len() as int);
    assert forall|a: int| 0 <= a < size && (#[trigger] o[a]) is Some implies ({
        let i = o[a]->0.index;
        &&& i < pokemon.len()
        &&& pokemon[i as int].hp != 0
        &&& o[a]->0.queued_move is None
    }) by {
        assert(o[a] == slot_at(alive, a));
        assert(alive[a] < pokemon.len());
    }
    assert forall|a: int, b: int| 0 <= a < b < size && (#[trigger] o[a]) is Some && (#[trigger] o[b]) is Some
        implies o[a]->0.index < o[b]->0.index by {
        assert(o[a] == slot_at(alive, a));
        assert(o[b] == slot_at(alive, b));
        assert(alive[a] < alive[b]);
    }
    assert forall|a: int, b: int| 0 <= a < b < size && (#[trigger] o[a]) is None implies (#[trigger] o[b]) is None by {
        assert(o[a] == slot_at(alive, a));
        assert(o[b] == slot_at(alive, b));
    }
}

/// The positions found alive are alive, in range, and increasing.
proof fn lemma_alive_sorted(pokemon: Seq<BattlePokemon>, n: int)
    requires
        0 <= n <= pokemon.len(),
        pokemon.len() <= usize::MAX,
    ensures
        forall|a: int| 0 <= a < alive_positions(pokemon, n).len() ==> {
            let i = #[trigger] alive_positions(pokemon, n)[a];
            i < n && pokemon[i as int].hp != 0
        },
        forall|a: int, b: int| 0 <= a < b < alive_positions(pokemon, n).len()
            ==> #[trigger] alive_positions(pokemon, n)[a] < #[trigger] alive_positions(pokemon, n)[b],
    decreases n,
{
    if n > 0 {
        lemma_alive_sorted(pokemon, n - 1);
        let prev = alive_positions(pokemon, n - 1);
        let cur = alive_positions(pokemon, n);
        assert forall|a: int| 0 <= a < prev.len() implies cur[a] == prev[a] by {}
        assert forall|a: int| 0 <= a < cur.len() implies {
            let i = #[trigger] cur[a];
            i < n && pokemon[i as int].hp != 0
        } by {
            if a < prev.len() {
                assert(cur[a] == prev[a]);
            }
        }
        assert forall|a: int, b: int| 0 <= a < b < cur.len() implies #[trigger] cur[a] < #[trigger] cur[b] by {
            assert(cur[a] == prev[a]);
            if b < prev.len() {
                assert(cur[b] == prev[b]);
            } else {
                assert(cur[b] == n - 1);
            }
        }
    }
}

impl PlayerParty {
    /// A party as it opens a battle with `size` active slots, filled as
    /// `opening` says.
    pub fn new(id: PlayerId, name: Option<String>, size: usize, pokemon: Vec<BattlePokemon>) -> (r: Self)
        ensures
            r.id == id,
            r.name == name,
            r.pokemon@ == pokemon@,
            r.active@ == opening(pokemon@, size as nat),
    {
        let mut active: Vec<Option<ActiveBattlePokemon>> = Vec::new();
        let mut count: usize = 0;
        while count < pokemon.len() && active.len() < size
            invariant
                count <= pokemon@.len(),
                active@.len() <= size,
                active@.len() == alive_positions(pokemon@, count as int).len(),
                forall|a: int| 0 <= a < active@.len() ==> #[trigger] active@[a]
                    == Some(ActiveBattlePokemon { index: alive_positions(pokemon@, count as int)[a], queued_move: None }),
            decreases pokemon@.len() - count,
        {
            if !pokemon[count].fainted() {
                active.push(Some(ActiveBattlePokemon::from_index(count)));
            }
            count = count + 1;
        }
        proof {
            lemma_alive_prefix(pokemon@, count as int, pokemon@.len() as int);
        }
        let ghost filled = active@.len();
        while active.len() < size
            invariant
                filled <= active@.len() <= size,
                count == pokemon@.len() || filled == size,
                filled == alive_positions(pokemon@, count as int).len(),
                forall|a: int| 0 <= a < filled ==> #[trigger] active@[a]
                    == Some(ActiveBattlePokemon { index: alive_positions(pokemon@, count as int)[a], queued_move: None }),
                forall|a: int| filled <= a < active@.len() ==> #[trigger] active@[a] is None,
            decreases size - active@.len(),
        {
            active.push(None);
        }
        proof {
            let alive = alive_positions(pokemon@, pokemon@.len() as int);
            assert forall|a: int| 0 <= a < size implies #[trigger] active@[a] == opening(pokemon@, size as nat)[a] by {
                if a < filled {
                    assert(alive_positions(pokemon@, count as int)[a] == alive[a]);
                } else if count == pokemon@.len() {
                    assert(a >= alive.len());
                }
            }
            assert(active@ =~= opening(pokemon@, size as nat));
        }
        PlayerParty { id, name, active, pokemon }
    }

    /// The party position held by active slot `a`.
    pub open spec fn index_of(self, a: int) -> Option<usize> {
        if 0 <= a < self.active@.len() {
            slot_of(self.active@[a])
        } else {
            None
        }
    }

    /// Some active slot holds party position `i`.
    pub open spec fn holds(self, i: int) -> bool {
        exists|a: int| 0 <= a < self.active@.len() && self.active@[a] is Some && self.active@[a]->0.index == i
    }

    /// No pokemon of the party can fight any more.
    pub open spec fn fainted_all(self) -> bool {
        forall|i: int| 0 <= i < self.pokemon@.len() ==> self.pokemon@[i].hp == 0
    }

    /// A pokemon that is not in battle could still fight.
    pub open spec fn has_reserve(self) -> bool {
        exists|i: int| 0 <= i < self.pokemon@.len() && !self.holds(i) && self.pokemon@[i].hp != 0
    }

    /// An empty active slot could be filled from the reserve.
    pub open spec fn replace_needed(self) -> bool {
        self.has_reserve() && exists|a: int| 0 <= a < self.active@.len() && self.active@[a] is None
    }

    /// Every pokemon in battle has an action selected (or none is in battle).
    pub open spec fn ready(self) -> bool {
        forall|a: int| 0 <= a < self.active@.len() && self.active@[a] is Some ==> self.active@[a]->0.queued_move is Some
    }

    /// Every move of every pokemon of the party has no uses left.
    pub open spec fn no_moves_left(self) -> bool {
        forall|i: int, m: int| 0 <= i < self.pokemon@.len() && 0 <= m < self.pokemon@[i].moves@.len()
            ==> #[trigger] self.pokemon@[i].moves@[m].pp == 0
    }

    /// The party position held by active slot `active`.
    pub fn index(&self, active: usize) -> (r: Option<usize>)
        ensures
            r == self.index_of(active as int),
    {
        if active < self.active.len() {
            match &self.active[active] {
                Some(a) => Some(a.index),
                None => None,
            }
        } else {
            None
        }
    }

    /// Whether some active slot holds party position `index`.
    pub fn active_contains(&self, index: usize) -> (r: bool)
        ensures
            r == self.holds(index as int),
    {
        let mut a: usize = 0;
        while a < self.active.len()
            invariant
                a <= self.active@.len(),
                forall|b: int| 0 <= b < a ==> !(self.active@[b] is Some && self.active@[b]->0.index == index),
            decreases self.active@.len() - a,
        {
            if let Some(slot) = &self.active[a] {
                if slot.index == index {
                    return true;
                }
            }
            a = a + 1;
        }
        false
    }

    /// Whether no pokemon of the party can fight any more.
    pub fn all_fainted(&self) -> (r: bool)
        ensures
            r == self.fainted_all(),
    {
        let mut i: usize = 0;
        while i < self.pokemon.len()
            invariant
                i <= self.pokemon@.len(),
                forall|j: int| 0 <= j < i ==> self.pokemon@[j].hp == 0,
            decreases self.pokemon@.len() - i,
        {
            if !self.pokemon[i].fainted() {
                return false;
            }
            i = i + 1;
        }
        true
    }

    /// Whether every move of every pokemon of the party has no uses left.
    pub fn all_moves_empty(&self) -> (r: bool)
        ensures
            r == self.no_moves_left(),
    {
        let mut i: usize = 0;
        while i < self.pokemon.len()
            invariant
                i <= self.pokemon@.len(),
                forall|j: int, m: int| 0 <= j < i && 0 <= m < self.pokemon@[j].moves@.len()
                    ==> #[trigger] self.pokemon@[j].moves@[m].pp == 0,
            decreases self.pokemon@.len() - i,
        {
            let moves = &self.pokemon[i].moves;
            let mut m: usize = 0;
            while m < moves.len()
                invariant
                    i < self.pokemon@.len(),
                    moves@ == self.pokemon@[i as int].moves@,
                    m <= moves@.len(),
                    forall|k: int| 0 <= k < m ==> #[trigger] moves@[k].pp == 0,
                decreases moves@.len() - m,
            {
                if !moves[m].is_empty() {
                    return false;
                }
                m = m + 1;
            }
            i = i + 1;
        }
        true
    }

    /// Whether a pokemon that is not in battle could still fight.
    pub fn any_inactive(&self) -> (r: bool)
        ensures
            r == self.has_reserve(),
    {
        let mut i: usize = 0;
        while i < self.pokemon.len()
            invariant
                i <= self.pokemon@.len(),
                forall|j: int| 0 <= j < i ==> !(!self.holds(j) && self.pokemon@[j].hp != 0),
            decreases self.pokemon@.len() - i,
        {
            if !self.active_contains(i) && !self.pokemon[i].fainted() {
                return true;
            }
            i = i + 1;
        }
        false
    }

    /// Whether an empty active slot could be filled from the reserve.
    pub fn needs_replace(&self) -> (r: bool)
        ensures
            r == self.replace_needed(),
    {
        if !self.any_inactive() {
            return false;
        }
        let mut a: usize = 0;
        while a < self.active.len()
            invariant
                a <= self.active@.len(),
                self.has_reserve(),
                forall|b: int| 0 <= b < a ==> self.active@[b] is Some,
            decreases self.active@.len() - a,
        {
            if self.active[a].is_none() {
                return true;
            }
            a = a + 1;
        }
        false
    }

    /// Whether every pokemon in battle has an action selected; a party with
    /// no pokemon in battle is ready too.
    pub fn ready_to_move(&self) -> (r: bool)
        ensures
            r == self.ready(),
    {
        let mut a: usize = 0;
        while a < self.active.len()
            invariant
                a <= self.active@.len(),
                forall|b: int| 0 <= b < a && self.active@[b] is Some ==> self.active@[b]->0.queued_move is Some,
            decreases self.active@.len() - a,
        {
            if let Some(slot) = &self.active[a] {
                if slot.queued_move.is_none() {
                    return false;
                }
            }
            a = a + 1;
        }
        true
    }

    /// Put the pokemon at party position `new` (or nobody) in active slot `active`.
    pub fn replace(&mut self, active: usize, new: Option<usize>)
        requires
            active < old(self).active@.len(),
        ensures
            final(self).id == old(self).id,
            final(self).name == old(self).name,
            final(self).pokemon@ == old(self).pokemon@,
            final(self).active@.len() == old(self).active@.len(),
            slot_of(final(self).active@[active as int]) == new,
            new is Some ==> final(self).active@[active as int]->0.queued_move is None,
            forall|b: int| 0 <= b < old(self).active@.len() && b != active ==> final(self).active@[b] == old(self).active@[b],
    {
        let slot = match new {
            Some(index) => Some(ActiveBattlePokemon::from_index(index)),
            None => None,
        };
        self.active.set(active, slot);
    }

    /// The party as the other players know it.
    pub fn as_remote(&self) -> (r: RemoteParty)
        ensures
            r.id == self.id,
            r.active@.len() == self.active@.len(),
            forall|a: int| 0 <= a < self.active@.len() ==> r.active@[a] == slot_of(#[trigger] self.active@[a]),
            r.pokemon@.len() == self.pokemon@.len(),
            forall|k: int| 0 <= k < self.pokemon@.len() ==> r.pokemon@[k] == seen(#[trigger] self.pokemon@[k]),
    {
        let mut pokemon: Vec<Option<HpRatio>> = Vec::new();
        let mut k: usize = 0;
        while k < self.pokemon.len()
            invariant
                k <= self.pokemon@.len(),
                pokemon@.len() == k,
                forall|j: int| 0 <= j < k ==> pokemon@[j] == seen(#[trigger] self.pokemon@[j]),
            decreases self.pokemon@.len() - k,
        {
            let p = &self.pokemon[k];
            pokemon.push(if p.revealed { Some(HpRatio { hp: p.hp, max_hp: p.max_hp }) } else { None });
            k = k + 1;
        }
        RemoteParty { id: self.id, active: ActiveBattlePokemon::as_usize(&self.active), pokemon }
    }

    /// Empty active slot `active`, if there is one.
    pub fn remove_active(&mut self, active: usize)
        ensures
            final(self).id == old(self).id,
            final(self).name == old(self).name,
            final(self).pokemon@ == old(self).pokemon@,
            final(self).active@.len() == old(self).active@.len(),
            active < old(self).active@.len() ==> final(self).active@[active as int] is None,
            forall|b: int| 0 <= b < old(self).active@.len() && b != active ==> final(self).active@[b] == old(self).active@[b],
    {
        if active < self.active.len() {
            self.active.set(active, None);
        }
    }
}

} // verus!
