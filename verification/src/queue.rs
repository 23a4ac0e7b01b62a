//! The order in which the actions of a turn are carried out.

use vstd::prelude::*;

use crate::moves::{move_id_eq, BattleMove, Priority, StatType};
use crate::party::ActiveBattlePokemon;
use crate::player::{in_play, PlayerQuery};
use crate::pokemon::{stat_value, BattlePokemon};
use crate::random::gen_u16;
use crate::select::{BattleSelection, Indexed, PlayerId, TeamIndex};

verus! {

/// Where an action goes in the turn. Switching and items go first, in order of
/// team and active slot. Moves come after them: higher move priority first,
/// then the faster pokemon first, then by a random tie breaker (an entry
/// without one goes before the entries with one).
#[derive(Debug, Clone, Copy, PartialEq, Eq, Structural)]
pub enum MovePriority {
    First(PlayerId, usize),
    Second(Priority, u16, Option<u16>),
}

/// `a` goes strictly before `b`.
pub open spec fn goes_before(a: MovePriority, b: MovePriority) -> bool {
    match (a, b) {
        (MovePriority::First(ta, ia), MovePriority::First(tb, ib)) => ta < tb || (ta == tb && ia < ib),
        (MovePriority::First(..), MovePriority::Second(..)) => true,
        (MovePriority::Second(..), MovePriority::First(..)) => false,
        (MovePriority::Second(pa, sa, oa), MovePriority::Second(pb, sb, ob)) => {
            ||| pa > pb
            ||| (pa == pb && sa > sb)
            ||| (pa == pb && sa == sb && match (oa, ob) {
                (None, Some(_)) => true,
                (Some(x), Some(y)) => x < y,
                _ => false,
            })
        },
    }
}

/// Whether `a` goes strictly before `b`.
pub fn before(a: &MovePriority, b: &MovePriority) -> (r: bool)
    ensures
        r == goes_before(*a, *b),
{
    match (a, b) {
        (MovePriority::First(ta, ia), MovePriority::First(tb, ib)) => *ta < *tb || (*ta == *tb && *ia < *ib),
        (MovePriority::First(..), MovePriority::Second(..)) => true,
        (MovePriority::Second(..), MovePriority::First(..)) => false,
        (MovePriority::Second(pa, sa, oa), MovePriority::Second(pb, sb, ob)) => {
            if *pa != *pb {
                *pa > *pb
            } else if *sa != *sb {
                *sa > *sb
            } else {
                match (oa, ob) {
                    (None, Some(_)) => true,
                    (Some(x), Some(y)) => *x < *y,
                    _ => false,
                }
            }
        },
    }
}

/// An action waiting in the turn queue.
#[derive(Debug, Clone, Copy)]
pub struct QueueEntry {
    pub priority: MovePriority,
    pub action: Indexed<BattleSelection>,
}

/// The entries are in strictly increasing order of priority.
pub open spec fn sorted(q: Seq<QueueEntry>) -> bool {
    forall|i: int, j: int| 0 <= i < j < q.len() ==> goes_before(q[i].priority, q[j].priority)
}

/// Some entry has the priority `p`.
pub open spec fn has_priority(q: Seq<QueueEntry>, p: MovePriority) -> bool {
    exists|i: int| 0 <= i < q.len() && q[i].priority == p
}

/// `goes_before` is a strict order.
pub proof fn lemma_order(a: MovePriority, b: MovePriority, c: MovePriority)
    ensures
        !goes_before(a, a),
        goes_before(a, b) ==> !goes_before(b, a),
        goes_before(a, b) && goes_before(b, c) ==> goes_before(a, c),
        a != b ==> goes_before(a, b) || goes_before(b, a),
{
}

/// Whether some entry has the priority `p`.
pub fn contains_priority(queue: &Vec<QueueEntry>, p: &MovePriority) -> (r: bool)
    ensures
        r == has_priority(queue@, *p),
{
    let mut i: usize = 0;
    while i < queue.len()
        invariant
            i <= queue@.len(),
            forall|j: int| 0 <= j < i ==> queue@[j].priority != *p,
        decreases queue@.len() - i,
    {
        if queue[i].priority == *p {
            return true;
        }
        i = i + 1;
    }
    false
}

/// Put an entry with a fresh priority in its place.
pub fn insert_sorted(queue: &mut Vec<QueueEntry>, entry: QueueEntry)
    requires
        sorted(old(queue)@),
        !has_priority(old(queue)@, entry.priority),
    ensures
        sorted(final(queue)@),
        exists|pos: int| 0 <= pos <= old(queue)@.len() && final(queue)@ == old(queue)@.insert(pos, entry),
{
    let mut pos: usize = 0;
    while pos < queue.len() && before(&queue[pos].priority, &entry.priority)
        invariant
            pos <= queue@.len(),
            forall|j: int| 0 <= j < pos ==> goes_before(queue@[j].priority, entry.priority),
        decreases queue@.len() - pos,
    {
        pos = pos + 1;
    }
    let ghost q = queue@;
    proof {
        if pos < q.len() {
            assert(q[pos as int].priority != entry.priority);
            lemma_order(q[pos as int].priority, entry.priority, entry.priority);
            assert(goes_before(entry.priority, q[pos as int].priority));
            assert forall|j: int| pos <= j < q.len() implies goes_before(entry.priority, q[j].priority) by {
                if j > pos {
                    lemma_order(entry.priority, q[pos as int].priority, q[j].priority);
                }
            }
        }
    }
    queue.insert(pos, entry);
    proof {
        q.insert_ensures(pos as int, entry);
        assert forall|i: int, j: int| 0 <= i < j < queue@.len() implies goes_before(queue@[i].priority, queue@[j].priority) by {
            if j < pos {
            } else if i < pos && j == pos {
            } else if i < pos && j > pos {
                assert(queue@[j] == q[j - 1]);
            } else if i == pos {
                assert(queue@[j] == q[j - 1]);
            } else {
                assert(queue@[i] == q[i - 1]);
                assert(queue@[j] == q[j - 1]);
            }
        }
    }
}

/// The priority of a move as the engine's move table gives it: the move must
/// be one the pokemon knows and one the table has, or else it is 0.
pub open spec fn table_priority(instance: BattlePokemon, table: Seq<BattleMove>, id: firecore_pokedex::moves::MoveId) -> Priority {
    if (exists|k: int| 0 <= k < instance.moves@.len() && instance.moves@[k].id == id)
        && (exists|t: int| 0 <= t < table.len() && table[t].id == id) {
        table[choose|t: int| 0 <= t < table.len() && table[t].id == id && forall|u: int| 0 <= u < t ==> table[u].id != id].priority
    } else {
        0
    }
}

/// Whether the pokemon knows the move.
pub fn knows_move(instance: &BattlePokemon, id: &firecore_pokedex::moves::MoveId) -> (r: bool)
    ensures
        r == exists|k: int| 0 <= k < instance.moves@.len() && instance.moves@[k].id == *id,
{
    let mut k: usize = 0;
    while k < instance.moves.len()
        invariant
            k <= instance.moves@.len(),
            forall|j: int| 0 <= j < k ==> instance.moves@[j].id != *id,
        decreases instance.moves@.len() - k,
    {
        if move_id_eq(&instance.moves[k].id, id) {
            return true;
        }
        k = k + 1;
    }
    false
}

/// Look a move's priority up, as `table_priority` says.
pub fn move_priority(instance: &BattlePokemon, table: &Vec<BattleMove>, id: &firecore_pokedex::moves::MoveId) -> (r: Priority)
    ensures
        r == table_priority(*instance, table@, *id),
{
    if !knows_move(instance, id) {
        return 0;
    }
    let mut t: usize = 0;
    while t < table.len()
        invariant
            t <= table@.len(),
            exists|j: int| 0 <= j < instance.moves@.len() && instance.moves@[j].id == *id,
            forall|u: int| 0 <= u < t ==> table@[u].id != *id,
        decreases table@.len() - t,
    {
        if move_id_eq(&table[t].id, id) {
            proof {
                let c = choose|c: int| 0 <= c < table@.len() && table@[c].id == *id && forall|u: int| 0 <= u < c ==> table@[u].id != *id;
                assert(c == t as int) by {
                    if c < t {
                    } else if c > t {
                        assert(table@[t as int].id == *id);
                    }
                }
            }
            return table[t].priority;
        }
        t = t + 1;
    }
    0
}

/// Among `MAX_TIE_DRAWS` random tie breakers drawn in turn, the first unused one is taken.
pub const MAX_TIE_DRAWS: u32 = 1000000;

/// A move priority with a tie breaker.
pub open spec fn tie(p: Priority, s: u16, y: u16) -> MovePriority {
    MovePriority::Second(p, s, Some(y))
}

/// Entry `e` is a move of priority `p` at speed `s`.
pub open spec fn keyed(e: QueueEntry, p: Priority, s: u16) -> bool {
    e.priority matches MovePriority::Second(pp, ss, _) && pp == p && ss == s
}

/// How many entries of the queue are moves of priority `p` at speed `s`.
pub open spec fn key_count(q: Seq<QueueEntry>, p: Priority, s: u16) -> nat
    decreases q.len(),
{
    if q.len() == 0 {
        0
    } else {
        key_count(q.drop_last(), p, s) + if keyed(q.last(), p, s) { 1nat } else { 0nat }
    }
}

/// The places of the entries that are moves of priority `p` at speed `s`.
pub open spec fn keyed_places(q: Seq<QueueEntry>, p: Priority, s: u16) -> Set<int> {
    Set::new(|i: int| 0 <= i < q.len() && keyed(q[i], p, s))
}

/// There are as many such places as `key_count` says.
proof fn lemma_keyed_places(q: Seq<QueueEntry>, p: Priority, s: u16)
    ensures
        keyed_places(q, p, s).finite(),
        keyed_places(q, p, s).len() == key_count(q, p, s),
    decreases q.len(),
{
    if q.len() == 0 {
        assert(keyed_places(q, p, s) =~= Set::<int>::empty());
    } else {
        let r = q.drop_last();
        lemma_keyed_places(r, p, s);
        let last = q.len() - 1;
        if keyed(q.last(), p, s) {
            assert(keyed_places(q, p, s) =~= keyed_places(r, p, s).insert(last));
        } else {
            assert(keyed_places(q, p, s) =~= keyed_places(r, p, s));
        }
    }
}

/// Putting an entry in counts it, where it is such a move.
pub proof fn lemma_key_count_insert(q: Seq<QueueEntry>, pos: int, e: QueueEntry, p: Priority, s: u16)
    requires
        0 <= pos <= q.len(),
    ensures
        key_count(q.insert(pos, e), p, s) == key_count(q, p, s) + if keyed(e, p, s) { 1nat } else { 0nat },
    decreases q.len(),
{
    if pos == q.len() {
        assert(q.insert(pos, e).drop_last() =~= q);
    } else {
        assert(q.insert(pos, e).drop_last() =~= q.drop_last().insert(pos, e));
        lemma_key_count_insert(q.drop_last(), pos, e, p, s);
    }
}

/// The tie breaker a candidate stands for: 65536 for none, else the value.
spec fn candidate(a: int) -> Option<u16> {
    if a == 65536 { None } else { Some(a as u16) }
}

/// With at most 65536 moves of priority `p` at speed `s` in the queue, some
/// tie breaker (or none) is still unused for them.
pub proof fn lemma_free_tie_breaker(q: Seq<QueueEntry>, p: Priority, s: u16)
    requires
        key_count(q, p, s) <= 65536,
    ensures
        exists|o: Option<u16>| !has_priority(q, MovePriority::Second(p, s, o)),
{
    if forall|o: Option<u16>| #[trigger] has_priority(q, MovePriority::Second(p, s, o)) {
        lemma_keyed_places(q, p, s);
        let x = vstd::set_lib::set_int_range(0, 65537);
        let places = keyed_places(q, p, s);
        let f = |a: int| choose|i: int| 0 <= i < q.len() && q[i].priority == MovePriority::Second(p, s, candidate(a));
        vstd::set_lib::lemma_int_range(0, 65537);
        assert forall|a: int| x.contains(a) implies 0 <= #[trigger] f(a) < q.len()
            && q[f(a)].priority == MovePriority::Second(p, s, candidate(a)) by {
            assert(has_priority(q, MovePriority::Second(p, s, candidate(a))));
        }
        assert(vstd::relations::injective_on(f, x)) by {
            assert forall|a: int, b: int| x.contains(a) && x.contains(b) && #[trigger] f(a) == #[trigger] f(b) implies a == b by {
                assert(q[f(a)].priority == MovePriority::Second(p, s, candidate(a)));
                assert(q[f(b)].priority == MovePriority::Second(p, s, candidate(b)));
                assert(candidate(a) == candidate(b));
                if a != b {
                    if a == 65536 {
                        assert(candidate(b) is Some);
                    } else if b == 65536 {
                        assert(candidate(a) is Some);
                    } else {
                        assert(a as u16 == a);
                        assert(b as u16 == b);
                    }
                }
            }
        }
        let y = x.map(f);
        vstd::set_lib::lemma_map_size(x, y, f);
        assert(y.subset_of(places)) by {
            assert forall|i: int| y.contains(i) implies places.contains(i) by {
                let a = choose|a: int| x.contains(a) && f(a) == i;
                assert(keyed(q[i], p, s));
            }
        }
        vstd::set_lib::lemma_len_subset(y, places);
    }
}

/// A priority that no entry of the queue has, for an action whose priority is
/// `priority` unless that one is taken: a taken move priority gets a random
/// tie breaker, drawn again while the one drawn is taken too.
pub fn free_priority(queue: &Vec<QueueEntry>, priority: MovePriority, random: &mut rand::rngs::StdRng) -> (r: MovePriority)
    requires
        priority matches MovePriority::Second(p, sp, _) ==> key_count(queue@, p, sp) <= 65536,
        priority is First ==> !has_priority(queue@, priority),
    ensures
        !has_priority(queue@, r),
        priority is First ==> r == priority,
        priority is Second ==> r is Second && r->Second_0 == priority->Second_0 && r->Second_1 == priority->Second_1,
        !has_priority(queue@, priority) ==> r == priority,
{
    if !contains_priority(queue, &priority) {
        proof {
            if let MovePriority::Second(p, s, o) = priority {
                assert(priority == MovePriority::Second(p, s, o));
            }
        }
        return priority;
    }
    match priority {
        MovePriority::First(..) => priority,
        MovePriority::Second(p, s, o0) => {
            let mut draws: u32 = 0;
            while draws < MAX_TIE_DRAWS
                invariant
                    priority == MovePriority::Second(p, s, o0),
                    has_priority(queue@, priority),
                decreases MAX_TIE_DRAWS - draws,
            {
                let shift = gen_u16(random);
                let candidate = MovePriority::Second(p, s, Some(shift));
                if !contains_priority(queue, &candidate) {
                    assert(exists|o: Option<u16>| candidate == MovePriority::Second(p, s, o)) by {
                        assert(candidate == MovePriority::Second(p, s, Some(shift)));
                    }
                    return candidate;
                }
                draws = draws + 1;
            }
            proof {
                lemma_free_tie_breaker(queue@, p, s);
            }
            let mut y: u32 = 0;
            while y < 65536
                invariant
                    priority == MovePriority::Second(p, s, o0),
                    has_priority(queue@, priority),
                    forall|z: u16| z < y ==> #[trigger] has_priority(queue@, tie(p, s, z)),
                    exists|o: Option<u16>| !has_priority(queue@, MovePriority::Second(p, s, o)),
                decreases 65536 - y,
            {
                let candidate = MovePriority::Second(p, s, Some(y as u16));
                if !contains_priority(queue, &candidate) {
                    assert(exists|o: Option<u16>| candidate == MovePriority::Second(p, s, o)) by {
                        assert(candidate == MovePriority::Second(p, s, Some(y as u16)));
                    }
                    return candidate;
                }
                assert(has_priority(queue@, tie(p, s, y as u16)));
                y = y + 1;
            }
            let candidate = MovePriority::Second(p, s, None);
            if !contains_priority(queue, &candidate) {
                assert(exists|o: Option<u16>| candidate == MovePriority::Second(p, s, o)) by {
                    assert(candidate == MovePriority::Second(p, s, None));
                }
                return candidate;
            }
            proof {
                let o = choose|o: Option<u16>| !has_priority(queue@, MovePriority::Second(p, s, o));
                if let Some(z) = o {
                    assert(z < y);
                    assert(has_priority(queue@, tie(p, s, z)));
                }
            }
            priority
        },
    }
}

/// What active slot `k` hands to the queue: the selection queued for it, when
/// the slot holds a pokemon of the party.
pub open spec fn handed(active: Seq<Option<ActiveBattlePokemon>>, party: Seq<BattlePokemon>, k: int) -> Option<BattleSelection> {
    match active[k] {
        Some(a) => if a.index < party.len() {
            a.queued_move
        } else {
            None
        },
        None => None,
    }
}

/// Active slot `k` hands the queue an action other than a move (a switch or an item).
pub open spec fn hands_other(active: Seq<Option<ActiveBattlePokemon>>, party: Seq<BattlePokemon>, k: int) -> bool {
    handed(active, party, k) matches Some(a) && !(a is Move)
}

/// Entry `e` was queued for active slot `k` of team `id`, where it keeps its
/// place among the entries that are not moves.
pub open spec fn holds_other_slot(e: QueueEntry, id: PlayerId, k: int) -> bool {
    e.priority matches MovePriority::First(pid, slot) && pid == id && slot == k
}

/// How many of the first `n` active slots hand an action to the queue.
pub open spec fn handed_count(active: Seq<Option<ActiveBattlePokemon>>, party: Seq<BattlePokemon>, n: int) -> nat
    decreases n,
{
    if n <= 0 {
        0
    } else {
        handed_count(active, party, n - 1) + if handed(active, party, n - 1) is Some { 1nat } else { 0nat }
    }
}

/// The priority that the action of active slot `k` of team `id` goes with:
/// a move goes by the move's priority and the pokemon's speed (and some tie
/// breaker), any other action by team and slot.
pub open spec fn priority_fits(
    p: MovePriority,
    id: PlayerId,
    k: int,
    action: BattleSelection,
    instance: BattlePokemon,
    table: Seq<BattleMove>,
) -> bool {
    match action {
        BattleSelection::Move(mid, _) => p is Second && p->Second_0 == table_priority(instance, table, mid)
            && p->Second_1 == stat_value(instance, StatType::Speed),
        _ => p == MovePriority::First(id, k as usize),
    }
}

/// The actions of the first `n` active slots of team `id`, in slot order,
/// each with the slot it comes from.
pub open spec fn handed_actions(active: Seq<Option<ActiveBattlePokemon>>, party: Seq<BattlePokemon>, id: PlayerId, n: int) -> Seq<Indexed<BattleSelection>>
    decreases n,
{
    if n <= 0 {
        Seq::empty()
    } else {
        let rest = handed_actions(active, party, id, n - 1);
        match handed(active, party, n - 1) {
            Some(action) => rest.push(Indexed(TeamIndex(id, (n - 1) as usize), action)),
            None => rest,
        }
    }
}

/// The actions of the queue, in queue order.
pub open spec fn actions(q: Seq<QueueEntry>) -> Seq<Indexed<BattleSelection>> {
    q.map_values(|e: QueueEntry| e.action)
}

/// An entry of team `id` has the priority its slot's action goes with.
pub open spec fn fits_slot(
    e: QueueEntry,
    id: PlayerId,
    active: Seq<Option<ActiveBattlePokemon>>,
    party: Seq<BattlePokemon>,
    table: Seq<BattleMove>,
) -> bool {
    e.action.0.0 == id ==> {
        &&& e.action.0.1 < active.len()
        &&& handed(active, party, e.action.0.1 as int) == Some(e.action.1)
        &&& active[e.action.0.1 as int] is Some
        &&& active[e.action.0.1 as int]->0.index < party.len()
        &&& priority_fits(e.priority, id, e.action.0.1 as int, e.action.1, party[active[e.action.0.1 as int]->0.index as int], table)
    }
}

/// Entry `e` is one of the entries `q0`, or one queued for team `id` from one
/// of its first `n` active slots, with the priority that fits it.
pub open spec fn kept_or_fits(
    e: QueueEntry,
    q0: Seq<QueueEntry>,
    id: PlayerId,
    active: Seq<Option<ActiveBattlePokemon>>,
    party: Seq<BattlePokemon>,
    table: Seq<BattleMove>,
    n: int,
) -> bool {
    ||| exists|i: int| 0 <= i < q0.len() && e == q0[i]
    ||| e.action.0.0 == id && e.action.0.1 < n && fits_slot(e, id, active, party, table)
}

/// The slot with its selection taken away.
pub open spec fn cleared(slot: Option<ActiveBattlePokemon>) -> Option<ActiveBattlePokemon> {
    match slot {
        Some(a) => Some(ActiveBattlePokemon { index: a.index, queued_move: None }),
        None => None,
    }
}

/// Every element of a sequence with one element inserted meets a property
/// that the element and the sequence meet.
pub proof fn lemma_insert_all<A>(q: Seq<A>, pos: int, e: A, p: spec_fn(A) -> bool)
    requires
        0 <= pos <= q.len(),
        forall|i: int| 0 <= i < q.len() ==> p(#[trigger] q[i]),
        p(e),
    ensures
        forall|j: int| 0 <= j < q.len() + 1 ==> p(#[trigger] q.insert(pos, e)[j]),
{
    q.insert_ensures(pos, e);
    assert forall|j: int| 0 <= j < q.len() + 1 implies p(#[trigger] q.insert(pos, e)[j]) by {
        if j < pos {
            assert(q.insert(pos, e)[j] == q[j]);
        } else if j > pos {
            assert(q.insert(pos, e)[j] == q[j - 1]);
        }
    }
}

/// The priority and speed of the move that active slot `k` hands to the
/// queue, when it hands a move.
pub open spec fn handed_key(
    active: Seq<Option<ActiveBattlePokemon>>,
    party: Seq<BattlePokemon>,
    table: Seq<BattleMove>,
    k: int,
) -> Option<(Priority, u16)> {
    match handed(active, party, k) {
        Some(BattleSelection::Move(mid, _)) => {
            let instance = party[active[k]->0.index as int];
            Some((table_priority(instance, table, mid), stat_value(instance, StatType::Speed) as u16))
        },
        _ => None,
    }
}

/// How many of the first `n` active slots hand a move of priority `p` at speed `s`.
pub open spec fn handed_key_count(
    active: Seq<Option<ActiveBattlePokemon>>,
    party: Seq<BattlePokemon>,
    table: Seq<BattleMove>,
    p: Priority,
    s: u16,
    n: int,
) -> nat
    decreases n,
{
    if n <= 0 {
        0
    } else {
        handed_key_count(active, party, table, p, s, n - 1) + if handed_key(active, party, table, n - 1) == Some((p, s)) {
            1nat
        } else {
            0nat
        }
    }
}

/// Counting more slots counts no fewer moves.
proof fn lemma_handed_key_count_grows(
    active: Seq<Option<ActiveBattlePokemon>>,
    party: Seq<BattlePokemon>,
    table: Seq<BattleMove>,
    p: Priority,
    s: u16,
    n: int,
    m: int,
)
    requires
        0 <= n <= m,
    ensures
        handed_key_count(active, party, table, p, s, n) <= handed_key_count(active, party, table, p, s, m),
    decreases m - n,
{
    if n < m {
        lemma_handed_key_count_grows(active, party, table, p, s, n, m - 1);
    }
}

/// Take the selections of a team's active pokemon and put them in the queue,
/// each in its place by priority.
#[verifier::rlimit(60)]
#[verifier::spinoff_prover]
pub fn queue_player(
    table: &Vec<BattleMove>,
    queue: &mut Vec<QueueEntry>,
    id: PlayerId,
    active: &mut Vec<Option<ActiveBattlePokemon>>,
    party: &Vec<BattlePokemon>,
    random: &mut rand::rngs::StdRng,
)
    requires
        sorted(old(queue)@),
        forall|i: int, k: int| 0 <= i < old(queue)@.len() && 0 <= k < old(active)@.len()
            && #[trigger] holds_other_slot(old(queue)@[i], id, k) ==> !hands_other(old(active)@, party@, k),
        forall|p: Priority, s: u16| key_count(old(queue)@, p, s)
            + #[trigger] handed_key_count(old(active)@, party@, table@, p, s, old(active)@.len() as int) <= 65537,
    ensures
        sorted(final(queue)@),
        final(queue)@.len() <= old(queue)@.len() + old(active)@.len(),
        actions(final(queue)@).to_multiset() == actions(old(queue)@).to_multiset().add(
            handed_actions(old(active)@, party@, id, old(active)@.len() as int).to_multiset()),
        forall|j: int| 0 <= j < final(queue)@.len() ==> kept_or_fits(#[trigger] final(queue)@[j], old(queue)@, id, old(active)@, party@, table@, old(active)@.len() as int),
        forall|p: Priority, s: u16| #[trigger] key_count(final(queue)@, p, s) == key_count(old(queue)@, p, s)
            + handed_key_count(old(active)@, party@, table@, p, s, old(active)@.len() as int),
        final(active)@.len() == old(active)@.len(),
        forall|k: int| 0 <= k < old(active)@.len() ==> #[trigger] final(active)@[k] == cleared(old(active)@[k]),
{
    let ghost q0 = queue@;
    let ghost a0 = active@;
    proof {
        broadcast use vstd::seq_lib::group_to_multiset_ensures, vstd::multiset::group_multiset_axioms;
        let empty = handed_actions(a0, party@, id, 0);
        assert(empty.to_multiset().len() == 0);
        vstd::multiset::lemma_multiset_empty_len(empty.to_multiset());
        assert(actions(q0).to_multiset().add(empty.to_multiset()) =~= actions(q0).to_multiset());
    }
    let mut index: usize = 0;
    while index < active.len()
        invariant
            index <= active@.len(),
            active@.len() == a0.len(),
            forall|p: Priority, s: u16| key_count(q0, p, s)
                + #[trigger] handed_key_count(a0, party@, table@, p, s, a0.len() as int) <= 65537,
            forall|p: Priority, s: u16| #[trigger] key_count(queue@, p, s) == key_count(q0, p, s)
                + handed_key_count(a0, party@, table@, p, s, index as int),
            sorted(queue@),
            queue@.len() <= q0.len() + index,
            forall|k: int| 0 <= k < index ==> #[trigger] active@[k] == cleared(a0[k]),
            forall|k: int| index <= k < a0.len() ==> #[trigger] active@[k] == a0[k],
            forall|i: int, k: int| 0 <= i < q0.len() && 0 <= k < a0.len() && #[trigger] holds_other_slot(q0[i], id, k)
                ==> !hands_other(a0, party@, k),
            actions(queue@).to_multiset() == actions(q0).to_multiset().add(handed_actions(a0, party@, id, index as int).to_multiset()),
            forall|j: int| 0 <= j < queue@.len() ==> kept_or_fits(#[trigger] queue@[j], q0, id, a0, party@, table@, index as int),
        decreases a0.len() - index,
    {
        let slot = active[index];
        assert(handed_actions(a0, party@, id, index + 1) == match handed(a0, party@, index as int) {
            Some(action) => handed_actions(a0, party@, id, index as int).push(Indexed(TeamIndex(id, index), action)),
            None => handed_actions(a0, party@, id, index as int),
        });
        if let Some(mut current) = slot {
            let action = current.queued_move;
            current.queued_move = None;
            active.set(index, Some(current));
            if let Some(action) = action {
                if current.index < party.len() {
                    let instance = &party[current.index];
                    let base = match action {
                        BattleSelection::Move(mid, _) => MovePriority::Second(
                            move_priority(instance, table, &mid),
                            instance.stat(StatType::Speed),
                            None,
                        ),
                        _ => MovePriority::First(id, index),
                    };
                    proof {
                        if let MovePriority::Second(pr, sp, _) = base {
                            assert(handed_key(a0, party@, table@, index as int) == Some((pr, sp)));
                            lemma_handed_key_count_grows(a0, party@, table@, pr, sp, index + 1, a0.len() as int);
                            assert(key_count(queue@, pr, sp) == key_count(q0, pr, sp) + handed_key_count(a0, party@, table@, pr, sp, index as int));
                            assert(key_count(q0, pr, sp) + handed_key_count(a0, party@, table@, pr, sp, a0.len() as int) <= 65537);
                        }
                        if base is First {
                            assert(hands_other(a0, party@, index as int));
                            assert forall|j: int| 0 <= j < queue@.len() implies queue@[j].priority != base by {
                                assert(kept_or_fits(queue@[j], q0, id, a0, party@, table@, index as int));
                                if exists|i: int| 0 <= i < q0.len() && queue@[j] == q0[i] {
                                    let i = choose|i: int| 0 <= i < q0.len() && queue@[j] == q0[i];
                                    if queue@[j].priority == base {
                                        assert(holds_other_slot(q0[i], id, index as int));
                                    }
                                }
                            }
                        }
                    }
                    let priority = free_priority(queue, base, random);
                    let entry = QueueEntry { priority, action: Indexed(TeamIndex(id, index), action) };
                    let ghost before = queue@;
                    insert_sorted(queue, entry);
                    proof {
                        let pos = choose|pos: int| 0 <= pos <= before.len() && queue@ == before.insert(pos, entry);
                        assert(fits_slot(entry, id, a0, party@, table@));
                        assert forall|j: int| 0 <= j < before.len() implies kept_or_fits(#[trigger] before[j], q0, id, a0, party@, table@, index + 1) by {
                            assert(kept_or_fits(before[j], q0, id, a0, party@, table@, index as int));
                        }
                        assert(kept_or_fits(entry, q0, id, a0, party@, table@, index + 1));
                        lemma_insert_all(before, pos, entry, |e: QueueEntry| kept_or_fits(e, q0, id, a0, party@, table@, index + 1));
                        assert(actions(queue@) =~= actions(before).insert(pos, entry.action));
                        vstd::seq_lib::to_multiset_insert(actions(before), pos, entry.action);
                        vstd::seq_lib::to_multiset_build(handed_actions(a0, party@, id, index as int), entry.action);
                        assert(actions(queue@).to_multiset() =~= actions(q0).to_multiset().add(handed_actions(a0, party@, id, index + 1).to_multiset()));
                        assert forall|p: Priority, s: u16| #[trigger] key_count(queue@, p, s) == key_count(q0, p, s)
                            + handed_key_count(a0, party@, table@, p, s, index + 1) by {
                            lemma_key_count_insert(before, pos, entry, p, s);
                            assert(key_count(before, p, s) == key_count(q0, p, s) + handed_key_count(a0, party@, table@, p, s, index as int));
                            assert(keyed(entry, p, s) == (handed_key(a0, party@, table@, index as int) == Some((p, s))));
                        }
                    }
                }
            }
        }
        proof {
            assert forall|p: Priority, s: u16| #[trigger] key_count(queue@, p, s) == key_count(q0, p, s)
                + handed_key_count(a0, party@, table@, p, s, index + 1) by {
            }
        }
        index = index + 1;
    }
}

/// How many moves of priority `p` at speed `s` the players in play hand to the queue.
pub open spec fn all_key_count(players: Seq<crate::player::BattlePlayer>, table: Seq<BattleMove>, p: Priority, s: u16) -> nat
    decreases players.len(),
{
    if players.len() == 0 {
        0
    } else {
        let last = players.last();
        all_key_count(players.drop_last(), table, p, s) + if in_play(last) {
            handed_key_count(last.party.active@, last.party.pokemon@, table, p, s, last.party.active@.len() as int)
        } else {
            0nat
        }
    }
}

/// No more than 65537 of the moves handed to the queue share a priority and a
/// speed: past that, no tie breaker would be left to order another one.
pub open spec fn moves_fit_queue(players: Seq<crate::player::BattlePlayer>, table: Seq<BattleMove>) -> bool {
    forall|p: Priority, s: u16| #[trigger] all_key_count(players, table, p, s) <= 65537
}

/// A prefix of the players hands no more such moves than all of them.
pub proof fn lemma_all_key_count_prefix(players: Seq<crate::player::BattlePlayer>, table: Seq<BattleMove>, p: Priority, s: u16, n: int)
    requires
        0 <= n <= players.len(),
    ensures
        all_key_count(players.take(n), table, p, s) <= all_key_count(players, table, p, s),
    decreases players.len(),
{
    if n < players.len() {
        lemma_all_key_count_prefix(players.drop_last(), table, p, s, n);
        assert(players.drop_last().take(n) =~= players.take(n));
    } else {
        assert(players.take(n) =~= players);
    }
}

/// The actions that the players in play hand to the queue, player by player.
pub open spec fn all_handed(players: Seq<crate::player::BattlePlayer>) -> Seq<Indexed<BattleSelection>>
    decreases players.len(),
{
    if players.len() == 0 {
        Seq::empty()
    } else {
        let p = players.last();
        let rest = all_handed(players.drop_last());
        if in_play(p) {
            rest + handed_actions(p.party.active@, p.party.pokemon@, p.party.id, p.party.active@.len() as int)
        } else {
            rest
        }
    }
}

/// An entry has the priority that its slot's action goes with, for the player
/// in play it belongs to.
pub open spec fn fits_player(e: QueueEntry, players: Seq<crate::player::BattlePlayer>, table: Seq<BattleMove>) -> bool {
    exists|i: int| 0 <= i < players.len() && in_play(players[i]) && players[i].party.id == e.action.0.0
        && fits_slot(e, e.action.0.0, players[i].party.active@, players[i].party.pokemon@, table)
}

/// No two players in play share an id.
pub open spec fn distinct_ids(players: Seq<crate::player::BattlePlayer>) -> bool {
    forall|i: int, j: int| 0 <= i < j < players.len() && in_play(players[i]) && in_play(players[j])
        ==> players[i].party.id != players[j].party.id
}

/// Two players in play share an id, and both hand the queue a switch or an
/// item from the same active slot (the two would claim the same place).
pub open spec fn selections_clash(a: crate::player::BattlePlayer, b: crate::player::BattlePlayer) -> bool {
    &&& in_play(a)
    &&& in_play(b)
    &&& a.party.id == b.party.id
    &&& exists|k: int| 0 <= k < a.party.active@.len() && 0 <= k < b.party.active@.len()
        && #[trigger] hands_other(a.party.active@, a.party.pokemon@, k) && hands_other(b.party.active@, b.party.pokemon@, k)
}

/// No two players clash in their selections.
pub open spec fn no_clashing_selections(players: Seq<crate::player::BattlePlayer>) -> bool {
    forall|i: int, j: int| 0 <= i < j < players.len() ==> !#[trigger] selections_clash(players[i], players[j])
}

/// Whether active slot `k` hands the queue a switch or an item.
fn slot_hands_other(active: &Vec<Option<ActiveBattlePokemon>>, party: &Vec<BattlePokemon>, k: usize) -> (r: bool)
    requires
        k < active@.len(),
    ensures
        r == hands_other(active@, party@, k as int),
{
    match &active[k] {
        Some(a) => if a.index < party.len() {
            match &a.queued_move {
                Some(BattleSelection::Move(..)) => false,
                Some(_) => true,
                None => false,
            }
        } else {
            false
        },
        None => false,
    }
}

/// Whether two players clash in their selections.
fn pair_clashes(a: &crate::player::BattlePlayer, b: &crate::player::BattlePlayer) -> (r: bool)
    ensures
        r == selections_clash(*a, *b),
{
    if !(a.removed.is_none() && a.ready && b.removed.is_none() && b.ready && a.party.id == b.party.id) {
        return false;
    }
    let n = if a.party.active.len() < b.party.active.len() { a.party.active.len() } else { b.party.active.len() };
    let mut k: usize = 0;
    while k < n
        invariant
            k <= n,
            n <= a.party.active@.len(),
            n <= b.party.active@.len(),
            n == a.party.active@.len() || n == b.party.active@.len(),
            in_play(*a) && in_play(*b) && a.party.id == b.party.id,
            forall|s: int| 0 <= s < k ==> !(#[trigger] hands_other(a.party.active@, a.party.pokemon@, s)
                && hands_other(b.party.active@, b.party.pokemon@, s)),
        decreases n - k,
    {
        if slot_hands_other(&a.party.active, &a.party.pokemon, k) && slot_hands_other(&b.party.active, &b.party.pokemon, k) {
            assert(hands_other(a.party.active@, a.party.pokemon@, k as int) && hands_other(b.party.active@, b.party.pokemon@, k as int));
            return true;
        }
        k = k + 1;
    }
    false
}

/// Whether two players in play that share an id both hand the queue a switch
/// or an item from the same active slot, so that no turn can be ordered.
pub fn selections_clash_in(players: &PlayerQuery) -> (r: bool)
    ensures
        r == !no_clashing_selections(players.0@),
{
    let p = &players.0;
    let mut i: usize = 0;
    while i < p.len()
        invariant
            p@ == players.0@,
            i <= p@.len(),
            forall|x: int, y: int| 0 <= x < i && x < y < p@.len() ==> !#[trigger] selections_clash(p@[x], p@[y]),
        decreases p@.len() - i,
    {
        let mut j: usize = i + 1;
        while j < p.len()
            invariant
                p@ == players.0@,
                i < p@.len(),
                i + 1 <= j <= p@.len(),
                forall|x: int, y: int| 0 <= x < i && x < y < p@.len() ==> !#[trigger] selections_clash(p@[x], p@[y]),
                forall|y: int| i < y < j ==> !#[trigger] selections_clash(p@[i as int], p@[y]),
            decreases p@.len() - j,
        {
            if pair_clashes(&p[i], &p[j]) {
                assert(selections_clash(p@[i as int], p@[j as int]));
                assert(i < j < p@.len());
                assert(!no_clashing_selections(players.0@));
                return true;
            }
            j = j + 1;
        }
        i = i + 1;
    }
    false
}

/// The player with its selections taken away, if it is in play.
pub open spec fn dequeued(old: crate::player::BattlePlayer, new: crate::player::BattlePlayer) -> bool {
    &&& new.party.id == old.party.id
    &&& new.party.name == old.party.name
    &&& new.party.pokemon@ == old.party.pokemon@
    &&& new.removed == old.removed
    &&& new.ready == old.ready
    &&& new.settings == old.settings
    &&& new.bag == old.bag
    &&& new.party.active@.len() == old.party.active@.len()
    &&& forall|k: int| 0 <= k < old.party.active@.len() ==> #[trigger] new.party.active@[k] == if in_play(old) {
        cleared(old.party.active@[k])
    } else {
        old.party.active@[k]
    }
}

/// The order of the actions of a turn: every player in play hands over what it
/// selected, and the actions are sorted by priority.
pub fn move_queue(query: &mut PlayerQuery, table: &Vec<BattleMove>, random: &mut rand::rngs::StdRng) -> (r: Vec<Indexed<BattleSelection>>)
    requires
        no_clashing_selections(old(query).0@),
        moves_fit_queue(old(query).0@, table@),
    ensures
        r@.to_multiset() == all_handed(old(query).0@).to_multiset(),
        exists|q: Seq<QueueEntry>| {
            &&& sorted(q)
            &&& actions(q) == r@
            &&& forall|j: int| 0 <= j < q.len() ==> fits_player(#[trigger] q[j], old(query).0@, table@)
        },
        final(query).0@.len() == old(query).0@.len(),
        forall|i: int| 0 <= i < old(query).0@.len() ==> dequeued(#[trigger] old(query).0@[i], final(query).0@[i]),
{
    let ghost p0 = query.0@;
    let mut queue: Vec<QueueEntry> = Vec::new();
    let mut i: usize = 0;
    proof {
        broadcast use vstd::seq_lib::group_to_multiset_ensures;
        assert(actions(queue@) =~= all_handed(p0.take(0)));
        assert forall|p: Priority, s: u16| #[trigger] key_count(queue@, p, s) == all_key_count(p0.take(0), table@, p, s) by {
        }
    }
    while i < query.0.len()
        invariant
            i <= query.0@.len(),
            query.0@.len() == p0.len(),
            no_clashing_selections(p0),
            moves_fit_queue(p0, table@),
            sorted(queue@),
            forall|p: Priority, s: u16| #[trigger] key_count(queue@, p, s) == all_key_count(p0.take(i as int), table@, p, s),
            actions(queue@).to_multiset() == all_handed(p0.take(i as int)).to_multiset(),
            forall|j: int| 0 <= j < queue@.len() ==> fits_player(#[trigger] queue@[j], p0.take(i as int), table@),
            forall|k: int| 0 <= k < i ==> dequeued(#[trigger] p0[k], query.0@[k]),
            forall|k: int| i <= k < p0.len() ==> #[trigger] query.0@[k] == p0[k],
        decreases p0.len() - i,
    {
        assert(p0.take(i + 1).drop_last() =~= p0.take(i as int));
        let ghost pi = p0[i as int];
        if query.0[i].removed.is_none() && query.0[i].ready {
            let player = &mut query.0[i];
            let id = player.party.id;
            let ghost q_before = queue@;
            proof {
                assert forall|e: int, s: int| 0 <= e < queue@.len() && 0 <= s < pi.party.active@.len()
                    && #[trigger] holds_other_slot(queue@[e], id, s)
                    implies !hands_other(pi.party.active@, pi.party.pokemon@, s) by {
                    assert(fits_player(queue@[e], p0.take(i as int), table@));
                    let k = choose|k: int| 0 <= k < p0.take(i as int).len() && in_play(p0.take(i as int)[k])
                        && p0.take(i as int)[k].party.id == queue@[e].action.0.0
                        && fits_slot(queue@[e], queue@[e].action.0.0, p0.take(i as int)[k].party.active@,
                            p0.take(i as int)[k].party.pokemon@, table@);
                    assert(p0.take(i as int)[k] == p0[k]);
                    assert(hands_other(p0[k].party.active@, p0[k].party.pokemon@, s));
                    assert(!selections_clash(p0[k], p0[i as int]));
                }
                assert forall|p: Priority, s: u16| key_count(queue@, p, s)
                    + #[trigger] handed_key_count(pi.party.active@, pi.party.pokemon@, table@, p, s, pi.party.active@.len() as int) <= 65537 by {
                    lemma_all_key_count_prefix(p0, table@, p, s, i + 1);
                    assert(all_key_count(p0, table@, p, s) <= 65537);
                }
            }
            queue_player(table, &mut queue, id, &mut player.party.active, &player.party.pokemon, random);
            proof {
                let h = handed_actions(pi.party.active@, pi.party.pokemon@, id, pi.party.active@.len() as int);
                assert(all_handed(p0.take(i + 1)) == all_handed(p0.take(i as int)) + h);
                vstd::seq_lib::lemma_multiset_commutative(all_handed(p0.take(i as int)), h);
                assert forall|p: Priority, s: u16| #[trigger] key_count(queue@, p, s) == all_key_count(p0.take(i + 1), table@, p, s) by {
                    assert(key_count(q_before, p, s) == all_key_count(p0.take(i as int), table@, p, s));
                }
                assert forall|j: int| 0 <= j < queue@.len() implies fits_player(#[trigger] queue@[j], p0.take(i + 1), table@) by {
                    assert(kept_or_fits(queue@[j], q_before, id, pi.party.active@, pi.party.pokemon@, table@, pi.party.active@.len() as int));
                    if !(exists|o: int| 0 <= o < q_before.len() && queue@[j] == q_before[o]) {
                        assert(p0.take(i + 1)[i as int] == pi);
                    } else {
                        let o = choose|o: int| 0 <= o < q_before.len() && queue@[j] == q_before[o];
                        assert(fits_player(q_before[o], p0.take(i as int), table@));
                        let k = choose|k: int| 0 <= k < p0.take(i as int).len() && in_play(p0.take(i as int)[k])
                            && p0.take(i as int)[k].party.id == q_before[o].action.0.0
                            && fits_slot(q_before[o], q_before[o].action.0.0, p0.take(i as int)[k].party.active@,
                                p0.take(i as int)[k].party.pokemon@, table@);
                        assert(p0.take(i + 1)[k] == p0.take(i as int)[k]);
                    }
                }
            }
        }
        else {
            proof {
                assert(all_handed(p0.take(i + 1)) == all_handed(p0.take(i as int)));
                assert forall|j: int| 0 <= j < queue@.len() implies fits_player(#[trigger] queue@[j], p0.take(i + 1), table@) by {
                    assert(fits_player(queue@[j], p0.take(i as int), table@));
                    let k = choose|k: int| 0 <= k < p0.take(i as int).len() && in_play(p0.take(i as int)[k])
                        && p0.take(i as int)[k].party.id == queue@[j].action.0.0
                        && fits_slot(queue@[j], queue@[j].action.0.0, p0.take(i as int)[k].party.active@,
                            p0.take(i as int)[k].party.pokemon@, table@);
                    assert(p0.take(i + 1)[k] == p0.take(i as int)[k]);
                }
                assert forall|p: Priority, s: u16| #[trigger] key_count(queue@, p, s) == all_key_count(p0.take(i + 1), table@, p, s) by {
                    assert(key_count(queue@, p, s) == all_key_count(p0.take(i as int), table@, p, s));
                }
            }
        }
        i = i + 1;
    }
    assert(p0.take(p0.len() as int) =~= p0);
    let mut r: Vec<Indexed<BattleSelection>> = Vec::new();
    let mut j: usize = 0;
    while j < queue.len()
        invariant
            j <= queue@.len(),
            r@ == actions(queue@).take(j as int),
        decreases queue@.len() - j,
    {
        r.push(queue[j].action);
        assert(actions(queue@).take(j + 1) =~= actions(queue@).take(j as int).push(queue@[j as int].action));
        j = j + 1;
    }
    assert(actions(queue@).take(queue@.len() as int) =~= actions(queue@));
    r
}

/// The kind of priority an entry fitting its player has: a move goes by its
/// priority and the pokemon's speed, anything else by team and slot.
pub proof fn lemma_fitting_priority(e: QueueEntry, players: Seq<crate::player::BattlePlayer>, table: Seq<BattleMove>)
    requires
        fits_player(e, players, table),
    ensures
        e.action.1 is Move <==> e.priority is Second,
{
    let i = choose|i: int| 0 <= i < players.len() && in_play(players[i]) && players[i].party.id == e.action.0.0
        && fits_slot(e, e.action.0.0, players[i].party.active@, players[i].party.pokemon@, table);
}

/// The order of a turn: switches and items come before moves; of two moves,
/// the one of higher move priority comes first, and at equal priority the one
/// of the faster pokemon.
pub proof fn lemma_turn_order(q: Seq<QueueEntry>, players: Seq<crate::player::BattlePlayer>, table: Seq<BattleMove>, i: int, j: int)
    requires
        sorted(q),
        forall|k: int| 0 <= k < q.len() ==> fits_player(#[trigger] q[k], players, table),
        0 <= i < j < q.len(),
    ensures
        !(q[j].action.1 is Move) ==> !(q[i].action.1 is Move),
        q[i].action.1 is Move && q[j].action.1 is Move ==> {
            ||| q[i].priority->Second_0 > q[j].priority->Second_0
            ||| (q[i].priority->Second_0 == q[j].priority->Second_0 && q[i].priority->Second_1 >= q[j].priority->Second_1)
        },
{
    lemma_fitting_priority(q[i], players, table);
    lemma_fitting_priority(q[j], players, table);
    assert(goes_before(q[i].priority, q[j].priority));
}

} // verus!
