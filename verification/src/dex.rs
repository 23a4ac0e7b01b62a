//! The move dex: every move a pokemon could learn.

use vstd::prelude::*;

verus! {

/// The pokedex's dex of moves (a map from move id to move).
#[verifier::external_body]
pub struct Movedex {
    pub dex: firecore_pokedex::Dex<firecore_pokedex::moves::Move>,
}

/// The moves of a move dex, each with its maximum PP.
pub uninterp spec fn dex_moves(dex: Movedex) -> Map<firecore_pokedex::moves::MoveId, u8>;

/// `Dex::try_get`, keeping the maximum PP of the move found: `Some` exactly
/// when the dex holds a move with that id (a lookup in the dex's map).
#[verifier::external_body]
pub fn dex_move_pp(dex: &Movedex, id: &firecore_pokedex::moves::MoveId) -> (r: Option<u8>)
    ensures
        r is Some <==> dex_moves(*dex).contains_key(*id),
        r matches Some(pp) ==> dex_moves(*dex)[*id] == pp,
{
    dex.dex.try_get(id).map(|m| m.pp)
}

} // verus!
