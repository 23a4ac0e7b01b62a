//! The connection between the battle host and a player.

use vstd::prelude::*;

use crate::select::PlayerId;

verus! {

/// Why a message could not go through.
#[derive(Debug, Clone, Copy, PartialEq, Eq, Structural)]
pub enum ConnectionError {
    Disconnected,
}

/// An endpoint for the battle host: it sends messages of type `A` and
/// receives messages of type `B`.
pub trait BattleEndpoint<A, B> {
    fn send(&self, message: A) -> Result<(), ConnectionError>;

    /// The next message, if one has come.
    fn receive(&self) -> Result<Option<B>, ConnectionError>;
}

/// An error the battle met with a player.
#[derive(Debug, Clone, Copy, PartialEq, Eq, Structural)]
pub struct BattleError(pub PlayerId, pub BattleErrors);

/// What went wrong with a player.
#[derive(Debug, Clone, Copy, PartialEq, Eq, Structural)]
pub enum BattleErrors {
    Connection(ConnectionError),
}

} // verus!
