//! Pokemon battle simulation: the rules of a battle, verified.

pub use firecore_pokedex as pokedex;

pub mod data;
pub mod types;
pub mod moves;
pub mod random;
pub mod pokemon;
pub mod select;
pub mod party;
pub mod player;
pub mod target;
pub mod queue;
pub mod state;
pub mod engine;
pub mod dex;
pub mod host;
pub mod scripting;
pub mod items;
pub mod endpoint;
pub mod ai;
pub mod usage;
