//! Game rules of Apocalyptosis, a strategy game about running a secret cult.
//!
//! The library holds the decisions of the game: how suspicion meters move and
//! when they raise events, how funds and followers change hands, which
//! discoveries and bases are on offer, how the game clock reacts to pausing,
//! and how save files are named and framed.

mod random;

pub mod achievements;

pub mod bases;
pub mod dialog;
pub mod discoveries;
pub mod followers;
pub mod funds;
pub mod ledger;
pub mod lookup;
pub mod meter;
pub mod modifiers;
pub mod new_game;
pub mod regions;
pub mod save_load;
pub mod suspicion;
pub mod text;
pub mod time;
