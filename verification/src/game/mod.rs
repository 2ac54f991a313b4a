//! The simulation's world: countries, wars, diplomacy and the game state.

pub mod country;
pub mod diplomacy;
pub mod economy;
pub mod laws;
pub mod state;
pub mod turn;
pub mod war;
