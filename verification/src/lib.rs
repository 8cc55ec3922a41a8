//! A seed-reproducible engine for a multiplayer elimination card game played
//! in space: players draw cards, attack each other, burn oxygen to survive and
//! travel along a shuffled track of space cards until one of them is left.

pub mod actions;
pub mod errors;
pub mod game;
pub mod game_cards;
pub mod laws;
pub mod player;
pub mod player_controller;
pub mod resolution;
pub mod rng;
pub mod space_cards;
pub mod state;
pub mod travel;
pub mod turns;
pub mod visible_state;

pub use actions::Action;
pub use errors::SelfishError;
pub use game::PlayerReference;
pub use game_cards::{GameCard, GameDeck};
pub use player::Player;
pub use player_controller::{PlayerController, RandomPlayerController};
pub use space_cards::{SpaceCard, SpaceDeck};
