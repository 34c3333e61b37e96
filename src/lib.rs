//! A deterministic two-player card battle engine: matchmaking, turn-action
//! execution and simultaneous lane combat, with contracts over a spec model.

pub mod types;
pub mod player;
pub mod cards;
pub mod game;
pub mod engine;
pub mod laws;
pub use cards::{CardCatalog, CardDataProvider};
pub use engine::CardsOnChain;
pub use game::Game;
pub use player::PlayerState;
pub use types::{
    ActionExecuted, ActionType, Address, CardId, CardMetadata, CardType, EffectType, Error, Event,
    GameEnded, GameId, GameStarted, GameStatus, TurnEnded, UnitInstance,
};
