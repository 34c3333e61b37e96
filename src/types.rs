use vstd::prelude::*;

verus! {

/// Identifier of a card definition in the card catalog.
pub type CardId = u32;

/// Identifier of a game; `0` is never a game.
pub type GameId = u32;

/// Identity of a participant, as supplied by the host.
pub type Address = u64;

/// Number of unit slots on each board.
pub const BOARD_SLOTS: usize = 4;

/// Largest number of cards a hand can hold.
pub const MAX_HAND: usize = 7;

/// Upper bound of a player's `max_energy`.
pub const MAX_ENERGY: u8 = 10;

/// Hit points each player starts a game with.
pub const START_HP: i16 = 20;

#[derive(Clone, Copy, Debug, PartialEq, Eq, Structural)]
pub enum CardType {
    Unit,
    Spell,
}

#[derive(Clone, Copy, Debug, PartialEq, Eq, Structural)]
pub enum EffectType {
    NoEffect,
    Charge,
}

/// Catalog data of one card; owned by the catalog, never changed by the engine.
#[derive(Clone, Copy, Debug, PartialEq, Eq, Structural)]
pub struct CardMetadata {
    pub id: CardId,
    pub name_hash: u64,
    pub rarity: u8,
    pub card_type: CardType,
    pub cost: u8,
    pub attack: u8,
    pub health: u8,
    pub effects: EffectType,
}

/// A card played onto a board slot.
#[derive(Clone, Copy, Debug, PartialEq, Eq, Structural)]
pub struct UnitInstance {
    pub card_id: CardId,
    pub current_hp: i16,
    pub acted_this_turn: bool,
}

#[derive(Clone, Copy, Debug, PartialEq, Eq, Structural)]
pub enum GameStatus {
    InProgress,
    Finished,
}

/// One action of a turn, as submitted by the active player.
#[derive(Clone, Copy, Debug, PartialEq, Eq, Structural)]
pub enum ActionType {
    PlayCard { hand_index: u8, slot_index: u8 },
    UseSpell { hand_index: u8, target_slot: u8 },
    EndTurn,
    Concede,
}

/// Errors returned to callers; none of them is fatal to the engine.
#[derive(Clone, Copy, Debug, PartialEq, Eq, Structural)]
pub enum Error {
    GameNotFound,
    NotYourTurn,
    InvalidAction,
    NotEnoughEnergy,
    SlotOccupied,
    InvalidSlot,
    InvalidHandIndex,
    GameAlreadyFinished,
    AlreadyInGame,
}

/// Notification: two participants were paired into a new game.
#[derive(Clone, Copy, Debug, PartialEq, Eq, Structural)]
pub struct GameStarted {
    pub game_id: GameId,
    pub player_a: Address,
    pub player_b: Address,
}

/// Notification: one submitted action was applied.
#[derive(Clone, Copy, Debug, PartialEq, Eq, Structural)]
pub struct ActionExecuted {
    pub game_id: GameId,
    pub player: Address,
    pub action: ActionType,
}

/// Notification: a turn was resolved and the other player is now active.
#[derive(Clone, Copy, Debug, PartialEq, Eq, Structural)]
pub struct TurnEnded {
    pub game_id: GameId,
    pub new_active_player: Address,
    pub turn: u32,
}

/// Notification: a game finished with the given winner.
#[derive(Clone, Copy, Debug, PartialEq, Eq, Structural)]
pub struct GameEnded {
    pub game_id: GameId,
    pub winner: Address,
}

/// Any notification the engine emits, in the order it emits them.
#[derive(Clone, Copy, Debug, PartialEq, Eq, Structural)]
pub enum Event {
    GameStarted(GameStarted),
    ActionExecuted(ActionExecuted),
    TurnEnded(TurnEnded),
    GameEnded(GameEnded),
}

} // verus!
