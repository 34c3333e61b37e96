use vstd::prelude::*;

use crate::types::{Address, CardId, UnitInstance, BOARD_SLOTS, MAX_ENERGY, MAX_HAND};

verus! {

/// One player's side of a game.
#[derive(Clone, Debug, PartialEq, Eq)]
pub struct PlayerState {
    pub addr: Address,
    pub hp: i16,
    pub energy: u8,
    pub max_energy: u8,
    pub deck: Vec<CardId>,
    pub hand: Vec<CardId>,
    pub board: [Option<UnitInstance>; 4],
}

/// The mathematical view of a [`PlayerState`].
pub struct PlayerModel {
    pub addr: Address,
    pub hp: i16,
    pub energy: u8,
    pub max_energy: u8,
    pub deck: Seq<CardId>,
    pub hand: Seq<CardId>,
    pub board: Seq<Option<UnitInstance>>,
}

impl View for PlayerState {
    type V = PlayerModel;

    open spec fn view(&self) -> PlayerModel {
        PlayerModel {
            addr: self.addr,
            hp: self.hp,
            energy: self.energy,
            max_energy: self.max_energy,
            deck: self.deck@,
            hand: self.hand@,
            board: self.board@,
        }
    }
}

/// A unit on a board is never below zero hit points between calls.
pub open spec fn unit_wf(slot: Option<UnitInstance>) -> bool {
    match slot {
        Some(u) => u.current_hp >= 0,
        None => true,
    }
}

impl PlayerModel {
    /// Hand bound, energy bounds, and the board's fixed size.
    pub open spec fn wf(self) -> bool {
        &&& self.hand.len() <= MAX_HAND
        &&& self.energy <= self.max_energy <= MAX_ENERGY
        &&& self.board.len() == BOARD_SLOTS
        &&& forall|s: int| 0 <= s < BOARD_SLOTS ==> #[trigger] unit_wf(self.board[s])
    }
}

/// Position in the deck of the card drawn with `seed` on turn `turn`.
pub open spec fn draw_index(deck_len: nat, seed: u32, turn: u32) -> int {
    (seed as int + turn as int) % (deck_len as int)
}

/// A draw: the card at `draw_index` leaves the deck and goes to the end of the
/// hand; nothing happens when the deck is empty or the hand is full.
pub open spec fn draw_spec(p: PlayerModel, seed: u32, turn: u32) -> PlayerModel {
    if p.deck.len() == 0 || p.hand.len() >= MAX_HAND {
        p
    } else {
        let i = draw_index(p.deck.len(), seed, turn);
        PlayerModel { deck: p.deck.remove(i), hand: p.hand.push(p.deck[i]), ..p }
    }
}

impl PlayerState {
    /// A copy of this player whose view is equal to this one's.
    pub fn duplicate(&self) -> (r: PlayerState)
        ensures
            r@ == self@,
    {
        let deck = self.deck.clone();
        let hand = self.hand.clone();
        assert(deck@ =~= self.deck@);
        assert(hand@ =~= self.hand@);
        PlayerState {
            addr: self.addr,
            hp: self.hp,
            energy: self.energy,
            max_energy: self.max_energy,
            deck,
            hand,
            board: self.board,
        }
    }

    /// Draws one card, chosen deterministically from `seed` and `turn`.
    pub fn draw_card(&mut self, seed: u32, turn: u32)
        ensures
            final(self)@ == draw_spec(old(self)@, seed, turn),
    {
        if self.deck.len() > 0 && self.hand.len() < MAX_HAND {
            let i = ((seed as u64 + turn as u64) % (self.deck.len() as u64)) as usize;
            let card = self.deck.remove(i);
            self.hand.push(card);
        }
    }
}

} // verus!
