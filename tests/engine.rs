use cards_on_chain::{
    ActionType, CardCatalog, CardDataProvider, CardMetadata, CardType, CardsOnChain, EffectType,
    Error, Event, Game, GameEnded, GameStarted, GameStatus, PlayerState, TurnEnded, UnitInstance,
};

const ALICE: u64 = 1;
const BOB: u64 = 2;
const CAROL: u64 = 3;

fn card(id: u32, cost: u8, attack: u8, health: u8) -> CardMetadata {
    CardMetadata {
        id,
        name_hash: 0x1234,
        rarity: 1,
        card_type: CardType::Unit,
        cost,
        attack,
        health,
        effects: EffectType::NoEffect,
    }
}

fn demo_catalog() -> CardCatalog {
    CardCatalog::new(vec![card(1, 1, 1, 1), card(2, 2, 2, 2), card(3, 3, 3, 3)])
}

/// An engine with one game between ALICE (player 0) and BOB (player 1).
fn paired(seed: u32) -> CardsOnChain<CardCatalog> {
    let mut engine = CardsOnChain::new(demo_catalog());
    assert_eq!(engine.register_for_match(ALICE, seed), Ok(0));
    assert_eq!(engine.register_for_match(BOB, seed), Ok(1));
    engine
}

fn unit(card_id: u32, hp: i16) -> Option<UnitInstance> {
    Some(UnitInstance { card_id, current_hp: hp, acted_this_turn: true })
}

fn player(addr: u64, hp: i16, board: [Option<UnitInstance>; 4]) -> PlayerState {
    PlayerState {
        addr,
        hp,
        energy: 1,
        max_energy: 1,
        deck: vec![1, 2, 3],
        hand: vec![],
        board,
    }
}

#[test]
fn constructor_works() {
    let contract = CardsOnChain::new(demo_catalog());
    assert_eq!(contract.next_game_id(), 1);
}

#[test]
fn get_card_data_works() {
    let catalog = demo_catalog();
    let card_data = catalog.get_card_metadata(1).unwrap();
    assert_eq!(card_data.cost, 1);
    assert_eq!(card_data.attack, 1);
    assert_eq!(card_data.health, 1);
    assert_eq!(catalog.get_card_metadata(3).unwrap().health, 3);
    assert_eq!(catalog.get_card_metadata(9), None);
}

#[test]
fn matchmaking_works() {
    let mut contract = CardsOnChain::new(demo_catalog());
    let result1 = contract.register_for_match(ALICE, 0).unwrap();
    assert_eq!(result1, 0);
    let game_id = contract.register_for_match(BOB, 0).unwrap();
    assert_eq!(game_id, 1);
    let game = contract.get_game_state(game_id).unwrap();
    assert_eq!(game.players[0].addr, ALICE);
    assert_eq!(game.players[1].addr, BOB);
    assert_eq!(game.status, GameStatus::InProgress);
    assert_eq!(contract.next_game_id(), 2);
}

#[test]
fn waiting_participant_cannot_register_again() {
    let mut engine = CardsOnChain::new(demo_catalog());
    assert_eq!(engine.register_for_match(ALICE, 0), Ok(0));
    assert_eq!(engine.register_for_match(ALICE, 0), Err(Error::AlreadyInGame));
    assert_eq!(engine.register_for_match(BOB, 0), Ok(1));
    assert_eq!(engine.register_for_match(ALICE, 0), Err(Error::AlreadyInGame));
    assert_eq!(engine.register_for_match(BOB, 0), Err(Error::AlreadyInGame));
    assert_eq!(engine.get_player_game(ALICE), Some(1));
    assert_eq!(engine.get_player_game(BOB), Some(1));
    assert_eq!(engine.get_player_game(CAROL), None);
}

#[test]
fn new_game_starting_state() {
    let engine = paired(0);
    let game = engine.get_game_state(1).unwrap();
    assert_eq!(game.id, 1);
    assert_eq!(game.turn, 1);
    assert_eq!(game.active_idx, 0);
    assert_eq!((game.players[0].energy, game.players[0].max_energy), (1, 1));
    assert_eq!((game.players[1].energy, game.players[1].max_energy), (0, 1));
    for p in game.players.iter() {
        assert_eq!(p.hp, 20);
        assert_eq!(p.board, [None, None, None, None]);
        assert_eq!(p.deck.len(), 7);
    }
    // Draw positions (seed + turn) % deck length = 1 on decks of 10, 9 and 8 cards.
    assert_eq!(game.players[0].hand, vec![2, 3, 1]);
    assert_eq!(game.players[1].hand, vec![2, 3, 1]);
    assert_eq!(engine.get_game_state(2), None);
    assert_eq!(engine.get_game_state(0), None);
}

#[test]
fn game_started_is_announced() {
    let mut engine = paired(0);
    let events = engine.take_events();
    assert_eq!(
        events,
        vec![Event::GameStarted(GameStarted { game_id: 1, player_a: ALICE, player_b: BOB })]
    );
    assert!(engine.take_events().is_empty());
}

#[test]
fn full_play_then_end_turn() {
    // With seed 2 the first draw is at position 3, a card of cost 1.
    let mut engine = paired(2);
    let before = engine.get_game_state(1).unwrap();
    assert_eq!(before.players[0].hand[0], 1);
    let actions = vec![ActionType::PlayCard { hand_index: 0, slot_index: 0 }, ActionType::EndTurn];
    assert_eq!(engine.submit_turn_actions(ALICE, 1, actions, 2), Ok(()));
    let game = engine.get_game_state(1).unwrap();
    assert_eq!(game.players[0].hand.len(), before.players[0].hand.len() - 1);
    assert_eq!(game.players[0].board[0].map(|u| u.card_id), Some(1));
    assert_eq!(game.players[0].energy, 0);
    assert_eq!(game.active_idx, 1);
    assert_eq!(game.turn, 2);
    assert_eq!(game.players[1].energy, 2);
    assert_eq!(game.players[1].max_energy, 2);
    // The unit faced an empty lane and hit player 1 directly.
    assert_eq!(game.players[1].hp, 19);
    assert_eq!(game.players[1].hand.len(), before.players[1].hand.len() + 1);
    let events = engine.take_events();
    assert_eq!(
        events[events.len() - 1],
        Event::TurnEnded(TurnEnded { game_id: 1, new_active_player: BOB, turn: 2 })
    );
    assert_eq!(events.len(), 4);
}

#[test]
fn illegal_play_leaves_game_unchanged() {
    let mut engine = paired(0);
    let before = engine.get_game_state(1).unwrap();
    let actions = vec![ActionType::PlayCard { hand_index: 99, slot_index: 0 }];
    assert_eq!(engine.submit_turn_actions(ALICE, 1, actions, 0), Err(Error::InvalidHandIndex));
    assert_eq!(engine.get_game_state(1).unwrap(), before);
}

#[test]
fn concede_finishes_game() {
    let mut engine = paired(0);
    engine.take_events();
    assert_eq!(engine.submit_turn_actions(ALICE, 1, vec![ActionType::Concede], 0), Ok(()));
    let game = engine.get_game_state(1).unwrap();
    assert_eq!(game.status, GameStatus::Finished);
    let events = engine.take_events();
    assert_eq!(events[0], Event::GameEnded(GameEnded { game_id: 1, winner: BOB }));
    assert_eq!(
        engine.submit_turn_actions(ALICE, 1, vec![ActionType::EndTurn], 0),
        Err(Error::GameAlreadyFinished)
    );
    assert_eq!(
        engine.submit_turn_actions(BOB, 1, vec![ActionType::EndTurn], 0),
        Err(Error::GameAlreadyFinished)
    );
}

#[test]
fn actions_after_concede_are_ignored() {
    let mut engine = paired(2);
    let actions = vec![
        ActionType::Concede,
        ActionType::PlayCard { hand_index: 0, slot_index: 0 },
        ActionType::EndTurn,
    ];
    assert_eq!(engine.submit_turn_actions(ALICE, 1, actions, 2), Ok(()));
    let game = engine.get_game_state(1).unwrap();
    assert_eq!(game.status, GameStatus::Finished);
    assert_eq!(game.turn, 1);
    assert_eq!(game.players[0].board, [None, None, None, None]);
}

#[test]
fn precondition_errors() {
    let mut engine = paired(0);
    assert_eq!(engine.submit_turn_actions(ALICE, 7, vec![], 0), Err(Error::GameNotFound));
    assert_eq!(engine.submit_turn_actions(ALICE, 0, vec![], 0), Err(Error::GameNotFound));
    assert_eq!(engine.submit_turn_actions(BOB, 1, vec![], 0), Err(Error::NotYourTurn));
    assert_eq!(engine.submit_turn_actions(CAROL, 1, vec![], 0), Err(Error::NotYourTurn));
}

#[test]
fn play_card_errors() {
    // Hand of player 0 with seed 0: cards 2, 3, 1; energy 1.
    let mut engine = paired(0);
    let play = |h: u8, s: u8| vec![ActionType::PlayCard { hand_index: h, slot_index: s }];
    assert_eq!(engine.submit_turn_actions(ALICE, 1, play(0, 4), 0), Err(Error::InvalidSlot));
    assert_eq!(engine.submit_turn_actions(ALICE, 1, play(0, 0), 0), Err(Error::NotEnoughEnergy));
    assert_eq!(engine.submit_turn_actions(ALICE, 1, play(1, 0), 0), Err(Error::NotEnoughEnergy));
    let spell = vec![ActionType::UseSpell { hand_index: 0, target_slot: 0 }];
    assert_eq!(engine.submit_turn_actions(ALICE, 1, spell, 0), Err(Error::InvalidAction));
    assert_eq!(engine.submit_turn_actions(ALICE, 1, play(2, 1), 0), Ok(()));
    // Slot 1 is now taken; the error wins over the energy check.
    assert_eq!(engine.submit_turn_actions(ALICE, 1, play(0, 1), 0), Err(Error::SlotOccupied));
}

#[test]
fn unknown_card_is_invalid_action() {
    let mut engine = CardsOnChain::new(CardCatalog::new(vec![card(1, 1, 1, 1)]));
    engine.register_for_match(ALICE, 0).unwrap();
    engine.register_for_match(BOB, 0).unwrap();
    let play = vec![ActionType::PlayCard { hand_index: 0, slot_index: 0 }];
    assert_eq!(engine.submit_turn_actions(ALICE, 1, play, 0), Err(Error::InvalidAction));
    engine.set_card_contract(demo_catalog());
    let play = vec![ActionType::PlayCard { hand_index: 2, slot_index: 0 }];
    assert_eq!(engine.submit_turn_actions(ALICE, 1, play, 0), Ok(()));
}

#[test]
fn failed_action_keeps_earlier_ones() {
    let mut engine = paired(0);
    engine.take_events();
    let actions = vec![
        ActionType::PlayCard { hand_index: 2, slot_index: 3 },
        ActionType::PlayCard { hand_index: 0, slot_index: 0 },
        ActionType::EndTurn,
    ];
    assert_eq!(engine.submit_turn_actions(ALICE, 1, actions, 0), Err(Error::NotEnoughEnergy));
    let game = engine.get_game_state(1).unwrap();
    assert_eq!(game.players[0].board[3].map(|u| u.card_id), Some(1));
    assert_eq!(game.players[0].hand, vec![2, 3]);
    assert_eq!(game.active_idx, 0);
    assert_eq!(game.turn, 1);
    assert_eq!(engine.take_events().len(), 1);
}

#[test]
fn energy_grows_by_one_up_to_ten() {
    let mut engine = paired(0);
    let mut previous = [1u8, 1u8];
    for turn in 0..30u32 {
        let game = engine.get_game_state(1).unwrap();
        let active = game.players[game.active_idx as usize].addr;
        assert_eq!(engine.submit_turn_actions(active, 1, vec![ActionType::EndTurn], turn), Ok(()));
        let game = engine.get_game_state(1).unwrap();
        for i in 0..2 {
            let m = game.players[i].max_energy;
            assert!(m >= previous[i] && m <= previous[i] + 1 && m <= 10);
            assert!(game.players[i].energy <= m);
            previous[i] = m;
        }
        let idx = game.active_idx as usize;
        assert_eq!(game.players[idx].energy, game.players[idx].max_energy);
    }
    assert_eq!(previous, [10, 10]);
}

#[test]
fn hand_never_exceeds_seven() {
    let mut engine = paired(5);
    for turn in 0..24u32 {
        let game = engine.get_game_state(1).unwrap();
        let active = game.players[game.active_idx as usize].addr;
        engine.submit_turn_actions(active, 1, vec![ActionType::EndTurn], turn).unwrap();
        let game = engine.get_game_state(1).unwrap();
        assert!(game.players.iter().all(|p| p.hand.len() <= 7));
    }
    let game = engine.get_game_state(1).unwrap();
    // Each deck of ten gave seven cards to the hand; three remain.
    assert_eq!(game.players[0].hand.len(), 7);
    assert_eq!(game.players[0].deck.len(), 3);
}

#[test]
fn draw_from_empty_deck_or_full_hand_does_nothing() {
    let mut p = player(ALICE, 20, [None, None, None, None]);
    p.deck = vec![];
    let before = p.clone();
    p.draw_card(3, 4);
    assert_eq!(p, before);
    let mut q = player(ALICE, 20, [None, None, None, None]);
    q.hand = vec![1; 7];
    let before = q.clone();
    q.draw_card(3, 4);
    assert_eq!(q, before);
    let mut r = player(ALICE, 20, [None, None, None, None]);
    r.draw_card(3, 4); // (3 + 4) % 3 = 1
    assert_eq!(r.deck, vec![1, 3]);
    assert_eq!(r.hand, vec![2]);
}

fn combat_game(first: PlayerState, second: PlayerState) -> Game {
    Game { id: 4, players: [first, second], active_idx: 0, turn: 3, status: GameStatus::InProgress }
}

#[test]
fn lane_combat_is_simultaneous() {
    let first = player(ALICE, 20, [unit(3, 3), unit(1, 1), unit(2, 5), None]);
    let second = player(BOB, 20, [unit(3, 3), None, unit(1, 1), unit(2, 2)]);
    let mut game = combat_game(first, second);
    let ev = game.end_turn(0);
    // Lane 0: both take 3 and die. Lane 1: 1 damage to BOB. Lane 2: 2 and 1 damage.
    assert_eq!(game.players[0].board[0], None);
    assert_eq!(game.players[1].board[0], None);
    assert_eq!(game.players[1].hp, 19);
    assert_eq!(game.players[0].board[2].map(|u| u.current_hp), Some(4));
    assert_eq!(game.players[1].board[2], None);
    // Units of the opponent do not attack at the active player's end of turn.
    assert_eq!(game.players[0].hp, 20);
    assert_eq!(game.players[1].board[3].map(|u| u.current_hp), Some(2));
    assert!(game.players[1].board[3].map(|u| !u.acted_this_turn).unwrap());
    assert_eq!(game.players[0].board[1].map(|u| u.acted_this_turn), Some(true));
    assert_eq!(ev, Event::TurnEnded(TurnEnded { game_id: 4, new_active_player: BOB, turn: 4 }));
    assert_eq!(game.players[1].max_energy, 2);
    assert_eq!(game.players[1].hand, vec![2]); // (0 + 4) % 3 = 1
}

#[test]
fn lethal_damage_finishes_game() {
    let first = player(ALICE, 20, [unit(3, 3), unit(2, 2), None, None]);
    let second = player(BOB, 5, [None, None, None, None]);
    let mut game = combat_game(first, second);
    let ev = game.end_turn(0);
    assert_eq!(game.players[1].hp, 0);
    assert_eq!(game.status, GameStatus::Finished);
    assert_eq!(ev, Event::GameEnded(GameEnded { game_id: 4, winner: ALICE }));
    assert_eq!(game.turn, 3);
    assert_eq!(game.active_idx, 0);
}

#[test]
fn unknown_card_power_is_one() {
    let first = player(ALICE, 20, [None, None, unit(4, 1), None]);
    let second = player(BOB, 1, [None, None, None, None]);
    let mut game = combat_game(first, second);
    let ev = game.end_turn(9);
    assert_eq!(game.players[1].hp, 0);
    assert_eq!(ev, Event::GameEnded(GameEnded { game_id: 4, winner: ALICE }));
}

#[test]
fn player_one_active_resolves_against_player_zero() {
    let first = player(ALICE, 20, [None, unit(1, 1), None, None]);
    let second = player(BOB, 20, [unit(2, 2), unit(2, 2), None, None]);
    let mut game = combat_game(first, second);
    game.active_idx = 1;
    let ev = game.end_turn(1);
    assert_eq!(game.players[0].hp, 18);
    assert_eq!(game.players[0].board[1], None);
    assert_eq!(game.players[1].board[1].map(|u| u.current_hp), Some(1));
    assert_eq!(game.active_idx, 0);
    assert_eq!(ev, Event::TurnEnded(TurnEnded { game_id: 4, new_active_player: ALICE, turn: 4 }));
    assert_eq!(game.players[0].energy, 2);
}
