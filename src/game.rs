use vstd::prelude::*;

use crate::cards::CardDataProvider;
use crate::player::{draw_spec, unit_wf, PlayerModel, PlayerState};
use crate::types::{
    ActionExecuted, ActionType, Address, CardId, Error, Event, GameEnded, GameId, GameStatus, TurnEnded, UnitInstance,
    BOARD_SLOTS, MAX_ENERGY,
};

verus! {

/// One game between two players.
#[derive(Clone, Debug, PartialEq, Eq)]
pub struct Game {
    pub id: GameId,
    pub players: [PlayerState; 2],
    pub active_idx: u8,
    pub turn: u32,
    pub status: GameStatus,
}

/// The mathematical view of a [`Game`]; `players` has two entries.
pub struct GameModel {
    pub id: GameId,
    pub players: Seq<PlayerModel>,
    pub active_idx: u8,
    pub turn: u32,
    pub status: GameStatus,
}

impl View for Game {
    type V = GameModel;

    open spec fn view(&self) -> GameModel {
        GameModel {
            id: self.id,
            players: seq![self.players[0]@, self.players[1]@],
            active_idx: self.active_idx,
            turn: self.turn,
            status: self.status,
        }
    }
}

impl GameModel {
    /// Both players well formed, a valid active index, and, while the game
    /// runs, both players above zero hit points.
    pub open spec fn wf(self) -> bool {
        &&& self.players.len() == 2
        &&& self.active_idx < 2
        &&& self.players[0].wf()
        &&& self.players[1].wf()
        &&& self.status == GameStatus::InProgress ==> self.players[0].hp > 0
            && self.players[1].hp > 0
    }

    pub open spec fn active(self) -> PlayerModel {
        self.players[self.active_idx as int]
    }

    pub open spec fn opponent(self) -> PlayerModel {
        self.players[1 - self.active_idx]
    }

    pub open spec fn with_player(self, idx: int, p: PlayerModel) -> GameModel {
        GameModel { players: self.players.update(idx, p), ..self }
    }
}

/// Attack power of a unit: a fixed function of its card identifier.
pub open spec fn unit_power(card_id: CardId) -> i16 {
    if card_id == 2 {
        2
    } else if card_id == 3 {
        3
    } else {
        1
    }
}

/// The unit in `mine` after the lane's simultaneous exchange with `theirs`:
/// it loses the opposing unit's power when both slots hold a unit.
pub open spec fn struck(mine: Option<UnitInstance>, theirs: Option<UnitInstance>) -> Option<
    UnitInstance,
> {
    match (mine, theirs) {
        (Some(u), Some(v)) => Some(
            UnitInstance { current_hp: (u.current_hp - unit_power(v.card_id)) as i16, ..u },
        ),
        _ => mine,
    }
}

/// The death sweep of one slot: a unit at or below zero hit points is removed.
pub open spec fn survivor(slot: Option<UnitInstance>) -> Option<UnitInstance> {
    match slot {
        Some(u) => if u.current_hp <= 0 {
            None
        } else {
            slot
        },
        None => None,
    }
}

/// Damage one lane deals to the opposing player: the attacker's power when
/// the opposing slot is empty.
pub open spec fn lane_direct(mine: Option<UnitInstance>, theirs: Option<UnitInstance>) -> int {
    match (mine, theirs) {
        (Some(u), None) => unit_power(u.card_id) as int,
        _ => 0,
    }
}

/// Direct damage of the first `n` lanes.
pub open spec fn direct_damage(mine: Seq<Option<UnitInstance>>, theirs: Seq<Option<UnitInstance>>, n: int) -> int
    decreases n,
{
    if n <= 0 {
        0
    } else {
        direct_damage(mine, theirs, n - 1) + lane_direct(mine[n - 1], theirs[n - 1])
    }
}

/// A board after combat against `theirs` and the death sweep.
pub open spec fn board_after_combat(mine: Seq<Option<UnitInstance>>, theirs: Seq<Option<UnitInstance>>) -> Seq<Option<UnitInstance>> {
    Seq::new(BOARD_SLOTS as nat, |s: int| survivor(struck(mine[s], theirs[s])))
}

/// A unit whose action flag is cleared.
pub open spec fn ready(slot: Option<UnitInstance>) -> Option<UnitInstance> {
    match slot {
        Some(u) => Some(UnitInstance { acted_this_turn: false, ..u }),
        None => None,
    }
}

pub open spec fn ready_board(b: Seq<Option<UnitInstance>>) -> Seq<Option<UnitInstance>> {
    Seq::new(b.len(), |s: int| ready(b[s]))
}

/// `max_energy` after one growth step, capped.
pub open spec fn grown_energy(max_energy: u8) -> u8 {
    if max_energy < MAX_ENERGY {
        (max_energy + 1) as u8
    } else {
        max_energy
    }
}

/// Combat of the active player's units: lane against lane, or against the
/// opposing player where the opposing slot is empty; all damage is computed
/// from the boards before any of it is applied, then dead units are removed.
pub open spec fn combat_spec(g: GameModel) -> GameModel {
    let a = g.active_idx as int;
    let o = 1 - a;
    let pa = g.players[a];
    let po = g.players[o];
    let pa_after = PlayerModel { board: board_after_combat(pa.board, po.board), ..pa };
    let po_after = PlayerModel {
        board: board_after_combat(po.board, pa.board),
        hp: (po.hp - direct_damage(pa.board, po.board, BOARD_SLOTS as int)) as i16,
        ..po
    };
    g.with_player(a, pa_after).with_player(o, po_after)
}

/// Hand over to the other player: turn counter, energy growth and refresh,
/// one draw, and the new active player's units made ready.
pub open spec fn advance_spec(g: GameModel, seed: u32) -> GameModel {
    let n = 1 - g.active_idx;
    let turn = (g.turn + 1) as u32;
    let p = g.players[n];
    let m = grown_energy(p.max_energy);
    let drawn = draw_spec(PlayerModel { max_energy: m, energy: m, ..p }, seed, turn);
    let updated = PlayerModel { board: ready_board(drawn.board), ..drawn };
    GameModel { active_idx: n as u8, turn, ..g.with_player(n, updated) }
}

/// Turn resolution and the notification it emits: player 0's defeat is
/// checked first, so a double defeat makes player 1 the winner.
pub open spec fn end_turn_spec(g: GameModel, seed: u32) -> (GameModel, Event) {
    let c = combat_spec(g);
    if c.players[0].hp <= 0 {
        (
            GameModel { status: GameStatus::Finished, ..c },
            Event::GameEnded(GameEnded { game_id: g.id, winner: c.players[1].addr }),
        )
    } else if c.players[1].hp <= 0 {
        (
            GameModel { status: GameStatus::Finished, ..c },
            Event::GameEnded(GameEnded { game_id: g.id, winner: c.players[0].addr }),
        )
    } else {
        let n = advance_spec(c, seed);
        (
            n,
            Event::TurnEnded(
                TurnEnded {
                    game_id: g.id,
                    new_active_player: n.players[n.active_idx as int].addr,
                    turn: n.turn,
                },
            ),
        )
    }
}


/// A single action applied to a running game, or the error that rejects it;
/// a rejected action changes nothing.
pub open spec fn apply_action_spec<P: CardDataProvider>(g: GameModel, action: ActionType, cards: P) -> Result<GameModel, Error> {
    let a = g.active_idx as int;
    let p = g.players[a];
    match action {
        ActionType::PlayCard { hand_index, slot_index } => {
            if hand_index as int >= p.hand.len() {
                Err(Error::InvalidHandIndex)
            } else if slot_index as int >= BOARD_SLOTS {
                Err(Error::InvalidSlot)
            } else if p.board[slot_index as int] is Some {
                Err(Error::SlotOccupied)
            } else {
                let card_id = p.hand[hand_index as int];
                match cards.spec_card(card_id) {
                    None => Err(Error::InvalidAction),
                    Some(m) => if p.energy < m.cost {
                        Err(Error::NotEnoughEnergy)
                    } else {
                        let unit = UnitInstance {
                            card_id,
                            current_hp: m.health as i16,
                            acted_this_turn: false,
                        };
                        let updated = PlayerModel {
                            energy: (p.energy - m.cost) as u8,
                            hand: p.hand.remove(hand_index as int),
                            board: p.board.update(slot_index as int, Some(unit)),
                            ..p
                        };
                        Ok(g.with_player(a, updated))
                    },
                }
            }
        },
        ActionType::UseSpell { .. } => Err(Error::InvalidAction),
        ActionType::EndTurn => Ok(g),
        ActionType::Concede => Ok(GameModel { status: GameStatus::Finished, ..g }),
    }
}

/// Notifications of one applied action: a concession first announces the
/// opponent's win; every action is then reported as executed.
pub open spec fn action_events(g: GameModel, caller: Address, action: ActionType) -> Seq<Event> {
    let executed = Event::ActionExecuted(ActionExecuted { game_id: g.id, player: caller, action });
    if action == ActionType::Concede {
        seq![Event::GameEnded(GameEnded { game_id: g.id, winner: g.opponent().addr }), executed]
    } else {
        seq![executed]
    }
}

/// State of a batch after some of its actions.
pub struct BatchOutcome {
    pub game: GameModel,
    pub events: Seq<Event>,
    pub error: Option<Error>,
}

/// Actions applied in order, each seeing the effects of those before it. The
/// first rejected action stops the batch and its error is kept; the actions
/// before it stay applied. Once the game is finished the rest is ignored.
pub open spec fn run_actions<P: CardDataProvider>(g: GameModel, caller: Address, actions: Seq<ActionType>, cards: P) -> BatchOutcome
    decreases actions.len(),
{
    if actions.len() == 0 {
        BatchOutcome { game: g, events: seq![], error: None }
    } else {
        let prev = run_actions(g, caller, actions.drop_last(), cards);
        if prev.error is Some || prev.game.status == GameStatus::Finished {
            prev
        } else {
            match apply_action_spec(prev.game, actions.last(), cards) {
                Err(e) => BatchOutcome { error: Some(e), ..prev },
                Ok(g2) => BatchOutcome {
                    game: g2,
                    events: prev.events + action_events(prev.game, caller, actions.last()),
                    error: None,
                },
            }
        }
    }
}

/// A whole submitted batch: its actions, then, if it holds an `EndTurn`, no
/// action failed and the game still runs, the turn resolution.
pub open spec fn submit_spec<P: CardDataProvider>(g: GameModel, caller: Address, actions: Seq<ActionType>, seed: u32, cards: P) -> BatchOutcome {
    let b = run_actions(g, caller, actions, cards);
    if b.error is None && b.game.status == GameStatus::InProgress && actions.contains(
        ActionType::EndTurn,
    ) {
        let (g2, ev) = end_turn_spec(b.game, seed);
        BatchOutcome { game: g2, events: b.events.push(ev), error: None }
    } else {
        b
    }
}

proof fn lemma_apply_action_wf<P: CardDataProvider>(g: GameModel, action: ActionType, cards: P)
    requires
        g.wf(),
    ensures
        apply_action_spec(g, action, cards) matches Ok(g2) ==> g2.wf() && g2.id == g.id
            && g2.turn == g.turn && g2.players[0].addr == g.players[0].addr
            && g2.players[1].addr == g.players[1].addr && g2.active_idx == g.active_idx,
{
    if let Ok(g2) = apply_action_spec(g, action, cards) {
        if action is PlayCard {
            let a = g.active_idx as int;
            let updated = g2.players[a];
            assert forall|s: int| 0 <= s < BOARD_SLOTS implies #[trigger] unit_wf(updated.board[s]) by {
                assert(unit_wf(g.players[a].board[s]));
            }
            assert(g2.players[1 - a] == g.players[1 - a]);
        }
    }
}

/// Once a batch has failed or the game has finished, further actions change
/// nothing.
proof fn lemma_run_settled<P: CardDataProvider>(g: GameModel, caller: Address, actions: Seq<ActionType>, cards: P, i: int, j: int)
    requires
        0 <= i <= j <= actions.len(),
        run_actions(g, caller, actions.take(i), cards).error is Some
            || run_actions(g, caller, actions.take(i), cards).game.status == GameStatus::Finished,
    ensures
        run_actions(g, caller, actions.take(j), cards) == run_actions(g, caller, actions.take(i), cards),
    decreases j - i,
{
    if j > i {
        lemma_run_settled(g, caller, actions, cards, i, j - 1);
        assert(actions.take(j).drop_last() =~= actions.take(j - 1));
    }
}

/// Attack power of a unit on the board.
pub fn power_of(card_id: CardId) -> (r: i16)
    ensures
        r == unit_power(card_id),
        1 <= r <= 3,
{
    if card_id == 2 {
        2
    } else if card_id == 3 {
        3
    } else {
        1
    }
}

proof fn lemma_direct_damage_bounds(
    mine: Seq<Option<UnitInstance>>,
    theirs: Seq<Option<UnitInstance>>,
    n: int,
)
    requires
        n >= 0,
    ensures
        0 <= direct_damage(mine, theirs, n) <= 3 * n,
    decreases n,
{
    if n > 0 {
        lemma_direct_damage_bounds(mine, theirs, n - 1);
    }
}

/// Total damage the units of `mine` deal to the opposing player.
pub fn direct_damage_of(mine: &[Option<UnitInstance>; 4], theirs: &[Option<UnitInstance>; 4]) -> (r: i16)
    ensures
        r == direct_damage(mine@, theirs@, BOARD_SLOTS as int),
        0 <= r <= 12,
{
    let mut total: i16 = 0;
    let mut s: usize = 0;
    while s < BOARD_SLOTS
        invariant
            s <= BOARD_SLOTS,
            total == direct_damage(mine@, theirs@, s as int),
            0 <= total <= 3 * s,
        decreases BOARD_SLOTS - s,
    {
        if let Some(u) = mine[s] {
            if theirs[s].is_none() {
                total = total + power_of(u.card_id);
            }
        }
        s = s + 1;
    }
    total
}

/// `mine` after the lane exchanges against `theirs` and the death sweep.
pub fn combat_board(mine: &[Option<UnitInstance>; 4], theirs: &[Option<UnitInstance>; 4]) -> (r: [Option<UnitInstance>; 4])
    requires
        forall|s: int| 0 <= s < BOARD_SLOTS ==> #[trigger] unit_wf(mine@[s]),
    ensures
        r@ == board_after_combat(mine@, theirs@),
{
    let mut r = *mine;
    let mut s: usize = 0;
    while s < BOARD_SLOTS
        invariant
            s <= BOARD_SLOTS,
            r@.len() == BOARD_SLOTS,
            forall|t: int| 0 <= t < BOARD_SLOTS ==> #[trigger] unit_wf(mine@[t]),
            forall|t: int| 0 <= t < s ==> #[trigger] r@[t] == survivor(struck(mine@[t], theirs@[t])),
        decreases BOARD_SLOTS - s,
    {
        assert(unit_wf(mine@[s as int]));
        let hit = match (mine[s], theirs[s]) {
            (Some(u), Some(v)) => Some(
                UnitInstance { current_hp: u.current_hp - power_of(v.card_id), ..u },
            ),
            _ => mine[s],
        };
        let kept = match hit {
            Some(u) => if u.current_hp <= 0 {
                None
            } else {
                hit
            },
            None => None,
        };
        r[s] = kept;
        s = s + 1;
    }
    assert(r@ =~= board_after_combat(mine@, theirs@));
    r
}

impl Game {
    /// A copy of this game whose view is equal to this one's.
    pub fn duplicate(&self) -> (r: Game)
        ensures
            r@ == self@,
    {
        let first = self.players[0].duplicate();
        let second = self.players[1].duplicate();
        Game {
            id: self.id,
            players: [first, second],
            active_idx: self.active_idx,
            turn: self.turn,
            status: self.status,
        }
    }

    /// Resolves the end of the active player's turn (see [`end_turn_spec`]) and
    /// returns the notification it emits.
    pub fn end_turn(&mut self, seed: u32) -> (ev: Event)
        requires
            old(self)@.wf(),
            old(self).status == GameStatus::InProgress,
            old(self).turn < u32::MAX,
        ensures
            (final(self)@, ev) == end_turn_spec(old(self)@, seed),
            final(self)@.wf(),
    {
        let a = self.active_idx as usize;
        let o = 1 - a;
        let mut pa = self.players[a].duplicate();
        let mut po = self.players[o].duplicate();
        let dmg = direct_damage_of(&pa.board, &po.board);
        let board_a = combat_board(&pa.board, &po.board);
        let board_o = combat_board(&po.board, &pa.board);
        pa.board = board_a;
        po.board = board_o;
        po.hp = po.hp - dmg;
        self.players[a] = pa;
        self.players[o] = po;
        assert(self@.players =~= combat_spec(old(self)@).players);
        if self.players[0].hp <= 0 {
            self.status = GameStatus::Finished;
            return Event::GameEnded(GameEnded { game_id: self.id, winner: self.players[1].addr });
        } else if self.players[1].hp <= 0 {
            self.status = GameStatus::Finished;
            return Event::GameEnded(GameEnded { game_id: self.id, winner: self.players[0].addr });
        }
        let ghost c = self@;
        self.active_idx = 1 - self.active_idx;
        self.turn = self.turn + 1;
        let n = self.active_idx as usize;
        let mut p = self.players[n].duplicate();
        if p.max_energy < MAX_ENERGY {
            p.max_energy = p.max_energy + 1;
        }
        p.energy = p.max_energy;
        p.draw_card(seed, self.turn);
        let ghost drawn = p@;
        let mut s: usize = 0;
        while s < BOARD_SLOTS
            invariant
                s <= BOARD_SLOTS,
                p@.board.len() == BOARD_SLOTS,
                drawn.board.len() == BOARD_SLOTS,
                p@ == (PlayerModel { board: p@.board, ..drawn }),
                forall|t: int| 0 <= t < s ==> #[trigger] p@.board[t] == ready(drawn.board[t]),
                forall|t: int| s <= t < BOARD_SLOTS ==> #[trigger] p@.board[t] == drawn.board[t],
            decreases BOARD_SLOTS - s,
        {
            if let Some(u) = p.board[s] {
                p.board[s] = Some(UnitInstance { acted_this_turn: false, ..u });
            }
            s = s + 1;
        }
        assert(p@.board =~= ready_board(drawn.board));
        self.players[n] = p;
        assert(self@.players =~= advance_spec(c, seed).players);
        Event::TurnEnded(
            TurnEnded {
                game_id: self.id,
                new_active_player: self.players[n].addr,
                turn: self.turn,
            },
        )
    }
    /// Applies one action of the active player (see [`apply_action_spec`]),
    /// appending its notifications to `events`.
    pub fn execute_action<P: CardDataProvider>(
        &mut self,
        caller: Address,
        action: ActionType,
        cards: &P,
        events: &mut Vec<Event>,
    ) -> (r: Result<(), Error>)
        requires
            old(self)@.wf(),
        ensures
            final(self)@.wf(),
            match apply_action_spec(old(self)@, action, *cards) {
                Ok(g) => r is Ok && final(self)@ == g && final(events)@ == old(events)@
                    + action_events(old(self)@, caller, action),
                Err(e) => r == Err::<(), Error>(e) && final(self)@ == old(self)@
                    && final(events)@ == old(events)@,
            },
    {
        proof {
            lemma_apply_action_wf(self@, action, *cards);
        }
        let ghost g0 = self@;
        let a = self.active_idx as usize;
        match action {
            ActionType::PlayCard { hand_index, slot_index } => {
                let hi = hand_index as usize;
                if hi >= self.players[a].hand.len() {
                    return Err(Error::InvalidHandIndex);
                }
                if slot_index as usize >= BOARD_SLOTS {
                    return Err(Error::InvalidSlot);
                }
                let si = slot_index as usize;
                if self.players[a].board[si].is_some() {
                    return Err(Error::SlotOccupied);
                }
                let card_id = self.players[a].hand[hi];
                let meta = match cards.get_card_metadata(card_id) {
                    Some(m) => m,
                    None => {
                        return Err(Error::InvalidAction);
                    },
                };
                if self.players[a].energy < meta.cost {
                    return Err(Error::NotEnoughEnergy);
                }
                let mut p = self.players[a].duplicate();
                p.energy = p.energy - meta.cost;
                p.hand.remove(hi);
                p.board[si] = Some(
                    UnitInstance { card_id, current_hp: meta.health as i16, acted_this_turn: false },
                );
                self.players[a] = p;
                assert(self@.players =~= apply_action_spec(g0, action, *cards).unwrap().players);
            },
            ActionType::UseSpell { .. } => {
                return Err(Error::InvalidAction);
            },
            ActionType::EndTurn => {},
            ActionType::Concede => {
                self.status = GameStatus::Finished;
                let winner = self.players[1 - a].addr;
                events.push(Event::GameEnded(GameEnded { game_id: self.id, winner }));
            },
        }
        events.push(
            Event::ActionExecuted(ActionExecuted { game_id: self.id, player: caller, action }),
        );
        proof {
            assert(events@ =~= old(events)@ + action_events(g0, caller, action));
        }
        Ok(())
    }

    /// Applies a submitted batch for the active player and, when it asks for
    /// it, resolves the turn (see [`submit_spec`]); notifications are appended
    /// to `events`.
    pub fn run_batch<P: CardDataProvider>(
        &mut self,
        caller: Address,
        actions: &Vec<ActionType>,
        seed: u32,
        cards: &P,
        events: &mut Vec<Event>,
    ) -> (r: Result<(), Error>)
        requires
            old(self)@.wf(),
            old(self).status == GameStatus::InProgress,
            old(self).turn < u32::MAX,
        ensures
            final(self)@.wf(),
            final(self).id == old(self).id,
            final(self)@ == submit_spec(old(self)@, caller, actions@, seed, *cards).game,
            final(events)@ == old(events)@ + submit_spec(
                old(self)@,
                caller,
                actions@,
                seed,
                *cards,
            ).events,
            r == match submit_spec(old(self)@, caller, actions@, seed, *cards).error {
                Some(e) => Err::<(), Error>(e),
                None => Ok(()),
            },
    {
        let ghost g0 = self@;
        let ghost e0 = events@;
        let mut ends_turn = false;
        let mut i: usize = 0;
        assert(actions@.take(0) =~= Seq::<ActionType>::empty());
        while i < actions.len()
            invariant
                i <= actions@.len(),
                g0 == old(self)@,
                e0 == old(events)@,
                self@.wf(),
                self@.id == g0.id,
                self@.turn == g0.turn,
                self@.turn < u32::MAX,
                run_actions(g0, caller, actions@.take(i as int), *cards).error is None,
                self@ == run_actions(g0, caller, actions@.take(i as int), *cards).game,
                events@ == e0 + run_actions(g0, caller, actions@.take(i as int), *cards).events,
                ends_turn == actions@.take(i as int).contains(ActionType::EndTurn),
            decreases actions@.len() - i,
        {
            let action = actions[i];
            let ghost prefix = actions@.take(i as int);
            let ghost next = actions@.take(i + 1);
            assert(next.drop_last() =~= prefix);
            assert(next.last() == action);
            if self.status == GameStatus::InProgress {
                let res = self.execute_action(caller, action, cards, events);
                proof {
                    lemma_apply_action_wf(run_actions(g0, caller, prefix, *cards).game, action, *cards);
                }
                if let Err(e) = res {
                    proof {
                        assert(run_actions(g0, caller, next, *cards).error == Some(e));
                        assert(run_actions(g0, caller, next, *cards).game == self@);
                        lemma_run_settled(g0, caller, actions@, *cards, i + 1, actions@.len() as int);
                        assert(actions@.take(actions@.len() as int) =~= actions@);
                    }
                    return Err(e);
                }
                assert(events@ =~= e0 + run_actions(g0, caller, next, *cards).events);
            }
            if action == ActionType::EndTurn {
                ends_turn = true;
                assert(next[i as int] == action);
            }
            assert(ends_turn == next.contains(ActionType::EndTurn)) by {
                if ends_turn && action != ActionType::EndTurn {
                    let k = choose|k: int| 0 <= k < prefix.len() && prefix[k] == ActionType::EndTurn;
                    assert(next[k] == ActionType::EndTurn);
                }
                if next.contains(ActionType::EndTurn) && action != ActionType::EndTurn {
                    let k = choose|k: int| 0 <= k < next.len() && next[k] == ActionType::EndTurn;
                    assert(prefix[k] == ActionType::EndTurn);
                }
            }
            i = i + 1;
        }
        assert(actions@.take(actions@.len() as int) =~= actions@);
        if ends_turn && self.status == GameStatus::InProgress {
            let ev = self.end_turn(seed);
            events.push(ev);
            assert(events@ =~= e0 + submit_spec(g0, caller, actions@, seed, *cards).events);
        }
        Ok(())
    }
}

} // verus!
