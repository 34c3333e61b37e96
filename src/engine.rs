use vstd::prelude::*;

use crate::cards::CardDataProvider;
use crate::game::{submit_spec, Game, GameModel};
use crate::player::{draw_spec, PlayerModel, PlayerState};
use crate::types::{
    ActionType, Address, CardId, Error, Event, GameId, GameStarted, GameStatus, START_HP,
};

verus! {

/// Cards of the deck every player starts with.
pub open spec fn starter_deck() -> Seq<CardId> {
    seq![1u32, 2u32, 3u32, 1u32, 2u32, 3u32, 1u32, 2u32, 3u32, 1u32]
}

/// Cards drawn into each opening hand.
pub const OPENING_HAND: usize = 3;

/// A player at the start of a game, after the opening draws.
pub open spec fn fresh_player(addr: Address, energy: u8, seed: u32) -> PlayerModel {
    draw_n(fresh_player_start(addr, energy), seed, OPENING_HAND as nat)
}

/// A new game between `a` (first to act) and `b`.
pub open spec fn new_game_spec(id: GameId, a: Address, b: Address, seed: u32) -> GameModel {
    GameModel {
        id,
        players: seq![fresh_player(a, 1, seed), fresh_player(b, 0, seed)],
        active_idx: 0,
        turn: 1,
        status: GameStatus::InProgress,
    }
}

/// The game recorded first for `who` in a participant index.
pub open spec fn index_lookup(index: Seq<(Address, GameId)>, who: Address) -> Option<GameId>
    decreases index.len(),
{
    if index.len() == 0 {
        None
    } else if index[0].0 == who {
        Some(index[0].1)
    } else {
        index_lookup(index.drop_first(), who)
    }
}

/// The mathematical view of the engine's state.
pub struct EngineModel {
    /// Games in order of creation: the game with id `k` is at position `k - 1`.
    pub games: Seq<GameModel>,
    pub next_game_id: GameId,
    pub waiting: Option<Address>,
    /// Participant to game; the first entry for a participant counts.
    pub index: Seq<(Address, GameId)>,
    /// Notifications emitted and not yet taken.
    pub events: Seq<Event>,
}

impl EngineModel {
    pub open spec fn wf(self) -> bool {
        &&& self.next_game_id == self.games.len() + 1
        &&& forall|k: int|
            0 <= k < self.games.len() ==> (#[trigger] self.games[k]).wf() && self.games[k].id == k
                + 1
    }

    /// Whether `game_id` names a stored game.
    pub open spec fn has_game(self, game_id: GameId) -> bool {
        1 <= game_id <= self.games.len()
    }

    pub open spec fn game(self, game_id: GameId) -> GameModel {
        self.games[game_id - 1]
    }

    pub open spec fn game_of(self, who: Address) -> Option<GameId> {
        index_lookup(self.index, who)
    }
}

/// Registration of `caller` for a match: refused while the caller has a game
/// or is already waiting; otherwise the caller waits (result `0`), or is
/// paired with the waiting participant, who becomes player 0 of a new game.
pub open spec fn register_spec(m: EngineModel, caller: Address, seed: u32) -> (EngineModel, Result<GameId, Error>) {
    if m.game_of(caller) is Some {
        (m, Err(Error::AlreadyInGame))
    } else {
        match m.waiting {
            Some(w) => if w == caller {
                (m, Err(Error::AlreadyInGame))
            } else {
                let id = m.next_game_id;
                (
                    EngineModel {
                        games: m.games.push(new_game_spec(id, w, caller, seed)),
                        next_game_id: (id + 1) as GameId,
                        waiting: None,
                        index: m.index.push((w, id)).push((caller, id)),
                        events: m.events.push(
                            Event::GameStarted(
                                GameStarted { game_id: id, player_a: w, player_b: caller },
                            ),
                        ),
                    },
                    Ok(id),
                )
            },
            None => (EngineModel { waiting: Some(caller), ..m }, Ok(0)),
        }
    }
}

/// A batch submitted by `caller` for `game_id`: the game must exist, still run
/// and have `caller` as its active player; otherwise nothing changes.
pub open spec fn submit_engine_spec<P: CardDataProvider>(
    m: EngineModel,
    cards: P,
    caller: Address,
    game_id: GameId,
    actions: Seq<ActionType>,
    seed: u32,
) -> (EngineModel, Result<(), Error>) {
    if !m.has_game(game_id) {
        (m, Err(Error::GameNotFound))
    } else if m.game(game_id).status == GameStatus::Finished {
        (m, Err(Error::GameAlreadyFinished))
    } else if m.game(game_id).active().addr != caller {
        (m, Err(Error::NotYourTurn))
    } else {
        let b = submit_spec(m.game(game_id), caller, actions, seed, cards);
        (
            EngineModel {
                games: m.games.update(game_id - 1, b.game),
                events: m.events + b.events,
                ..m
            },
            match b.error {
                Some(e) => Err(e),
                None => Ok(()),
            },
        )
    }
}

/// The game engine: matchmaking, the game store and the participant index.
pub struct CardsOnChain<P: CardDataProvider> {
    card_contract: P,
    games: Vec<Game>,
    next_game_id: GameId,
    waiting_player: Option<Address>,
    player_active_game: Vec<(Address, GameId)>,
    events: Vec<Event>,
}

impl<P: CardDataProvider> CardsOnChain<P> {
    pub closed spec fn view(&self) -> EngineModel {
        EngineModel {
            games: self.games@.map_values(|g: Game| g@),
            next_game_id: self.next_game_id,
            waiting: self.waiting_player,
            index: self.player_active_game@,
            events: self.events@,
        }
    }

    /// The card data provider in use.
    pub closed spec fn provider(&self) -> P {
        self.card_contract
    }

    pub open spec fn wf(&self) -> bool {
        self.view().wf()
    }

    /// An engine with no games, using `card_contract` for card data.
    pub fn new(card_contract: P) -> (r: Self)
        ensures
            r.wf(),
            r.view().games.len() == 0,
            r.view().next_game_id == 1,
            r.view().waiting is None,
            r.view().index.len() == 0,
            r.view().events.len() == 0,
            r.provider() == card_contract,
    {
        CardsOnChain {
            card_contract,
            games: Vec::new(),
            next_game_id: 1,
            waiting_player: None,
            player_active_game: Vec::new(),
            events: Vec::new(),
        }
    }

    /// Replaces the card data provider.
    pub fn set_card_contract(&mut self, card_contract: P)
        ensures
            final(self).view() == old(self).view(),
            final(self).provider() == card_contract,
    {
        self.card_contract = card_contract;
    }

    /// The identifier the next game will get.
    pub fn next_game_id(&self) -> (r: GameId)
        ensures
            r == self.view().next_game_id,
    {
        self.next_game_id
    }

    /// The game recorded for `who`, if any.
    fn lookup_player(&self, who: Address) -> (r: Option<GameId>)
        ensures
            r == self.view().game_of(who),
    {
        let ghost index = self.player_active_game@;
        let mut i: usize = 0;
        assert(index.subrange(0, index.len() as int) =~= index);
        while i < self.player_active_game.len()
            invariant
                i <= index.len(),
                index == self.player_active_game@,
                index_lookup(index, who) == index_lookup(
                    index.subrange(i as int, index.len() as int),
                    who,
                ),
            decreases index.len() - i,
        {
            proof {
                let rest = index.subrange(i as int, index.len() as int);
                assert(rest.drop_first() =~= index.subrange(i + 1, index.len() as int));
            }
            let (addr, game_id) = self.player_active_game[i];
            if addr == who {
                return Some(game_id);
            }
            i = i + 1;
        }
        None
    }

    /// Creates and stores a game between `player_a` and `player_b`, indexes
    /// both, and announces it.
    fn create_game(&mut self, player_a: Address, player_b: Address, seed: u32) -> (r: GameId)
        requires
            old(self).wf(),
            old(self).view().next_game_id < u32::MAX,
        ensures
            final(self).wf(),
            r == old(self).view().next_game_id,
            final(self).provider() == old(self).provider(),
            final(self).view() == (EngineModel {
                games: old(self).view().games.push(new_game_spec(r, player_a, player_b, seed)),
                next_game_id: (r + 1) as GameId,
                index: old(self).view().index.push((player_a, r)).push((player_b, r)),
                events: old(self).view().events.push(
                    Event::GameStarted(GameStarted { game_id: r, player_a, player_b }),
                ),
                ..old(self).view()
            }),
    {
        let game_id = self.next_game_id;
        let first = new_player(player_a, 1, seed);
        let second = new_player(player_b, 0, seed);
        let game = Game {
            id: game_id,
            players: [first, second],
            active_idx: 0,
            turn: 1,
            status: GameStatus::InProgress,
        };
        assert(game@ == new_game_spec(game_id, player_a, player_b, seed));
        assert(game@.wf());
        self.games.push(game);
        self.player_active_game.push((player_a, game_id));
        self.player_active_game.push((player_b, game_id));
        self.next_game_id = self.next_game_id + 1;
        self.events.push(
            Event::GameStarted(GameStarted { game_id, player_a, player_b }),
        );
        assert(self.view().games =~= old(self).view().games.push(
            new_game_spec(game_id, player_a, player_b, seed),
        ));
        assert forall|j: int| 0 <= j < self.view().games.len() implies (#[trigger] self.view().games[j]).wf()
            && self.view().games[j].id == j + 1 by {
            if j < old(self).view().games.len() {
                assert(old(self).view().games[j].wf());
            }
        }
        game_id
    }

    /// Registers `caller` for a match (see [`register_spec`]); `seed` is the
    /// host's monotonic counter, used for the opening draws.
    pub fn register_for_match(&mut self, caller: Address, seed: u32) -> (r: Result<GameId, Error>)
        requires
            old(self).wf(),
            old(self).view().next_game_id < u32::MAX,
        ensures
            final(self).wf(),
            final(self).provider() == old(self).provider(),
            (final(self).view(), r) == register_spec(old(self).view(), caller, seed),
    {
        if self.lookup_player(caller).is_some() {
            return Err(Error::AlreadyInGame);
        }
        match self.waiting_player {
            Some(waiting) => {
                if waiting == caller {
                    return Err(Error::AlreadyInGame);
                }
                let game_id = self.create_game(waiting, caller, seed);
                self.waiting_player = None;
                Ok(game_id)
            },
            None => {
                self.waiting_player = Some(caller);
                Ok(0)
            },
        }
    }

    /// Applies `actions` for `caller` to game `game_id` (see
    /// [`submit_engine_spec`]); `seed` is the host's monotonic counter, used
    /// for the draw at the end of the turn.
    pub fn submit_turn_actions(
        &mut self,
        caller: Address,
        game_id: GameId,
        actions: Vec<ActionType>,
        seed: u32,
    ) -> (r: Result<(), Error>)
        requires
            old(self).wf(),
            old(self).view().has_game(game_id) ==> old(self).view().game(game_id).turn < u32::MAX,
        ensures
            final(self).wf(),
            final(self).provider() == old(self).provider(),
            (final(self).view(), r) == submit_engine_spec(
                old(self).view(),
                old(self).provider(),
                caller,
                game_id,
                actions@,
                seed,
            ),
    {
        if game_id == 0 || game_id as usize > self.games.len() {
            return Err(Error::GameNotFound);
        }
        let k = (game_id - 1) as usize;
        assert(self.view().games[k as int] == self.games@[k as int]@);
        let mut game = self.games[k].duplicate();
        if game.status == GameStatus::Finished {
            return Err(Error::GameAlreadyFinished);
        }
        if game.players[game.active_idx as usize].addr != caller {
            return Err(Error::NotYourTurn);
        }
        let r = game.run_batch(caller, &actions, seed, &self.card_contract, &mut self.events);
        self.games.set(k, game);
        assert(self.view().games =~= old(self).view().games.update(
            k as int,
            submit_spec(old(self).view().game(game_id), caller, actions@, seed, old(self).provider()).game,
        ));
        assert forall|j: int| 0 <= j < self.view().games.len() implies (#[trigger] self.view().games[j]).wf()
            && self.view().games[j].id == j + 1 by {
            if j != k {
                assert(old(self).view().games[j].wf());
            }
        }
        r
    }

    /// A copy of game `game_id`, if it exists.
    pub fn get_game_state(&self, game_id: GameId) -> (r: Option<Game>)
        ensures
            r is Some <==> self.view().has_game(game_id),
            r matches Some(g) ==> g@ == self.view().game(game_id),
    {
        if game_id == 0 || game_id as usize > self.games.len() {
            return None;
        }
        let k = (game_id - 1) as usize;
        assert(self.view().games[k as int] == self.games@[k as int]@);
        Some(self.games[k].duplicate())
    }

    /// The game recorded for `player`, if any.
    pub fn get_player_game(&self, player: Address) -> (r: Option<GameId>)
        ensures
            r == self.view().game_of(player),
    {
        self.lookup_player(player)
    }

    /// Hands out the notifications emitted so far, oldest first, and forgets them.
    pub fn take_events(&mut self) -> (r: Vec<Event>)
        ensures
            r@ == old(self).view().events,
            final(self).view() == (EngineModel { events: seq![], ..old(self).view() }),
            final(self).provider() == old(self).provider(),
    {
        let mut out: Vec<Event> = Vec::new();
        core::mem::swap(&mut out, &mut self.events);
        assert(self.view().events =~= seq![]);
        out
    }
}

/// A player at the start of a game (see [`fresh_player`]).
fn new_player(addr: Address, energy: u8, seed: u32) -> (r: PlayerState)
    requires
        energy <= 1,
    ensures
        r@ == fresh_player(addr, energy, seed),
        r@.wf(),
        r.hp == START_HP,
{
    let deck: Vec<CardId> = vec![1, 2, 3, 1, 2, 3, 1, 2, 3, 1];
    assert(deck@ =~= starter_deck());
    let mut p = PlayerState {
        addr,
        hp: START_HP,
        energy,
        max_energy: 1,
        deck,
        hand: Vec::new(),
        board: [None, None, None, None],
    };
    assert(p@.board =~= seq![None, None, None, None]);
    let mut k: usize = 0;
    while k < OPENING_HAND
        invariant
            k <= OPENING_HAND,
            p@.wf(),
            p.hp == START_HP,
            p@ == draw_n(fresh_player_start(addr, energy), seed, k as nat),
        decreases OPENING_HAND - k,
    {
        p.draw_card(seed, 1);
        k = k + 1;
    }
    p
}

/// A player before the opening draws.
pub open spec fn fresh_player_start(addr: Address, energy: u8) -> PlayerModel {
    PlayerModel {
        addr,
        hp: START_HP,
        energy,
        max_energy: 1,
        deck: starter_deck(),
        hand: seq![],
        board: seq![None, None, None, None],
    }
}

/// `n` draws on the first turn.
pub open spec fn draw_n(p: PlayerModel, seed: u32, n: nat) -> PlayerModel
    decreases n,
{
    if n == 0 {
        p
    } else {
        draw_spec(draw_n(p, seed, (n - 1) as nat), seed, 1)
    }
}

} // verus!
