use vstd::prelude::*;

use crate::cards::CardDataProvider;
use crate::engine::{index_lookup, register_spec, submit_engine_spec, EngineModel};
use crate::game::{
    apply_action_spec, board_after_combat, combat_spec, end_turn_spec, lane_direct, run_actions,
    struck, submit_spec, survivor, GameModel,
};
use crate::player::{draw_spec, PlayerModel};
use crate::types::{
    ActionType, Address, Error, Event, GameEnded, GameStatus, UnitInstance, BOARD_SLOTS,
    MAX_ENERGY, MAX_HAND,
};

verus! {

proof fn lemma_lookup_push(index: Seq<(Address, u32)>, entry: (Address, u32), who: Address)
    ensures
        index_lookup(index.push(entry), who) == (if index_lookup(index, who) is Some {
            index_lookup(index, who)
        } else if entry.0 == who {
            Some(entry.1)
        } else {
            None
        }),
    decreases index.len(),
{
    if index.len() > 0 {
        assert(index.push(entry)[0] == index[0]);
        assert(index.push(entry).drop_first() =~= index.drop_first().push(entry));
        lemma_lookup_push(index.drop_first(), entry, who);
    } else {
        assert(index.push(entry)[0] == entry);
        assert(index.push(entry).drop_first() =~= Seq::<(Address, u32)>::empty());
        assert(index_lookup(Seq::<(Address, u32)>::empty(), who) is None);
    }
}

/// Matchmaking pairs in order of arrival: when `a` registers with nobody
/// waiting and then `b` registers, `a` waits (result `0`), re-registering `a`
/// in between is refused, and `b`'s registration creates a game with `a` as
/// player 0 and `b` as player 1, after which both are refused.
pub proof fn lemma_matchmaking_pairs(m: EngineModel, a: Address, b: Address, seed_a: u32, seed_b: u32, seed_again: u32)
    requires
        m.wf(),
        m.next_game_id < u32::MAX,
        m.waiting is None,
        m.game_of(a) is None,
        m.game_of(b) is None,
        a != b,
    ensures
        ({
            let (m1, r1) = register_spec(m, a, seed_a);
            let (m2, r2) = register_spec(m1, b, seed_b);
            &&& r1 == Ok::<u32, Error>(0)
            &&& register_spec(m1, a, seed_again).1 == Err::<u32, Error>(Error::AlreadyInGame)
            &&& r2 == Ok::<u32, Error>(m.next_game_id)
            &&& m2.has_game(m.next_game_id)
            &&& m2.game(m.next_game_id).players[0].addr == a
            &&& m2.game(m.next_game_id).players[1].addr == b
            &&& m2.game(m.next_game_id).status == GameStatus::InProgress
            &&& m2.game_of(a) == Some(m.next_game_id)
            &&& m2.game_of(b) == Some(m.next_game_id)
            &&& register_spec(m2, a, seed_again).1 == Err::<u32, Error>(Error::AlreadyInGame)
            &&& register_spec(m2, b, seed_again).1 == Err::<u32, Error>(Error::AlreadyInGame)
        }),
{
    let id = m.next_game_id;
    let m1 = register_spec(m, a, seed_a).0;
    lemma_lookup_push(m.index, (a, id), a);
    lemma_lookup_push(m.index, (a, id), b);
    lemma_lookup_push(m.index.push((a, id)), (b, id), a);
    lemma_lookup_push(m.index.push((a, id)), (b, id), b);
    assert(m1.index == m.index);
    assert(m1.waiting == Some(a));
    assert(register_spec(m, a, seed_a).1 == Ok::<u32, Error>(0));
    let m2 = register_spec(m1, b, seed_b).0;
    assert(register_spec(m1, b, seed_b).1 == Ok::<u32, Error>(id));
    assert(m2.index == m.index.push((a, id)).push((b, id)));
    assert(m2.games[id - 1] == m2.games.last());
    reveal_with_fuel(crate::engine::draw_n, 4);
    assert(m2.game_of(a) == Some(id));
    assert(m2.game_of(b) == Some(id));
}

/// Drawing never takes a hand past its bound, keeps a player well formed,
/// and does nothing when the deck is empty.
pub proof fn lemma_draw_bounded(p: PlayerModel, seed: u32, turn: u32)
    requires
        p.hand.len() <= MAX_HAND,
    ensures
        draw_spec(p, seed, turn).hand.len() <= MAX_HAND,
        p.wf() ==> draw_spec(p, seed, turn).wf(),
        p.deck.len() == 0 ==> draw_spec(p, seed, turn) == p,
{
}

proof fn lemma_run_keeps_energy_cap<P: CardDataProvider>(g: GameModel, caller: Address, actions: Seq<ActionType>, cards: P)
    requires
        g.wf(),
    ensures
        run_actions(g, caller, actions, cards).game.wf(),
        run_actions(g, caller, actions, cards).game.active_idx == g.active_idx,
        forall|i: int|
            0 <= i < 2 ==> (#[trigger] run_actions(g, caller, actions, cards).game.players[i]).max_energy
                == g.players[i].max_energy,
    decreases actions.len(),
{
    if actions.len() > 0 {
        lemma_run_keeps_energy_cap(g, caller, actions.drop_last(), cards);
        let prev = run_actions(g, caller, actions.drop_last(), cards);
        if let Ok(g2) = apply_action_spec(prev.game, actions.last(), cards) {
            let a = prev.game.active_idx as int;
            if actions.last() is PlayCard {
                let updated = g2.players[a];
                assert forall|s: int| 0 <= s < BOARD_SLOTS implies #[trigger] crate::player::unit_wf(
                    updated.board[s],
                ) by {
                    assert(crate::player::unit_wf(prev.game.players[a].board[s]));
                }
                assert(g2.players[1 - a] == prev.game.players[1 - a]);
            }
        }
    }
}

/// Over one submitted batch, each player's `max_energy` grows by at most one
/// and never passes the cap.
pub proof fn lemma_energy_growth<P: CardDataProvider>(g: GameModel, caller: Address, actions: Seq<ActionType>, seed: u32, cards: P)
    requires
        g.wf(),
        g.status == GameStatus::InProgress,
    ensures
        forall|i: int|
            0 <= i < 2 ==> {
                let after = (#[trigger] submit_spec(g, caller, actions, seed, cards).game.players[i]).max_energy;
                &&& g.players[i].max_energy <= after <= g.players[i].max_energy + 1
                &&& after <= MAX_ENERGY
            },
{
    lemma_run_keeps_energy_cap(g, caller, actions, cards);
}

/// Lanes scanned in `order`: the active board and the opposing board after
/// the exchanges of the scanned lanes, and the direct damage they deal. Every
/// record is computed from the boards as they were before the scan.
pub open spec fn scan_lanes(
    mine: Seq<Option<UnitInstance>>,
    theirs: Seq<Option<UnitInstance>>,
    order: Seq<int>,
) -> (Seq<Option<UnitInstance>>, Seq<Option<UnitInstance>>, int)
    decreases order.len(),
{
    if order.len() == 0 {
        (mine, theirs, 0)
    } else {
        let (m, t, d) = scan_lanes(mine, theirs, order.drop_last());
        let s = order.last();
        (
            m.update(s, struck(mine[s], theirs[s])),
            t.update(s, struck(theirs[s], mine[s])),
            d + lane_direct(mine[s], theirs[s]),
        )
    }
}

/// Combat with the lanes scanned in `order`, followed by the death sweep.
pub open spec fn combat_in_order(g: GameModel, order: Seq<int>) -> GameModel {
    let a = g.active_idx as int;
    let o = 1 - a;
    let pa = g.players[a];
    let po = g.players[o];
    let (m, t, d) = scan_lanes(pa.board, po.board, order);
    let pa_after = PlayerModel { board: Seq::new(BOARD_SLOTS as nat, |s: int| survivor(m[s])), ..pa };
    let po_after = PlayerModel {
        board: Seq::new(BOARD_SLOTS as nat, |s: int| survivor(t[s])),
        hp: (po.hp - d) as i16,
        ..po
    };
    g.with_player(a, pa_after).with_player(o, po_after)
}

/// Whether `order` lists each of the board's slots exactly once.
pub open spec fn is_slot_order(order: Seq<int>) -> bool {
    &&& order.len() == BOARD_SLOTS
    &&& forall|k: int| 0 <= k < order.len() ==> 0 <= #[trigger] order[k] < BOARD_SLOTS
    &&& forall|k: int, l: int| 0 <= k < l < order.len() ==> order[k] != order[l]
}

proof fn lemma_permutation_of_four(fs: Seq<int>, o0: int, o1: int, o2: int, o3: int)
    requires
        fs.len() == 4,
        0 <= o0 < 4 && 0 <= o1 < 4 && 0 <= o2 < 4 && 0 <= o3 < 4,
        o0 != o1 && o0 != o2 && o0 != o3 && o1 != o2 && o1 != o3 && o2 != o3,
    ensures
        fs[o0] + fs[o1] + fs[o2] + fs[o3] == fs[0] + fs[1] + fs[2] + fs[3],
        forall|s: int| #![trigger fs[s]] 0 <= s < 4 ==> s == o0 || s == o1 || s == o2 || s == o3,
{
}

/// The records of a scan in four distinct lanes.
proof fn lemma_scan_four(
    mine: Seq<Option<UnitInstance>>,
    theirs: Seq<Option<UnitInstance>>,
    order: Seq<int>,
)
    requires
        mine.len() == 4,
        theirs.len() == 4,
        is_slot_order(order),
    ensures
        ({
            let (m, t, d) = scan_lanes(mine, theirs, order);
            &&& m.len() == 4
            &&& t.len() == 4
            &&& forall|s: int| 0 <= s < 4 ==> #[trigger] m[s] == struck(mine[s], theirs[s])
            &&& forall|s: int| 0 <= s < 4 ==> #[trigger] t[s] == struck(theirs[s], mine[s])
            &&& d == lane_direct(mine[order[0]], theirs[order[0]]) + lane_direct(mine[order[1]], theirs[order[1]])
                + lane_direct(mine[order[2]], theirs[order[2]]) + lane_direct(mine[order[3]], theirs[order[3]])
        }),
{
    reveal_with_fuel(scan_lanes, 5);
    let o0 = order[0];
    let o1 = order[1];
    let o2 = order[2];
    let o3 = order[3];
    assert(order[0] != order[1] && order[0] != order[2] && order[0] != order[3]);
    assert(order[1] != order[2] && order[1] != order[3] && order[2] != order[3]);
    assert(0 <= order[0] < 4 && 0 <= order[1] < 4 && 0 <= order[2] < 4 && 0 <= order[3] < 4);
    let fs = Seq::new(4, |s: int| 0int);
    lemma_permutation_of_four(fs, o0, o1, o2, o3);
    assert(order.drop_last().drop_last().drop_last().drop_last() =~= Seq::<int>::empty());
    assert(order.drop_last().drop_last().drop_last() =~= seq![o0]);
    assert(order.drop_last().drop_last() =~= seq![o0, o1]);
    assert(order.drop_last() =~= seq![o0, o1, o2]);
}

/// Combat does not depend on the order in which the lanes are scanned: any
/// order of the four slots gives the same boards and hit points.
pub proof fn lemma_combat_order_independent(g: GameModel, order: Seq<int>)
    requires
        g.wf(),
        is_slot_order(order),
    ensures
        combat_in_order(g, order) == combat_spec(g),
{
    reveal_with_fuel(crate::game::direct_damage, 5);
    let a = g.active_idx as int;
    let mine = g.players[a].board;
    let theirs = g.players[1 - a].board;
    lemma_scan_four(mine, theirs, order);
    let (m, t, d) = scan_lanes(mine, theirs, order);
    let fs = Seq::new(4, |s: int| lane_direct(mine[s], theirs[s]));
    assert(order[0] != order[1] && order[0] != order[2] && order[0] != order[3]);
    assert(order[1] != order[2] && order[1] != order[3] && order[2] != order[3]);
    assert(0 <= order[0] < 4 && 0 <= order[1] < 4 && 0 <= order[2] < 4 && 0 <= order[3] < 4);
    lemma_permutation_of_four(fs, order[0], order[1], order[2], order[3]);
    assert(d == crate::game::direct_damage(mine, theirs, BOARD_SLOTS as int));
    assert(Seq::new(BOARD_SLOTS as nat, |s: int| survivor(m[s])) =~= board_after_combat(mine, theirs));
    assert(Seq::new(BOARD_SLOTS as nat, |s: int| survivor(t[s])) =~= board_after_combat(theirs, mine));
}

/// When both players end a resolution at or below zero hit points, player 0
/// is checked first: the game finishes and player 1 is declared the winner.
pub proof fn lemma_double_defeat_tie_break(g: GameModel, seed: u32)
    requires
        g.players.len() == 2,
        g.active_idx < 2,
        combat_spec(g).players[0].hp <= 0,
        combat_spec(g).players[1].hp <= 0,
    ensures
        end_turn_spec(g, seed).0.status == GameStatus::Finished,
        end_turn_spec(g, seed).1 == Event::GameEnded(
            GameEnded { game_id: g.id, winner: g.players[1].addr },
        ),
{
}

/// A concession by the active player succeeds, finishes the game with the
/// opponent announced as winner, and every later submission for that game is
/// refused as finished.
pub proof fn lemma_concede_finishes<P: CardDataProvider>(
    m: EngineModel,
    cards: P,
    game_id: u32,
    seed: u32,
    later_caller: Address,
    later_actions: Seq<ActionType>,
    later_seed: u32,
)
    requires
        m.wf(),
        m.has_game(game_id),
        m.game(game_id).status == GameStatus::InProgress,
    ensures
        ({
            let caller = m.game(game_id).active().addr;
            let (m1, r) = submit_engine_spec(m, cards, caller, game_id, seq![ActionType::Concede], seed);
            &&& r == Ok::<(), Error>(())
            &&& m1.game(game_id).status == GameStatus::Finished
            &&& m1.events[m.events.len() as int] == Event::GameEnded(
                GameEnded { game_id, winner: m.game(game_id).opponent().addr },
            )
            &&& submit_engine_spec(m1, cards, later_caller, game_id, later_actions, later_seed).1
                == Err::<(), Error>(Error::GameAlreadyFinished)
        }),
{
    let g = m.game(game_id);
    let actions = seq![ActionType::Concede];
    assert(actions.drop_last() =~= Seq::<ActionType>::empty());
    assert(!actions.contains(ActionType::EndTurn)) by {
        if actions.contains(ActionType::EndTurn) {
            let k = choose|k: int| 0 <= k < actions.len() && actions[k] == ActionType::EndTurn;
            assert(actions[k] == ActionType::Concede);
        }
    }
    let prev = run_actions(g, g.active().addr, Seq::<ActionType>::empty(), cards);
    assert(prev.game == g && prev.error is None && prev.events.len() == 0);
    assert(actions.last() == ActionType::Concede);
    let b = run_actions(g, g.active().addr, actions, cards);
    assert(b.game.status == GameStatus::Finished);
    assert(b.error is None);
    assert(b.events[0] == Event::GameEnded(GameEnded { game_id: g.id, winner: g.opponent().addr }));
}

} // verus!
