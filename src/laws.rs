//! Properties of the turn engine over whole games, proved from the model of a
//! single turn.
use crate::board::{exit_of, is_special, row, tiles_wf, Tile, CELLS, WIN_CELL};
use crate::game::{after_roll, moved_to, run, view_wf, GameView};
use vstd::arithmetic::div_mod::{lemma_mod_add_multiples_vanish, lemma_add_mod_noop, lemma_small_mod};
use vstd::prelude::*;

verus! {

/// On a well-formed board, and so on every generated one, no two special
/// tiles share a cell: an exit is never the start of a snake or ladder, two
/// snakes or ladders never share an exit, and no exit is the winning cell. A
/// snake leads to a lower row and a ladder to a higher one.
pub proof fn lemma_special_tiles_apart(s: Seq<Tile>, i: int, j: int)
    requires
        tiles_wf(s),
        0 <= i < CELLS,
        0 <= j < CELLS,
        is_special(s[i]),
        is_special(s[j]),
    ensures
        exit_of(s[i]) != j,
        i != j ==> exit_of(s[i]) != exit_of(s[j]),
        0 <= exit_of(s[i]) < WIN_CELL,
        s[i] is Snake ==> row(exit_of(s[i])) < row(i),
        s[i] is Ladder ==> row(exit_of(s[i])) > row(i),
{
}

/// A turn on an ended game changes nothing at all.
pub proof fn lemma_ended_game_is_fixed(v: GameView, d: int)
    requires
        v.ended,
    ensures
        after_roll(v, d) == v,
{
}

/// A throw of 6 leaves the turn with the same player.
pub proof fn lemma_six_keeps_turn(v: GameView)
    ensures
        after_roll(v, 6).turn == v.turn,
{
}

/// A move that reaches cell 99 exactly ends the game with the mover on cell
/// 99, and changes no other player.
pub proof fn lemma_exact_win(v: GameView, d: int)
    requires
        view_wf(v),
        !v.ended,
        v.players[v.turn].position + d == WIN_CELL,
    ensures
        after_roll(v, d).ended,
        after_roll(v, d).players == v.players.update(
            v.turn,
            moved_to(v.players[v.turn], WIN_CELL as int),
        ),
        after_roll(v, d).players[v.turn].position == WIN_CELL,
        after_roll(v, d).board == v.board,
{
}

/// A move that would pass cell 99 moves nobody and does not end the game.
pub proof fn lemma_overshoot_moves_nobody(v: GameView, d: int)
    requires
        view_wf(v),
        !v.ended,
        v.players[v.turn].position + d > WIN_CELL,
    ensures
        after_roll(v, d).players == v.players,
        !after_roll(v, d).ended,
{
}

proof fn lemma_roll_keeps_player_count(v: GameView, d: int)
    requires
        0 <= v.turn < v.players.len(),
    ensures
        after_roll(v, d).players.len() == v.players.len(),
{
}

/// While no 6 is thrown and the game goes on, the turn moves one player
/// forward in list order per roll, wrapping round: after `k` rolls it is
/// with player `(t + k) % n`.
pub proof fn lemma_turns_cycle(v: GameView, ds: Seq<int>)
    requires
        view_wf(v),
        !v.ended,
        forall|i: int| 0 <= i < ds.len() ==> 1 <= #[trigger] ds[i] <= 5,
        ds.len() > 0 ==> !run(v, ds.drop_last()).ended,
    ensures
        run(v, ds).turn == (v.turn + ds.len()) % (v.players.len() as int),
        run(v, ds).players.len() == v.players.len(),
    decreases ds.len(),
{
    let n = v.players.len() as int;
    if ds.len() == 0 {
        lemma_small_mod(v.turn as nat, n as nat);
    } else {
        let pre = ds.drop_last();
        if pre.len() > 0 {
            let before = run(v, pre.drop_last());
            if before.ended {
                assert(run(v, pre) == before);
            }
        }
        assert forall|i: int| 0 <= i < pre.len() implies 1 <= #[trigger] pre[i] <= 5 by {
            assert(pre[i] == ds[i]);
        }
        lemma_turns_cycle(v, pre);
        lemma_roll_keeps_player_count(run(v, pre), ds.last());
        lemma_add_mod_noop(v.turn + pre.len(), 1, n);
        lemma_small_mod(1, n as nat);
    }
}

/// Within `n` consecutive turns that pass on, starting from any player, no
/// player comes twice, so each of the `n` players comes exactly once.
pub proof fn lemma_each_player_once(t: int, n: int, a: int, b: int)
    requires
        0 <= t < n,
        0 <= a < b < n,
    ensures
        (t + a) % n != (t + b) % n,
{
    lemma_wrap_once(t + a, n);
    lemma_wrap_once(t + b, n);
}

proof fn lemma_wrap_once(x: int, n: int)
    requires
        0 <= x < 2 * n,
    ensures
        x % n == if x < n {
            x
        } else {
            x - n
        },
{
    if x < n {
        lemma_small_mod(x as nat, n as nat);
    } else {
        lemma_mod_add_multiples_vanish(x - n, n);
        lemma_small_mod((x - n) as nat, n as nat);
    }
}

} // verus!
