//! Game state and the turn engine: dice, movement, win detection, the three
//! interaction modes, and the ranking of players.
use crate::board::{exit_of, is_special, tiles_wf, Board, GenerationError, Kind, Tile, CELLS, WIN_CELL, count_kind, STANDARD_COUNT};
use crate::rng::GameRng;
use vstd::prelude::*;

verus! {

/// Longest accepted player name, in characters.
pub const MAX_NAME_LEN: usize = 25;

/// Fewest players in a game.
pub const MIN_PLAYERS: usize = 2;

/// Most players in a game.
pub const MAX_PLAYERS: usize = 4;

/// How players on the same cell affect each other.
#[derive(Clone, Copy, Debug, PartialEq, Eq, Structural)]
pub enum Mode {
    /// Players share cells freely.
    Friendly,
    /// A player landing on occupied cells sends the occupants back to cell 0.
    Bump,
    /// A player landing on an occupied cell trades places with the first occupant.
    Swap,
}

pub open spec fn mode_label(m: Mode) -> Seq<char> {
    match m {
        Mode::Friendly => "Friendly"@,
        Mode::Bump => "Bump"@,
        Mode::Swap => "Swap"@,
    }
}

impl Mode {
    /// The name under which the mode is shown.
    pub fn label(&self) -> (r: &'static str)
        ensures
            r@ == mode_label(*self),
    {
        match self {
            Mode::Friendly => "Friendly",
            Mode::Bump => "Bump",
            Mode::Swap => "Swap",
        }
    }
}

impl Default for Mode {
    fn default() -> (r: Mode)
        ensures
            r == Mode::Friendly,
    {
        Mode::Friendly
    }
}

/// A display colour, one byte per channel.
#[derive(Clone, Copy, Debug, PartialEq, Eq, Structural)]
pub struct Rgb {
    pub r: u8,
    pub g: u8,
    pub b: u8,
}

/// A player: a name, the index of the cell they stand on, and a colour.
#[derive(Clone, Debug)]
pub struct Player {
    pub name: String,
    pub position: usize,
    pub color: Rgb,
}

impl Player {
    /// A player on cell 0.
    pub fn new(name: String, color: Rgb) -> (p: Player)
        ensures
            p == (Player { name, position: 0, color }),
    {
        Player { name, position: 0, color }
    }
}

/// What the setup menu hands over to start a game: the players taking part,
/// those that could still be added, and the mode.
#[derive(Clone, Debug, Default)]
pub struct Config {
    pub players: Vec<Player>,
    pub possible_players: Vec<Player>,
    pub game_type: Mode,
}

/// Why a set of players cannot start a game.
#[derive(Clone, Copy, Debug, PartialEq, Eq, Structural)]
pub enum ConfigError {
    /// Fewer than two or more than four players.
    PlayerCount,
    /// The player at this index has an empty name or one over 25 characters.
    Name(usize),
    /// The player at this index stands outside the board.
    Position(usize),
}

/// Why a new game could not start.
#[derive(Clone, Copy, Debug, PartialEq, Eq, Structural)]
pub enum NewGameError {
    Config(ConfigError),
    Generation(GenerationError),
}

/// The mathematical state of a game.
pub struct GameView {
    pub board: Seq<Tile>,
    pub players: Seq<Player>,
    pub turn: int,
    pub dice: int,
    pub ended: bool,
    pub mode: Mode,
}

pub open spec fn name_ok(p: Player) -> bool {
    1 <= p.name@.len() <= MAX_NAME_LEN
}

pub open spec fn count_ok(ps: Seq<Player>) -> bool {
    MIN_PLAYERS <= ps.len() <= MAX_PLAYERS
}

pub open spec fn roster_ok(ps: Seq<Player>) -> bool {
    count_ok(ps) && forall|i: int| 0 <= i < ps.len() ==> #[trigger] name_ok(ps[i])
}

/// `i` is the first player whose name is rejected.
pub open spec fn first_bad_name(ps: Seq<Player>, i: int) -> bool {
    &&& 0 <= i < ps.len()
    &&& !name_ok(ps[i])
    &&& forall|j: int| 0 <= j < i ==> #[trigger] name_ok(ps[j])
}

/// `i` is the first player standing outside the board.
pub open spec fn first_bad_position(ps: Seq<Player>, i: int) -> bool {
    &&& 0 <= i < ps.len()
    &&& ps[i].position >= CELLS
    &&& forall|j: int| 0 <= j < i ==> #[trigger] ps[j].position < CELLS
}

pub open spec fn all_on_board(ps: Seq<Player>) -> bool {
    forall|i: int| 0 <= i < ps.len() ==> #[trigger] ps[i].position < CELLS
}

pub open spec fn view_wf(v: GameView) -> bool {
    &&& tiles_wf(v.board)
    &&& count_ok(v.players)
    &&& 0 <= v.turn < v.players.len()
    &&& 0 <= v.dice <= 6
    &&& all_on_board(v.players)
}

pub open spec fn moved_to(p: Player, c: int) -> Player {
    Player { name: p.name, position: c as usize, color: p.color }
}

/// Where a move that reaches cell `t` ends: at the exit of a snake or ladder
/// starting there, else on `t` itself.
pub open spec fn landing(tiles: Seq<Tile>, t: int) -> int {
    match tiles[t] {
        Tile::Snake(e) => e as int,
        Tile::Ladder(e) => e as int,
        _ => t,
    }
}

/// Every player but the mover standing on `dest` goes back to cell 0.
pub open spec fn bumped(ps: Seq<Player>, mover: int, dest: int) -> Seq<Player> {
    Seq::new(
        ps.len(),
        |i: int|
            if i != mover && ps[i].position == dest {
                moved_to(ps[i], 0)
            } else {
                ps[i]
            },
    )
}

/// `i` is the first player in list order, other than the mover, on `dest`.
pub open spec fn is_first_occupant(ps: Seq<Player>, mover: int, dest: int, i: int) -> bool {
    &&& 0 <= i < ps.len()
    &&& i != mover
    &&& ps[i].position == dest
    &&& forall|j: int| 0 <= j < i && j != mover ==> #[trigger] ps[j].position != dest
}

/// The first other player on `dest` goes to `from`, the mover's former cell.
pub open spec fn swapped(ps: Seq<Player>, mover: int, dest: int, from: int) -> Seq<Player> {
    Seq::new(
        ps.len(),
        |i: int|
            if is_first_occupant(ps, mover, dest, i) {
                moved_to(ps[i], from)
            } else {
                ps[i]
            },
    )
}

pub open spec fn interact(m: Mode, ps: Seq<Player>, mover: int, dest: int, from: int) -> Seq<
    Player,
> {
    match m {
        Mode::Friendly => ps,
        Mode::Bump => bumped(ps, mover, dest),
        Mode::Swap => swapped(ps, mover, dest, from),
    }
}

/// The turn passes to the next player in circular order unless a 6 was thrown.
pub open spec fn next_turn(v: GameView, d: int) -> int {
    if d != 6 {
        (v.turn + 1) % (v.players.len() as int)
    } else {
        v.turn
    }
}

/// One turn in which the die shows `d`.
pub open spec fn after_roll(v: GameView, d: int) -> GameView {
    if v.ended {
        v
    } else {
        let mover = v.turn;
        let from = v.players[mover].position as int;
        let target = from + d;
        if target > WIN_CELL {
            GameView { turn: next_turn(v, d), dice: d, ..v }
        } else if target == WIN_CELL {
            GameView {
                players: v.players.update(mover, moved_to(v.players[mover], WIN_CELL as int)),
                turn: next_turn(v, d),
                dice: d,
                ended: true,
                ..v
            }
        } else {
            let dest = landing(v.board, target);
            let ps = v.players.update(mover, moved_to(v.players[mover], dest));
            GameView {
                players: interact(v.mode, ps, mover, dest, from),
                turn: next_turn(v, d),
                dice: d,
                ..v
            }
        }
    }
}

/// The turns in which the die shows `ds`, in order.
pub open spec fn run(v: GameView, ds: Seq<int>) -> GameView
    decreases ds.len(),
{
    if ds.len() == 0 {
        v
    } else {
        after_roll(run(v, ds.drop_last()), ds.last())
    }
}

/// Player `a` ranks before player `b`: further along, or level and earlier
/// in the list.
pub open spec fn ranks_before(ps: Seq<Player>, a: int, b: int) -> bool {
    ps[a].position > ps[b].position || (ps[a].position == ps[b].position && a < b)
}

/// Checks the number of players and their names.
pub fn check_roster(players: &Vec<Player>) -> (r: Result<(), ConfigError>)
    ensures
        match r {
            Ok(()) => roster_ok(players@),
            Err(ConfigError::PlayerCount) => !count_ok(players@),
            Err(ConfigError::Name(i)) => count_ok(players@) && first_bad_name(players@, i as int),
            Err(ConfigError::Position(_)) => false,
        },
{
    let n = players.len();
    if n < MIN_PLAYERS || n > MAX_PLAYERS {
        return Err(ConfigError::PlayerCount);
    }
    let mut i: usize = 0;
    while i < n
        invariant
            n == players@.len(),
            count_ok(players@),
            i <= n,
            forall|j: int| 0 <= j < i ==> #[trigger] name_ok(players@[j]),
        decreases n - i,
    {
        let len = players[i].name.as_str().unicode_len();
        if len < 1 || len > MAX_NAME_LEN {
            assert(!name_ok(players@[i as int]));
            return Err(ConfigError::Name(i));
        }
        i = i + 1;
    }
    Ok(())
}

/// The state of one game.
pub struct GameState {
    board: Board,
    players: Vec<Player>,
    mode: Mode,
    turn: usize,
    dice_value: u8,
    ended: bool,
}

impl View for GameState {
    type V = GameView;

    closed spec fn view(&self) -> GameView {
        GameView {
            board: self.board@,
            players: self.players@,
            turn: self.turn as int,
            dice: self.dice_value as int,
            ended: self.ended,
            mode: self.mode,
        }
    }
}

/// Sends every player but the mover standing on `dest` back to cell 0.
fn bump_others(players: &mut Vec<Player>, mover: usize, dest: usize)
    ensures
        final(players)@ == bumped(old(players)@, mover as int, dest as int),
{
    let ghost ps = players@;
    let n = players.len();
    let mut i: usize = 0;
    while i < n
        invariant
            n == players@.len(),
            ps.len() == n,
            i <= n,
            forall|j: int| 0 <= j < i ==> players@[j] == bumped(ps, mover as int, dest as int)[j],
            forall|j: int| i <= j < n ==> players@[j] == ps[j],
        decreases n - i,
    {
        if i != mover && players[i].position == dest {
            players[i].position = 0;
        }
        i = i + 1;
    }
    assert(players@ =~= bumped(ps, mover as int, dest as int));
}

/// Moves the first player other than the mover standing on `dest` to `from`.
fn swap_first(players: &mut Vec<Player>, mover: usize, dest: usize, from: usize)
    ensures
        final(players)@ == swapped(old(players)@, mover as int, dest as int, from as int),
{
    let ghost ps = players@;
    let n = players.len();
    let mut i: usize = 0;
    while i < n
        invariant
            n == players@.len(),
            players@ == ps,
            ps == old(players)@,
            i <= n,
            forall|j: int| 0 <= j < i && j != mover ==> #[trigger] ps[j].position != dest,
        decreases n - i,
    {
        if i != mover && players[i].position == dest {
            players[i].position = from;
            proof {
                assert(players@[i as int] == moved_to(ps[i as int], from as int));
                assert(forall|k: int| 0 <= k < n && k != i ==> players@[k] == ps[k]);
                assert forall|k: int| 0 <= k < n && k != i implies !is_first_occupant(
                    ps,
                    mover as int,
                    dest as int,
                    k,
                ) by {
                    if k > i && is_first_occupant(ps, mover as int, dest as int, k) {
                        assert(ps[i as int].position != dest);
                    }
                }
                assert(is_first_occupant(ps, mover as int, dest as int, i as int));
                assert(players@ =~= swapped(ps, mover as int, dest as int, from as int));
            }
            return;
        }
        i = i + 1;
    }
    assert(players@ =~= swapped(ps, mover as int, dest as int, from as int));
}

impl GameState {
    pub open spec fn wf(&self) -> bool {
        view_wf(self@)
    }

    /// A game on `board` with `players` where they stand, before any roll.
    pub fn from_parts(board: Board, players: Vec<Player>, mode: Mode) -> (r: Result<
        GameState,
        ConfigError,
    >)
        requires
            board.wf(),
        ensures
            match r {
                Ok(g) => {
                    &&& roster_ok(players@)
                    &&& all_on_board(players@)
                    &&& g.wf()
                    &&& g@ == (GameView {
                        board: board@,
                        players: players@,
                        turn: 0,
                        dice: 0,
                        ended: false,
                        mode,
                    })
                },
                Err(ConfigError::PlayerCount) => !count_ok(players@),
                Err(ConfigError::Name(i)) => count_ok(players@) && first_bad_name(players@, i as int),
                Err(ConfigError::Position(i)) => roster_ok(players@) && first_bad_position(
                    players@,
                    i as int,
                ),
            },
    {
        match check_roster(&players) {
            Err(e) => {
                return Err(e);
            },
            Ok(()) => {},
        }
        let n = players.len();
        let mut i: usize = 0;
        while i < n
            invariant
                n == players@.len(),
                roster_ok(players@),
                i <= n,
                forall|j: int| 0 <= j < i ==> #[trigger] players@[j].position < CELLS,
            decreases n - i,
        {
            if players[i].position >= CELLS {
                assert(!all_on_board(players@));
                return Err(ConfigError::Position(i));
            }
            i = i + 1;
        }
        Ok(GameState { board, players, mode, turn: 0, dice_value: 0, ended: false })
    }

    /// Applies one turn in which the die shows `dice`.
    pub fn apply_roll(&mut self, dice: u8)
        requires
            old(self).wf(),
            1 <= dice <= 6,
        ensures
            final(self).wf(),
            final(self)@ == after_roll(old(self)@, dice as int),
    {
        if self.ended {
            return;
        }
        let ghost v = self@;
        let n = self.players.len();
        let mover = self.turn;
        let from = self.players[mover].position;
        let target = from + dice as usize;
        self.dice_value = dice;
        if dice != 6 {
            self.turn = if mover + 1 == n {
                0
            } else {
                mover + 1
            };
        }
        proof {
            if dice != 6 {
                if mover + 1 == n {
                    vstd::arithmetic::div_mod::lemma_mod_self_0(n as int);
                } else {
                    vstd::arithmetic::div_mod::lemma_small_mod((mover + 1) as nat, n as nat);
                }
            }
        }
        assert(self.turn as int == next_turn(v, dice as int));
        if target > WIN_CELL {
            assert(self@ == after_roll(v, dice as int));
            return;
        }
        if target == WIN_CELL {
            self.players[mover].position = WIN_CELL;
            self.ended = true;
            assert(self@.players =~= v.players.update(
                mover as int,
                moved_to(v.players[mover as int], WIN_CELL as int),
            ));
            assert(self@ == after_roll(v, dice as int));
            return;
        }
        let dest = match self.board.tile(target) {
            Tile::Snake(e) => e,
            Tile::Ladder(e) => e,
            _ => target,
        };
        proof {
            if is_special(v.board[target as int]) {
                assert(0 <= exit_of(v.board[target as int]) < WIN_CELL);
            }
        }
        assert(dest < CELLS);
        self.players[mover].position = dest;
        let ghost ps = self.players@;
        assert(ps =~= v.players.update(mover as int, moved_to(v.players[mover as int], dest as int)));
        match self.mode {
            Mode::Friendly => {},
            Mode::Bump => bump_others(&mut self.players, mover, dest),
            Mode::Swap => swap_first(&mut self.players, mover, dest, from),
        }
        assert(self@ == after_roll(v, dice as int));
    }

    /// Plays one turn: throws the die and applies it. Once the game has ended
    /// nothing changes, and the die is not thrown.
    pub fn roll_turn(&mut self, rng: &mut GameRng)
        requires
            old(self).wf(),
        ensures
            final(self).wf(),
            old(self)@.ended ==> final(self)@ == old(self)@,
            !old(self)@.ended ==> 1 <= final(self)@.dice <= 6 && final(self)@ == after_roll(
                old(self)@,
                final(self)@.dice,
            ),
    {
        if self.ended {
            return;
        }
        let d = rng.die();
        self.apply_roll(d);
    }

    /// Starts a game: checks the players, generates a standard board, and puts
    /// every player on cell 0 with the first one to move.
    pub fn new_game(config: &Config, rng: &mut GameRng) -> (r: Result<GameState, NewGameError>)
        ensures
            match r {
                Ok(g) => {
                    &&& roster_ok(config.players@)
                    &&& g.wf()
                    &&& fresh_game(g@, config.players@, config.game_type)
                    &&& count_kind(g@.board, Kind::Snake) == STANDARD_COUNT
                    &&& count_kind(g@.board, Kind::Ladder) == STANDARD_COUNT
                },
                Err(NewGameError::Config(ConfigError::PlayerCount)) => !count_ok(config.players@),
                Err(NewGameError::Config(ConfigError::Name(i))) => count_ok(config.players@)
                    && first_bad_name(config.players@, i as int),
                Err(NewGameError::Config(ConfigError::Position(_))) => false,
                Err(NewGameError::Generation(_)) => roster_ok(config.players@),
            },
    {
        match check_roster(&config.players) {
            Err(e) => {
                return Err(NewGameError::Config(e));
            },
            Ok(()) => {},
        }
        let board = match Board::new(rng) {
            Err(e) => {
                return Err(NewGameError::Generation(e));
            },
            Ok(b) => b,
        };
        let n = config.players.len();
        let mut players: Vec<Player> = Vec::new();
        let mut i: usize = 0;
        while i < n
            invariant
                n == config.players@.len(),
                i <= n,
                players@.len() == i,
                forall|j: int| 0 <= j < i ==> #[trigger] players@[j] == moved_to(config.players@[j], 0),
            decreases n - i,
        {
            let p = &config.players[i];
            players.push(Player { name: p.name.clone(), position: 0, color: p.color });
            i = i + 1;
        }
        Ok(GameState { board, players, mode: config.game_type, turn: 0, dice_value: 0, ended: false })
    }

    /// The players from first to last place: further along ranks first, and
    /// players level with each other keep their list order. Each entry is
    /// the rank, counted from 1, and the index of the player.
    pub fn ranking(&self) -> (r: Vec<(usize, usize)>)
        requires
            self.wf(),
        ensures
            r@.len() == self@.players.len(),
            forall|i: int| 0 <= i < r@.len() ==> (#[trigger] r@[i]).0 == i + 1 && r@[i].1 < r@.len(),
            forall|i: int, j: int|
                0 <= i < j < r@.len() ==> ranks_before(self@.players, r@[i].1 as int, r@[j].1 as int),
            forall|k: int| 0 <= k < r@.len() ==> #[trigger] lists_player(r@, k),
    {
        let order = ranking_order(&self.players);
        let n = order.len();
        let mut r: Vec<(usize, usize)> = Vec::new();
        let mut i: usize = 0;
        while i < n
            invariant
                n == order@.len(),
                i <= n,
                r@.len() == i,
                forall|j: int| 0 <= j < i ==> (#[trigger] r@[j]).0 == j + 1 && r@[j].1 == order@[j],
            decreases n - i,
        {
            r.push((i + 1, order[i]));
            i = i + 1;
        }
        assert forall|k: int| 0 <= k < r@.len() implies #[trigger] lists_player(r@, k) by {
            assert(holds_index(order@, k));
            let i = choose|i: int| 0 <= i < order@.len() && order@[i] == k;
            assert(r@[i].1 == order@[i]);
        }
        r
    }

    pub fn board(&self) -> (b: &Board)
        ensures
            b@ == self@.board,
    {
        &self.board
    }

    pub fn players(&self) -> (p: &Vec<Player>)
        ensures
            p@ == self@.players,
    {
        &self.players
    }

    /// Index of the player whose turn it is.
    pub fn current_turn(&self) -> (t: usize)
        ensures
            t == self@.turn,
    {
        self.turn
    }

    /// The last value thrown, 0 before the first roll.
    pub fn dice_value(&self) -> (d: u8)
        ensures
            d == self@.dice,
    {
        self.dice_value
    }

    pub fn ended(&self) -> (e: bool)
        ensures
            e == self@.ended,
    {
        self.ended
    }

    pub fn mode(&self) -> (m: Mode)
        ensures
            m == self@.mode,
    {
        self.mode
    }
}

/// `v` is a game that has not started, for the players `ps` in mode `m`.
pub open spec fn fresh_game(v: GameView, ps: Seq<Player>, m: Mode) -> bool {
    &&& v.players.len() == ps.len()
    &&& forall|i: int| 0 <= i < ps.len() ==> #[trigger] v.players[i] == moved_to(ps[i], 0)
    &&& v.turn == 0
    &&& v.dice == 0
    &&& !v.ended
    &&& v.mode == m
}

/// Some entry of `r` names player `k`.
pub open spec fn lists_player(r: Seq<(usize, usize)>, k: int) -> bool {
    exists|i: int| 0 <= i < r.len() && r[i].1 == k
}

pub open spec fn holds_index(s: Seq<usize>, k: int) -> bool {
    exists|i: int| 0 <= i < s.len() && s[i] == k
}

/// Player indices sorted by `ranks_before`, by insertion.
fn ranking_order(players: &Vec<Player>) -> (r: Vec<usize>)
    ensures
        r@.len() == players@.len(),
        forall|i: int| 0 <= i < r@.len() ==> #[trigger] r@[i] < r@.len(),
        forall|i: int, j: int|
            0 <= i < j < r@.len() ==> ranks_before(players@, r@[i] as int, r@[j] as int),
        forall|k: int| 0 <= k < r@.len() ==> #[trigger] holds_index(r@, k),
{
    let n = players.len();
    let mut order: Vec<usize> = Vec::new();
    let mut k: usize = 0;
    while k < n
        invariant
            n == players@.len(),
            k <= n,
            order@.len() == k,
            forall|i: int| 0 <= i < k ==> #[trigger] order@[i] < k,
            forall|i: int, j: int|
                0 <= i < j < k ==> ranks_before(players@, order@[i] as int, order@[j] as int),
            forall|m: int| 0 <= m < k ==> #[trigger] holds_index(order@, m),
        decreases n - k,
    {
        let key = players[k].position;
        let mut p: usize = 0;
        while p < k && players[order[p]].position >= key
            invariant
                n == players@.len(),
                k < n,
                order@.len() == k,
                p <= k,
                forall|i: int| 0 <= i < k ==> #[trigger] order@[i] < k,
                forall|i: int| 0 <= i < p ==> players@[#[trigger] order@[i] as int].position >= key,
            decreases k - p,
        {
            p = p + 1;
        }
        let ghost old_order = order@;
        order.insert(p, k);
        proof {
            old_order.insert_ensures(p as int, k);
            let s = order@;
            assert forall|i: int, j: int| 0 <= i < j < k + 1 implies ranks_before(
                players@,
                s[i] as int,
                s[j] as int,
            ) by {
                if j < p {
                } else if j == p {
                    assert(s[i] == old_order[i]);
                } else if i < p {
                    assert(ranks_before(players@, old_order[i] as int, old_order[j - 1] as int));
                } else if i == p {
                    assert(ranks_before(players@, old_order[p as int] as int, old_order[j - 1] as int)
                        || j - 1 == p);
                } else {
                    assert(ranks_before(players@, old_order[i - 1] as int, old_order[j - 1] as int));
                }
            }
            assert forall|m: int| 0 <= m < k + 1 implies #[trigger] holds_index(s, m) by {
                if m == k {
                    assert(s[p as int] == k);
                } else {
                    assert(holds_index(old_order, m));
                    let i = choose|i: int| 0 <= i < k && old_order[i] == m;
                    if i < p {
                        assert(s[i] == m);
                    } else {
                        assert(s[i + 1] == m);
                    }
                }
            }
        }
        k = k + 1;
    }
    order
}

} // verus!
