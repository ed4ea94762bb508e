//! The 10x10 board: a dense array of tiles indexed by cell, and its randomized
//! generation with snakes and ladders that never overlap.
use crate::rng::GameRng;
use vstd::prelude::*;

verus! {

/// Number of cells on the board.
pub const CELLS: usize = 100;

/// The winning cell.
pub const WIN_CELL: usize = 99;

/// Snakes and ladders placed on a standard board, of each kind.
pub const STANDARD_COUNT: usize = 8;

/// Random draws that one generation may spend in total.
pub const DRAW_BUDGET: u32 = 10000;

/// Exit cells tried for one start cell before that start is given up.
pub const EXIT_TRIES: u32 = 50;

/// What a cell holds. `Target` marks the winning cell and every exit cell of a
/// snake or ladder, so that no other special tile can be placed there.
#[derive(Clone, Copy, Debug, PartialEq, Eq, Structural)]
pub enum Tile {
    Empty,
    Snake(usize),
    Ladder(usize),
    Target,
}

/// The two kinds of special tile.
#[derive(Clone, Copy, Debug, PartialEq, Eq, Structural)]
pub enum Kind {
    Snake,
    Ladder,
}

/// Board generation ran out of its draw budget before all tiles were placed.
#[derive(Clone, Copy, Debug, PartialEq, Eq, Structural)]
pub struct GenerationError;

pub open spec fn row(c: int) -> int {
    c / 10
}

pub open spec fn is_kind(t: Tile, k: Kind) -> bool {
    match k {
        Kind::Snake => t is Snake,
        Kind::Ladder => t is Ladder,
    }
}

pub open spec fn is_special(t: Tile) -> bool {
    t is Snake || t is Ladder
}

/// The exit cell of a snake or ladder.
pub open spec fn exit_of(t: Tile) -> int {
    match t {
        Tile::Snake(e) => e as int,
        Tile::Ladder(e) => e as int,
        _ => -1,
    }
}

pub open spec fn make_tile(k: Kind, exit: usize) -> Tile {
    match k {
        Kind::Snake => Tile::Snake(exit),
        Kind::Ladder => Tile::Ladder(exit),
    }
}

/// A snake leads to a strictly lower row, a ladder to a strictly higher one.
pub open spec fn goes_right_way(k: Kind, start: int, exit: int) -> bool {
    match k {
        Kind::Snake => row(exit) < row(start),
        Kind::Ladder => row(exit) > row(start),
    }
}

/// Cell `c` is the exit of some snake or ladder.
pub open spec fn is_exit(s: Seq<Tile>, c: int) -> bool {
    exists|i: int| 0 <= i < CELLS && #[trigger] is_special(s[i]) && exit_of(s[i]) == c
}

/// Well-formed tiles: 100 cells, the winning cell marked, every snake going
/// down and every ladder going up to a marked exit cell other than the winning
/// one, no two special tiles sharing an exit, and no marked cell but the
/// winning one and the exits. So every cell that is neither a start, an exit
/// nor the winning cell is `Empty`.
pub open spec fn tiles_wf(s: Seq<Tile>) -> bool {
    &&& s.len() == CELLS
    &&& s[WIN_CELL as int] == Tile::Target
    &&& forall|c: int| 0 <= c < WIN_CELL && s[c] == Tile::Target ==> #[trigger] is_exit(s, c)
    &&& forall|i: int|
        0 <= i < CELLS && #[trigger] is_special(s[i]) ==> {
            let e = exit_of(s[i]);
            &&& 0 <= e < WIN_CELL
            &&& s[e] == Tile::Target
            &&& (s[i] is Snake ==> row(e) < row(i))
            &&& (s[i] is Ladder ==> row(e) > row(i))
        }
    &&& forall|i: int, j: int|
        0 <= i < CELLS && 0 <= j < CELLS && i != j && #[trigger] is_special(s[i])
            && #[trigger] is_special(s[j]) ==> exit_of(s[i]) != exit_of(s[j])
}

/// Number of tiles of kind `k`.
pub open spec fn count_kind(s: Seq<Tile>, k: Kind) -> nat
    decreases s.len(),
{
    if s.len() == 0 {
        0
    } else {
        count_kind(s.drop_last(), k) + if is_kind(s.last(), k) {
            1nat
        } else {
            0nat
        }
    }
}

/// Whether a tile of kind `k` may go from `start` to `exit` on `s`.
pub open spec fn placement_allowed(s: Seq<Tile>, k: Kind, start: int, exit: int) -> bool {
    &&& 0 <= start < CELLS
    &&& 0 <= exit < CELLS
    &&& s[start] == Tile::Empty
    &&& s[exit] == Tile::Empty
    &&& goes_right_way(k, start, exit)
}

proof fn lemma_count_push(s: Seq<Tile>, t: Tile, k: Kind)
    ensures
        count_kind(s.push(t), k) == count_kind(s, k) + if is_kind(t, k) {
            1nat
        } else {
            0nat
        },
{
    assert(s.push(t).drop_last() =~= s);
}

proof fn lemma_count_update(s: Seq<Tile>, i: int, t: Tile, k: Kind)
    requires
        0 <= i < s.len(),
    ensures
        count_kind(s.update(i, t), k) + (if is_kind(s[i], k) {
            1nat
        } else {
            0nat
        }) == count_kind(s, k) + if is_kind(t, k) {
            1nat
        } else {
            0nat
        },
    decreases s.len(),
{
    let u = s.update(i, t);
    if i == s.len() - 1 {
        assert(u.drop_last() =~= s.drop_last());
    } else {
        assert(u.drop_last() =~= s.drop_last().update(i, t));
        lemma_count_update(s.drop_last(), i, t, k);
    }
}

pub struct Board {
    tiles: Vec<Tile>,
}

impl View for Board {
    type V = Seq<Tile>;

    closed spec fn view(&self) -> Seq<Tile> {
        self.tiles@
    }
}

impl Board {
    pub open spec fn wf(&self) -> bool {
        tiles_wf(self@)
    }

    /// A board with no snakes or ladders.
    pub fn empty() -> (b: Board)
        ensures
            b.wf(),
            forall|i: int| 0 <= i < WIN_CELL ==> b@[i] == Tile::Empty,
            count_kind(b@, Kind::Snake) == 0,
            count_kind(b@, Kind::Ladder) == 0,
    {
        let mut tiles: Vec<Tile> = Vec::new();
        let mut i: usize = 0;
        while i < WIN_CELL
            invariant
                i <= WIN_CELL,
                tiles@.len() == i,
                forall|j: int| 0 <= j < i ==> tiles@[j] == Tile::Empty,
                count_kind(tiles@, Kind::Snake) == 0,
                count_kind(tiles@, Kind::Ladder) == 0,
            decreases WIN_CELL - i,
        {
            proof {
                lemma_count_push(tiles@, Tile::Empty, Kind::Snake);
                lemma_count_push(tiles@, Tile::Empty, Kind::Ladder);
            }
            tiles.push(Tile::Empty);
            i = i + 1;
        }
        proof {
            lemma_count_push(tiles@, Tile::Target, Kind::Snake);
            lemma_count_push(tiles@, Tile::Target, Kind::Ladder);
        }
        tiles.push(Tile::Target);
        Board { tiles }
    }

    /// The tile at cell `i`.
    pub fn tile(&self, i: usize) -> (t: Tile)
        requires
            self.wf(),
            i < CELLS,
        ensures
            t == self@[i as int],
    {
        self.tiles[i]
    }

    /// Puts a tile of kind `k` on `start` leading to `exit`, marking `exit` as
    /// occupied, when both cells are free and the direction fits the kind;
    /// otherwise leaves the board as it is.
    pub fn place(&mut self, k: Kind, start: usize, exit: usize) -> (ok: bool)
        requires
            old(self).wf(),
        ensures
            final(self).wf(),
            ok == placement_allowed(old(self)@, k, start as int, exit as int),
            ok ==> final(self)@ == old(self)@.update(start as int, make_tile(k, exit)).update(
                exit as int,
                Tile::Target,
            ),
            !ok ==> final(self)@ == old(self)@,
            count_kind(final(self)@, k) == count_kind(old(self)@, k) + if ok {
                1nat
            } else {
                0nat
            },
            count_kind(final(self)@, other_kind(k)) == count_kind(old(self)@, other_kind(k)),
    {
        if start >= CELLS || exit >= CELLS {
            return false;
        }
        if self.tiles[start] != Tile::Empty || self.tiles[exit] != Tile::Empty {
            return false;
        }
        let right_way = match k {
            Kind::Snake => exit / 10 < start / 10,
            Kind::Ladder => exit / 10 > start / 10,
        };
        if !right_way {
            return false;
        }
        let ghost s = self@;
        let t = match k {
            Kind::Snake => Tile::Snake(exit),
            Kind::Ladder => Tile::Ladder(exit),
        };
        self.tiles.set(start, t);
        self.tiles.set(exit, Tile::Target);
        proof {
            let s1 = s.update(start as int, t);
            let s2 = s1.update(exit as int, Tile::Target);
            assert(s2 == self@);
            assert(start != exit);
            lemma_count_update(s, start as int, t, k);
            lemma_count_update(s1, exit as int, Tile::Target, k);
            lemma_count_update(s, start as int, t, other_kind(k));
            lemma_count_update(s1, exit as int, Tile::Target, other_kind(k));
            assert forall|i: int| 0 <= i < CELLS && #[trigger] is_special(s2[i]) implies {
                let e = exit_of(s2[i]);
                &&& 0 <= e < WIN_CELL
                &&& s2[e] == Tile::Target
                &&& (s2[i] is Snake ==> row(e) < row(i))
                &&& (s2[i] is Ladder ==> row(e) > row(i))
            } by {
                if i != start as int {
                    assert(is_special(s[i]));
                }
            }
            assert forall|c: int| 0 <= c < WIN_CELL && s2[c] == Tile::Target implies #[trigger] is_exit(
                s2,
                c,
            ) by {
                if c == exit as int {
                    assert(is_special(s2[start as int]));
                } else {
                    assert(s[c] == Tile::Target);
                    assert(is_exit(s, c));
                    let i = choose|i: int| 0 <= i < CELLS && #[trigger] is_special(s[i]) && exit_of(s[i]) == c;
                    assert(is_special(s2[i]));
                }
            }
            assert forall|i: int, j: int|
                0 <= i < CELLS && 0 <= j < CELLS && i != j && #[trigger] is_special(s2[i])
                    && #[trigger] is_special(s2[j]) implies exit_of(s2[i]) != exit_of(s2[j]) by {
                if i != start as int {
                    assert(is_special(s[i]));
                }
                if j != start as int {
                    assert(is_special(s[j]));
                }
            }
        }
        true
    }

    /// Draws start cells, and exit cells for each, until a tile of kind `k`
    /// is placed or `budget` draws have been spent.
    fn place_random(&mut self, rng: &mut GameRng, k: Kind, budget: &mut u32) -> (ok: bool)
        requires
            old(self).wf(),
        ensures
            final(self).wf(),
            *final(budget) <= *old(budget),
            count_kind(final(self)@, k) == count_kind(old(self)@, k) + if ok {
                1nat
            } else {
                0nat
            },
            count_kind(final(self)@, other_kind(k)) == count_kind(old(self)@, other_kind(k)),
            ok ==> exists|start: int, exit: int|
                placement_allowed(old(self)@, k, start, exit) && final(self)@ == old(self)@.update(
                    start,
                    make_tile(k, exit as usize),
                ).update(exit, Tile::Target),
            !ok ==> final(self)@ == old(self)@,
    {
        let ghost b0 = *budget;
        while *budget > 0
            invariant
                self.wf(),
                self@ == old(self)@,
                *budget <= b0,
                b0 == *old(budget),
            decreases *budget,
        {
            let ghost round = *budget;
            *budget = *budget - 1;
            let start = match k {
                Kind::Snake => rng.below(10, WIN_CELL),
                Kind::Ladder => rng.below(1, 90),
            };
            if self.tile(start) == Tile::Empty {
                let (lo, hi) = match k {
                    Kind::Snake => (1, (start / 10) * 10),
                    Kind::Ladder => ((start / 10 + 1) * 10, WIN_CELL),
                };
                let mut tries: u32 = 0;
                while tries < EXIT_TRIES && *budget > 0
                    invariant
                        self.wf(),
                        self@ == old(self)@,
                        *budget <= b0,
                        b0 == *old(budget),
                        lo < hi,
                        *budget < round,
                    decreases *budget,
                {
                    *budget = *budget - 1;
                    tries = tries + 1;
                    let exit = rng.below(lo, hi);
                    if self.place(k, start, exit) {
                        assert(placement_allowed(old(self)@, k, start as int, exit as int));
                        return true;
                    }
                }
            }
        }
        false
    }

    /// Generates a board with `snakes` snakes and `ladders` ladders, placed at
    /// random without overlap, within a fixed budget of draws.
    pub fn generate(rng: &mut GameRng, snakes: usize, ladders: usize) -> (r: Result<
        Board,
        GenerationError,
    >)
        ensures
            r is Ok ==> {
                let b = r->Ok_0;
                &&& b.wf()
                &&& count_kind(b@, Kind::Snake) == snakes
                &&& count_kind(b@, Kind::Ladder) == ladders
            },
            snakes == 0 && ladders == 0 ==> r is Ok && forall|c: int|
                0 <= c < WIN_CELL ==> r->Ok_0@[c] == Tile::Empty,
    {
        let mut board = Board::empty();
        let ghost blank = board@;
        let mut budget: u32 = DRAW_BUDGET;
        let mut i: usize = 0;
        while i < snakes
            invariant
                board.wf(),
                i <= snakes,
                count_kind(board@, Kind::Snake) == i,
                count_kind(board@, Kind::Ladder) == 0,
                snakes == 0 ==> board@ == blank,
            decreases snakes - i,
        {
            if !board.place_random(rng, Kind::Snake, &mut budget) {
                return Err(GenerationError);
            }
            i = i + 1;
        }
        let mut j: usize = 0;
        while j < ladders
            invariant
                board.wf(),
                j <= ladders,
                count_kind(board@, Kind::Snake) == snakes,
                count_kind(board@, Kind::Ladder) == j,
                snakes == 0 && ladders == 0 ==> board@ == blank,
            decreases ladders - j,
        {
            if !board.place_random(rng, Kind::Ladder, &mut budget) {
                return Err(GenerationError);
            }
            j = j + 1;
        }
        Ok(board)
    }

    /// A board with the standard number of snakes and of ladders.
    pub fn new(rng: &mut GameRng) -> (r: Result<Board, GenerationError>)
        ensures
            r is Ok ==> {
                let b = r->Ok_0;
                &&& b.wf()
                &&& count_kind(b@, Kind::Snake) == STANDARD_COUNT
                &&& count_kind(b@, Kind::Ladder) == STANDARD_COUNT
            },
    {
        Board::generate(rng, STANDARD_COUNT, STANDARD_COUNT)
    }
}

pub open spec fn other_kind(k: Kind) -> Kind {
    match k {
        Kind::Snake => Kind::Ladder,
        Kind::Ladder => Kind::Snake,
    }
}

} // verus!
