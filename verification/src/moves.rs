//! Move-validity detection: for each of the four directions, whether a
//! slide/merge in that direction would change the board.

use vstd::prelude::*;
use crate::board::Bd;
use crate::board::transpose_of;

verus! {

/// A direction toward which the tiles would slide.
#[derive(Clone, Copy, Debug)]
pub enum Dir {
    Left,
    Right,
    Up,
    Down,
}

/// The verdict for all four directions: for each one, whether a slide/merge
/// that way would change the board.
#[derive(Clone, Copy, Debug, PartialEq, Eq, Structural)]
pub struct Vm {
    pub left: bool,
    pub right: bool,
    pub up: bool,
    pub down: bool,
}

/// An adjacent pair (prev, cur), read left to right in an oriented row,
/// witnesses a possible move: cur is a tile (non-empty) that either merges
/// with an equal prev or slides into an empty prev.
pub open spec fn pair_movable(prev: u32, cur: u32) -> bool {
    cur != 0 && (prev == cur || prev == 0)
}

/// Some adjacent pair of the row, read left to right, witnesses a move.
pub open spec fn row_movable(row: Seq<u32>) -> bool {
    exists|k: int| 0 <= k && k + 1 < row.len() && #[trigger] pair_movable(row[k], row[k + 1])
}

/// A row as it is scanned for a given direction: reversed when the direction
/// reads the row right to left, unchanged otherwise.
pub open spec fn oriented_row(row: Seq<u32>, rev: bool) -> Seq<u32> {
    if rev {
        row.reverse()
    } else {
        row
    }
}

/// Some row of the grid, oriented for the direction, witnesses a move.
pub open spec fn some_row_movable(g: Seq<Seq<u32>>, rev: bool) -> bool {
    exists|i: int| 0 <= i < g.len() && #[trigger] row_movable(oriented_row(g[i], rev))
}

impl Bd {
    /// Whether a slide/merge in direction `dir` would change the board:
    /// Left scans the rows left to right, Right scans them reversed, Up scans
    /// the columns (the transposed grid's rows) top to bottom, and Down scans
    /// them reversed.
    pub open spec fn movable_in(self, dir: Dir) -> bool {
        match dir {
            Dir::Left => some_row_movable(self.grid(), false),
            Dir::Right => some_row_movable(self.grid(), true),
            Dir::Up => some_row_movable(transpose_of(self.grid()), false),
            Dir::Down => some_row_movable(transpose_of(self.grid()), true),
        }
    }
}

/// Scan the row's adjacent pairs left to right for one that witnesses a move.
fn row_movable_exec(row: &Vec<u32>) -> (r: bool)
    ensures
        r == row_movable(row@),
{
    let n: usize = row.len();
    if n < 2 {
        return false;
    }
    let mut k: usize = 0;
    while k < n - 1
        invariant
            2 <= n,
            n == row@.len(),
            k <= n - 1,
            forall|t: int| 0 <= t < k ==> !#[trigger] pair_movable(row@[t], row@[t + 1]),
        decreases n - k,
    {
        if row[k + 1] != 0 && (row[k] == row[k + 1] || row[k] == 0) {
            proof {
                assert(pair_movable(row@[k as int], row@[k as int + 1]));
            }
            return true;
        }
        k += 1;
    }
    false
}

/// Copy the row in reverse order.
fn reversed(row: &Vec<u32>) -> (out: Vec<u32>)
    ensures
        out@ == row@.reverse(),
{
    let mut out: Vec<u32> = Vec::new();
    let mut k: usize = row.len();
    while k > 0
        invariant
            k <= row@.len(),
            out@.len() == row@.len() - k,
            forall|t: int| 0 <= t < out@.len() ==> out@[t] == row@[row@.len() - 1 - t],
        decreases k,
    {
        k -= 1;
        let c: u32 = row[k];
        out.push(c);
    }
    proof {
        assert(out@ =~= row@.reverse());
    }
    out
}

impl Bd {
    /// Scan every row of the grid, oriented by `rev`, for one that witnesses
    /// a move.
    fn any_row_movable(&self, rev: bool) -> (r: bool)
        ensures
            r == some_row_movable(self.grid(), rev),
    {
        let n: usize = self.row_count();
        let mut i: usize = 0;
        while i < n
            invariant
                i <= n,
                n == self.grid().len(),
                forall|t: int| 0 <= t < i ==> !#[trigger] row_movable(oriented_row(self.grid()[t], rev)),
            decreases n - i,
        {
            let row = self.row(i);
            let m: bool = if rev {
                let rr = reversed(row);
                row_movable_exec(&rr)
            } else {
                row_movable_exec(row)
            };
            proof {
                assert(m == row_movable(oriented_row(self.grid()[i as int], rev)));
            }
            if m {
                return true;
            }
            i += 1;
        }
        false
    }

    /// Whether a slide/merge in direction `dir` would change the board.
    /// Right is checked by reading each row reversed; Up and Down are checked
    /// on a transposed copy, so the receiver is never touched.
    pub fn valid(&self, dir: Dir) -> (r: bool)
        requires
            self.is_square(),
        ensures
            r == self.movable_in(dir),
    {
        match dir {
            Dir::Left => self.any_row_movable(false),
            Dir::Right => self.any_row_movable(true),
            Dir::Up => {
                let t = self.transp();
                t.any_row_movable(false)
            },
            Dir::Down => {
                let t = self.transp();
                t.any_row_movable(true)
            },
        }
    }

    /// Check all four directions independently and package the verdicts.
    pub fn valid_moves(&self) -> (vm: Vm)
        requires
            self.is_square(),
        ensures
            vm.left == self.movable_in(Dir::Left),
            vm.right == self.movable_in(Dir::Right),
            vm.up == self.movable_in(Dir::Up),
            vm.down == self.movable_in(Dir::Down),
    {
        Vm {
            left: self.valid(Dir::Left),
            right: self.valid(Dir::Right),
            up: self.valid(Dir::Up),
            down: self.valid(Dir::Down),
        }
    }

    /// Applying a move is outside this engine's scope; the board is handed
    /// back unchanged, as the contract states.
    pub fn _apply_move(self, _dir: Dir) -> (b: Bd)
        ensures
            b == self,
    {
        self
    }
}

/// In a grid whose cells all hold the same non-zero tile, every row and every
/// reversed row starts with an equal adjacent pair, so the grid is movable in
/// both scan orders.
proof fn lemma_uniform_grid_movable(g: Seq<Seq<u32>>, v: u32)
    requires
        2 <= g.len(),
        forall|i: int| 0 <= i < g.len() ==> #[trigger] g[i].len() == g.len(),
        v != 0,
        forall|i: int, j: int| 0 <= i < g.len() && 0 <= j < g.len() ==> g[i][j] == v,
    ensures
        some_row_movable(g, false),
        some_row_movable(g, true),
{
    let row = g[0];
    let k0: int = 0;
    assert(pair_movable(row[k0], row[k0 + 1]));
    assert(row_movable(oriented_row(g[0], false)));
    let rev = row.reverse();
    assert(rev[k0] == row[row.len() - 1] == v);
    assert(rev[k0 + 1] == row[row.len() - 2] == v);
    assert(pair_movable(rev[k0], rev[k0 + 1]));
    assert(row_movable(oriented_row(g[0], true)));
}

/// A board whose cells all hold the same non-zero tile (and that has at least
/// two rows) is movable in all four directions: every adjacent pair merges.
pub proof fn lemma_uniform_board_movable(b: Bd, v: u32)
    requires
        b.is_square(),
        2 <= b.grid().len(),
        v != 0,
        forall|i: int, j: int|
            0 <= i < b.grid().len() && 0 <= j < b.grid().len() ==> b.grid()[i][j] == v,
    ensures
        b.movable_in(Dir::Left),
        b.movable_in(Dir::Right),
        b.movable_in(Dir::Up),
        b.movable_in(Dir::Down),
{
    let g = b.grid();
    lemma_uniform_grid_movable(g, v);
    let t = transpose_of(g);
    assert(t.len() == g.len());
    assert(forall|i: int| 0 <= i < t.len() ==> #[trigger] t[i].len() == t.len());
    assert forall|i: int, j: int| 0 <= i < t.len() && 0 <= j < t.len() implies t[i][j] == v by {
        assert(t[i][j] == g[j][i]);
    };
    lemma_uniform_grid_movable(t, v);
}

/// In a grid with no tiles at all, no adjacent pair has a non-empty current
/// cell, in either scan order, so nothing can move.
proof fn lemma_zero_grid_immovable(g: Seq<Seq<u32>>)
    requires
        forall|i: int| 0 <= i < g.len() ==> #[trigger] g[i].len() == g.len(),
        forall|i: int, j: int| 0 <= i < g.len() && 0 <= j < g.len() ==> g[i][j] == 0,
    ensures
        !some_row_movable(g, false),
        !some_row_movable(g, true),
{
    assert forall|i: int| 0 <= i < g.len() implies !row_movable(oriented_row(g[i], false))
        && !row_movable(oriented_row(g[i], true)) by {
        let row = g[i];
        assert forall|k: int| 0 <= k && k + 1 < row.len() implies !(#[trigger] pair_movable(
            row[k],
            row[k + 1],
        )) by {
            assert(row[k + 1] == 0);
        };
        let rev = row.reverse();
        assert forall|k: int| 0 <= k && k + 1 < rev.len() implies !(#[trigger] pair_movable(
            rev[k],
            rev[k + 1],
        )) by {
            assert(rev[k + 1] == row[row.len() - 1 - (k + 1)] == 0);
        };
    };
}

/// A fully empty board (all cells zero) is movable in no direction: there is
/// no tile to slide or merge.
pub proof fn lemma_empty_board_immovable(b: Bd)
    requires
        b.is_square(),
        forall|i: int, j: int|
            0 <= i < b.grid().len() && 0 <= j < b.grid().len() ==> b.grid()[i][j] == 0,
    ensures
        !b.movable_in(Dir::Left),
        !b.movable_in(Dir::Right),
        !b.movable_in(Dir::Up),
        !b.movable_in(Dir::Down),
{
    let g = b.grid();
    lemma_zero_grid_immovable(g);
    let t = transpose_of(g);
    assert(forall|i: int| 0 <= i < t.len() ==> #[trigger] t[i].len() == t.len());
    assert forall|i: int, j: int| 0 <= i < t.len() && 0 <= j < t.len() implies t[i][j] == 0 by {
        assert(t[i][j] == g[j][i]);
    };
    lemma_zero_grid_immovable(t);
}

/// Move validity is a function of the grid alone: two boards with equal grids
/// agree in every direction. Together with `valid_moves` taking its receiver
/// by shared reference, this is why checking moves never changes the board and
/// why a second check returns the same verdicts.
pub proof fn lemma_validity_depends_on_grid_only(a: Bd, b: Bd, dir: Dir)
    requires
        a.grid() == b.grid(),
    ensures
        a.movable_in(dir) == b.movable_in(dir),
{
}

} // verus!
