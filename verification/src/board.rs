//! The board type: a square grid of tile values plus an accumulated score,
//! with construction, cell access and transposition.

use vstd::prelude::*;
use vstd::pervasive::VecAdditionalExecFns;

verus! {

/// A square grid of unsigned tile values (0 = empty cell) together with the
/// score accumulated so far. The grid is kept square: every row has as many
/// cells as there are rows.
pub struct Bd {
    board: Vec<Vec<u32>>,
    score: u32,
}

/// The grid of `g` reflected across its main diagonal: cell (i, j) of the
/// result is cell (j, i) of `g`. Meaningful for square grids.
pub open spec fn transpose_of(g: Seq<Seq<u32>>) -> Seq<Seq<u32>> {
    Seq::new(g.len(), |i: int| Seq::new(g.len(), |j: int| g[j][i]))
}

impl Bd {
    /// The grid as a sequence of rows of tile values.
    pub closed spec fn grid(self) -> Seq<Seq<u32>> {
        Seq::new(self.board@.len(), |i: int| self.board@[i]@)
    }

    /// The accumulated score.
    pub closed spec fn score(self) -> u32 {
        self.score
    }

    /// The grid is square: every row is as long as the grid is tall.
    pub open spec fn is_square(self) -> bool {
        forall|i: int| 0 <= i < self.grid().len() ==> #[trigger] self.grid()[i].len() == self.grid().len()
    }

    /// Generate a fresh `a` x `a` board: every cell empty, score zero.
    pub fn gen(a: usize) -> (b: Bd)
        ensures
            b.grid().len() == a,
            b.is_square(),
            forall|i: int, j: int| 0 <= i < a && 0 <= j < a ==> b.grid()[i][j] == 0,
            b.score() == 0,
    {
        let mut rows: Vec<Vec<u32>> = Vec::new();
        let mut i: usize = 0;
        while i < a
            invariant
                i <= a,
                rows@.len() == i,
                forall|p: int| 0 <= p < i ==> #[trigger] rows@[p]@.len() == a,
                forall|p: int, q: int| 0 <= p < i && 0 <= q < a ==> rows@[p]@[q] == 0,
            decreases a - i,
        {
            let mut row: Vec<u32> = Vec::new();
            let mut j: usize = 0;
            while j < a
                invariant
                    j <= a,
                    row@.len() == j,
                    forall|q: int| 0 <= q < j ==> row@[q] == 0,
                decreases a - j,
            {
                row.push(0);
                j += 1;
            }
            rows.push(row);
            i += 1;
        }
        Bd { board: rows, score: 0 }
    }

    /// The number of rows (equally, of columns) in the grid.
    pub fn row_count(&self) -> (n: usize)
        ensures
            n == self.grid().len(),
    {
        self.board.len()
    }

    /// Borrow row `i` of the grid.
    pub fn row(&self, i: usize) -> (r: &Vec<u32>)
        requires
            i < self.grid().len(),
        ensures
            r@ == self.grid()[i as int],
    {
        &self.board[i]
    }

    /// The tile value at row `i`, column `j`.
    pub fn get(&self, i: usize, j: usize) -> (v: u32)
        requires
            i < self.grid().len(),
            j < self.grid()[i as int].len(),
        ensures
            v == self.grid()[i as int][j as int],
    {
        self.board[i][j]
    }

    /// Set the tile value at row `i`, column `j`; every other cell and the
    /// score are unchanged.
    pub fn set(&mut self, i: usize, j: usize, v: u32)
        requires
            i < old(self).grid().len(),
            j < old(self).grid()[i as int].len(),
        ensures
            final(self).grid() == old(self).grid().update(
                i as int,
                old(self).grid()[i as int].update(j as int, v),
            ),
            final(self).score() == old(self).score(),
    {
        let mut row: Vec<u32> = self.board.remove(i);
        row.set(j, v);
        self.board.insert(i, row);
        proof {
            assert(self.grid() =~= old(self).grid().update(
                i as int,
                old(self).grid()[i as int].update(j as int, v),
            ));
        }
    }

    /// Transpose the board: the result's cell (i, j) is the receiver's cell
    /// (j, i), so rows become columns; the score is copied unchanged. The
    /// receiver is not touched.
    pub fn transp(&self) -> (t: Bd)
        requires
            self.is_square(),
        ensures
            t.grid() == transpose_of(self.grid()),
            t.grid().len() == self.grid().len(),
            t.is_square(),
            forall|i: int, j: int|
                0 <= i < self.grid().len() && 0 <= j < self.grid().len()
                    ==> t.grid()[i][j] == self.grid()[j][i],
            t.score() == self.score(),
    {
        let n: usize = self.board.len();
        let mut rows: Vec<Vec<u32>> = Vec::new();
        let mut i: usize = 0;
        while i < n
            invariant
                i <= n,
                n == self.grid().len(),
                self.is_square(),
                rows@.len() == i,
                forall|p: int| 0 <= p < i ==> #[trigger] rows@[p]@ == transpose_of(self.grid())[p],
            decreases n - i,
        {
            let mut row: Vec<u32> = Vec::new();
            let mut j: usize = 0;
            while j < n
                invariant
                    j <= n,
                    i < n,
                    n == self.grid().len(),
                    self.is_square(),
                    row@.len() == j,
                    forall|q: int| 0 <= q < j ==> row@[q] == self.grid()[q][i as int],
                decreases n - j,
            {
                proof {
                    assert(self.grid()[j as int].len() == self.grid().len());
                    assert(self.grid()[j as int] == self.board@[j as int]@);
                }
                let cell: u32 = self.board[j][i];
                row.push(cell);
                j += 1;
            }
            proof {
                assert(row@ =~= transpose_of(self.grid())[i as int]);
            }
            rows.push(row);
            i += 1;
        }
        let t = Bd { board: rows, score: self.score };
        proof {
            assert(t.grid() =~= transpose_of(self.grid()));
        }
        t
    }

    /// The accumulated score.
    pub fn get_score(&self) -> (s: u32)
        ensures
            s == self.score(),
    {
        self.score
    }
}

/// Transposing is an involution: transposing a square grid twice gives back
/// the original grid, cell for cell. Since `transp` also copies the score
/// unchanged, transposing a board twice restores it entirely.
pub proof fn lemma_transpose_involution(g: Seq<Seq<u32>>)
    requires
        forall|i: int| 0 <= i < g.len() ==> #[trigger] g[i].len() == g.len(),
    ensures
        transpose_of(transpose_of(g)) == g,
{
    let t = transpose_of(g);
    let tt = transpose_of(t);
    assert forall|i: int| 0 <= i < g.len() implies tt[i] == g[i] by {
        assert(tt[i] =~= g[i]);
    };
    assert(tt =~= g);
}

} // verus!
