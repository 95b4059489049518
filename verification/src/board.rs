//! The board state-transition engine: grid representation, bounded Moore
//! neighborhood, per-cell transition rule, one-round step and the
//! prediction validator.

use vstd::arithmetic::div_mod::lemma_div_pos_is_pos;
use vstd::arithmetic::div_mod::lemma_fundamental_div_mod_converse;
use vstd::arithmetic::div_mod::lemma_mod_bound;
use vstd::arithmetic::div_mod::lemma_multiply_divide_lt;
use vstd::prelude::*;

use crate::types::Square;

verus! {

/// Error raised when a board is constructed from a cell sequence whose
/// length does not match the requested dimensions.
#[derive(Clone, Copy, Debug, PartialEq, Eq, Structural)]
pub enum BoardError {
    DimensionMismatch,
}

/// A rectangular two-player Game of Life board.
///
/// The cells are stored in row-major order; the dimensions never change
/// after construction. A step rewrites the cells as a whole from a snapshot
/// of the previous state, so no cell ever reads a half-updated board.
pub struct Board {
    state: Vec<Square>,
    rows: usize,
    cols: usize,
}

/// The per-cell transition rule, on the cell's previous state and the
/// neighbor census `p1` (neighbors owned by Player1) and `p2` (by Player2).
///
/// An occupied cell survives with 2 or 3 living neighbors and dies
/// otherwise; an empty cell is born with exactly 3 living neighbors and
/// goes to the player owning the majority of them. (With 3 living
/// neighbors `p1 == p2` is impossible, so the Player2 branch of the
/// tie is a default that never fires.)
pub open spec fn next_cell(cur: Square, p1: int, p2: int) -> Square {
    let total = p1 + p2;
    match cur {
        Square::Empty => if total == 3 {
            if p1 > p2 {
                Square::Player1
            } else {
                Square::Player2
            }
        } else {
            Square::Empty
        },
        Square::Player1 => if 2 <= total && total <= 3 {
            Square::Player1
        } else {
            Square::Empty
        },
        Square::Player2 => if 2 <= total && total <= 3 {
            Square::Player2
        } else {
            Square::Empty
        },
    }
}

/// In a row-major grid every in-bounds position names a cell index.
proof fn lemma_row_major_index_bound(r: int, c: int, rows: int, cols: int)
    by (nonlinear_arith)
    requires
        0 <= r < rows,
        0 <= c < cols,
    ensures
        0 <= r * cols + c < rows * cols,
{
}

/// A cell index below `rows * cols` can only exist on a board with at
/// least one row and one column.
proof fn lemma_product_pos(rows: int, cols: int, k: int)
    by (nonlinear_arith)
    requires
        0 <= rows,
        0 <= cols,
        0 <= k < rows * cols,
    ensures
        rows > 0,
        cols > 0,
        k < cols * rows,
{
}

/// Row and column can be read back from a row-major cell index.
proof fn lemma_row_major_div_mod(r: int, c: int, cols: int)
    requires
        0 <= r,
        0 <= c < cols,
    ensures
        (r * cols + c) / cols == r,
        (r * cols + c) % cols == c,
{
    lemma_fundamental_div_mod_converse(r * cols + c, cols, r, c);
}

impl Board {
    /// Number of rows.
    pub closed spec fn spec_rows(self) -> int {
        self.rows as int
    }

    /// Number of columns.
    pub closed spec fn spec_cols(self) -> int {
        self.cols as int
    }

    /// The cells in row-major order.
    pub closed spec fn cells(self) -> Seq<Square> {
        self.state@
    }

    /// A well-formed board holds exactly `rows * cols` cells.
    pub open spec fn wf(self) -> bool {
        self.cells().len() == self.spec_rows() * self.spec_cols()
    }

    /// Whether (r, c) names a cell of this board.
    pub open spec fn in_bounds(self, r: int, c: int) -> bool {
        0 <= r < self.spec_rows() && 0 <= c < self.spec_cols()
    }

    /// The cell at in-bounds position (r, c).
    pub open spec fn cell_at(self, r: int, c: int) -> Square {
        self.cells()[r * self.spec_cols() + c]
    }

    /// 1 when (r, c) is in bounds and owned by `who`, else 0.
    pub open spec fn count_one(self, r: int, c: int, who: Square) -> int {
        if self.in_bounds(r, c) && self.cell_at(r, c) == who {
            1
        } else {
            0
        }
    }

    /// How many in-bounds Moore neighbors of (r, c) are owned by `who`.
    /// The neighborhood clips at the edges; there is no wraparound.
    pub open spec fn owner_census(self, r: int, c: int, who: Square) -> int {
        self.count_one(r - 1, c - 1, who) + self.count_one(r - 1, c, who) + self.count_one(
            r - 1,
            c + 1,
            who,
        ) + self.count_one(r, c - 1, who) + self.count_one(r, c + 1, who) + self.count_one(
            r + 1,
            c - 1,
            who,
        ) + self.count_one(r + 1, c, who) + self.count_one(r + 1, c + 1, who)
    }

    /// The cell (r, c) holds after one round, as a function of this board
    /// alone.
    pub open spec fn step_cell(self, r: int, c: int) -> Square {
        next_cell(
            self.cell_at(r, c),
            self.owner_census(r, c, Square::Player1),
            self.owner_census(r, c, Square::Player2),
        )
    }

    /// The whole cell sequence after one round, row-major.
    pub open spec fn step_cells(self) -> Seq<Square> {
        Seq::new(
            (self.spec_rows() * self.spec_cols()) as nat,
            |k: int| self.step_cell(k / self.spec_cols(), k % self.spec_cols()),
        )
    }

    /// Builds a board from a row-major cell sequence and its dimensions.
    ///
    /// Fails with `DimensionMismatch` exactly when the sequence's length is
    /// not `rows * cols`; malformed input is an error value, never a panic.
    pub fn from_state(state: &Vec<Square>, rows: usize, cols: usize) -> (result: Result<
        Board,
        BoardError,
    >)
        ensures
            match result {
                Ok(b) => state@.len() == rows * cols && b.wf() && b.spec_rows() == rows
                    && b.spec_cols() == cols && b.cells() == state@,
                Err(e) => e == BoardError::DimensionMismatch && state@.len() != rows * cols,
            },
    {
        let len = state.len();
        let fits = match rows.checked_mul(cols) {
            Some(n) => n == len,
            None => false,
        };
        if !fits {
            return Err(BoardError::DimensionMismatch);
        }
        let mut cells: Vec<Square> = Vec::new();
        let mut i: usize = 0;
        while i < state.len()
            invariant
                i <= state@.len(),
                cells@ == state@.take(i as int),
            decreases state@.len() - i,
        {
            cells.push(state[i]);
            i += 1;
            proof {
                assert(cells@ =~= state@.take(i as int));
            }
        }
        proof {
            assert(cells@ =~= state@);
        }
        Ok(Board { state: cells, rows, cols })
    }

    /// Flattens the board back to its row-major cell sequence; on a board
    /// built by `from_state` this returns the construction input unchanged.
    pub fn state(&self) -> (out: Vec<Square>)
        ensures
            out@ == self.cells(),
    {
        let mut out: Vec<Square> = Vec::new();
        let mut i: usize = 0;
        while i < self.state.len()
            invariant
                i <= self.cells().len(),
                out@ == self.cells().take(i as int),
            decreases self.cells().len() - i,
        {
            out.push(self.state[i]);
            i += 1;
            proof {
                assert(out@ =~= self.cells().take(i as int));
            }
        }
        proof {
            assert(out@ =~= self.cells());
        }
        out
    }

    /// Bounds-checked read at (row, column): absent, rather than an error,
    /// outside the board, so that neighbors can be probed at the edges.
    pub fn rc_coordinate(&self, r: usize, c: usize) -> (res: Option<Square>)
        requires
            self.wf(),
        ensures
            res == if self.in_bounds(r as int, c as int) {
                Some(self.cell_at(r as int, c as int))
            } else {
                None::<Square>
            },
    {
        if r >= self.rows || c >= self.cols {
            None
        } else {
            // The cell count is a usize, so the row-major index fits too.
            let n = self.state.len();
            proof {
                lemma_row_major_index_bound(r as int, c as int, self.spec_rows(), self.spec_cols());
            }
            Some(self.state[r * self.cols + c])
        }
    }

    /// Bounds-checked read at (x, y), x naming the column and y the row.
    pub fn xy_coordinate(&self, x: usize, y: usize) -> (res: Option<Square>)
        requires
            self.wf(),
        ensures
            res == if self.in_bounds(y as int, x as int) {
                Some(self.cell_at(y as int, x as int))
            } else {
                None::<Square>
            },
    {
        self.rc_coordinate(y, x)
    }

    /// The Moore-neighborhood offsets of (r, c) that land on the board, in
    /// reading order.
    pub open spec fn neighbor_offsets(self, r: int, c: int) -> Seq<(i64, i64)> {
        self.offset_if(r, c, -1i64, -1i64) + self.offset_if(r, c, -1i64, 0i64) + self.offset_if(
            r,
            c,
            -1i64,
            1i64,
        ) + self.offset_if(r, c, 0i64, -1i64) + self.offset_if(r, c, 0i64, 1i64) + self.offset_if(
            r,
            c,
            1i64,
            -1i64,
        ) + self.offset_if(r, c, 1i64, 0i64) + self.offset_if(r, c, 1i64, 1i64)
    }

    /// The one-element sequence holding (dr, dc) when it leads in bounds
    /// from (r, c), else the empty sequence.
    pub open spec fn offset_if(self, r: int, c: int, dr: i64, dc: i64) -> Seq<(i64, i64)> {
        if self.in_bounds(r + dr, c + dc) {
            seq![(dr, dc)]
        } else {
            Seq::empty()
        }
    }

    /// The up-to-8 Moore-neighborhood offsets from (r, c) whose target lies
    /// on the board. Depends on the geometry alone, never on cell contents.
    pub fn neighbor_rc_coordinates(&self, r: i64, c: i64) -> (out: Vec<(i64, i64)>)
        requires
            i64::MIN < r < i64::MAX,
            i64::MIN < c < i64::MAX,
            self.spec_rows() <= i64::MAX,
            self.spec_cols() <= i64::MAX,
        ensures
            out@ == self.neighbor_offsets(r as int, c as int),
    {
        let rows = self.rows as i64;
        let cols = self.cols as i64;
        let mut out: Vec<(i64, i64)> = Vec::new();
        if r - 1 >= 0 && r - 1 < rows && c - 1 >= 0 && c - 1 < cols {
            out.push((-1, -1));
        }
        if r - 1 >= 0 && r - 1 < rows && c >= 0 && c < cols {
            out.push((-1, 0));
        }
        if r - 1 >= 0 && r - 1 < rows && c + 1 >= 0 && c + 1 < cols {
            out.push((-1, 1));
        }
        if r >= 0 && r < rows && c - 1 >= 0 && c - 1 < cols {
            out.push((0, -1));
        }
        if r >= 0 && r < rows && c + 1 >= 0 && c + 1 < cols {
            out.push((0, 1));
        }
        if r + 1 >= 0 && r + 1 < rows && c - 1 >= 0 && c - 1 < cols {
            out.push((1, -1));
        }
        if r + 1 >= 0 && r + 1 < rows && c >= 0 && c < cols {
            out.push((1, 0));
        }
        if r + 1 >= 0 && r + 1 < rows && c + 1 >= 0 && c + 1 < cols {
            out.push((1, 1));
        }
        proof {
            assert(out@ =~= self.neighbor_offsets(r as int, c as int));
        }
        out
    }

    /// When (rr, cc) is in bounds, adds 1 to the count of the player owning
    /// that cell; out of bounds it adds nothing.
    fn tally(&self, rr: usize, cc: usize, p1: usize, p2: usize) -> (out: (usize, usize))
        requires
            self.wf(),
            p1 + 1 <= usize::MAX,
            p2 + 1 <= usize::MAX,
        ensures
            out.0 == p1 + self.count_one(rr as int, cc as int, Square::Player1),
            out.1 == p2 + self.count_one(rr as int, cc as int, Square::Player2),
    {
        if rr < self.rows && cc < self.cols {
            // The cell count is a usize, so the row-major index fits too.
            let n = self.state.len();
            proof {
                lemma_row_major_index_bound(
                    rr as int,
                    cc as int,
                    self.spec_rows(),
                    self.spec_cols(),
                );
            }
            match self.state[rr * self.cols + cc] {
                Square::Empty => (p1, p2),
                Square::Player1 => (p1 + 1, p2),
                Square::Player2 => (p1, p2 + 1),
            }
        } else {
            (p1, p2)
        }
    }

    /// The neighbor census of (r, c): how many in-bounds Moore neighbors
    /// each player owns, read against this board as a frozen snapshot.
    fn census(&self, r: usize, c: usize) -> (counts: (usize, usize))
        requires
            self.wf(),
            r < self.spec_rows(),
            c < self.spec_cols(),
        ensures
            counts.0 == self.owner_census(r as int, c as int, Square::Player1),
            counts.1 == self.owner_census(r as int, c as int, Square::Player2),
    {
        let mut t: (usize, usize) = (0, 0);
        if r > 0 && c > 0 {
            t = self.tally(r - 1, c - 1, t.0, t.1);
        }
        if r > 0 {
            t = self.tally(r - 1, c, t.0, t.1);
        }
        if r > 0 {
            t = self.tally(r - 1, c + 1, t.0, t.1);
        }
        if c > 0 {
            t = self.tally(r, c - 1, t.0, t.1);
        }
        t = self.tally(r, c + 1, t.0, t.1);
        if c > 0 {
            t = self.tally(r + 1, c - 1, t.0, t.1);
        }
        t = self.tally(r + 1, c, t.0, t.1);
        t = self.tally(r + 1, c + 1, t.0, t.1);
        t
    }

    /// One application of the transition rule, exactly `next_cell`.
    pub fn transition(cur: Square, p1: usize, p2: usize) -> (next: Square)
        requires
            p1 + p2 <= usize::MAX,
        ensures
            next == next_cell(cur, p1 as int, p2 as int),
    {
        let total = p1 + p2;
        match cur {
            Square::Empty => if total == 3 {
                if p1 > p2 {
                    Square::Player1
                } else {
                    Square::Player2
                }
            } else {
                Square::Empty
            },
            Square::Player1 => if 2 <= total && total <= 3 {
                Square::Player1
            } else {
                Square::Empty
            },
            Square::Player2 => if 2 <= total && total <= 3 {
                Square::Player2
            } else {
                Square::Empty
            },
        }
    }

    /// Advances the board one round: every cell of the new state is the
    /// transition rule applied against the unmodified previous state. Total
    /// on well-formed boards; the dimensions are kept.
    pub fn simulate_step(&mut self)
        requires
            old(self).wf(),
        ensures
            final(self).wf(),
            final(self).spec_rows() == old(self).spec_rows(),
            final(self).spec_cols() == old(self).spec_cols(),
            final(self).cells() == old(self).step_cells(),
            forall|r: int, c: int|
                old(self).in_bounds(r, c) ==> final(self).cell_at(r, c) == old(self).step_cell(
                    r,
                    c,
                ),
    {
        let rows = self.rows;
        let cols = self.cols;
        let mut next: Vec<Square> = Vec::new();
        let mut r: usize = 0;
        while r < rows
            invariant
                *self == *old(self),
                self.wf(),
                rows == self.spec_rows(),
                cols == self.spec_cols(),
                r <= rows,
                next@.len() == r * cols,
                forall|k: int|
                    0 <= k < next@.len() ==> next@[k] == self.step_cell(
                        k / cols as int,
                        k % cols as int,
                    ),
            decreases rows - r,
        {
            let mut c: usize = 0;
            while c < cols
                invariant
                    *self == *old(self),
                    self.wf(),
                    rows == self.spec_rows(),
                    cols == self.spec_cols(),
                    r < rows,
                    c <= cols,
                    next@.len() == r * cols + c,
                    forall|k: int|
                        0 <= k < next@.len() ==> next@[k] == self.step_cell(
                            k / cols as int,
                            k % cols as int,
                        ),
                decreases cols - c,
            {
                let (p1, p2) = self.census(r, c);
                // The cell count is a usize, so the row-major index fits too.
                let n = self.state.len();
                proof {
                    lemma_row_major_index_bound(
                        r as int,
                        c as int,
                        self.spec_rows(),
                        self.spec_cols(),
                    );
                    lemma_row_major_div_mod(r as int, c as int, cols as int);
                }
                let cur = self.state[r * cols + c];
                let sq = Board::transition(cur, p1, p2);
                next.push(sq);
                c += 1;
            }
            proof {
                assert((r as int + 1) * (cols as int) == r as int * (cols as int) + cols as int)
                    by (nonlinear_arith);
            }
            r += 1;
        }
        proof {
            assert(next@ =~= self.step_cells()) by {
                assert(next@.len() == rows * cols);
            }
        }
        self.state = next;
        proof {
            assert forall|r2: int, c2: int| old(self).in_bounds(r2, c2) implies self.cell_at(
                r2,
                c2,
            ) == old(self).step_cell(r2, c2) by {
                lemma_row_major_index_bound(r2, c2, old(self).spec_rows(), old(self).spec_cols());
                lemma_row_major_div_mod(r2, c2, old(self).spec_cols());
            }
        }
    }

    /// The prediction validator: true exactly when the two boards have the
    /// same dimensions and the same cells. A dimension mismatch is itself a
    /// disagreement. Detection only: nothing is repaired here.
    pub fn agrees(&self, authoritative: &Board) -> (r: bool)
        ensures
            r == (self.spec_rows() == authoritative.spec_rows() && self.spec_cols()
                == authoritative.spec_cols() && self.cells() == authoritative.cells()),
    {
        if self.rows != authoritative.rows || self.cols != authoritative.cols {
            return false;
        }
        if self.state.len() != authoritative.state.len() {
            proof {
                assert(self.cells().len() != authoritative.cells().len());
            }
            return false;
        }
        let mut i: usize = 0;
        while i < self.state.len()
            invariant
                i <= self.cells().len(),
                self.cells().len() == authoritative.cells().len(),
                forall|k: int| 0 <= k < i ==> self.cells()[k] == authoritative.cells()[k],
            decreases self.cells().len() - i,
        {
            if self.state[i] != authoritative.state[i] {
                proof {
                    assert(self.cells()[i as int] != authoritative.cells()[i as int]);
                }
                return false;
            }
            i += 1;
        }
        proof {
            assert(self.cells() =~= authoritative.cells());
        }
        true
    }
}

/// Construction round-trip: building a board from a row-major cell
/// sequence of the right length and flattening it back returns the
/// sequence unchanged. The requires are what `from_state` ensures of a
/// successful construction, and `out` is what `state` then returns.
pub proof fn lemma_construct_round_trip(
    s: Seq<Square>,
    rows: int,
    cols: int,
    b: Board,
    out: Seq<Square>,
)
    requires
        s.len() == rows * cols,
        b.wf(),
        b.spec_rows() == rows,
        b.spec_cols() == cols,
        b.cells() == s,
        out == b.cells(),
    ensures
        out == s,
{
}

/// Stepping is deterministic: two boards that each hold the one-round
/// successor of the same board agree cell for cell.
pub proof fn lemma_step_deterministic(pre: Board, a: Board, b: Board)
    requires
        a.spec_rows() == pre.spec_rows(),
        a.spec_cols() == pre.spec_cols(),
        a.cells() == pre.step_cells(),
        b.spec_rows() == pre.spec_rows(),
        b.spec_cols() == pre.spec_cols(),
        b.cells() == pre.step_cells(),
    ensures
        a.spec_rows() == b.spec_rows(),
        a.spec_cols() == b.spec_cols(),
        a.cells() == b.cells(),
{
}

/// An all-empty board stays all empty after a step, whatever its size.
pub proof fn lemma_step_all_empty(b: Board)
    requires
        b.wf(),
        forall|k: int| 0 <= k < b.cells().len() ==> b.cells()[k] == Square::Empty,
    ensures
        b.step_cells().len() == b.cells().len(),
        forall|k: int| 0 <= k < b.step_cells().len() ==> b.step_cells()[k] == Square::Empty,
{
    assert forall|k: int| 0 <= k < b.step_cells().len() implies b.step_cells()[k]
        == Square::Empty by {
        let cols = b.spec_cols();
        let rows = b.spec_rows();
        lemma_product_pos(rows, cols, k);
        lemma_mod_bound(k, cols);
        lemma_multiply_divide_lt(k, cols, rows);
        lemma_div_pos_is_pos(k, cols);
        let r = k / cols;
        let c = k % cols;
        lemma_empty_census(b, r, c, Square::Player1);
        lemma_empty_census(b, r, c, Square::Player2);
        lemma_row_major_index_bound(r, c, rows, cols);
        assert(b.cell_at(r, c) == Square::Empty);
    }
}

/// On an all-empty board every census is zero.
proof fn lemma_empty_census(b: Board, r: int, c: int, who: Square)
    requires
        b.wf(),
        who != Square::Empty,
        forall|k: int| 0 <= k < b.cells().len() ==> b.cells()[k] == Square::Empty,
    ensures
        b.owner_census(r, c, who) == 0,
{
    lemma_empty_count_one(b, r - 1, c - 1, who);
    lemma_empty_count_one(b, r - 1, c, who);
    lemma_empty_count_one(b, r - 1, c + 1, who);
    lemma_empty_count_one(b, r, c - 1, who);
    lemma_empty_count_one(b, r, c + 1, who);
    lemma_empty_count_one(b, r + 1, c - 1, who);
    lemma_empty_count_one(b, r + 1, c, who);
    lemma_empty_count_one(b, r + 1, c + 1, who);
}

/// On an all-empty board no position counts toward a player's census.
proof fn lemma_empty_count_one(b: Board, r: int, c: int, who: Square)
    requires
        b.wf(),
        who != Square::Empty,
        forall|k: int| 0 <= k < b.cells().len() ==> b.cells()[k] == Square::Empty,
    ensures
        b.count_one(r, c, who) == 0,
{
    if b.in_bounds(r, c) {
        lemma_row_major_index_bound(r, c, b.spec_rows(), b.spec_cols());
        assert(b.cell_at(r, c) == Square::Empty);
    }
}

/// Birth goes to the majority owner: an empty cell with exactly 3 living
/// neighbors, 2 of them Player1 and 1 Player2, becomes Player1.
pub proof fn lemma_birth_majority(b: Board, r: int, c: int)
    requires
        b.wf(),
        b.in_bounds(r, c),
        b.cell_at(r, c) == Square::Empty,
        b.owner_census(r, c, Square::Player1) == 2,
        b.owner_census(r, c, Square::Player2) == 1,
    ensures
        b.step_cell(r, c) == Square::Player1,
{
}

/// Whether (r, c) is a corner of the board.
pub open spec fn is_corner(b: Board, r: int, c: int) -> bool {
    (r == 0 || r == b.spec_rows() - 1) && (c == 0 || c == b.spec_cols() - 1)
}

/// Whether (r, c) lies on an edge of the board without being a corner.
pub open spec fn is_edge(b: Board, r: int, c: int) -> bool {
    (r == 0 || r == b.spec_rows() - 1 || c == 0 || c == b.spec_cols() - 1) && !is_corner(b, r, c)
}

/// On a board of at least 3 x 3, a corner has 3 in-bounds neighbors, a
/// non-corner edge cell 5, and an interior cell 8.
pub proof fn lemma_neighbor_counts(b: Board, r: int, c: int)
    requires
        b.spec_rows() >= 3,
        b.spec_cols() >= 3,
        b.in_bounds(r, c),
    ensures
        b.neighbor_offsets(r, c).len() == if is_corner(b, r, c) {
            3int
        } else if is_edge(b, r, c) {
            5int
        } else {
            8int
        },
{
}

} // verus!
