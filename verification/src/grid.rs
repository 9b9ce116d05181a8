//! The spatial grid and the per-cell failure state machine.
//!
//! The playable rectangle is discretized into `GRID_COLS x GRID_ROWS`
//! cells. Each cell is pristine ice until an agent first stands on it,
//! then cracks, and breaks once an agent stands on it again strictly more
//! than the threshold after the first stress. A broken cell is terminal.

use vstd::prelude::*;

verus! {

use crate::GRID_COLS;
use crate::GRID_ROWS;
use crate::CELL_MILLI;
use crate::HALF_WIDTH_MILLI;
use crate::HALF_HEIGHT_MILLI;
use crate::motion::Pos;
use crate::motion::pos_in_bounds;

/// Failure state of one grid cell.
///
/// `Cracking` remembers the simulation time (in milliseconds) at which the
/// cell was first stressed.
#[derive(Clone, Copy, Debug, PartialEq, Eq, Structural)]
pub enum CellState {
    Ice,
    Cracking { since_ms: u64 },
    Broken,
}

/// How far along the one-way lifecycle a state is.
pub open spec fn cell_rank(c: CellState) -> int {
    match c {
        CellState::Ice => 0,
        CellState::Cracking { .. } => 1,
        CellState::Broken => 2,
    }
}

/// One-way progression: a cell never moves backward, a broken cell stays
/// broken, and a cracking cell keeps its original timestamp.
pub open spec fn cell_progresses(a: CellState, b: CellState) -> bool {
    &&& cell_rank(a) <= cell_rank(b)
    &&& (a is Broken ==> b is Broken)
    &&& ((a is Cracking && b is Cracking) ==> a == b)
}

/// Progression composes.
pub proof fn lemma_cell_progresses_trans(a: CellState, b: CellState, c: CellState)
    requires
        cell_progresses(a, b),
        cell_progresses(b, c),
    ensures
        cell_progresses(a, c),
{
}

/// No cracking timestamp of the grid lies in the future.
pub open spec fn cell_stamps_at_most(g: Seq<CellState>, t: u64) -> bool {
    forall|c: int|
        0 <= c < g.len() ==> ((#[trigger] g[c]) matches CellState::Cracking { since_ms }
            ==> since_ms <= t)
}

/// The transition rule for a cell under an agent at time `now_ms`:
/// pristine ice starts cracking now; cracking ice breaks once strictly
/// more than `threshold_ms` has elapsed since the first stress; broken
/// ice absorbs any further stress.
pub open spec fn cell_stressed(c: CellState, now_ms: u64, threshold_ms: u64) -> CellState {
    match c {
        CellState::Ice => CellState::Cracking { since_ms: now_ms },
        CellState::Cracking { since_ms } => if now_ms - since_ms > threshold_ms {
            CellState::Broken
        } else {
            c
        },
        CellState::Broken => CellState::Broken,
    }
}

/// Whether stressing the cell at time `now_ms` makes it break, which is
/// what emits a fall event.
pub open spec fn cell_breaks(c: CellState, now_ms: u64, threshold_ms: u64) -> bool {
    &&& c is Cracking
    &&& now_ms - c->since_ms > threshold_ms
}

/// Law: a stressed cell only ever progresses
/// ice, then cracking, then broken; in particular no path revisits a
/// broken cell, and a cracking cell keeps its timestamp until it breaks.
pub proof fn lemma_cell_progression(c: CellState, now_ms: u64, threshold_ms: u64)
    ensures
        cell_progresses(c, cell_stressed(c, now_ms, threshold_ms)),
{
}

/// Law: a broken cell is terminal: further stress neither changes it nor
/// fires another fall event.
pub proof fn lemma_broken_absorbs(now_ms: u64, threshold_ms: u64)
    ensures
        cell_stressed(CellState::Broken, now_ms, threshold_ms) == CellState::Broken,
        !cell_breaks(CellState::Broken, now_ms, threshold_ms),
{
}

/// Law: a cell that started cracking at time `since_ms` breaks under
/// stress exactly when strictly more than the threshold has elapsed, and
/// under earlier stress it stays cracking with the same timestamp.
pub proof fn lemma_fall_event_timing(since_ms: u64, now_ms: u64, threshold_ms: u64)
    requires
        since_ms <= now_ms,
    ensures
        now_ms <= since_ms + threshold_ms ==> {
            &&& !cell_breaks(CellState::Cracking { since_ms }, now_ms, threshold_ms)
            &&& cell_stressed(CellState::Cracking { since_ms }, now_ms, threshold_ms)
                == CellState::Cracking { since_ms }
        },
        now_ms > since_ms + threshold_ms ==> {
            &&& cell_breaks(CellState::Cracking { since_ms }, now_ms, threshold_ms)
            &&& cell_stressed(CellState::Cracking { since_ms }, now_ms, threshold_ms)
                == CellState::Broken
        },
{
}

/// The cell a clamped world position falls in, by flooring: positions are
/// measured from the world center, columns and rows from the lower-left
/// corner.
pub open spec fn col_of(p: Pos) -> int {
    (p.x + HALF_WIDTH_MILLI) / (CELL_MILLI as int)
}

/// See [`col_of`].
pub open spec fn row_of(p: Pos) -> int {
    (p.y + HALF_HEIGHT_MILLI) / (CELL_MILLI as int)
}

/// A clamped position always falls strictly inside the grid, off the
/// outermost ring.
pub proof fn lemma_clamped_position_in_grid(p: Pos)
    requires
        pos_in_bounds(p),
    ensures
        1 <= col_of(p) < GRID_COLS - 1,
        1 <= row_of(p) < GRID_ROWS - 1,
{
}

/// Index of a position's cell in the row-major grid.
pub open spec fn cell_pos_index(p: Pos) -> int {
    row_of(p) * GRID_COLS + col_of(p)
}

/// Maps a clamped position to its grid cell.
pub fn cell_index_for(p: Pos) -> (rc: (usize, usize))
    requires
        pos_in_bounds(p),
    ensures
        rc.0 == col_of(p),
        rc.1 == row_of(p),
        1 <= rc.0 < GRID_COLS - 1,
        1 <= rc.1 < GRID_ROWS - 1,
{
    let col = ((p.x + HALF_WIDTH_MILLI) / CELL_MILLI) as usize;
    let row = ((p.y + HALF_HEIGHT_MILLI) / CELL_MILLI) as usize;
    proof {
        lemma_clamped_position_in_grid(p);
    }
    (col, row)
}

/// The fixed-size grid of cells, row-major.
pub struct IceGrid {
    cells: Vec<CellState>,
}

impl View for IceGrid {
    type V = Seq<CellState>;

    closed spec fn view(&self) -> Seq<CellState> {
        self.cells@
    }
}

/// The cell a border of `rings` rings is seeded with: already cracked at
/// scenario start, so that the playable area is bounded; everything else
/// starts as pristine ice.
pub open spec fn initial_cell(col: int, row: int, rings: int) -> CellState {
    if col < rings || col >= GRID_COLS - rings || row < rings || row >= GRID_ROWS - rings {
        CellState::Cracking { since_ms: 0 }
    } else {
        CellState::Ice
    }
}

impl IceGrid {
    /// Dimensions are immutable after construction.
    pub open spec fn wf(&self) -> bool {
        self@.len() == GRID_COLS * GRID_ROWS
    }

    /// Builds the grid with the outermost `rings` rings pre-cracked.
    pub fn new(rings: usize) -> (g: IceGrid)
        requires
            rings <= 30,
        ensures
            g.wf(),
            forall|row: int, col: int|
                0 <= row < GRID_ROWS && 0 <= col < GRID_COLS
                    ==> g@[row * GRID_COLS + col] == initial_cell(col, row, rings as int),
    {
        let mut cells: Vec<CellState> = Vec::new();
        let mut row: usize = 0;
        while row < GRID_ROWS
            invariant
                rings <= 30,
                row <= GRID_ROWS,
                cells@.len() == row * GRID_COLS,
                forall|r: int, c: int|
                    0 <= r < row && 0 <= c < GRID_COLS
                        ==> cells@[r * GRID_COLS + c] == initial_cell(c, r, rings as int),
            decreases GRID_ROWS - row,
        {
            let mut col: usize = 0;
            while col < GRID_COLS
                invariant
                    rings <= 30,
                    row < GRID_ROWS,
                    col <= GRID_COLS,
                    cells@.len() == row * GRID_COLS + col,
                    forall|r: int, c: int|
                        0 <= r < row && 0 <= c < GRID_COLS
                            ==> cells@[r * GRID_COLS + c] == initial_cell(c, r, rings as int),
                    forall|c: int|
                        0 <= c < col
                            ==> cells@[row * GRID_COLS + c] == initial_cell(c, row as int, rings as int),
                decreases GRID_COLS - col,
            {
                let state = if col < rings || col >= GRID_COLS - rings || row < rings
                    || row >= GRID_ROWS - rings {
                    CellState::Cracking { since_ms: 0 }
                } else {
                    CellState::Ice
                };
                cells.push(state);
                col = col + 1;
            }
            row = row + 1;
        }
        IceGrid { cells }
    }

    /// Reads one cell.
    pub fn state_of(&self, col: usize, row: usize) -> (c: CellState)
        requires
            self.wf(),
            col < GRID_COLS,
            row < GRID_ROWS,
        ensures
            c == self@[row * GRID_COLS + col],
    {
        self.cells[row * GRID_COLS + col]
    }

    /// Stresses the cell under an agent at time `now_ms` and reports
    /// whether this very stress broke it.
    pub fn stress_cell(&mut self, col: usize, row: usize, now_ms: u64, threshold_ms: u64)
        -> (broke: bool)
        requires
            old(self).wf(),
            col < GRID_COLS,
            row < GRID_ROWS,
            old(self)@[row * GRID_COLS + col] matches CellState::Cracking { since_ms }
                ==> since_ms <= now_ms,
        ensures
            final(self).wf(),
            final(self)@ == old(self)@.update(
                row * GRID_COLS + col,
                cell_stressed(old(self)@[row * GRID_COLS + col], now_ms, threshold_ms),
            ),
            broke == cell_breaks(old(self)@[row * GRID_COLS + col], now_ms, threshold_ms),
    {
        let idx = row * GRID_COLS + col;
        let state = self.cells[idx];
        match state {
            CellState::Ice => {
                self.cells.set(idx, CellState::Cracking { since_ms: now_ms });
                proof {
                    assert(self@ =~= old(self)@.update(
                        idx as int,
                        cell_stressed(old(self)@[idx as int], now_ms, threshold_ms),
                    ));
                }
                false
            },
            CellState::Cracking { since_ms } => {
                if now_ms - since_ms > threshold_ms {
                    self.cells.set(idx, CellState::Broken);
                    proof {
                        assert(self@ =~= old(self)@.update(
                            idx as int,
                            cell_stressed(old(self)@[idx as int], now_ms, threshold_ms),
                        ));
                    }
                    true
                } else {
                    proof {
                        assert(self@ =~= old(self)@.update(
                            idx as int,
                            cell_stressed(old(self)@[idx as int], now_ms, threshold_ms),
                        ));
                    }
                    false
                }
            },
            CellState::Broken => {
                proof {
                    assert(self@ =~= old(self)@.update(
                        idx as int,
                        cell_stressed(old(self)@[idx as int], now_ms, threshold_ms),
                    ));
                }
                false
            },
        }
    }
}

} // verus!
