//! The cursor tracker: the active grid, the cursor's grid-relative
//! coordinate, the registered cursor modes, and a snapshot of the hovered
//! cell (copied, since the source cell may be overwritten before the cursor
//! is redrawn).

use vstd::prelude::*;

use crate::grids::{coord_fits, GridCoord, GridError, GridRegistry};
use crate::textbuf::{CellView, TextCell};

verus! {

/// The shape a cursor mode draws.
#[derive(Clone, Copy, Debug, PartialEq, Eq, Structural)]
pub enum CursorShape {
    Block,
    Horizontal,
    Vertical,
}

/// One cursor mode, as a mode-info event registers it.
#[derive(Clone, Copy, Debug, PartialEq, Eq)]
pub struct CursorMode {
    pub shape: Option<CursorShape>,
    pub style_id: Option<u64>,
    pub cell_percentage: Option<u64>,
    pub blinkwait: Option<u64>,
    pub blinkon: Option<u64>,
    pub blinkoff: Option<u64>,
}

/// The cursor's state.
pub struct CursorState {
    pub grid: u64,
    pub row: usize,
    pub col: usize,
    pub mode_index: usize,
    pub modes: Vec<CursorMode>,
    pub cell: Option<TextCell>,
    pub moved: bool,
}

/// Abstract value of the cursor.
pub struct CursorView {
    pub grid: u64,
    pub row: usize,
    pub col: usize,
    pub mode_index: usize,
    pub modes: Seq<CursorMode>,
    pub cell: Option<CellView>,
    pub moved: bool,
}

impl View for CursorState {
    type V = CursorView;

    open spec fn view(&self) -> CursorView {
        CursorView {
            grid: self.grid,
            row: self.row,
            col: self.col,
            mode_index: self.mode_index,
            modes: self.modes@.map_values(|m: CursorMode| m),
            cell: match self.cell {
                Some(ref c) => Some(c@),
                None => None,
            },
            moved: self.moved,
        }
    }
}

impl CursorState {
    /// The initial cursor: grid `0`, the origin, no modes, no snapshot.
    pub fn new() -> (r: CursorState)
        ensures
            r@.grid == 0,
            r@.row == 0,
            r@.col == 0,
            r@.mode_index == 0,
            r@.modes =~= Seq::<CursorMode>::empty(),
            r@.cell is None,
            !r@.moved,
    {
        CursorState {
            grid: 0,
            row: 0,
            col: 0,
            mode_index: 0,
            modes: Vec::new(),
            cell: None,
            moved: false,
        }
    }

    /// Replace the registered cursor modes.
    pub fn set_modes(&mut self, modes: Vec<CursorMode>)
        ensures
            final(self)@ == (CursorView { modes: modes@, ..old(self)@ }),
    {
        self.modes = modes;
        proof {
            assert(final(self)@.modes =~= modes@);
            assert(final(self)@ =~= (CursorView { modes: modes@, ..old(self)@ }));
        }
    }

    /// Select a registered mode.  The protocol guarantees modes are
    /// registered before use; an out-of-range index means a desynchronized
    /// stream and is refused by the caller.
    pub fn set_mode(&mut self, index: usize)
        requires
            index < old(self)@.modes.len(),
        ensures
            final(self)@ == (CursorView { mode_index: index, ..old(self)@ }),
    {
        self.mode_index = index;
    }

    /// Move the cursor to `row` x `col` of grid `grid`.  The move records
    /// the coordinate and snapshots the hovered cell; when the coordinate
    /// has no backing cell the snapshot is left unset (a warning, not a
    /// failure).  A move onto a grid that does not exist is refused and
    /// changes nothing.
    pub fn goto(
        &mut self,
        registry: &GridRegistry,
        grid: u64,
        row: usize,
        col: usize,
    ) -> (r: Result<bool, GridError>)
        requires
            registry.wf(),
        ensures
            match r {
                Ok(had_cell) => {
                    &&& registry@.contains_key(grid)
                    &&& had_cell == (row < registry@[grid].buf.rows && col
                        < registry@[grid].buf.cols)
                    &&& final(self)@ == (CursorView {
                        grid,
                        row,
                        col,
                        moved: true,
                        cell: if had_cell {
                            Some(registry@[grid].buf.lines[row as int].cells[col as int])
                        } else {
                            None::<CellView>
                        },
                        ..old(self)@
                    })
                },
                Err(e) => {
                    &&& e == GridError::NoSuchGrid
                    &&& !registry@.contains_key(grid)
                    &&& *final(self) == *old(self)
                },
            },
    {
        if !registry.contains(grid) {
            return Err(GridError::NoSuchGrid);
        }
        let cell = registry.cell(grid, row, col);
        let had_cell = cell.is_some();
        self.grid = grid;
        self.row = row;
        self.col = col;
        self.cell = cell;
        self.moved = true;
        proof {
            assert(final(self)@.modes =~= old(self)@.modes);
        }
        Ok(had_cell)
    }

    /// The cell snapshot to draw under the cursor, refreshed from the
    /// registry.  `None` while the active grid does not exist (for instance
    /// after it was destroyed) or the coordinate has no backing cell.
    pub fn lookup_cell(&self, registry: &GridRegistry) -> (r: Option<TextCell>)
        requires
            registry.wf(),
        ensures
            match r {
                Some(c) => {
                    &&& registry@.contains_key(self@.grid)
                    &&& self@.row < registry@[self@.grid].buf.rows
                    &&& self@.col < registry@[self@.grid].buf.cols
                    &&& c@ == registry@[self@.grid].buf.lines[self@.row as int].cells[
                        self@.col as int
                    ]
                },
                None => !registry@.contains_key(self@.grid) || self@.row >= registry@[
                    self@.grid
                ].buf.rows || self@.col >= registry@[self@.grid].buf.cols,
            },
    {
        registry.cell(self.grid, self.row, self.col)
    }

    /// The cursor's surface-absolute coordinate: the active grid's origin
    /// plus the grid-relative position.  `None` while the active grid does
    /// not exist, or if the sum leaves the coordinate type.
    pub fn absolute_coord(&self, registry: &GridRegistry) -> (r: Option<GridCoord>)
        requires
            registry.wf(),
        ensures
            match r {
                Some(c) => {
                    &&& registry@.contains_key(self@.grid)
                    &&& c.col == registry@[self@.grid].coord.col + self@.col
                    &&& c.row == registry@[self@.grid].coord.row + self@.row
                },
                None => !registry@.contains_key(self@.grid) || !coord_fits(
                    (
                        registry@[self@.grid].coord.col + self@.col as int,
                        registry@[self@.grid].coord.row + self@.row as int,
                    ),
                ),
            },
    {
        match registry.get(self.grid) {
            None => None,
            Some(g) => {
                let col: i128 = g.coord.col as i128 + self.col as i128;
                let row: i128 = g.coord.row as i128 + self.row as i128;
                if col <= i64::MAX as i128 && row <= i64::MAX as i128 {
                    Some(GridCoord { col: col as i64, row: row as i64 })
                } else {
                    None
                }
            },
        }
    }
}
} // verus!
