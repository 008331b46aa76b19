//! The registry of grids: lifecycle (create, resize, move, show, conceal,
//! destroy), floating-window placement, and the per-grid operations the
//! event reducer dispatches.
//!
//! Grids are created lazily by the first placement or resize event that
//! names them and destroyed by close or destroy events.  Any other operation
//! naming an unknown grid id is a reportable error, never a crash; a
//! viewport event arriving early creates an empty placeholder instead.

use vstd::prelude::*;

use crate::assoc::{assoc_map, keys_unique, lemma_assoc_map_contains, lemma_assoc_map_index,
    lemma_assoc_map_push, lemma_assoc_map_remove, lemma_assoc_map_update};
use crate::events::{GridLineCell, WindowAnchor};
use crate::highlights::HighlightDefinitions;
use crate::textbuf::{blank_buf, buf_wf, line_after_set_cells, spec_reset_cache, spec_resize,
    spec_up, spec_down, resize_overflows, spliced_srcs, width_prefix, expand_runs, BufView,
    TextBuf, TextBufError, TextCell};

verus! {

/// A grid's logical origin in cell units, relative to the enclosing surface.
#[derive(Clone, Copy, Debug, PartialEq, Eq, Structural)]
pub struct GridCoord {
    pub col: i64,
    pub row: i64,
}

/// The visible window into a grid's logically larger scrollback, as the
/// protocol reports it; recorded for the presentation layer only.
#[derive(Clone, Copy, Debug, PartialEq, Eq, Structural)]
pub struct Viewport {
    pub top_line: u64,
    pub bottom_line: u64,
    pub current_line: u64,
    pub current_column: u64,
    pub line_count: u64,
}

/// One grid: its placement, its flags, and the text buffer it owns.
pub struct VimGrid {
    pub win_id: u64,
    pub coord: GridCoord,
    pub hidden: bool,
    pub is_float: bool,
    pub focusable: bool,
    pub viewport: Option<Viewport>,
    pub textbuf: TextBuf,
}

/// Abstract value of a grid.
pub struct GridView {
    pub win_id: u64,
    pub coord: GridCoord,
    pub hidden: bool,
    pub is_float: bool,
    pub focusable: bool,
    pub viewport: Option<Viewport>,
    pub buf: BufView,
}

impl View for VimGrid {
    type V = GridView;

    open spec fn view(&self) -> GridView {
        GridView {
            win_id: self.win_id,
            coord: self.coord,
            hidden: self.hidden,
            is_float: self.is_float,
            focusable: self.focusable,
            viewport: self.viewport,
            buf: self.textbuf@,
        }
    }
}

/// The grid a creating event leaves behind: visible, not floating,
/// focusable, with a blank buffer of the given size.
pub open spec fn fresh_grid(win_id: u64, coord: GridCoord, width: int, height: int) -> GridView {
    GridView {
        win_id,
        coord,
        hidden: false,
        is_float: false,
        focusable: true,
        viewport: None,
        buf: blank_buf(height, width),
    }
}

impl VimGrid {
    /// A fresh grid of the given size at `coord`.
    pub fn new(win_id: u64, coord: GridCoord, width: usize, height: usize) -> (g: VimGrid)
        ensures
            g@ == fresh_grid(win_id, coord, width as int, height as int),
            buf_wf(g@.buf),
    {
        VimGrid {
            win_id,
            coord,
            hidden: false,
            is_float: false,
            focusable: true,
            viewport: None,
            textbuf: TextBuf::new(height, width),
        }
    }

    /// Grid width in cells.
    pub fn width(&self) -> (r: usize)
        ensures
            r as int == self@.buf.cols,
    {
        self.textbuf.cols()
    }

    /// Grid height in cells.
    pub fn height(&self) -> (r: usize)
        ensures
            r as int == self@.buf.rows,
    {
        self.textbuf.rows()
    }
}

/// Why a grid operation was rejected.  Every rejection leaves the registry
/// untouched.
#[derive(Clone, Copy, Debug, PartialEq, Eq, Structural)]
pub enum GridError {
    /// The named grid (or the anchor grid) does not exist.
    NoSuchGrid,
    /// The target row of a cell update does not exist.
    RowOutOfBounds,
    /// The expanded runs of a cell update would run past the line's end.
    RangeTooWide,
    /// A line's byte offsets would outgrow the machine's offset type.
    OffsetOverflow,
    /// A computed float placement does not fit the coordinate type.
    PlacementOverflow,
}

/// The registry error matching a buffer error.
pub open spec fn spec_buf_err(e: TextBufError) -> GridError {
    match e {
        TextBufError::RowOutOfBounds => GridError::RowOutOfBounds,
        TextBufError::RangeTooWide => GridError::RangeTooWide,
        TextBufError::OffsetOverflow => GridError::OffsetOverflow,
    }
}

/// Map a buffer error onto the registry's error type.
pub fn buf_err(e: TextBufError) -> (r: GridError)
    ensures
        r == spec_buf_err(e),
{
    match e {
        TextBufError::RowOutOfBounds => GridError::RowOutOfBounds,
        TextBufError::RangeTooWide => GridError::RangeTooWide,
        TextBufError::OffsetOverflow => GridError::OffsetOverflow,
    }
}

/// The entry views of the registry's backing list.
pub open spec fn grid_pairs(s: Seq<(u64, VimGrid)>) -> Seq<(u64, GridView)> {
    s.map_values(|p: (u64, VimGrid)| (p.0, p.1@))
}

/// The registry of grids, keyed by their protocol-assigned ids.
pub struct GridRegistry {
    grids: Vec<(u64, VimGrid)>,
}

impl View for GridRegistry {
    type V = Map<u64, GridView>;

    closed spec fn view(&self) -> Map<u64, GridView> {
        assoc_map(grid_pairs(self.grids@))
    }
}

impl GridRegistry {
    /// Ids are unique and every grid's buffer is well formed.
    pub closed spec fn wf(&self) -> bool {
        &&& keys_unique(grid_pairs(self.grids@))
        &&& forall|i: int| 0 <= i < self.grids@.len() ==> buf_wf(
            #[trigger] grid_pairs(self.grids@)[i].1.buf,
        )
    }

    /// Every registered grid has a well-formed buffer.
    pub proof fn lemma_wf_bufs(&self)
        requires
            self.wf(),
        ensures
            forall|id: u64| self@.contains_key(id) ==> buf_wf(#[trigger] self@[id].buf),
    {
        assert forall|id: u64| self@.contains_key(id) implies buf_wf(#[trigger] self@[id].buf) by {
            lemma_assoc_map_contains(grid_pairs(self.grids@), id);
            let i = choose|i: int|
                0 <= i < grid_pairs(self.grids@).len() && grid_pairs(self.grids@)[i].0 == id;
            lemma_assoc_map_index(grid_pairs(self.grids@), i);
        }
    }

    /// An empty registry.
    pub fn new() -> (r: GridRegistry)
        ensures
            r.wf(),
            r@ =~= Map::<u64, GridView>::empty(),
    {
        GridRegistry { grids: Vec::new() }
    }

    /// Index of the entry holding `id`, if the registry has it.
    fn position_of(&self, id: u64) -> (r: Option<usize>)
        requires
            self.wf(),
        ensures
            match r {
                Some(i) => {
                    &&& i < self.grids@.len()
                    &&& grid_pairs(self.grids@)[i as int].0 == id
                    &&& self@.contains_key(id)
                    &&& self@[id] == grid_pairs(self.grids@)[i as int].1
                },
                None => !self@.contains_key(id),
            },
    {
        let mut i: usize = 0;
        while i < self.grids.len()
            invariant
                i <= self.grids@.len(),
                self.wf(),
                forall|j: int| 0 <= j < i ==> (#[trigger] grid_pairs(self.grids@)[j]).0 != id,
            decreases self.grids@.len() - i,
        {
            if self.grids[i].0 == id {
                proof {
                    lemma_assoc_map_index(grid_pairs(self.grids@), i as int);
                }
                return Some(i);
            }
            i = i + 1;
        }
        proof {
            lemma_assoc_map_contains(grid_pairs(self.grids@), id);
        }
        None
    }

    /// Whether the registry has a grid under `id`.
    pub fn contains(&self, id: u64) -> (r: bool)
        requires
            self.wf(),
        ensures
            r == self@.contains_key(id),
    {
        self.position_of(id).is_some()
    }

    /// The grid stored under `id`.
    pub fn get(&self, id: u64) -> (r: Option<&VimGrid>)
        requires
            self.wf(),
        ensures
            match r {
                Some(g) => self@.contains_key(id) && g@ == self@[id] && buf_wf(g@.buf),
                None => !self@.contains_key(id),
            },
    {
        match self.position_of(id) {
            Some(i) => {
                proof {
                    self.lemma_wf_bufs();
                }
                Some(&self.grids[i].1)
            },
            None => None,
        }
    }
}

/// Updating one entry of the backing list updates one entry of the views.
proof fn lemma_grid_pairs_update(s: Seq<(u64, VimGrid)>, i: int, p: (u64, VimGrid))
    requires
        0 <= i < s.len(),
    ensures
        grid_pairs(s.update(i, p)) =~= grid_pairs(s).update(i, (p.0, p.1@)),
{
}

/// Appending to the backing list appends to the views.
proof fn lemma_grid_pairs_push(s: Seq<(u64, VimGrid)>, p: (u64, VimGrid))
    ensures
        grid_pairs(s.push(p)) =~= grid_pairs(s).push((p.0, p.1@)),
{
}

/// Removing from the backing list removes from the views.
proof fn lemma_grid_pairs_remove(s: Seq<(u64, VimGrid)>, i: int)
    requires
        0 <= i < s.len(),
    ensures
        grid_pairs(s.remove(i)) =~= grid_pairs(s).remove(i),
{
}

/// A placeholder grid value used while an entry is swapped out for mutation.
fn dummy_grid() -> (g: VimGrid)
{
    VimGrid::new(0, GridCoord { col: 0, row: 0 }, 0, 0)
}

impl GridRegistry {
    /// Register `grid` under the fresh id `id`.
    fn insert_new(&mut self, id: u64, grid: VimGrid)
        requires
            old(self).wf(),
            !old(self)@.contains_key(id),
            buf_wf(grid@.buf),
        ensures
            final(self).wf(),
            final(self)@ =~= old(self)@.insert(id, grid@),
    {
        proof {
            lemma_assoc_map_contains(grid_pairs(self.grids@), id);
            assert(forall|i: int| 0 <= i < grid_pairs(self.grids@).len() ==> (#[trigger] grid_pairs(
                self.grids@,
            )[i]).0 != id);
            lemma_assoc_map_push(grid_pairs(self.grids@), id, grid@);
            lemma_grid_pairs_push(self.grids@, (id, grid));
        }
        self.grids.push((id, grid));
        proof {
            assert(grid_pairs(self.grids@) =~= grid_pairs(old(self).grids@).push((id, grid@)));
        }
    }

    /// Replace the grid at entry `i` (same id) with `grid`.
    fn replace_at(&mut self, i: usize, id: u64, grid: VimGrid)
        requires
            old(self).wf(),
            i < old(self).grids@.len(),
            grid_pairs(old(self).grids@)[i as int].0 == id,
            buf_wf(grid@.buf),
        ensures
            final(self).wf(),
            final(self)@ =~= old(self)@.insert(id, grid@),
    {
        self.grids.set(i, (id, grid));
        proof {
            lemma_grid_pairs_update(old(self).grids@, i as int, (id, grid));
            lemma_assoc_map_update(grid_pairs(old(self).grids@), i as int, grid@);
        }
    }

    /// Resize the grid `id` to `width` x `height` cells, creating it at the
    /// origin if it does not exist yet.
    pub fn resize(&mut self, id: u64, width: usize, height: usize) -> (r: Result<(), GridError>)
        requires
            old(self).wf(),
        ensures
            final(self).wf(),
            match r {
                Ok(()) => if old(self)@.contains_key(id) {
                    &&& !resize_overflows(old(self)@[id].buf, height as int, width as int)
                    &&& final(self)@ =~= old(self)@.insert(
                        id,
                        GridView {
                            buf: spec_resize(old(self)@[id].buf, height as int, width as int),
                            ..old(self)@[id]
                        },
                    )
                } else {
                    final(self)@ =~= old(self)@.insert(
                        id,
                        fresh_grid(0, GridCoord { col: 0, row: 0 }, width as int, height as int),
                    )
                },
                Err(e) => {
                    &&& e == GridError::OffsetOverflow
                    &&& old(self)@.contains_key(id)
                    &&& resize_overflows(old(self)@[id].buf, height as int, width as int)
                    &&& final(self)@ =~= old(self)@
                },
            },
    {
        match self.position_of(id) {
            None => {
                let g = VimGrid::new(0, GridCoord { col: 0, row: 0 }, width, height);
                self.insert_new(id, g);
                Ok(())
            },
            Some(i) => {
                let mut pair = (0u64, dummy_grid());
                self.grids.set_and_swap(i, &mut pair);
                let res = pair.1.textbuf.resize(height, width);
                let ghost gv: GridView = pair.1@;
                let ghost newpair: (u64, VimGrid) = pair;
                self.grids.set_and_swap(i, &mut pair);
                proof {
                    assert(newpair.0 == id && newpair.1@ == gv);
                    assert(self.grids@ =~= old(self).grids@.update(i as int, newpair));
                    lemma_grid_pairs_update(old(self).grids@, i as int, newpair);
                    lemma_assoc_map_update(grid_pairs(old(self).grids@), i as int, gv);
                }
                match res {
                    Ok(()) => {
                        proof {
                            assert(gv == (GridView {
                                buf: spec_resize(old(self)@[id].buf, height as int, width as int),
                                ..old(self)@[id]
                            }));
                        }
                        Ok(())
                    },
                    Err(e) => {
                        proof {
                            assert(gv == old(self)@[id]);
                            assert(final(self)@ =~= old(self)@.insert(id, old(self)@[id]));
                            assert(final(self)@ =~= old(self)@);
                        }
                        Err(buf_err(e))
                    },
                }
            },
        }
    }
}

/// Zero if negative, else the value itself.
pub open spec fn clamp0(x: int) -> int {
    if x < 0 {
        0
    } else {
        x
    }
}

/// The anchor-relative offset of a floating grid: the anchor point, clamped
/// to be non-negative, minus the grid's own width or height on each axis
/// whose indicated corner is east or south respectively.
pub open spec fn float_offset(
    anchor: WindowAnchor,
    ac: int,
    ar: int,
    w: int,
    h: int,
) -> (int, int) {
    let c = clamp0(ac);
    let r = clamp0(ar);
    match anchor {
        WindowAnchor::NorthWest => (c, r),
        WindowAnchor::NorthEast => (c - w, r),
        WindowAnchor::SouthWest => (c, r - h),
        WindowAnchor::SouthEast => (c - w, r - h),
    }
}

/// The absolute origin a floating grid is placed at: the anchor grid's
/// origin plus the computed offset, clamped to be non-negative on each axis.
pub open spec fn float_coord(
    anchor: WindowAnchor,
    base: GridCoord,
    ac: int,
    ar: int,
    w: int,
    h: int,
) -> (int, int) {
    let o = float_offset(anchor, ac, ar, w, h);
    (base.col + clamp0(o.0), base.row + clamp0(o.1))
}

/// Whether a computed placement fits the coordinate type.
pub open spec fn coord_fits(c: (int, int)) -> bool {
    i64::MIN <= c.0 <= i64::MAX && i64::MIN <= c.1 <= i64::MAX
}

/// The smaller of a scroll amount and the buffer's height: scrolling farther
/// than the buffer is tall blanks it entirely.
pub open spec fn clamp_scroll(n: int, rows: int) -> int {
    if n <= rows {
        n
    } else {
        rows
    }
}

impl GridRegistry {
    /// Move (and resize) the grid `id` to `coord`, creating it there if it
    /// does not exist yet; a repositioned grid is marked shown.
    pub fn set_position(
        &mut self,
        id: u64,
        coord: GridCoord,
        width: usize,
        height: usize,
    ) -> (r: Result<(), GridError>)
        requires
            old(self).wf(),
        ensures
            final(self).wf(),
            match r {
                Ok(()) => if old(self)@.contains_key(id) {
                    &&& !resize_overflows(old(self)@[id].buf, height as int, width as int)
                    &&& final(self)@ =~= old(self)@.insert(
                        id,
                        GridView {
                            coord,
                            hidden: false,
                            buf: spec_resize(old(self)@[id].buf, height as int, width as int),
                            ..old(self)@[id]
                        },
                    )
                } else {
                    final(self)@ =~= old(self)@.insert(
                        id,
                        fresh_grid(0, coord, width as int, height as int),
                    )
                },
                Err(e) => {
                    &&& e == GridError::OffsetOverflow
                    &&& old(self)@.contains_key(id)
                    &&& resize_overflows(old(self)@[id].buf, height as int, width as int)
                    &&& final(self)@ =~= old(self)@
                },
            },
    {
        match self.position_of(id) {
            None => {
                let g = VimGrid::new(0, coord, width, height);
                self.insert_new(id, g);
                Ok(())
            },
            Some(i) => {
                let mut pair = (0u64, dummy_grid());
                self.grids.set_and_swap(i, &mut pair);
                let res = pair.1.textbuf.resize(height, width);
                match res {
                    Ok(()) => {
                        pair.1.coord = coord;
                        pair.1.hidden = false;
                    },
                    Err(_) => (),
                }
                let ghost gv: GridView = pair.1@;
                let ghost newpair: (u64, VimGrid) = pair;
                self.grids.set_and_swap(i, &mut pair);
                proof {
                    assert(self.grids@ =~= old(self).grids@.update(i as int, newpair));
                    lemma_grid_pairs_update(old(self).grids@, i as int, newpair);
                    lemma_assoc_map_update(grid_pairs(old(self).grids@), i as int, gv);
                }
                match res {
                    Ok(()) => Ok(()),
                    Err(e) => {
                        proof {
                            assert(gv == old(self)@[id]);
                            assert(final(self)@ =~= old(self)@);
                        }
                        Err(buf_err(e))
                    },
                }
            },
        }
    }

    /// Record the viewport reported for grid `id` and mark the grid shown;
    /// if the grid does not exist yet, create an empty placeholder carrying
    /// the viewport.  Returns whether the grid already existed.
    pub fn set_viewport(&mut self, id: u64, vp: Viewport) -> (r: bool)
        requires
            old(self).wf(),
        ensures
            final(self).wf(),
            r == old(self)@.contains_key(id),
            r ==> final(self)@ =~= old(self)@.insert(
                id,
                GridView { viewport: Some(vp), hidden: false, ..old(self)@[id] },
            ),
            !r ==> final(self)@ =~= old(self)@.insert(
                id,
                GridView {
                    viewport: Some(vp),
                    ..fresh_grid(0, GridCoord { col: 0, row: 0 }, 0, 0)
                },
            ),
    {
        match self.position_of(id) {
            None => {
                let mut g = VimGrid::new(0, GridCoord { col: 0, row: 0 }, 0, 0);
                g.viewport = Some(vp);
                self.insert_new(id, g);
                false
            },
            Some(i) => {
                let mut pair = (0u64, dummy_grid());
                self.grids.set_and_swap(i, &mut pair);
                pair.1.viewport = Some(vp);
                pair.1.hidden = false;
                let ghost gv: GridView = pair.1@;
                let ghost newpair: (u64, VimGrid) = pair;
                self.grids.set_and_swap(i, &mut pair);
                proof {
                    assert(self.grids@ =~= old(self).grids@.update(i as int, newpair));
                    lemma_grid_pairs_update(old(self).grids@, i as int, newpair);
                    lemma_assoc_map_update(grid_pairs(old(self).grids@), i as int, gv);
                }
                true
            },
        }
    }

    /// Conceal grid `id` without destroying its state.  Returns whether the
    /// grid exists.
    pub fn hide_grid(&mut self, id: u64) -> (r: bool)
        requires
            old(self).wf(),
        ensures
            final(self).wf(),
            r == old(self)@.contains_key(id),
            r ==> final(self)@ =~= old(self)@.insert(
                id,
                GridView { hidden: true, ..old(self)@[id] },
            ),
            !r ==> final(self)@ =~= old(self)@,
    {
        match self.position_of(id) {
            None => false,
            Some(i) => {
                let mut pair = (0u64, dummy_grid());
                self.grids.set_and_swap(i, &mut pair);
                pair.1.hidden = true;
                let ghost gv: GridView = pair.1@;
                let ghost newpair: (u64, VimGrid) = pair;
                self.grids.set_and_swap(i, &mut pair);
                proof {
                    assert(self.grids@ =~= old(self).grids@.update(i as int, newpair));
                    lemma_grid_pairs_update(old(self).grids@, i as int, newpair);
                    lemma_assoc_map_update(grid_pairs(old(self).grids@), i as int, gv);
                }
                true
            },
        }
    }

    /// Show grid `id`.  Returns whether the grid exists.
    pub fn show_grid(&mut self, id: u64) -> (r: bool)
        requires
            old(self).wf(),
        ensures
            final(self).wf(),
            r == old(self)@.contains_key(id),
            r ==> final(self)@ =~= old(self)@.insert(
                id,
                GridView { hidden: false, ..old(self)@[id] },
            ),
            !r ==> final(self)@ =~= old(self)@,
    {
        match self.position_of(id) {
            None => false,
            Some(i) => {
                let mut pair = (0u64, dummy_grid());
                self.grids.set_and_swap(i, &mut pair);
                pair.1.hidden = false;
                let ghost gv: GridView = pair.1@;
                let ghost newpair: (u64, VimGrid) = pair;
                self.grids.set_and_swap(i, &mut pair);
                proof {
                    assert(self.grids@ =~= old(self).grids@.update(i as int, newpair));
                    lemma_grid_pairs_update(old(self).grids@, i as int, newpair);
                    lemma_assoc_map_update(grid_pairs(old(self).grids@), i as int, gv);
                }
                true
            },
        }
    }

    /// Remove grid `id` and its buffer entirely (close and destroy share
    /// this terminal transition).  Returns whether the grid existed.
    pub fn remove(&mut self, id: u64) -> (r: bool)
        requires
            old(self).wf(),
        ensures
            final(self).wf(),
            r == old(self)@.contains_key(id),
            final(self)@ =~= old(self)@.remove(id),
    {
        match self.position_of(id) {
            None => {
                proof {
                    assert(old(self)@.remove(id) =~= old(self)@);
                }
                false
            },
            Some(i) => {
                proof {
                    lemma_grid_pairs_remove(old(self).grids@, i as int);
                    lemma_assoc_map_remove(grid_pairs(old(self).grids@), i as int);
                }
                self.grids.remove(i);
                true
            },
        }
    }

    /// Blank every line of grid `id`.  Returns whether the grid exists.
    pub fn clear(&mut self, id: u64) -> (r: bool)
        requires
            old(self).wf(),
        ensures
            final(self).wf(),
            r == old(self)@.contains_key(id),
            r ==> final(self)@ =~= old(self)@.insert(
                id,
                GridView {
                    buf: blank_buf(old(self)@[id].buf.rows, old(self)@[id].buf.cols),
                    ..old(self)@[id]
                },
            ),
            !r ==> final(self)@ =~= old(self)@,
    {
        match self.position_of(id) {
            None => false,
            Some(i) => {
                let mut pair = (0u64, dummy_grid());
                self.grids.set_and_swap(i, &mut pair);
                pair.1.textbuf.clear();
                let ghost gv: GridView = pair.1@;
                let ghost newpair: (u64, VimGrid) = pair;
                self.grids.set_and_swap(i, &mut pair);
                proof {
                    assert(self.grids@ =~= old(self).grids@.update(i as int, newpair));
                    lemma_grid_pairs_update(old(self).grids@, i as int, newpair);
                    lemma_assoc_map_update(grid_pairs(old(self).grids@), i as int, gv);
                }
                true
            },
        }
    }

    /// Scroll grid `id` up by `n` rows, clamped to the grid's height.
    /// Returns whether the grid exists.
    pub fn scroll_up(&mut self, id: u64, n: usize) -> (r: bool)
        requires
            old(self).wf(),
        ensures
            final(self).wf(),
            r == old(self)@.contains_key(id),
            r ==> final(self)@ =~= old(self)@.insert(
                id,
                GridView {
                    buf: spec_up(
                        old(self)@[id].buf,
                        clamp_scroll(n as int, old(self)@[id].buf.rows),
                    ),
                    ..old(self)@[id]
                },
            ),
            !r ==> final(self)@ =~= old(self)@,
    {
        match self.position_of(id) {
            None => false,
            Some(i) => {
                proof {
                    self.lemma_wf_bufs();
                }
                let mut pair = (0u64, dummy_grid());
                self.grids.set_and_swap(i, &mut pair);
                let rows = pair.1.textbuf.rows();
                let m: usize = if n <= rows {
                    n
                } else {
                    rows
                };
                pair.1.textbuf.up(m);
                let ghost gv: GridView = pair.1@;
                let ghost newpair: (u64, VimGrid) = pair;
                self.grids.set_and_swap(i, &mut pair);
                proof {
                    assert(self.grids@ =~= old(self).grids@.update(i as int, newpair));
                    lemma_grid_pairs_update(old(self).grids@, i as int, newpair);
                    lemma_assoc_map_update(grid_pairs(old(self).grids@), i as int, gv);
                }
                true
            },
        }
    }

    /// Scroll grid `id` down by `n` rows, clamped to the grid's height.
    /// Returns whether the grid exists.
    pub fn scroll_down(&mut self, id: u64, n: usize) -> (r: bool)
        requires
            old(self).wf(),
        ensures
            final(self).wf(),
            r == old(self)@.contains_key(id),
            r ==> final(self)@ =~= old(self)@.insert(
                id,
                GridView {
                    buf: spec_down(
                        old(self)@[id].buf,
                        clamp_scroll(n as int, old(self)@[id].buf.rows),
                    ),
                    ..old(self)@[id]
                },
            ),
            !r ==> final(self)@ =~= old(self)@,
    {
        match self.position_of(id) {
            None => false,
            Some(i) => {
                proof {
                    self.lemma_wf_bufs();
                }
                let mut pair = (0u64, dummy_grid());
                self.grids.set_and_swap(i, &mut pair);
                let rows = pair.1.textbuf.rows();
                let m: usize = if n <= rows {
                    n
                } else {
                    rows
                };
                pair.1.textbuf.down(m);
                let ghost gv: GridView = pair.1@;
                let ghost newpair: (u64, VimGrid) = pair;
                self.grids.set_and_swap(i, &mut pair);
                proof {
                    assert(self.grids@ =~= old(self).grids@.update(i as int, newpair));
                    lemma_grid_pairs_update(old(self).grids@, i as int, newpair);
                    lemma_assoc_map_update(grid_pairs(old(self).grids@), i as int, gv);
                }
                true
            },
        }
    }

    /// Apply a line update to grid `id`.
    pub fn set_cells(
        &mut self,
        id: u64,
        row: usize,
        col: usize,
        runs: &Vec<GridLineCell>,
        table: &HighlightDefinitions,
    ) -> (r: Result<(), GridError>)
        requires
            old(self).wf(),
            table.wf(),
        ensures
            final(self).wf(),
            match r {
                Ok(()) => {
                    &&& old(self)@.contains_key(id)
                    &&& row < old(self)@[id].buf.rows
                    &&& col + expand_runs(runs@).len() <= old(self)@[id].buf.cols
                    &&& width_prefix(
                        spliced_srcs(old(self)@[id].buf.lines[row as int], col as int, runs@),
                        old(self)@[id].buf.cols,
                    ) <= usize::MAX
                    &&& final(self)@ =~= old(self)@.insert(
                        id,
                        GridView {
                            buf: BufView {
                                lines: old(self)@[id].buf.lines.update(
                                    row as int,
                                    line_after_set_cells(
                                        old(self)@[id].buf.lines[row as int],
                                        col as int,
                                        runs@,
                                        table@.styles,
                                        table@.defaults,
                                    ),
                                ),
                                ..old(self)@[id].buf
                            },
                            ..old(self)@[id]
                        },
                    )
                },
                Err(GridError::NoSuchGrid) => {
                    &&& !old(self)@.contains_key(id)
                    &&& final(self)@ =~= old(self)@
                },
                Err(GridError::RowOutOfBounds) => {
                    &&& old(self)@.contains_key(id)
                    &&& row >= old(self)@[id].buf.rows
                    &&& final(self)@ =~= old(self)@
                },
                Err(GridError::RangeTooWide) => {
                    &&& old(self)@.contains_key(id)
                    &&& row < old(self)@[id].buf.rows
                    &&& col + expand_runs(runs@).len() > old(self)@[id].buf.cols
                    &&& final(self)@ =~= old(self)@
                },
                Err(GridError::OffsetOverflow) => {
                    &&& old(self)@.contains_key(id)
                    &&& row < old(self)@[id].buf.rows
                    &&& col + expand_runs(runs@).len() <= old(self)@[id].buf.cols
                    &&& width_prefix(
                        spliced_srcs(old(self)@[id].buf.lines[row as int], col as int, runs@),
                        old(self)@[id].buf.cols,
                    ) > usize::MAX
                    &&& final(self)@ =~= old(self)@
                },
                Err(GridError::PlacementOverflow) => false,
            },
    {
        match self.position_of(id) {
            None => Err(GridError::NoSuchGrid),
            Some(i) => {
                proof {
                    self.lemma_wf_bufs();
                }
                let mut pair = (0u64, dummy_grid());
                self.grids.set_and_swap(i, &mut pair);
                let res = pair.1.textbuf.set_cells(row, col, runs, table);
                let ghost gv: GridView = pair.1@;
                let ghost newpair: (u64, VimGrid) = pair;
                self.grids.set_and_swap(i, &mut pair);
                proof {
                    assert(self.grids@ =~= old(self).grids@.update(i as int, newpair));
                    lemma_grid_pairs_update(old(self).grids@, i as int, newpair);
                    lemma_assoc_map_update(grid_pairs(old(self).grids@), i as int, gv);
                }
                match res {
                    Ok(()) => Ok(()),
                    Err(e) => {
                        proof {
                            assert(gv == old(self)@[id]);
                            assert(final(self)@ =~= old(self)@);
                        }
                        Err(buf_err(e))
                    },
                }
            },
        }
    }

    /// Place the floating grid `id` relative to an anchor point within grid
    /// `anchor_grid` and mark it floating with the given focusability.
    pub fn set_float_position(
        &mut self,
        id: u64,
        anchor: WindowAnchor,
        anchor_grid: u64,
        anchor_col: i64,
        anchor_row: i64,
        focusable: bool,
    ) -> (r: Result<(), GridError>)
        requires
            old(self).wf(),
        ensures
            final(self).wf(),
            match r {
                Ok(()) => {
                    &&& old(self)@.contains_key(anchor_grid)
                    &&& old(self)@.contains_key(id)
                    &&& coord_fits(
                        float_coord(
                            anchor,
                            old(self)@[anchor_grid].coord,
                            anchor_col as int,
                            anchor_row as int,
                            old(self)@[id].buf.cols,
                            old(self)@[id].buf.rows,
                        ),
                    )
                    &&& final(self)@ =~= old(self)@.insert(
                        id,
                        GridView {
                            coord: GridCoord {
                                col: float_coord(
                                    anchor,
                                    old(self)@[anchor_grid].coord,
                                    anchor_col as int,
                                    anchor_row as int,
                                    old(self)@[id].buf.cols,
                                    old(self)@[id].buf.rows,
                                ).0 as i64,
                                row: float_coord(
                                    anchor,
                                    old(self)@[anchor_grid].coord,
                                    anchor_col as int,
                                    anchor_row as int,
                                    old(self)@[id].buf.cols,
                                    old(self)@[id].buf.rows,
                                ).1 as i64,
                            },
                            is_float: true,
                            focusable,
                            ..old(self)@[id]
                        },
                    )
                },
                Err(GridError::NoSuchGrid) => {
                    &&& !(old(self)@.contains_key(anchor_grid) && old(self)@.contains_key(id))
                    &&& final(self)@ =~= old(self)@
                },
                Err(GridError::PlacementOverflow) => {
                    &&& old(self)@.contains_key(anchor_grid)
                    &&& old(self)@.contains_key(id)
                    &&& !coord_fits(
                        float_coord(
                            anchor,
                            old(self)@[anchor_grid].coord,
                            anchor_col as int,
                            anchor_row as int,
                            old(self)@[id].buf.cols,
                            old(self)@[id].buf.rows,
                        ),
                    )
                    &&& final(self)@ =~= old(self)@
                },
                Err(GridError::RowOutOfBounds) => false,
                Err(GridError::RangeTooWide) => false,
                Err(GridError::OffsetOverflow) => false,
            },
    {
        let base: GridCoord = match self.get(anchor_grid) {
            Some(g) => g.coord,
            None => {
                return Err(GridError::NoSuchGrid);
            },
        };
        match self.position_of(id) {
            None => Err(GridError::NoSuchGrid),
            Some(i) => {
                let mut pair = (0u64, dummy_grid());
                self.grids.set_and_swap(i, &mut pair);
                let w: usize = pair.1.textbuf.cols();
                let h: usize = pair.1.textbuf.rows();
                let ac: i64 = if anchor_col < 0 {
                    0
                } else {
                    anchor_col
                };
                let ar: i64 = if anchor_row < 0 {
                    0
                } else {
                    anchor_row
                };
                let dx: i128 = match anchor {
                    WindowAnchor::NorthWest => ac as i128,
                    WindowAnchor::NorthEast => ac as i128 - w as i128,
                    WindowAnchor::SouthWest => ac as i128,
                    WindowAnchor::SouthEast => ac as i128 - w as i128,
                };
                let dy: i128 = match anchor {
                    WindowAnchor::NorthWest => ar as i128,
                    WindowAnchor::NorthEast => ar as i128,
                    WindowAnchor::SouthWest => ar as i128 - h as i128,
                    WindowAnchor::SouthEast => ar as i128 - h as i128,
                };
                let dxc: i128 = if dx < 0 {
                    0
                } else {
                    dx
                };
                let dyc: i128 = if dy < 0 {
                    0
                } else {
                    dy
                };
                let ncol: i128 = base.col as i128 + dxc;
                let nrow: i128 = base.row as i128 + dyc;
                let fits: bool = ncol <= i64::MAX as i128 && nrow <= i64::MAX as i128;
                if fits {
                    pair.1.coord = GridCoord { col: ncol as i64, row: nrow as i64 };
                    pair.1.is_float = true;
                    pair.1.focusable = focusable;
                }
                let ghost gv: GridView = pair.1@;
                let ghost newpair: (u64, VimGrid) = pair;
                self.grids.set_and_swap(i, &mut pair);
                proof {
                    assert(self.grids@ =~= old(self).grids@.update(i as int, newpair));
                    lemma_grid_pairs_update(old(self).grids@, i as int, newpair);
                    lemma_assoc_map_update(grid_pairs(old(self).grids@), i as int, gv);
                }
                if fits {
                    Ok(())
                } else {
                    proof {
                        assert(gv == old(self)@[id]);
                        assert(final(self)@ =~= old(self)@);
                    }
                    Err(GridError::PlacementOverflow)
                }
            },
        }
    }

    /// A copy of the cell at `row` x `col` of grid `id`, if the grid exists
    /// and the position is in bounds.
    pub fn cell(&self, id: u64, row: usize, col: usize) -> (r: Option<TextCell>)
        requires
            self.wf(),
        ensures
            match r {
                Some(c) => {
                    &&& self@.contains_key(id)
                    &&& row < self@[id].buf.rows
                    &&& col < self@[id].buf.cols
                    &&& c@ == self@[id].buf.lines[row as int].cells[col as int]
                },
                None => !self@.contains_key(id) || row >= self@[id].buf.rows || col
                    >= self@[id].buf.cols,
            },
    {
        match self.get(id) {
            Some(g) => g.textbuf.cell(row, col),
            None => None,
        }
    }

    /// Recompute every cell's derived attributes in every grid from the
    /// current highlight table.
    pub fn reset_caches(&mut self, table: &HighlightDefinitions)
        requires
            old(self).wf(),
            table.wf(),
        ensures
            final(self).wf(),
            forall|id: u64| final(self)@.contains_key(id) == old(self)@.contains_key(id),
            forall|id: u64| old(self)@.contains_key(id) ==> final(self)@[id] == (GridView {
                buf: spec_reset_cache(old(self)@[id].buf, table@.styles, table@.defaults),
                ..old(self)@[id]
            }),
    {
        let ghost orig: Seq<(u64, GridView)> = grid_pairs(self.grids@);
        let mut i: usize = 0;
        while i < self.grids.len()
            invariant
                old(self).wf(),
                table.wf(),
                orig == grid_pairs(old(self).grids@),
                i <= self.grids@.len(),
                self.grids@.len() == orig.len(),
                forall|j: int| 0 <= j < orig.len() ==> (#[trigger] grid_pairs(self.grids@)[j]).0
                    == orig[j].0,
                forall|j: int| 0 <= j < i ==> (#[trigger] grid_pairs(self.grids@)[j]).1
                    == (GridView {
                    buf: spec_reset_cache(orig[j].1.buf, table@.styles, table@.defaults),
                    ..orig[j].1
                }),
                forall|j: int| i <= j < orig.len() ==> (#[trigger] grid_pairs(self.grids@)[j]).1
                    == orig[j].1,
                self.wf(),
            decreases self.grids@.len() - i,
        {
            let ghost pre0: Seq<(u64, VimGrid)> = self.grids@;
            let mut pair = (0u64, dummy_grid());
            self.grids.set_and_swap(i, &mut pair);
            proof {
                assert(pair == pre0[i as int]);
                assert(grid_pairs(pre0)[i as int].1 == orig[i as int].1);
                assert(grid_pairs(pre0)[i as int].0 == orig[i as int].0);
                assert(pair.1@ == orig[i as int].1);
                assert(pair.0 == orig[i as int].0);
                assert(buf_wf(grid_pairs(old(self).grids@)[i as int].1.buf));
                assert(buf_wf(pair.1@.buf));
            }
            pair.1.textbuf.reset_cache(table);
            let ghost gv: GridView = pair.1@;
            let ghost newpair: (u64, VimGrid) = pair;
            self.grids.set_and_swap(i, &mut pair);
            proof {
                assert(newpair.0 == orig[i as int].0);
                assert(gv == (GridView {
                    buf: spec_reset_cache(orig[i as int].1.buf, table@.styles, table@.defaults),
                    ..orig[i as int].1
                }));
                assert(self.grids@ =~= pre0.update(i as int, newpair));
                assert forall|j: int| 0 <= j < orig.len() implies (#[trigger] grid_pairs(
                    self.grids@,
                )[j]).0 == orig[j].0 by {
                    if j != i {
                        assert(self.grids@[j] == pre0[j]);
                        assert(grid_pairs(self.grids@)[j] == grid_pairs(pre0)[j]);
                    } else {
                        assert(grid_pairs(self.grids@)[j].0 == newpair.0);
                    }
                }
                assert forall|j: int| 0 <= j < orig.len() && j != i implies (#[trigger] grid_pairs(
                    self.grids@,
                )[j]).1 == grid_pairs(pre0)[j].1 by {
                    assert(self.grids@[j] == pre0[j]);
                }
                assert(grid_pairs(self.grids@)[i as int].1 == gv);
            }
            i = i + 1;
        }
        proof {
            let fin: Seq<(u64, GridView)> = grid_pairs(self.grids@);
            assert forall|id: u64| final(self)@.contains_key(id) == old(
                self,
            )@.contains_key(id) by {
                lemma_assoc_map_contains(fin, id);
                lemma_assoc_map_contains(orig, id);
                if final(self)@.contains_key(id) {
                    let j = choose|j: int| 0 <= j < fin.len() && fin[j].0 == id;
                    assert(orig[j].0 == id);
                } else if old(self)@.contains_key(id) {
                    let j = choose|j: int| 0 <= j < orig.len() && orig[j].0 == id;
                    assert(fin[j].0 == id);
                }
            }
            assert forall|id: u64| old(self)@.contains_key(id) implies final(self)@[id]
                == (GridView {
                buf: spec_reset_cache(old(self)@[id].buf, table@.styles, table@.defaults),
                ..old(self)@[id]
            }) by {
                lemma_assoc_map_contains(orig, id);
                let j = choose|j: int| 0 <= j < orig.len() && orig[j].0 == id;
                lemma_assoc_map_index(orig, j);
                lemma_assoc_map_index(fin, j);
            }
        }
    }
}

/// Float placement, stated plainly for anchor offsets that stay on the
/// surface: the grid's origin is the anchor grid's origin plus the anchor
/// point, minus the grid's own width (height) on the axes whose indicated
/// corner is east (south).  Offsets that would leave the surface are clamped
/// to zero before use, so such inputs fall outside this statement.
pub proof fn lemma_float_placement_unclamped(
    anchor: WindowAnchor,
    base: GridCoord,
    ac: int,
    ar: int,
    w: int,
    h: int,
)
    requires
        ac >= 0,
        ar >= 0,
        float_offset(anchor, ac, ar, w, h).0 >= 0,
        float_offset(anchor, ac, ar, w, h).1 >= 0,
    ensures
        float_coord(anchor, base, ac, ar, w, h) == (
            base.col + float_offset(anchor, ac, ar, w, h).0,
            base.row + float_offset(anchor, ac, ar, w, h).1,
        ),
        anchor == WindowAnchor::SouthEast ==> float_coord(anchor, base, ac, ar, w, h) == (
            base.col + ac - w,
            base.row + ar - h,
        ),
{
}

} // verus!
