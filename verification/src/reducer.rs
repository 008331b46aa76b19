//! The event reducer: the single owner of all mutable display state, which
//! applies each inbound redraw event strictly in stream order.
//!
//! Every event is total: malformed or out-of-order input is surfaced in the
//! returned outcome, never by a panic.  Unknown event kinds are skipped so
//! the reducer stays forward compatible with protocol extensions.

use vstd::prelude::*;

use crate::bus::{spec_send, BusMessage, EventAggregator};
use crate::cursor::{CursorState, CursorView};
use crate::events::{AppMessage, EditorMode, GuiOption, RedrawEvent};
use crate::grids::{clamp_scroll, coord_fits, float_coord, fresh_grid, GridCoord, GridError,
    GridRegistry, GridView, Viewport};
use crate::highlights::{Colors, HighlightDefinitions, HighlightGroups, HighlightStyle, HlView};
use crate::messages::{spec_push, MessageQueue, MsgView};
use crate::textbuf::{blank_buf, expand_runs, line_after_set_cells, spec_reset_cache, spec_resize,
    spec_up, spec_down, resize_overflows, spliced_srcs, width_prefix, BufView, CellView};
use crate::title::{normalize_title, spec_normalize_title, trim};
use crate::events::GridLineCell;
use crate::cursor::CursorMode;

verus! {

/// A command-line event forwarded to the prompt component, which lives
/// outside the reducer's state.
#[derive(Debug, PartialEq)]
pub enum CmdlineEvent {
    Show {
        content: Vec<(u64, String)>,
        position: u64,
        first_character: String,
        prompt: String,
        indent: u64,
        level: u64,
    },
    Hide,
    BlockHide,
}

/// What applying one message did.
#[derive(Debug, PartialEq)]
pub enum ApplyOutcome {
    /// The event mutated the model as specified.
    Applied,
    /// The event carries information the model does not hold; it was logged
    /// and skipped.
    Informational,
    /// An event kind this reducer does not know; skipped for forward
    /// compatibility.
    UnknownEvent,
    /// A scroll with no vertical component (horizontal scrolling is not
    /// supported); skipped with a diagnostic.
    UnsupportedScroll,
    /// A mode index out of the registered range: a desynchronized stream;
    /// skipped with a diagnostic.
    ModeIndexOutOfRange,
    /// A grid operation was refused; the model is unchanged.
    Rejected(GridError),
    /// A command-line event to forward to the prompt component.
    Cmdline(CmdlineEvent),
}

/// Abstract value of the whole model.
#[verifier::ext_equal]
pub struct ModelView {
    pub title: Seq<char>,
    pub guifont: Option<Seq<char>>,
    pub guifontset: Option<Seq<char>>,
    pub guifontwide: Option<Seq<char>>,
    pub show_tab_line: Option<u64>,
    pub linespace: i64,
    pub mode: EditorMode,
    pub mouse_on: bool,
    pub show_pointer: bool,
    pub background_changed: bool,
    pub font_changed: bool,
    pub hldefs: HlView,
    pub hlgroups: Map<Seq<char>, u64>,
    pub vgrids: Map<u64, GridView>,
    pub cursor: CursorView,
    pub messages: Seq<MsgView>,
    pub bus: Map<u64, crate::bus::ChannelView>,
}

/// The view of an optional string.
pub open spec fn opt_str_view(o: &Option<String>) -> Option<Seq<char>> {
    match o {
        Some(s) => Some(s@),
        None => None,
    }
}

/// The authoritative display model: highlight table, grid registry, cursor,
/// message queue, UI flags, and the event bus toward the outside loops.
pub struct AppModel {
    pub title: String,
    pub guifont: Option<String>,
    pub guifontset: Option<String>,
    pub guifontwide: Option<String>,
    pub show_tab_line: Option<u64>,
    pub linespace: i64,
    pub mode: EditorMode,
    pub mouse_on: bool,
    pub show_pointer: bool,
    pub background_changed: bool,
    pub font_changed: bool,
    pub hldefs: HighlightDefinitions,
    pub hlgroups: HighlightGroups,
    pub vgrids: GridRegistry,
    pub cursor: CursorState,
    pub messages: MessageQueue,
    pub bus: EventAggregator,
}

impl View for AppModel {
    type V = ModelView;

    open spec fn view(&self) -> ModelView {
        ModelView {
            title: self.title@,
            guifont: opt_str_view(&self.guifont),
            guifontset: opt_str_view(&self.guifontset),
            guifontwide: opt_str_view(&self.guifontwide),
            show_tab_line: self.show_tab_line,
            linespace: self.linespace,
            mode: self.mode,
            mouse_on: self.mouse_on,
            show_pointer: self.show_pointer,
            background_changed: self.background_changed,
            font_changed: self.font_changed,
            hldefs: self.hldefs@,
            hlgroups: self.hlgroups@,
            vgrids: self.vgrids@,
            cursor: self.cursor@,
            messages: self.messages@,
            bus: self.bus@,
        }
    }
}

/// The snapshot the cursor takes of the cell under it, if the grid and the
/// coordinate exist.
pub open spec fn cursor_snapshot(
    g: Map<u64, GridView>,
    grid: u64,
    row: int,
    col: int,
) -> Option<CellView> {
    if g.contains_key(grid) && row < g[grid].buf.rows && col < g[grid].buf.cols {
        Some(g[grid].buf.lines[row].cells[col])
    } else {
        None
    }
}

/// Every grid with its cell attributes recomputed under the given table.
pub open spec fn regs_reset(
    g: Map<u64, GridView>,
    styles: Map<u64, HighlightStyle>,
    defaults: Option<Colors>,
) -> Map<u64, GridView> {
    Map::new(
        |id: u64| g.contains_key(id),
        |id: u64| GridView { buf: spec_reset_cache(g[id].buf, styles, defaults), ..g[id] },
    )
}

/// The magnitude of a scroll amount.
pub open spec fn scroll_abs(rows: int) -> int {
    if rows < 0 {
        -rows
    } else {
        rows
    }
}

/// A scroll amount capped at the offset type's maximum before the grid
/// height clamps it (the cap never changes the clamped result on a real
/// buffer).
pub open spec fn sat_usize(x: int) -> int {
    if x > usize::MAX {
        usize::MAX as int
    } else {
        x
    }
}

/// The model and outcome after a line-update event: the row is replaced in
/// the target grid and, when the cursor sits on that row of that grid, its
/// cell snapshot is refreshed.
pub open spec fn spec_on_grid_line(
    m: ModelView,
    grid: u64,
    row: int,
    col: int,
    runs: Seq<GridLineCell>,
) -> (ModelView, ApplyOutcome) {
    if !m.vgrids.contains_key(grid) {
        (m, ApplyOutcome::Rejected(GridError::NoSuchGrid))
    } else {
        let buf = m.vgrids[grid].buf;
        if row >= buf.rows {
            (m, ApplyOutcome::Rejected(GridError::RowOutOfBounds))
        } else if col + expand_runs(runs).len() > buf.cols {
            (m, ApplyOutcome::Rejected(GridError::RangeTooWide))
        } else if width_prefix(spliced_srcs(buf.lines[row], col, runs), buf.cols) > usize::MAX {
            (m, ApplyOutcome::Rejected(GridError::OffsetOverflow))
        } else {
            let nb = BufView {
                lines: buf.lines.update(
                    row,
                    line_after_set_cells(buf.lines[row], col, runs, m.hldefs.styles,
                        m.hldefs.defaults),
                ),
                ..buf
            };
            let grids = m.vgrids.insert(grid, GridView { buf: nb, ..m.vgrids[grid] });
            let m1 = ModelView { vgrids: grids, ..m };
            if m.cursor.grid == grid && m.cursor.row == row {
                (
                    ModelView {
                        cursor: CursorView {
                            cell: cursor_snapshot(grids, grid, m.cursor.row as int,
                                m.cursor.col as int),
                            ..m.cursor
                        },
                        ..m1
                    },
                    ApplyOutcome::Applied,
                )
            } else {
                (m1, ApplyOutcome::Applied)
            }
        }
    }
}

/// The model and outcome after a scroll event: a vertical amount shifts the
/// grid (clamped to its height) and refreshes the cursor snapshot when the
/// cursor sits on that grid; a scroll without a vertical component is not
/// supported and is skipped.
pub open spec fn spec_on_scroll(m: ModelView, grid: u64, rows: int) -> (ModelView, ApplyOutcome) {
    if !m.vgrids.contains_key(grid) {
        (m, ApplyOutcome::Rejected(GridError::NoSuchGrid))
    } else if rows == 0 {
        (m, ApplyOutcome::UnsupportedScroll)
    } else {
        let buf = m.vgrids[grid].buf;
        let n = clamp_scroll(sat_usize(scroll_abs(rows)), buf.rows);
        let nb = if rows > 0 {
            spec_up(buf, n)
        } else {
            spec_down(buf, n)
        };
        let grids = m.vgrids.insert(grid, GridView { buf: nb, ..m.vgrids[grid] });
        let m1 = ModelView { vgrids: grids, ..m };
        if m.cursor.grid == grid {
            (
                ModelView {
                    cursor: CursorView {
                        cell: cursor_snapshot(grids, grid, m.cursor.row as int,
                            m.cursor.col as int),
                        ..m.cursor
                    },
                    ..m1
                },
                ApplyOutcome::Applied,
            )
        } else {
            (m1, ApplyOutcome::Applied)
        }
    }
}

/// The model and outcome after a grid-resize event: the grid is created at
/// the origin when absent, else its buffer is resized in place.
pub open spec fn spec_on_resize(
    m: ModelView,
    grid: u64,
    width: int,
    height: int,
) -> (ModelView, ApplyOutcome) {
    if !m.vgrids.contains_key(grid) {
        (
            ModelView {
                vgrids: m.vgrids.insert(
                    grid,
                    fresh_grid(0, GridCoord { col: 0, row: 0 }, width, height),
                ),
                ..m
            },
            ApplyOutcome::Applied,
        )
    } else if resize_overflows(m.vgrids[grid].buf, height, width) {
        (m, ApplyOutcome::Rejected(GridError::OffsetOverflow))
    } else {
        (
            ModelView {
                vgrids: m.vgrids.insert(
                    grid,
                    GridView {
                        buf: spec_resize(m.vgrids[grid].buf, height, width),
                        ..m.vgrids[grid]
                    },
                ),
                ..m
            },
            ApplyOutcome::Applied,
        )
    }
}

/// The model and outcome after a window-position event: the grid is created
/// at the coordinate when absent, else moved, resized and shown.
pub open spec fn spec_on_window_position(
    m: ModelView,
    grid: u64,
    coord: GridCoord,
    width: int,
    height: int,
) -> (ModelView, ApplyOutcome) {
    if !m.vgrids.contains_key(grid) {
        (
            ModelView { vgrids: m.vgrids.insert(grid, fresh_grid(0, coord, width, height)), ..m },
            ApplyOutcome::Applied,
        )
    } else if resize_overflows(m.vgrids[grid].buf, height, width) {
        (m, ApplyOutcome::Rejected(GridError::OffsetOverflow))
    } else {
        (
            ModelView {
                vgrids: m.vgrids.insert(
                    grid,
                    GridView {
                        coord,
                        hidden: false,
                        buf: spec_resize(m.vgrids[grid].buf, height, width),
                        ..m.vgrids[grid]
                    },
                ),
                ..m
            },
            ApplyOutcome::Applied,
        )
    }
}

/// The model after a viewport event: the viewport is recorded and the grid
/// shown; a viewport arriving before its grid creates an empty placeholder.
pub open spec fn spec_on_window_viewport(
    m: ModelView,
    grid: u64,
    vp: Viewport,
) -> (ModelView, ApplyOutcome) {
    if m.vgrids.contains_key(grid) {
        (
            ModelView {
                vgrids: m.vgrids.insert(
                    grid,
                    GridView { viewport: Some(vp), hidden: false, ..m.vgrids[grid] },
                ),
                ..m
            },
            ApplyOutcome::Applied,
        )
    } else {
        (
            ModelView {
                vgrids: m.vgrids.insert(
                    grid,
                    GridView {
                        viewport: Some(vp),
                        ..fresh_grid(0, GridCoord { col: 0, row: 0 }, 0, 0)
                    },
                ),
                ..m
            },
            ApplyOutcome::Applied,
        )
    }
}

/// The model and outcome after a float-placement event.
pub open spec fn spec_on_float_position(
    m: ModelView,
    grid: u64,
    anchor: crate::events::WindowAnchor,
    anchor_grid: u64,
    anchor_row: int,
    anchor_col: int,
    focusable: bool,
) -> (ModelView, ApplyOutcome) {
    if !(m.vgrids.contains_key(anchor_grid) && m.vgrids.contains_key(grid)) {
        (m, ApplyOutcome::Rejected(GridError::NoSuchGrid))
    } else {
        let c = float_coord(anchor, m.vgrids[anchor_grid].coord, anchor_col, anchor_row,
            m.vgrids[grid].buf.cols, m.vgrids[grid].buf.rows);
        if !coord_fits(c) {
            (m, ApplyOutcome::Rejected(GridError::PlacementOverflow))
        } else {
            (
                ModelView {
                    vgrids: m.vgrids.insert(
                        grid,
                        GridView {
                            coord: GridCoord { col: c.0 as i64, row: c.1 as i64 },
                            is_float: true,
                            focusable,
                            ..m.vgrids[grid]
                        },
                    ),
                    ..m
                },
                ApplyOutcome::Applied,
            )
        }
    }
}

/// The model and outcome after a message-position event: the message grid is
/// moved to the left edge at `row` and resized to the base grid's width,
/// created one row tall when absent.
pub open spec fn spec_on_message_set_position(
    m: ModelView,
    grid: u64,
    row: int,
) -> (ModelView, ApplyOutcome) {
    if !m.vgrids.contains_key(1) {
        (m, ApplyOutcome::Rejected(GridError::NoSuchGrid))
    } else {
        let w = m.vgrids[1].buf.cols;
        let coord = GridCoord { col: 0, row: row as i64 };
        if m.vgrids.contains_key(grid) {
            spec_on_window_position(m, grid, coord, w, m.vgrids[grid].buf.rows)
        } else {
            spec_on_window_position(m, grid, coord, w, 1)
        }
    }
}

/// The model and outcome after an option-set event.  Only a non-blank GUI
/// font changes derived state: it is recorded, every grid's attribute cache
/// is recomputed, and the font-changed and cursor-moved flags are raised.
pub open spec fn spec_on_option(m: ModelView, o: GuiOption) -> (ModelView, ApplyOutcome) {
    match o {
        GuiOption::GuiFont(f) => if trim(f@).len() > 0 {
            (
                ModelView {
                    guifont: Some(f@),
                    font_changed: true,
                    cursor: CursorView { moved: true, ..m.cursor },
                    vgrids: regs_reset(m.vgrids, m.hldefs.styles, m.hldefs.defaults),
                    ..m
                },
                ApplyOutcome::Applied,
            )
        } else {
            (m, ApplyOutcome::Applied)
        },
        GuiOption::GuiFontSet(s) => (
            ModelView { guifontset: Some(s@), ..m },
            ApplyOutcome::Applied,
        ),
        GuiOption::GuiFontWide(s) => (
            ModelView { guifontwide: Some(s@), ..m },
            ApplyOutcome::Applied,
        ),
        GuiOption::LineSpace(l) => (ModelView { linespace: l, ..m }, ApplyOutcome::Applied),
        GuiOption::ShowTabLine(v) => (
            ModelView { show_tab_line: Some(v), ..m },
            ApplyOutcome::Applied,
        ),
        GuiOption::AmbiWidth(_) => (m, ApplyOutcome::Informational),
        GuiOption::ArabicShape(_) => (m, ApplyOutcome::Informational),
        GuiOption::Emoji(_) => (m, ApplyOutcome::Informational),
        GuiOption::TermGuiColors(_) => (m, ApplyOutcome::Informational),
        GuiOption::Pumblend(_) => (m, ApplyOutcome::Informational),
        GuiOption::Unknown(_) => (m, ApplyOutcome::Informational),
    }
}

/// Whether a mode change shows the pointer again: back to normal (or an
/// unrecognized mode), as observed behavior has it.
pub open spec fn mode_shows_pointer(mode: &EditorMode) -> bool {
    mode matches EditorMode::Normal || mode matches EditorMode::Unknown(_)
}

impl AppModel {
    /// The components with internal invariants are well formed.
    pub open spec fn wf(&self) -> bool {
        &&& self.hldefs.wf()
        &&& self.hlgroups.wf()
        &&& self.vgrids.wf()
        &&& self.bus.wf()
    }

    /// A fresh model: empty tables, no grids, the cursor at the origin of
    /// grid `0`, an empty message queue, and the pointer shown.
    pub fn new() -> (r: AppModel)
        ensures
            r.wf(),
            r@.title =~= Seq::<char>::empty(),
            r@.guifont is None,
            r@.guifontset is None,
            r@.guifontwide is None,
            r@.show_tab_line is None,
            r@.linespace == 0,
            r@.mode == EditorMode::Normal,
            !r@.mouse_on,
            r@.show_pointer,
            !r@.background_changed,
            !r@.font_changed,
            r@.hldefs.styles =~= Map::<u64, HighlightStyle>::empty(),
            r@.hldefs.defaults is None,
            r@.hlgroups =~= Map::<Seq<char>, u64>::empty(),
            r@.vgrids =~= Map::<u64, GridView>::empty(),
            r@.messages =~= Seq::<MsgView>::empty(),
            r@.bus =~= Map::<u64, crate::bus::ChannelView>::empty(),
            r@.cursor.grid == 0 && r@.cursor.row == 0 && r@.cursor.col == 0,
            r@.cursor.mode_index == 0 && r@.cursor.modes =~= Seq::<CursorMode>::empty(),
            r@.cursor.cell is None && !r@.cursor.moved,
    {
        AppModel {
            title: String::new(),
            guifont: None,
            guifontset: None,
            guifontwide: None,
            show_tab_line: None,
            linespace: 0,
            mode: EditorMode::Normal,
            mouse_on: false,
            show_pointer: true,
            background_changed: false,
            font_changed: false,
            hldefs: HighlightDefinitions::new(),
            hlgroups: HighlightGroups::new(),
            vgrids: GridRegistry::new(),
            cursor: CursorState::new(),
            messages: MessageQueue::new(),
            bus: EventAggregator::new(),
        }
    }
}

/// The model and outcome after a cursor-move event: the move is recorded and
/// the hovered cell snapshotted (left unset when the coordinate has no
/// backing cell); a move onto a grid that does not exist changes nothing.
pub open spec fn spec_on_cursor_goto(
    m: ModelView,
    grid: u64,
    row: usize,
    col: usize,
) -> (ModelView, ApplyOutcome) {
    if !m.vgrids.contains_key(grid) {
        (m, ApplyOutcome::Rejected(GridError::NoSuchGrid))
    } else {
        (
            ModelView {
                cursor: CursorView {
                    grid,
                    row,
                    col,
                    moved: true,
                    cell: cursor_snapshot(m.vgrids, grid, row as int, col as int),
                    ..m.cursor
                },
                ..m
            },
            ApplyOutcome::Applied,
        )
    }
}

/// The model and outcome after one redraw event.  This is the reducer's
/// whole specification: one case per event kind, each total.
pub open spec fn spec_apply_event(m: ModelView, event: RedrawEvent) -> (ModelView, ApplyOutcome) {
    match event {
        RedrawEvent::SetTitle { title } => (
            ModelView { title: spec_normalize_title(title@), ..m },
            ApplyOutcome::Applied,
        ),
        RedrawEvent::OptionSet { gui_option } => spec_on_option(m, gui_option),
        RedrawEvent::DefaultColorsSet { colors } => (
            ModelView {
                hldefs: HlView { styles: m.hldefs.styles, defaults: Some(colors) },
                background_changed: true,
                ..m
            },
            ApplyOutcome::Applied,
        ),
        RedrawEvent::HighlightAttributesDefine { id, style } => (
            ModelView {
                hldefs: HlView { styles: m.hldefs.styles.insert(id, style), ..m.hldefs },
                ..m
            },
            ApplyOutcome::Applied,
        ),
        RedrawEvent::HighlightGroupSet { name, id } => (
            ModelView { hlgroups: m.hlgroups.insert(name@, id), ..m },
            ApplyOutcome::Applied,
        ),
        RedrawEvent::Clear { grid } => if m.vgrids.contains_key(grid) {
            (
                ModelView {
                    vgrids: m.vgrids.insert(
                        grid,
                        GridView {
                            buf: blank_buf(m.vgrids[grid].buf.rows, m.vgrids[grid].buf.cols),
                            ..m.vgrids[grid]
                        },
                    ),
                    ..m
                },
                ApplyOutcome::Applied,
            )
        } else {
            (m, ApplyOutcome::Rejected(GridError::NoSuchGrid))
        },
        RedrawEvent::GridLine { grid, row, column_start, cells } => spec_on_grid_line(
            m,
            grid,
            row as int,
            column_start as int,
            cells@,
        ),
        RedrawEvent::Scroll { grid, rows, .. } => spec_on_scroll(m, grid, rows as int),
        RedrawEvent::Resize { grid, width, height } => spec_on_resize(
            m,
            grid,
            width as int,
            height as int,
        ),
        RedrawEvent::WindowPosition { grid, start_row, start_column, width, height } =>
            spec_on_window_position(
            m,
            grid,
            GridCoord { col: start_column, row: start_row },
            width as int,
            height as int,
        ),
        RedrawEvent::WindowViewport {
            grid,
            top_line,
            bottom_line,
            current_line,
            current_column,
            line_count,
        } => spec_on_window_viewport(
            m,
            grid,
            Viewport { top_line, bottom_line, current_line, current_column, line_count },
        ),
        RedrawEvent::WindowHide { grid } => if m.vgrids.contains_key(grid) {
            (
                ModelView {
                    vgrids: m.vgrids.insert(grid, GridView { hidden: true, ..m.vgrids[grid] }),
                    ..m
                },
                ApplyOutcome::Applied,
            )
        } else {
            (m, ApplyOutcome::Rejected(GridError::NoSuchGrid))
        },
        RedrawEvent::WindowClose { grid } => (
            ModelView { vgrids: m.vgrids.remove(grid), ..m },
            if m.vgrids.contains_key(grid) {
                ApplyOutcome::Applied
            } else {
                ApplyOutcome::Rejected(GridError::NoSuchGrid)
            },
        ),
        RedrawEvent::Destroy { grid } => (
            ModelView { vgrids: m.vgrids.remove(grid), ..m },
            if m.vgrids.contains_key(grid) {
                ApplyOutcome::Applied
            } else {
                ApplyOutcome::Rejected(GridError::NoSuchGrid)
            },
        ),
        RedrawEvent::Flush => (m, ApplyOutcome::Applied),
        RedrawEvent::CursorGoto { grid, row, column } => spec_on_cursor_goto(m, grid, row, column),
        RedrawEvent::ModeInfoSet { cursor_modes } => (
            ModelView { cursor: CursorView { modes: cursor_modes@, ..m.cursor }, ..m },
            if m.cursor.mode_index < cursor_modes@.len() {
                ApplyOutcome::Applied
            } else {
                ApplyOutcome::ModeIndexOutOfRange
            },
        ),
        RedrawEvent::ModeChange { mode, mode_index } => if mode_index < m.cursor.modes.len() {
            (
                ModelView {
                    show_pointer: if mode_shows_pointer(&mode) {
                        true
                    } else {
                        m.show_pointer
                    },
                    mode,
                    cursor: CursorView { mode_index, ..m.cursor },
                    ..m
                },
                ApplyOutcome::Applied,
            )
        } else {
            (m, ApplyOutcome::ModeIndexOutOfRange)
        },
        RedrawEvent::BusyStart => (ModelView { show_pointer: true, ..m }, ApplyOutcome::Applied),
        RedrawEvent::BusyStop => (ModelView { show_pointer: true, ..m }, ApplyOutcome::Applied),
        RedrawEvent::MouseOn => (ModelView { mouse_on: true, ..m }, ApplyOutcome::Applied),
        RedrawEvent::MouseOff => (ModelView { mouse_on: false, ..m }, ApplyOutcome::Applied),
        RedrawEvent::MessageShow { kind, content, replace_last } => (
            ModelView {
                messages: spec_push(m.messages, MsgView { kind, content: content@ }, replace_last),
                ..m
            },
            ApplyOutcome::Applied,
        ),
        RedrawEvent::MessageShowMode { .. } => (m, ApplyOutcome::Informational),
        RedrawEvent::MessageShowCommand { .. } => (m, ApplyOutcome::Informational),
        RedrawEvent::MessageRuler { .. } => (m, ApplyOutcome::Informational),
        RedrawEvent::MessageHistoryShow { .. } => (m, ApplyOutcome::Informational),
        RedrawEvent::MessageSetPosition { grid, row, .. } => spec_on_message_set_position(
            m,
            grid,
            row as int,
        ),
        RedrawEvent::MessageClear => (
            ModelView { messages: Seq::empty(), ..m },
            ApplyOutcome::Applied,
        ),
        RedrawEvent::WindowFloatPosition {
            grid,
            anchor,
            anchor_grid,
            anchor_row,
            anchor_column,
            focusable,
            ..
        } => spec_on_float_position(
            m,
            grid,
            anchor,
            anchor_grid,
            anchor_row as int,
            anchor_column as int,
            focusable,
        ),
        RedrawEvent::CommandLineShow { content, position, first_character, prompt, indent, level }
            => (
            m,
            ApplyOutcome::Cmdline(
                CmdlineEvent::Show { content, position, first_character, prompt, indent, level },
            ),
        ),
        RedrawEvent::CommandLineHide => (m, ApplyOutcome::Cmdline(CmdlineEvent::Hide)),
        RedrawEvent::CommandLineBlockHide => (m, ApplyOutcome::Cmdline(CmdlineEvent::BlockHide)),
        RedrawEvent::Unknown { .. } => (m, ApplyOutcome::UnknownEvent),
    }
}

/// The model and outcome after one application message.
pub open spec fn spec_update(m: ModelView, message: AppMessage) -> (ModelView, ApplyOutcome) {
    match message {
        AppMessage::Quit => (m, ApplyOutcome::Applied),
        AppMessage::ShowPointer => (
            ModelView { show_pointer: true, ..m },
            ApplyOutcome::Applied,
        ),
        AppMessage::UiCommand(cmd) => (
            ModelView { bus: spec_send(m.bus, BusMessage::Command(cmd)), ..m },
            ApplyOutcome::Applied,
        ),
        AppMessage::RedrawEvent(e) => spec_apply_event(m, e),
    }
}

impl AppModel {
    /// Apply one redraw event to the model, in stream order.  The returned
    /// outcome reports what happened; no input makes this panic.
    #[verifier::rlimit(100)]
    #[verifier::spinoff_prover]
    pub fn apply_redraw(&mut self, event: RedrawEvent) -> (r: ApplyOutcome)
        requires
            old(self).wf(),
        ensures
            final(self).wf(),
            (final(self)@, r) == spec_apply_event(old(self)@, event),
    {
        match event {
            RedrawEvent::SetTitle { title } => {
                self.title = normalize_title(&title);
                ApplyOutcome::Applied
            },
            RedrawEvent::OptionSet { gui_option } => self.apply_option(gui_option),
            RedrawEvent::DefaultColorsSet { colors } => {
                self.hldefs.set_defaults(colors);
                self.background_changed = true;
                ApplyOutcome::Applied
            },
            RedrawEvent::HighlightAttributesDefine { id, style } => {
                self.hldefs.set(id, style);
                ApplyOutcome::Applied
            },
            RedrawEvent::HighlightGroupSet { name, id } => {
                self.hlgroups.set(name, id);
                ApplyOutcome::Applied
            },
            RedrawEvent::Clear { grid } => {
                if self.vgrids.clear(grid) {
                    ApplyOutcome::Applied
                } else {
                    ApplyOutcome::Rejected(GridError::NoSuchGrid)
                }
            },
            RedrawEvent::GridLine { grid, row, column_start, cells } => self.on_grid_line(
                grid,
                row,
                column_start,
                cells,
            ),
            RedrawEvent::Scroll { grid, rows, .. } => self.on_scroll(grid, rows),
            RedrawEvent::Resize { grid, width, height } => {
                match self.vgrids.resize(grid, width, height) {
                    Ok(()) => ApplyOutcome::Applied,
                    Err(e) => ApplyOutcome::Rejected(e),
                }
            },
            RedrawEvent::WindowPosition { grid, start_row, start_column, width, height } => {
                let coord = GridCoord { col: start_column, row: start_row };
                match self.vgrids.set_position(grid, coord, width, height) {
                    Ok(()) => ApplyOutcome::Applied,
                    Err(e) => ApplyOutcome::Rejected(e),
                }
            },
            RedrawEvent::WindowViewport {
                grid,
                top_line,
                bottom_line,
                current_line,
                current_column,
                line_count,
            } => {
                let vp = Viewport { top_line, bottom_line, current_line, current_column,
                    line_count };
                self.vgrids.set_viewport(grid, vp);
                ApplyOutcome::Applied
            },
            RedrawEvent::WindowHide { grid } => {
                if self.vgrids.hide_grid(grid) {
                    ApplyOutcome::Applied
                } else {
                    ApplyOutcome::Rejected(GridError::NoSuchGrid)
                }
            },
            RedrawEvent::WindowClose { grid } => {
                if self.vgrids.remove(grid) {
                    ApplyOutcome::Applied
                } else {
                    ApplyOutcome::Rejected(GridError::NoSuchGrid)
                }
            },
            RedrawEvent::Destroy { grid } => {
                if self.vgrids.remove(grid) {
                    ApplyOutcome::Applied
                } else {
                    ApplyOutcome::Rejected(GridError::NoSuchGrid)
                }
            },
            RedrawEvent::Flush => ApplyOutcome::Applied,
            RedrawEvent::CursorGoto { grid, row, column } => {
                match self.cursor.goto(&self.vgrids, grid, row, column) {
                    Ok(_) => ApplyOutcome::Applied,
                    Err(e) => ApplyOutcome::Rejected(e),
                }
            },
            RedrawEvent::ModeInfoSet { cursor_modes } => {
                let n = cursor_modes.len();
                self.cursor.set_modes(cursor_modes);
                if self.cursor.mode_index < n {
                    ApplyOutcome::Applied
                } else {
                    ApplyOutcome::ModeIndexOutOfRange
                }
            },
            RedrawEvent::ModeChange { mode, mode_index } => {
                if mode_index < self.cursor.modes.len() {
                    self.cursor.set_mode(mode_index);
                    let show = match &mode {
                        EditorMode::Normal => true,
                        EditorMode::Unknown(_) => true,
                        _ => false,
                    };
                    self.mode = mode;
                    if show {
                        self.show_pointer = true;
                    }
                    ApplyOutcome::Applied
                } else {
                    ApplyOutcome::ModeIndexOutOfRange
                }
            },
            RedrawEvent::BusyStart => {
                self.show_pointer = true;
                ApplyOutcome::Applied
            },
            RedrawEvent::BusyStop => {
                self.show_pointer = true;
                ApplyOutcome::Applied
            },
            RedrawEvent::MouseOn => {
                self.mouse_on = true;
                ApplyOutcome::Applied
            },
            RedrawEvent::MouseOff => {
                self.mouse_on = false;
                ApplyOutcome::Applied
            },
            RedrawEvent::MessageShow { kind, content, replace_last } => {
                self.messages.push(kind, content, replace_last);
                ApplyOutcome::Applied
            },
            RedrawEvent::MessageShowMode { .. } => ApplyOutcome::Informational,
            RedrawEvent::MessageShowCommand { .. } => ApplyOutcome::Informational,
            RedrawEvent::MessageRuler { .. } => ApplyOutcome::Informational,
            RedrawEvent::MessageHistoryShow { .. } => ApplyOutcome::Informational,
            RedrawEvent::MessageSetPosition { grid, row, .. } => {
                let w: usize;
                match self.vgrids.get(1) {
                    Some(g1) => {
                        w = g1.width();
                    },
                    None => {
                        return ApplyOutcome::Rejected(GridError::NoSuchGrid);
                    },
                }
                let coord = GridCoord { col: 0, row };
                let existing: Option<usize> = match self.vgrids.get(grid) {
                    Some(g) => Some(g.height()),
                    None => None,
                };
                let res = match existing {
                    Some(h) => self.vgrids.set_position(grid, coord, w, h),
                    None => self.vgrids.set_position(grid, coord, w, 1),
                };
                match res {
                    Ok(()) => ApplyOutcome::Applied,
                    Err(e) => ApplyOutcome::Rejected(e),
                }
            },
            RedrawEvent::MessageClear => {
                self.messages.clear();
                ApplyOutcome::Applied
            },
            RedrawEvent::WindowFloatPosition {
                grid,
                anchor,
                anchor_grid,
                anchor_row,
                anchor_column,
                focusable,
                ..
            } => {
                match self.vgrids.set_float_position(grid, anchor, anchor_grid, anchor_column,
                    anchor_row, focusable) {
                    Ok(()) => ApplyOutcome::Applied,
                    Err(e) => ApplyOutcome::Rejected(e),
                }
            },
            RedrawEvent::CommandLineShow {
                content,
                position,
                first_character,
                prompt,
                indent,
                level,
            } => ApplyOutcome::Cmdline(
                CmdlineEvent::Show { content, position, first_character, prompt, indent, level },
            ),
            RedrawEvent::CommandLineHide => ApplyOutcome::Cmdline(CmdlineEvent::Hide),
            RedrawEvent::CommandLineBlockHide => ApplyOutcome::Cmdline(CmdlineEvent::BlockHide),
            RedrawEvent::Unknown { .. } => ApplyOutcome::UnknownEvent,
        }
    }

    /// Apply an option-set event.
    fn apply_option(&mut self, gui_option: GuiOption) -> (r: ApplyOutcome)
        requires
            old(self).wf(),
        ensures
            final(self).wf(),
            (final(self)@, r) == spec_on_option(old(self)@, gui_option),
    {
        match gui_option {
            GuiOption::GuiFont(f) => {
                if !crate::title::trimmed_is_empty(&f) {
                    self.guifont = Some(f);
                    self.font_changed = true;
                    self.cursor.moved = true;
                    self.vgrids.reset_caches(&self.hldefs);
                    proof {
                        let target = regs_reset(old(self)@.vgrids, old(self)@.hldefs.styles, old(
                            self,
                        )@.hldefs.defaults);
                        assert(self.vgrids@ =~= target);
                    }
                    ApplyOutcome::Applied
                } else {
                    ApplyOutcome::Applied
                }
            },
            GuiOption::GuiFontSet(s) => {
                self.guifontset = Some(s);
                ApplyOutcome::Applied
            },
            GuiOption::GuiFontWide(s) => {
                self.guifontwide = Some(s);
                ApplyOutcome::Applied
            },
            GuiOption::LineSpace(l) => {
                self.linespace = l;
                ApplyOutcome::Applied
            },
            GuiOption::ShowTabLine(v) => {
                self.show_tab_line = Some(v);
                ApplyOutcome::Applied
            },
            GuiOption::AmbiWidth(_) => ApplyOutcome::Informational,
            GuiOption::ArabicShape(_) => ApplyOutcome::Informational,
            GuiOption::Emoji(_) => ApplyOutcome::Informational,
            GuiOption::TermGuiColors(_) => ApplyOutcome::Informational,
            GuiOption::Pumblend(_) => ApplyOutcome::Informational,
            GuiOption::Unknown(_) => ApplyOutcome::Informational,
        }
    }

    /// Dispatch one application message: outbound commands go onto the bus,
    /// pointer requests raise the flag, and redraw events are applied.
    pub fn update(&mut self, message: AppMessage) -> (r: ApplyOutcome)
        requires
            old(self).wf(),
        ensures
            final(self).wf(),
            (final(self)@, r) == spec_update(old(self)@, message),
    {
        match message {
            AppMessage::Quit => ApplyOutcome::Applied,
            AppMessage::ShowPointer => {
                self.show_pointer = true;
                ApplyOutcome::Applied
            },
            AppMessage::UiCommand(cmd) => {
                self.bus.send(BusMessage::Command(cmd));
                ApplyOutcome::Applied
            },
            AppMessage::RedrawEvent(e) => self.apply_redraw(e),
        }
    }
}


impl AppModel {
    /// Apply a line-update event: replace the cells and refresh the cursor
    /// snapshot when the cursor sits on the updated row.
    fn on_grid_line(
        &mut self,
        grid: u64,
        row: usize,
        column_start: usize,
        cells: Vec<GridLineCell>,
    ) -> (r: ApplyOutcome)
        requires
            old(self).wf(),
        ensures
            final(self).wf(),
            (final(self)@, r) == spec_on_grid_line(
                old(self)@,
                grid,
                row as int,
                column_start as int,
                cells@,
            ),
    {
        let res = self.vgrids.set_cells(grid, row, column_start, &cells, &self.hldefs);
        match res {
            Ok(()) => {
                if self.cursor.grid == grid && self.cursor.row == row {
                    let snap = self.vgrids.cell(grid, self.cursor.row, self.cursor.col);
                    self.cursor.cell = snap;
                }
                ApplyOutcome::Applied
            },
            Err(e) => ApplyOutcome::Rejected(e),
        }
    }

    /// Apply a scroll event: a vertical amount shifts the grid and refreshes
    /// the cursor snapshot; anything else is unsupported and skipped.
    fn on_scroll(&mut self, grid: u64, rows: i64) -> (r: ApplyOutcome)
        requires
            old(self).wf(),
        ensures
            final(self).wf(),
            (final(self)@, r) == spec_on_scroll(old(self)@, grid, rows as int),
    {
        if !self.vgrids.contains(grid) {
            ApplyOutcome::Rejected(GridError::NoSuchGrid)
        } else if rows > 0 {
            let n: usize = if rows as u64 > usize::MAX as u64 {
                usize::MAX
            } else {
                rows as usize
            };
            self.vgrids.scroll_up(grid, n);
            proof {
                assert(n as int == sat_usize(scroll_abs(rows as int)));
            }
            if self.cursor.grid == grid {
                let snap = self.vgrids.cell(grid, self.cursor.row, self.cursor.col);
                self.cursor.cell = snap;
            }
            ApplyOutcome::Applied
        } else if rows < 0 {
            let m: i128 = -(rows as i128);
            let n: usize = if m > usize::MAX as i128 {
                usize::MAX
            } else {
                m as usize
            };
            self.vgrids.scroll_down(grid, n);
            proof {
                assert(n as int == sat_usize(scroll_abs(rows as int)));
            }
            if self.cursor.grid == grid {
                let snap = self.vgrids.cell(grid, self.cursor.row, self.cursor.col);
                self.cursor.cell = snap;
            }
            ApplyOutcome::Applied
        } else {
            ApplyOutcome::UnsupportedScroll
        }
    }
}

/// Offset contiguity across the whole model: in a well-formed model (which
/// every applied message preserves) each line of each grid keeps strictly
/// increasing, contiguous byte offsets, each cell spanning exactly the byte
/// width of its text.
pub proof fn lemma_model_offsets_contiguous(m: &AppModel, id: u64, r: int, i: int)
    requires
        m.wf(),
        m@.vgrids.contains_key(id),
        0 <= r < m@.vgrids[id].buf.rows,
        0 <= i < m@.vgrids[id].buf.cols,
    ensures
        m@.vgrids[id].buf.lines[r].cells[i].end_index - m@.vgrids[id].buf.lines[r].cells[
            i
        ].start_index == crate::textbuf::text_width(m@.vgrids[id].buf.lines[r].cells[i].text),
        i < m@.vgrids[id].buf.cols - 1 ==> m@.vgrids[id].buf.lines[r].cells[i + 1].start_index
            == m@.vgrids[id].buf.lines[r].cells[i].end_index,
{
    m.vgrids.lemma_wf_bufs();
    crate::textbuf::lemma_line_offsets_contiguous(m@.vgrids[id].buf, r, i);
}

/// Highlight styles and group aliases are append/overwrite-only for the
/// session: no event deletes an entry from either table.
pub proof fn lemma_highlights_never_deleted(m: ModelView, e: RedrawEvent)
    ensures
        forall|id: u64| m.hldefs.styles.contains_key(id)
            ==> spec_apply_event(m, e).0.hldefs.styles.contains_key(id),
        forall|name: Seq<char>| m.hlgroups.contains_key(name)
            ==> spec_apply_event(m, e).0.hlgroups.contains_key(name),
{
}

} // verus!
