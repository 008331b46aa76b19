//! The typed inbound redraw events and outbound user commands of the
//! display protocol.
//!
//! The transport layer deserializes wire messages into these values and
//! hands them to the reducer in wire order; the reducer never sees a raw
//! payload.

use vstd::prelude::*;

use crate::cursor::CursorMode;
use crate::highlights::{Colors, HighlightStyle};
use crate::messages::MessageKind;

verus! {

/// One run of a line-update event: a text token with its highlight id,
/// expanded `repeat` times (once when absent) into consecutive cells.
pub struct GridLineCell {
    pub text: String,
    pub hldef: Option<u64>,
    pub repeat: Option<u64>,
    pub double_width: bool,
}

/// Which corner of a floating grid is pinned to the anchor point.
#[derive(Clone, Copy, Debug, PartialEq, Eq, Structural)]
pub enum WindowAnchor {
    NorthWest,
    NorthEast,
    SouthWest,
    SouthEast,
}

/// The editor mode reported by mode-change events.
#[derive(Debug, PartialEq, Eq)]
pub enum EditorMode {
    Normal,
    Insert,
    Visual,
    Replace,
    CmdLine,
    Unknown(String),
}

/// A UI option carried by an option-set event.
#[derive(Debug, PartialEq, Eq)]
pub enum GuiOption {
    AmbiWidth(String),
    ArabicShape(bool),
    Emoji(bool),
    GuiFont(String),
    GuiFontSet(String),
    GuiFontWide(String),
    LineSpace(i64),
    ShowTabLine(u64),
    TermGuiColors(bool),
    Pumblend(u64),
    Unknown(String),
}

/// One inbound redraw event, one variant per protocol message.
pub enum RedrawEvent {
    SetTitle { title: String },
    OptionSet { gui_option: GuiOption },
    DefaultColorsSet { colors: Colors },
    HighlightAttributesDefine { id: u64, style: HighlightStyle },
    HighlightGroupSet { name: String, id: u64 },
    Clear { grid: u64 },
    GridLine { grid: u64, row: usize, column_start: usize, cells: Vec<GridLineCell> },
    Scroll { grid: u64, top: u64, bottom: u64, left: u64, right: u64, rows: i64, columns: i64 },
    Resize { grid: u64, width: usize, height: usize },
    WindowPosition { grid: u64, start_row: i64, start_column: i64, width: usize, height: usize },
    WindowViewport {
        grid: u64,
        top_line: u64,
        bottom_line: u64,
        current_line: u64,
        current_column: u64,
        line_count: u64,
    },
    WindowHide { grid: u64 },
    WindowClose { grid: u64 },
    Destroy { grid: u64 },
    Flush,
    CursorGoto { grid: u64, row: usize, column: usize },
    ModeInfoSet { cursor_modes: Vec<CursorMode> },
    ModeChange { mode: EditorMode, mode_index: usize },
    BusyStart,
    BusyStop,
    MouseOn,
    MouseOff,
    MessageShow { kind: MessageKind, content: Vec<(u64, String)>, replace_last: bool },
    MessageShowMode { content: Vec<(u64, String)> },
    MessageShowCommand { content: Vec<(u64, String)> },
    MessageRuler { content: Vec<(u64, String)> },
    MessageHistoryShow { entries: Vec<(u64, String)> },
    MessageSetPosition { grid: u64, row: i64, scrolled: bool, separator_character: String },
    MessageClear,
    WindowFloatPosition {
        grid: u64,
        anchor: WindowAnchor,
        anchor_grid: u64,
        anchor_row: i64,
        anchor_column: i64,
        focusable: bool,
        sort_order: Option<u64>,
    },
    CommandLineShow {
        content: Vec<(u64, String)>,
        position: u64,
        first_character: String,
        prompt: String,
        indent: u64,
        level: u64,
    },
    CommandLineHide,
    CommandLineBlockHide,
    Unknown { name: String },
}

/// A mouse button, as drag tracking reports it.
#[derive(Clone, Copy, Debug, PartialEq, Eq, Structural)]
pub enum MouseButton {
    Left,
    Middle,
    Right,
}

/// An in-progress mouse drag.
#[derive(Clone, Copy, Debug)]
pub struct Dragging {
    pub btn: MouseButton,
    pub pos: (u32, u32),
}

/// An outbound command whose delivery order relative to other serial
/// commands must match the order it was generated in.
pub enum SerialCommand {
    Keyboard(String),
    Scroll { direction: String, grid_id: u64, position: (u32, u32), modifier: u32 },
}

/// An outbound command that may overtake queued serial commands.
pub enum ParallelCommand {
    Quit,
    Resize { width: u64, height: u64 },
    FocusGained,
    FocusLost,
}

/// One outbound command toward the remote process.
pub enum UiCommand {
    Serial(SerialCommand),
    Parallel(ParallelCommand),
}

/// One message the application loop dispatches.
pub enum AppMessage {
    Quit,
    ShowPointer,
    UiCommand(UiCommand),
    RedrawEvent(RedrawEvent),
}

} // verus!
