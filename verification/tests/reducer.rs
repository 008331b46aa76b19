//! End-to-end tests for the event reducer.

use vimgrid::events::{AppMessage, EditorMode, GridLineCell, GuiOption, RedrawEvent, WindowAnchor};
use vimgrid::grids::GridError;
use vimgrid::messages::MessageKind;
use vimgrid::highlights::{Color, Colors, HighlightStyle};
use vimgrid::reducer::{AppModel, ApplyOutcome, CmdlineEvent};

fn run1(text: &str) -> GridLineCell {
    GridLineCell { text: text.to_string(), hldef: None, repeat: None, double_width: false }
}

#[test]
fn resize_grid_line_flush_scenario() {
    let mut model = AppModel::new();
    let r = model.update(AppMessage::RedrawEvent(RedrawEvent::Resize {
        grid: 1,
        width: 80,
        height: 24,
    }));
    assert_eq!(r, ApplyOutcome::Applied);
    let cells = vec![run1("h"), run1("e"), run1("l"), run1("l"), run1("o")];
    let r = model.update(AppMessage::RedrawEvent(RedrawEvent::GridLine {
        grid: 1,
        row: 0,
        column_start: 0,
        cells,
    }));
    assert_eq!(r, ApplyOutcome::Applied);
    let r = model.update(AppMessage::RedrawEvent(RedrawEvent::Flush));
    assert_eq!(r, ApplyOutcome::Applied);

    let grid = model.vgrids.get(1).expect("grid 1 exists");
    assert_eq!(grid.width(), 80);
    assert_eq!(grid.height(), 24);
    let expected = ["h", "e", "l", "l", "o"];
    for col in 0..5 {
        let cell = &grid.textbuf.lines[0].cells[col];
        assert_eq!(cell.text, expected[col]);
        assert_eq!(cell.start_index, col);
        assert_eq!(cell.end_index, col + 1);
        assert_eq!(cell.hldef, None);
        // No highlight defined yet: the default style derives no attributes
        // beyond the (unset) colors.
        assert!(cell.attrs.is_empty());
    }
}

#[test]
fn grid_line_on_missing_grid_is_surfaced() {
    let mut model = AppModel::new();
    let r = model.update(AppMessage::RedrawEvent(RedrawEvent::GridLine {
        grid: 9,
        row: 0,
        column_start: 0,
        cells: vec![run1("x")],
    }));
    assert_eq!(r, ApplyOutcome::Rejected(GridError::NoSuchGrid));
}

#[test]
fn destroy_active_grid_leaves_cursor_dangling_until_goto() {
    let mut model = AppModel::new();
    model.update(AppMessage::RedrawEvent(RedrawEvent::Resize { grid: 1, width: 4, height: 2 }));
    model.update(AppMessage::RedrawEvent(RedrawEvent::Resize { grid: 2, width: 4, height: 2 }));
    let r = model.update(AppMessage::RedrawEvent(RedrawEvent::CursorGoto {
        grid: 2,
        row: 1,
        column: 3,
    }));
    assert_eq!(r, ApplyOutcome::Applied);
    assert_eq!(model.cursor.grid, 2);
    assert!(model.cursor.lookup_cell(&model.vgrids).is_some());

    // Destroying the active grid is legal; lookups now find no such grid.
    let r = model.update(AppMessage::RedrawEvent(RedrawEvent::Destroy { grid: 2 }));
    assert_eq!(r, ApplyOutcome::Applied);
    assert_eq!(model.cursor.grid, 2);
    assert!(model.cursor.lookup_cell(&model.vgrids).is_none());

    // A move onto a grid that is gone is refused and changes nothing.
    let r = model.update(AppMessage::RedrawEvent(RedrawEvent::CursorGoto {
        grid: 2,
        row: 0,
        column: 0,
    }));
    assert_eq!(r, ApplyOutcome::Rejected(GridError::NoSuchGrid));
    assert_eq!(model.cursor.grid, 2);

    // The next move onto a valid grid re-targets the cursor.
    let r = model.update(AppMessage::RedrawEvent(RedrawEvent::CursorGoto {
        grid: 1,
        row: 0,
        column: 0,
    }));
    assert_eq!(r, ApplyOutcome::Applied);
    assert_eq!(model.cursor.grid, 1);
    assert!(model.cursor.lookup_cell(&model.vgrids).is_some());
}

#[test]
fn horizontal_scroll_is_skipped() {
    let mut model = AppModel::new();
    model.update(AppMessage::RedrawEvent(RedrawEvent::Resize { grid: 1, width: 4, height: 4 }));
    let r = model.update(AppMessage::RedrawEvent(RedrawEvent::Scroll {
        grid: 1,
        top: 0,
        bottom: 4,
        left: 0,
        right: 4,
        rows: 0,
        columns: 2,
    }));
    assert_eq!(r, ApplyOutcome::UnsupportedScroll);
}

#[test]
fn vertical_scroll_shifts_rows() {
    let mut model = AppModel::new();
    model.update(AppMessage::RedrawEvent(RedrawEvent::Resize { grid: 1, width: 2, height: 3 }));
    model.update(AppMessage::RedrawEvent(RedrawEvent::GridLine {
        grid: 1,
        row: 1,
        column_start: 0,
        cells: vec![run1("z")],
    }));
    let r = model.update(AppMessage::RedrawEvent(RedrawEvent::Scroll {
        grid: 1,
        top: 0,
        bottom: 3,
        left: 0,
        right: 2,
        rows: 1,
        columns: 0,
    }));
    assert_eq!(r, ApplyOutcome::Applied);
    let grid = model.vgrids.get(1).unwrap();
    assert_eq!(grid.textbuf.lines[0].cells[0].text, "z");
    assert_eq!(grid.textbuf.lines[1].cells[0].text, " ");
}

#[test]
fn unknown_events_are_skipped() {
    let mut model = AppModel::new();
    let r = model.update(AppMessage::RedrawEvent(RedrawEvent::Unknown {
        name: "grid_frobnicate".to_string(),
    }));
    assert_eq!(r, ApplyOutcome::UnknownEvent);
}

#[test]
fn mode_change_guards_the_index() {
    let mut model = AppModel::new();
    let r = model.update(AppMessage::RedrawEvent(RedrawEvent::ModeChange {
        mode: EditorMode::Insert,
        mode_index: 0,
    }));
    assert_eq!(r, ApplyOutcome::ModeIndexOutOfRange);
    assert_eq!(model.mode, EditorMode::Normal);

    let modes = vec![
        vimgrid::cursor::CursorMode {
            shape: Some(vimgrid::cursor::CursorShape::Block),
            style_id: None,
            cell_percentage: None,
            blinkwait: None,
            blinkon: None,
            blinkoff: None,
        },
        vimgrid::cursor::CursorMode {
            shape: Some(vimgrid::cursor::CursorShape::Vertical),
            style_id: Some(3),
            cell_percentage: Some(25),
            blinkwait: None,
            blinkon: None,
            blinkoff: None,
        },
    ];
    let r = model.update(AppMessage::RedrawEvent(RedrawEvent::ModeInfoSet {
        cursor_modes: modes,
    }));
    assert_eq!(r, ApplyOutcome::Applied);
    let r = model.update(AppMessage::RedrawEvent(RedrawEvent::ModeChange {
        mode: EditorMode::Insert,
        mode_index: 1,
    }));
    assert_eq!(r, ApplyOutcome::Applied);
    assert_eq!(model.mode, EditorMode::Insert);
    assert_eq!(model.cursor.mode_index, 1);
}

#[test]
fn mode_change_to_normal_shows_pointer() {
    let mut model = AppModel::new();
    model.show_pointer = false;
    model.update(AppMessage::RedrawEvent(RedrawEvent::ModeInfoSet {
        cursor_modes: vec![vimgrid::cursor::CursorMode {
            shape: None,
            style_id: None,
            cell_percentage: None,
            blinkwait: None,
            blinkon: None,
            blinkoff: None,
        }],
    }));
    let r = model.update(AppMessage::RedrawEvent(RedrawEvent::ModeChange {
        mode: EditorMode::Insert,
        mode_index: 0,
    }));
    assert_eq!(r, ApplyOutcome::Applied);
    assert!(!model.show_pointer);
    let r = model.update(AppMessage::RedrawEvent(RedrawEvent::ModeChange {
        mode: EditorMode::Normal,
        mode_index: 0,
    }));
    assert_eq!(r, ApplyOutcome::Applied);
    assert!(model.show_pointer);
}

#[test]
fn float_position_per_anchor_corner() {
    let mut model = AppModel::new();
    // Anchor grid 1 at origin (10, 5); floating grid 7 of size 4 x 2.
    model.update(AppMessage::RedrawEvent(RedrawEvent::WindowPosition {
        grid: 1,
        start_row: 5,
        start_column: 10,
        width: 40,
        height: 20,
    }));
    model.update(AppMessage::RedrawEvent(RedrawEvent::Resize { grid: 7, width: 4, height: 2 }));

    // North-west: the top-left corner sits on the anchor point.
    let r = model.update(AppMessage::RedrawEvent(RedrawEvent::WindowFloatPosition {
        grid: 7,
        anchor: WindowAnchor::NorthWest,
        anchor_grid: 1,
        anchor_row: 2,
        anchor_column: 3,
        focusable: true,
        sort_order: None,
    }));
    assert_eq!(r, ApplyOutcome::Applied);
    let g = model.vgrids.get(7).unwrap();
    assert_eq!((g.coord.col, g.coord.row), (13, 7));
    assert!(g.is_float);
    assert!(g.focusable);

    // South-east with room on both axes: width and height are subtracted.
    let r = model.update(AppMessage::RedrawEvent(RedrawEvent::WindowFloatPosition {
        grid: 7,
        anchor: WindowAnchor::SouthEast,
        anchor_grid: 1,
        anchor_row: 2,
        anchor_column: 5,
        focusable: false,
        sort_order: None,
    }));
    assert_eq!(r, ApplyOutcome::Applied);
    let g = model.vgrids.get(7).unwrap();
    assert_eq!((g.coord.col, g.coord.row), (10 + 5 - 4, 5 + 2 - 2));
    assert!(!g.focusable);

    // A computed offset that would leave the surface is clamped to zero
    // before it is added to the anchor grid's origin.
    let r = model.update(AppMessage::RedrawEvent(RedrawEvent::WindowFloatPosition {
        grid: 7,
        anchor: WindowAnchor::SouthEast,
        anchor_grid: 1,
        anchor_row: 2,
        anchor_column: 3,
        focusable: true,
        sort_order: None,
    }));
    assert_eq!(r, ApplyOutcome::Applied);
    let g = model.vgrids.get(7).unwrap();
    assert_eq!((g.coord.col, g.coord.row), (10, 5));
}

#[test]
fn float_position_missing_anchor_is_surfaced() {
    let mut model = AppModel::new();
    model.update(AppMessage::RedrawEvent(RedrawEvent::Resize { grid: 7, width: 4, height: 2 }));
    let r = model.update(AppMessage::RedrawEvent(RedrawEvent::WindowFloatPosition {
        grid: 7,
        anchor: WindowAnchor::NorthWest,
        anchor_grid: 1,
        anchor_row: 0,
        anchor_column: 0,
        focusable: true,
        sort_order: None,
    }));
    assert_eq!(r, ApplyOutcome::Rejected(GridError::NoSuchGrid));
}

#[test]
fn window_lifecycle_events() {
    let mut model = AppModel::new();
    model.update(AppMessage::RedrawEvent(RedrawEvent::WindowPosition {
        grid: 3,
        start_row: 1,
        start_column: 2,
        width: 10,
        height: 5,
    }));
    let g = model.vgrids.get(3).unwrap();
    assert_eq!((g.coord.col, g.coord.row), (2, 1));
    assert!(!g.hidden);

    let r = model.update(AppMessage::RedrawEvent(RedrawEvent::WindowHide { grid: 3 }));
    assert_eq!(r, ApplyOutcome::Applied);
    assert!(model.vgrids.get(3).unwrap().hidden);

    // A viewport event shows the grid again and records the viewport.
    let r = model.update(AppMessage::RedrawEvent(RedrawEvent::WindowViewport {
        grid: 3,
        top_line: 10,
        bottom_line: 15,
        current_line: 12,
        current_column: 0,
        line_count: 100,
    }));
    assert_eq!(r, ApplyOutcome::Applied);
    let g = model.vgrids.get(3).unwrap();
    assert!(!g.hidden);
    assert_eq!(g.viewport.unwrap().top_line, 10);

    let r = model.update(AppMessage::RedrawEvent(RedrawEvent::WindowClose { grid: 3 }));
    assert_eq!(r, ApplyOutcome::Applied);
    assert!(model.vgrids.get(3).is_none());
    let r = model.update(AppMessage::RedrawEvent(RedrawEvent::WindowClose { grid: 3 }));
    assert_eq!(r, ApplyOutcome::Rejected(GridError::NoSuchGrid));
}

#[test]
fn viewport_before_creation_makes_placeholder() {
    let mut model = AppModel::new();
    let r = model.update(AppMessage::RedrawEvent(RedrawEvent::WindowViewport {
        grid: 6,
        top_line: 1,
        bottom_line: 2,
        current_line: 1,
        current_column: 0,
        line_count: 9,
    }));
    assert_eq!(r, ApplyOutcome::Applied);
    let g = model.vgrids.get(6).expect("placeholder created");
    assert_eq!(g.width(), 0);
    assert_eq!(g.height(), 0);
    assert_eq!(g.viewport.unwrap().line_count, 9);
}

#[test]
fn message_show_and_replace_semantics() {
    let mut model = AppModel::new();
    // Replace-last on an empty queue pops nothing: plain append.
    let r = model.update(AppMessage::RedrawEvent(RedrawEvent::MessageShow {
        kind: MessageKind::Echo,
        content: vec![(0, "one".to_string())],
        replace_last: true,
    }));
    assert_eq!(r, ApplyOutcome::Applied);
    assert_eq!(model.messages.len(), 1);

    model.update(AppMessage::RedrawEvent(RedrawEvent::MessageShow {
        kind: MessageKind::Echo,
        content: vec![(0, "two".to_string())],
        replace_last: false,
    }));
    assert_eq!(model.messages.len(), 2);

    // Replace-last on a populated queue pops the most recent entry first.
    model.update(AppMessage::RedrawEvent(RedrawEvent::MessageShow {
        kind: MessageKind::Error,
        content: vec![(1, "three".to_string())],
        replace_last: true,
    }));
    assert_eq!(model.messages.len(), 2);
    assert_eq!(model.messages.get(0).unwrap().content[0].1, "one");
    assert_eq!(model.messages.get(1).unwrap().content[0].1, "three");
    assert_eq!(model.messages.get(1).unwrap().kind, MessageKind::Error);

    model.update(AppMessage::RedrawEvent(RedrawEvent::MessageClear));
    assert_eq!(model.messages.len(), 0);
}

#[test]
fn message_set_position_uses_base_grid_width() {
    let mut model = AppModel::new();
    let r = model.update(AppMessage::RedrawEvent(RedrawEvent::MessageSetPosition {
        grid: 5,
        row: 20,
        scrolled: false,
        separator_character: " ".to_string(),
    }));
    // Without the base grid there is no width to take.
    assert_eq!(r, ApplyOutcome::Rejected(GridError::NoSuchGrid));

    model.update(AppMessage::RedrawEvent(RedrawEvent::Resize { grid: 1, width: 80, height: 24 }));
    let r = model.update(AppMessage::RedrawEvent(RedrawEvent::MessageSetPosition {
        grid: 5,
        row: 20,
        scrolled: false,
        separator_character: " ".to_string(),
    }));
    assert_eq!(r, ApplyOutcome::Applied);
    let g = model.vgrids.get(5).unwrap();
    assert_eq!((g.coord.col, g.coord.row), (0, 20));
    assert_eq!(g.width(), 80);
    assert_eq!(g.height(), 1);
}

#[test]
fn title_and_options_update_state() {
    let mut model = AppModel::new();
    let r = model.update(AppMessage::RedrawEvent(RedrawEvent::SetTitle {
        title: "main.rs     my-project".to_string(),
    }));
    assert_eq!(r, ApplyOutcome::Applied);
    assert_eq!(model.title, "main.rs  my-project");

    let r = model.update(AppMessage::RedrawEvent(RedrawEvent::OptionSet {
        gui_option: GuiOption::GuiFont("monospace:h13".to_string()),
    }));
    assert_eq!(r, ApplyOutcome::Applied);
    assert_eq!(model.guifont.as_deref(), Some("monospace:h13"));
    assert!(model.font_changed);

    // A blank font name changes nothing.
    let mut fresh = AppModel::new();
    let r = fresh.update(AppMessage::RedrawEvent(RedrawEvent::OptionSet {
        gui_option: GuiOption::GuiFont("   ".to_string()),
    }));
    assert_eq!(r, ApplyOutcome::Applied);
    assert_eq!(fresh.guifont, None);
    assert!(!fresh.font_changed);

    let r = model.update(AppMessage::RedrawEvent(RedrawEvent::OptionSet {
        gui_option: GuiOption::LineSpace(2),
    }));
    assert_eq!(r, ApplyOutcome::Applied);
    assert_eq!(model.linespace, 2);

    let r = model.update(AppMessage::RedrawEvent(RedrawEvent::OptionSet {
        gui_option: GuiOption::AmbiWidth("double".to_string()),
    }));
    assert_eq!(r, ApplyOutcome::Informational);
}

#[test]
fn default_colors_and_highlight_definitions() {
    let mut model = AppModel::new();
    let r = model.update(AppMessage::RedrawEvent(RedrawEvent::DefaultColorsSet {
        colors: Colors {
            foreground: Some(Color { red: 10, green: 20, blue: 30 }),
            background: None,
            special: None,
        },
    }));
    assert_eq!(r, ApplyOutcome::Applied);
    assert!(model.background_changed);
    assert_eq!(model.hldefs.defaults().unwrap().foreground.unwrap().red, 10);

    let style = HighlightStyle {
        italic: false,
        bold: true,
        underline: false,
        undercurl: false,
        strikethrough: false,
        colors: Colors { foreground: None, background: None, special: None },
        blend: 0,
    };
    let r = model.update(AppMessage::RedrawEvent(RedrawEvent::HighlightAttributesDefine {
        id: 4,
        style,
    }));
    assert_eq!(r, ApplyOutcome::Applied);
    assert!(model.hldefs.get(4).unwrap().bold);

    let r = model.update(AppMessage::RedrawEvent(RedrawEvent::HighlightGroupSet {
        name: "Comment".to_string(),
        id: 4,
    }));
    assert_eq!(r, ApplyOutcome::Applied);
    assert_eq!(model.hlgroups.get(&"Comment".to_string()), Some(4));
}

#[test]
fn cmdline_events_are_forwarded() {
    let mut model = AppModel::new();
    let r = model.update(AppMessage::RedrawEvent(RedrawEvent::CommandLineShow {
        content: vec![(0, "q".to_string())],
        position: 1,
        first_character: ":".to_string(),
        prompt: "".to_string(),
        indent: 0,
        level: 1,
    }));
    match r {
        ApplyOutcome::Cmdline(CmdlineEvent::Show { position, level, .. }) => {
            assert_eq!(position, 1);
            assert_eq!(level, 1);
        },
        other => panic!("unexpected outcome {:?}", other),
    }
    let r = model.update(AppMessage::RedrawEvent(RedrawEvent::CommandLineHide));
    assert_eq!(r, ApplyOutcome::Cmdline(CmdlineEvent::Hide));
    let r = model.update(AppMessage::RedrawEvent(RedrawEvent::CommandLineBlockHide));
    assert_eq!(r, ApplyOutcome::Cmdline(CmdlineEvent::BlockHide));
}

#[test]
fn busy_and_mouse_events_set_flags() {
    let mut model = AppModel::new();
    model.show_pointer = false;
    assert_eq!(
        model.update(AppMessage::RedrawEvent(RedrawEvent::BusyStart)),
        ApplyOutcome::Applied
    );
    assert!(model.show_pointer);
    assert_eq!(model.update(AppMessage::RedrawEvent(RedrawEvent::MouseOn)), ApplyOutcome::Applied);
    assert!(model.mouse_on);
    assert_eq!(
        model.update(AppMessage::RedrawEvent(RedrawEvent::MouseOff)),
        ApplyOutcome::Applied
    );
    assert!(!model.mouse_on);
    model.show_pointer = false;
    assert_eq!(model.update(AppMessage::ShowPointer), ApplyOutcome::Applied);
    assert!(model.show_pointer);
}

#[test]
fn grid_line_refreshes_cursor_snapshot() {
    let mut model = AppModel::new();
    model.update(AppMessage::RedrawEvent(RedrawEvent::Resize { grid: 1, width: 4, height: 2 }));
    model.update(AppMessage::RedrawEvent(RedrawEvent::CursorGoto { grid: 1, row: 0, column: 1 }));
    assert_eq!(model.cursor.cell.as_ref().unwrap().text, " ");
    model.update(AppMessage::RedrawEvent(RedrawEvent::GridLine {
        grid: 1,
        row: 0,
        column_start: 0,
        cells: vec![run1("a"), run1("b")],
    }));
    assert_eq!(model.cursor.cell.as_ref().unwrap().text, "b");
}

#[test]
fn clear_event_blanks_or_reports() {
    let mut model = AppModel::new();
    let r = model.update(AppMessage::RedrawEvent(RedrawEvent::Clear { grid: 1 }));
    assert_eq!(r, ApplyOutcome::Rejected(GridError::NoSuchGrid));
    model.update(AppMessage::RedrawEvent(RedrawEvent::Resize { grid: 1, width: 2, height: 1 }));
    model.update(AppMessage::RedrawEvent(RedrawEvent::GridLine {
        grid: 1,
        row: 0,
        column_start: 0,
        cells: vec![run1("q")],
    }));
    let r = model.update(AppMessage::RedrawEvent(RedrawEvent::Clear { grid: 1 }));
    assert_eq!(r, ApplyOutcome::Applied);
    let g = model.vgrids.get(1).unwrap();
    assert_eq!(g.textbuf.lines[0].cells[0].text, " ");
}

#[test]
fn scroll_farther_than_height_blanks_the_grid() {
    let mut model = AppModel::new();
    model.update(AppMessage::RedrawEvent(RedrawEvent::Resize { grid: 1, width: 1, height: 2 }));
    model.update(AppMessage::RedrawEvent(RedrawEvent::GridLine {
        grid: 1,
        row: 0,
        column_start: 0,
        cells: vec![run1("y")],
    }));
    let r = model.update(AppMessage::RedrawEvent(RedrawEvent::Scroll {
        grid: 1,
        top: 0,
        bottom: 2,
        left: 0,
        right: 1,
        rows: 99,
        columns: 0,
    }));
    assert_eq!(r, ApplyOutcome::Applied);
    let g = model.vgrids.get(1).unwrap();
    assert_eq!(g.textbuf.lines[0].cells[0].text, " ");
    assert_eq!(g.textbuf.lines[1].cells[0].text, " ");
}

#[test]
fn informational_message_events_change_nothing() {
    let mut model = AppModel::new();
    let r = model.update(AppMessage::RedrawEvent(RedrawEvent::MessageShowMode {
        content: vec![(0, "-- INSERT --".to_string())],
    }));
    assert_eq!(r, ApplyOutcome::Informational);
    assert_eq!(model.messages.len(), 0);
    let r = model.update(AppMessage::RedrawEvent(RedrawEvent::MessageHistoryShow {
        entries: vec![],
    }));
    assert_eq!(r, ApplyOutcome::Informational);
}

#[test]
fn cursor_absolute_coordinate_adds_grid_origin() {
    let mut model = AppModel::new();
    model.update(AppMessage::RedrawEvent(RedrawEvent::WindowPosition {
        grid: 2,
        start_row: 5,
        start_column: 7,
        width: 10,
        height: 4,
    }));
    model.update(AppMessage::RedrawEvent(RedrawEvent::CursorGoto { grid: 2, row: 1, column: 3 }));
    let abs = model.cursor.absolute_coord(&model.vgrids).unwrap();
    assert_eq!((abs.col, abs.row), (7 + 3, 5 + 1));
    model.update(AppMessage::RedrawEvent(RedrawEvent::Destroy { grid: 2 }));
    assert!(model.cursor.absolute_coord(&model.vgrids).is_none());
}
