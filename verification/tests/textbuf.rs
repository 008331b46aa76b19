//! Tests for the cell and line buffer: offsets, scrolling, resizing, and
//! the derived attribute lists.

use vimgrid::events::GridLineCell;
use vimgrid::highlights::{Color, Colors, HighlightDefinitions, HighlightStyle};
use vimgrid::textbuf::{AttrKind, TextBuf, TextBufError};

fn run(text: &str, hldef: Option<u64>, repeat: Option<u64>) -> GridLineCell {
    GridLineCell { text: text.to_string(), hldef, repeat, double_width: false }
}

fn assert_contiguous(buf: &TextBuf, row: usize) {
    let line = &buf.lines[row];
    assert_eq!(line.cells.len(), buf.cols);
    if !line.cells.is_empty() {
        assert_eq!(line.cells[0].start_index, 0);
    }
    for i in 0..line.cells.len() {
        let c = &line.cells[i];
        assert_eq!(c.end_index - c.start_index, c.text.len());
        if i + 1 < line.cells.len() {
            assert_eq!(line.cells[i + 1].start_index, c.end_index);
        }
    }
}

#[test]
fn blank_buffer_has_unit_offsets() {
    let buf = TextBuf::new(2, 4);
    assert_eq!(buf.rows, 2);
    assert_eq!(buf.cols, 4);
    for r in 0..2 {
        assert_contiguous(&buf, r);
        for c in 0..4 {
            let cell = &buf.lines[r].cells[c];
            assert_eq!(cell.text, " ");
            assert_eq!(cell.start_index, c);
            assert_eq!(cell.end_index, c + 1);
        }
    }
}

#[test]
fn set_cells_keeps_offsets_contiguous() {
    let table = HighlightDefinitions::new();
    let mut buf = TextBuf::new(3, 8);
    // A sequence of updates on one row, of different widths and overlaps.
    assert!(buf.set_cells(1, 0, &vec![run("abc", None, None)], &table).is_ok());
    assert_contiguous(&buf, 1);
    assert!(buf.set_cells(1, 2, &vec![run("xy", Some(3), Some(2)), run("q", None, None)], &table)
        .is_ok());
    assert_contiguous(&buf, 1);
    assert!(buf.set_cells(1, 6, &vec![run("!", None, Some(2))], &table).is_ok());
    assert_contiguous(&buf, 1);
    // Multi-byte text still counts bytes, not characters.
    assert!(buf.set_cells(1, 0, &vec![run("\u{e9}", None, None)], &table).is_ok());
    assert_contiguous(&buf, 1);
    assert_eq!(buf.lines[1].cells[0].end_index, 2);
    assert_eq!(buf.lines[1].cells[1].start_index, 2);
}

#[test]
fn set_cells_expands_repeats() {
    let table = HighlightDefinitions::new();
    let mut buf = TextBuf::new(1, 5);
    assert!(buf.set_cells(0, 0, &vec![run("ab", Some(7), Some(3))], &table).is_ok());
    for c in 0..3 {
        assert_eq!(buf.lines[0].cells[c].text, "ab");
        assert_eq!(buf.lines[0].cells[c].hldef, Some(7));
        assert_eq!(buf.lines[0].cells[c].start_index, 2 * c);
        assert_eq!(buf.lines[0].cells[c].end_index, 2 * c + 2);
    }
    // The untouched tail keeps its text and is reflowed after the new cells.
    assert_eq!(buf.lines[0].cells[3].text, " ");
    assert_eq!(buf.lines[0].cells[3].start_index, 6);
    assert_contiguous(&buf, 0);
}

#[test]
fn set_cells_rejects_bad_rows_and_ranges() {
    let table = HighlightDefinitions::new();
    let mut buf = TextBuf::new(2, 3);
    assert_eq!(
        buf.set_cells(2, 0, &vec![run("a", None, None)], &table),
        Err(TextBufError::RowOutOfBounds)
    );
    assert_eq!(
        buf.set_cells(0, 2, &vec![run("a", None, Some(2))], &table),
        Err(TextBufError::RangeTooWide)
    );
    assert_eq!(
        buf.set_cells(0, 4, &vec![], &table),
        Err(TextBufError::RangeTooWide)
    );
    // The buffer is untouched by a rejected update.
    assert_eq!(buf.lines[0].cells[2].text, " ");
    assert_contiguous(&buf, 0);
}

#[test]
fn set_cells_invalidates_line_cache() {
    let table = HighlightDefinitions::new();
    let mut buf = TextBuf::new(1, 3);
    buf.lines[0].set_cache(41);
    assert_eq!(buf.lines[0].cache(), Some(41));
    assert!(buf.set_cells(0, 0, &vec![run("a", None, None)], &table).is_ok());
    assert_eq!(buf.lines[0].cache(), None);
}

#[test]
fn scroll_up_discards_top_rows() {
    let table = HighlightDefinitions::new();
    let mut buf = TextBuf::new(3, 2);
    assert!(buf.set_cells(0, 0, &vec![run("a", None, None)], &table).is_ok());
    assert!(buf.set_cells(1, 0, &vec![run("b", None, None)], &table).is_ok());
    assert!(buf.set_cells(2, 0, &vec![run("c", None, None)], &table).is_ok());
    buf.up(1);
    assert_eq!(buf.lines[0].cells[0].text, "b");
    assert_eq!(buf.lines[1].cells[0].text, "c");
    assert_eq!(buf.lines[2].cells[0].text, " ");
}

#[test]
fn scroll_round_trip_blank_stays_blank() {
    let mut buf = TextBuf::new(4, 3);
    buf.up(2);
    buf.down(2);
    for r in 0..4 {
        for c in 0..3 {
            assert_eq!(buf.lines[r].cells[c].text, " ");
        }
    }
}

#[test]
fn scroll_round_trip_does_not_restore_content() {
    let table = HighlightDefinitions::new();
    let mut buf = TextBuf::new(2, 1);
    assert!(buf.set_cells(0, 0, &vec![run("x", None, None)], &table).is_ok());
    buf.up(1);
    buf.down(1);
    // The row that fell off the top is gone for good, not rotated back.
    assert_eq!(buf.lines[0].cells[0].text, " ");
    assert_eq!(buf.lines[1].cells[0].text, " ");
}

#[test]
fn resize_preserves_top_left_and_pads() {
    let table = HighlightDefinitions::new();
    let mut buf = TextBuf::new(2, 2);
    assert!(buf.set_cells(0, 0, &vec![run("ab", None, None), run("c", None, None)], &table)
        .is_ok());
    assert!(buf.resize(3, 4).is_ok());
    assert_eq!(buf.rows, 3);
    assert_eq!(buf.cols, 4);
    // Kept content survives; new columns continue the offsets contiguously.
    assert_eq!(buf.lines[0].cells[0].text, "ab");
    assert_eq!(buf.lines[0].cells[1].text, "c");
    assert_eq!(buf.lines[0].cells[2].text, " ");
    assert_eq!(buf.lines[0].cells[2].start_index, 3);
    assert_eq!(buf.lines[0].cells[3].start_index, 4);
    assert_contiguous(&buf, 0);
    // The new row is blank.
    for c in 0..4 {
        assert_eq!(buf.lines[2].cells[c].text, " ");
    }
}

#[test]
fn resize_truncates_rows_and_columns() {
    let table = HighlightDefinitions::new();
    let mut buf = TextBuf::new(2, 3);
    assert!(buf.set_cells(0, 0, &vec![run("abc", None, None)], &table).is_ok());
    assert!(buf.resize(1, 1).is_ok());
    assert_eq!(buf.rows, 1);
    assert_eq!(buf.cols, 1);
    assert_eq!(buf.lines.len(), 1);
    assert_eq!(buf.lines[0].cells.len(), 1);
    assert_eq!(buf.lines[0].cells[0].text, "abc");
}

#[test]
fn resize_same_dimensions_is_a_no_op() {
    let table = HighlightDefinitions::new();
    let mut buf = TextBuf::new(2, 3);
    assert!(buf.set_cells(1, 0, &vec![run("zz", None, None)], &table).is_ok());
    buf.lines[0].set_cache(7);
    assert!(buf.resize(2, 3).is_ok());
    // Nothing moved and nothing was invalidated, the cache included.
    assert_eq!(buf.lines[0].cache(), Some(7));
    assert_eq!(buf.lines[1].cells[0].text, "zz");
    // A second identical resize after a real one is also a no-op.
    assert!(buf.resize(4, 4).is_ok());
    buf.lines[2].set_cache(9);
    assert!(buf.resize(4, 4).is_ok());
    assert_eq!(buf.lines[2].cache(), Some(9));
}

#[test]
fn resize_invalidates_caches_when_dimensions_change() {
    let mut buf = TextBuf::new(2, 2);
    buf.lines[0].set_cache(5);
    assert!(buf.resize(2, 3).is_ok());
    assert_eq!(buf.lines[0].cache(), None);
}

#[test]
fn clear_blanks_every_line() {
    let table = HighlightDefinitions::new();
    let mut buf = TextBuf::new(2, 2);
    assert!(buf.set_cells(0, 0, &vec![run("hi", None, None)], &table).is_ok());
    buf.clear();
    for r in 0..2 {
        for c in 0..2 {
            assert_eq!(buf.lines[r].cells[c].text, " ");
        }
        assert_contiguous(&buf, r);
    }
}

#[test]
fn cell_lookup_respects_bounds() {
    let table = HighlightDefinitions::new();
    let mut buf = TextBuf::new(2, 2);
    assert!(buf.set_cells(0, 0, &vec![run("k", Some(2), None)], &table).is_ok());
    let c = buf.cell(0, 0).expect("cell in bounds");
    assert_eq!(c.text, "k");
    assert_eq!(c.hldef, Some(2));
    assert!(buf.cell(2, 0).is_none());
    assert!(buf.cell(0, 2).is_none());
}

#[test]
fn attrs_derive_from_highlight_table() {
    let mut table = HighlightDefinitions::new();
    table.set_defaults(Colors {
        foreground: Some(Color { red: 1, green: 2, blue: 3 }),
        background: Some(Color { red: 9, green: 9, blue: 9 }),
        special: None,
    });
    table.set(
        5,
        HighlightStyle {
            italic: true,
            bold: true,
            underline: false,
            undercurl: false,
            strikethrough: false,
            colors: Colors {
                foreground: None,
                background: Some(Color { red: 7, green: 7, blue: 7 }),
                special: None,
            },
            blend: 0,
        },
    );
    let mut buf = TextBuf::new(1, 2);
    assert!(buf.set_cells(0, 0, &vec![run("w", Some(5), None)], &table).is_ok());
    let attrs = &buf.lines[0].cells[0].attrs;
    // Italic, bold, the default foreground, and the style's own background.
    assert_eq!(attrs.len(), 4);
    assert!(matches!(attrs[0].kind, AttrKind::Italic));
    assert!(matches!(attrs[1].kind, AttrKind::Bold));
    assert!(matches!(attrs[2].kind, AttrKind::Foreground(c) if c.red == 1));
    assert!(matches!(attrs[3].kind, AttrKind::Background(c) if c.red == 7));
    assert_eq!(attrs[0].start_index, 0);
    assert_eq!(attrs[0].end_index, 1);
    // A cell without its own highlight id gets no background attribute.
    let plain = &buf.lines[0].cells[1].attrs;
    assert_eq!(plain.len(), 1);
    assert!(matches!(plain[0].kind, AttrKind::Foreground(c) if c.red == 1));
}

#[test]
fn reset_cache_recomputes_attrs_for_new_table() {
    let table = HighlightDefinitions::new();
    let mut buf = TextBuf::new(1, 1);
    assert!(buf.set_cells(0, 0, &vec![run("t", None, None)], &table).is_ok());
    assert_eq!(buf.lines[0].cells[0].attrs.len(), 0);
    let mut later = HighlightDefinitions::new();
    later.set_defaults(Colors {
        foreground: Some(Color { red: 4, green: 5, blue: 6 }),
        background: None,
        special: None,
    });
    buf.reset_cache(&later);
    let attrs = &buf.lines[0].cells[0].attrs;
    assert_eq!(attrs.len(), 1);
    assert!(matches!(attrs[0].kind, AttrKind::Foreground(c) if c.green == 5));
}

#[test]
fn scroll_amount_is_clamped_to_height() {
    let mut buf = TextBuf::new(2, 2);
    // Scrolling farther than the buffer is tall blanks it and must not panic.
    buf.up(2);
    buf.down(2);
    assert_eq!(buf.rows, 2);
    for r in 0..2 {
        assert_contiguous(&buf, r);
    }
}

#[test]
fn repeat_zero_expands_to_nothing() {
    let table = HighlightDefinitions::new();
    let mut buf = TextBuf::new(1, 2);
    assert!(buf.set_cells(0, 0, &vec![run("x", None, Some(0))], &table).is_ok());
    assert_eq!(buf.lines[0].cells[0].text, " ");
    assert_contiguous(&buf, 0);
    // An empty splice at the end of the line is valid too.
    assert!(buf.set_cells(0, 2, &vec![], &table).is_ok());
}

#[test]
fn resize_to_zero_and_back() {
    let mut buf = TextBuf::new(2, 2);
    assert!(buf.resize(0, 0).is_ok());
    assert_eq!(buf.rows, 0);
    assert_eq!(buf.lines.len(), 0);
    assert!(buf.resize(1, 3).is_ok());
    assert_eq!(buf.lines[0].cells.len(), 3);
    assert_contiguous(&buf, 0);
}
