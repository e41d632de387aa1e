//! Laws of the library on concrete values.
use kokuban::decimal::push_decimal;
use kokuban::graphics::{InlineRenderSize, PlacementMode};
use kokuban::grid::buffer::{Buffer, RowMetadata};
use kokuban::grid::cell::{clamp_width, Cell, CellFlags};
use kokuban::grid::marks::{MarkIndex, PromptMarkKind};
use kokuban::grid::reflow::{reflow, RetainedRow};
use kokuban::grid::{dec_special_map, CharSet, Grid, KittyCommand, TerminalEvent};
use kokuban::input::keyboard::{
    encode_terminal_key, encode_terminal_key_with_modifiers, TerminalKey, TerminalKeyModifiers,
};
use kokuban::input::paste::{write_paste, PasteError};

fn text_of(grid: &Grid) -> String {
    let mut text = String::new();
    for row in 0..grid.retained_rows() {
        for col in 0..grid.retained_row_len(row) {
            let cell = grid.retained_cell_data(row, col);
            if !cell.flags.contains(CellFlags::WIDE_CONT) {
                text.push_str(&cell.text());
            }
        }
        if !grid.retained_row_wrapped(row) {
            text.push('\n');
        }
    }
    text.trim_end().to_string()
}

#[test]
fn numbers_are_written_without_leading_zeros() {
    for (number, digits) in [(0, "0"), (7, "7"), (10, "10"), (1_234_567_890, "1234567890")] {
        let mut out = b"n=".to_vec();
        push_decimal(&mut out, number);
        assert_eq!(out, format!("n={digits}").into_bytes());
    }
}

#[test]
fn flags_are_set_and_taken_back() {
    let mut flags = CellFlags::from_bits(CellFlags::BOLD);
    flags.insert(CellFlags::WIDE);
    assert!(flags.contains(CellFlags::BOLD | CellFlags::WIDE));
    assert!(flags.intersects(CellFlags::WIDE | CellFlags::HIDDEN));
    flags.remove(CellFlags::WIDE);
    assert_eq!(flags.bits(), CellFlags::BOLD);
    assert_eq!(CellFlags::empty().bits(), 0);
    assert_eq!((clamp_width(0), clamp_width(2), clamp_width(9)), (1, 2, 2));
}

#[test]
fn scrolls_of_a_buffer_add_up_and_undo_each_other() {
    let filled = || {
        let mut buffer = Buffer::new(1, 5);
        for row in 0..5 {
            buffer.cell_mut(row, 0).c = char::from(b'a' + row as u8);
        }
        buffer
    };
    let rows = |buffer: &Buffer| -> String { (0..5).map(|row| buffer.cell(row, 0).c).collect() };
    let mut twice = filled();
    twice.scroll_up(1, 3, 1, Cell::default());
    twice.scroll_up(1, 3, 1, Cell::default());
    let mut once = filled();
    once.scroll_up(1, 3, 2, Cell::default());
    assert_eq!(rows(&twice), "ad  e");
    assert_eq!(rows(&once), rows(&twice));
    once.scroll_down(1, 3, 2, Cell::default());
    assert_eq!(rows(&once), "a  de");
}

#[test]
fn resizing_keeps_every_logical_line() {
    let mut grid = Grid::new(6, 3, 50);
    for line in ["alpha beta", "日本語 text", "", "e\u{301}nd"] {
        grid.put_utf8(line);
        grid.carriage_return();
        grid.newline();
    }
    let before = text_of(&grid);
    assert_eq!(before, "alpha beta\n日本語 text\n\ne\u{301}nd");
    for (cols, rows) in [(3, 3), (11, 2), (2, 5), (1, 4), (6, 3)] {
        grid.resize(cols, rows);
        assert_eq!(text_of(&grid), before, "{cols}x{rows}");
    }
}

#[test]
fn runs_match_the_same_text_in_pieces() {
    let text = "ab日本e\u{301}cd👩🏽\u{200d}💻 end of the line";
    for split in [0, 2, 5, 8, 9, 11] {
        let mut whole = Grid::new(7, 3, 20);
        let mut parts = Grid::new(7, 3, 20);
        whole.put_utf8(text);
        parts.put_utf8(&text[..split]);
        parts.put_utf8(&text[split..]);
        assert_eq!(format!("{whole:?}"), format!("{parts:?}"), "split={split}");
    }
}

#[test]
fn ascii_runs_match_single_characters() {
    for start in ["", "x", "日", "\u{600}", "日本\u{600}", "ab\u{600}"] {
        let mut run = Grid::new(4, 2, 20);
        let mut single = Grid::new(4, 2, 20);
        run.put_utf8(start);
        single.put_utf8(start);
        run.put_ascii(b"ab cdefg");
        for c in "ab cdefg".chars() {
            single.put_char(c);
        }
        assert_eq!(format!("{run:?}"), format!("{single:?}"), "start={start:?}");
    }
    // Half a glyph without its other half is out of reach of printed text.
    let torn = || {
        let mut grid = Grid::new(4, 1, 0);
        grid.buffer.cell_mut(0, 1).flags = CellFlags::from_bits(CellFlags::WIDE_CONT);
        grid
    };
    let (mut run, mut single) = (torn(), torn());
    run.put_ascii(b"ab");
    single.put_char('a');
    single.put_char('b');
    assert_eq!((run.buffer.cell(0, 0).c, run.buffer.cell(0, 1).c), ('a', 'b'));
    assert_eq!((single.buffer.cell(0, 0).c, single.buffer.cell(0, 1).c), (' ', 'b'));
}

#[test]
fn deleted_lines_undo_inserted_ones() {
    let mut grid = Grid::new(2, 6, 5);
    for row in 0..6 {
        grid.set_cursor_pos(row, 0);
        grid.put_char(char::from(b'a' + row as u8));
    }
    grid.set_scroll_region(1, 4);
    grid.set_cursor_pos(2, 0);
    grid.insert_lines(2);
    grid.delete_lines(2);
    let rows: String = (0..6).map(|row| grid.buffer.cell(row, 0).c).collect();
    assert_eq!(rows, "abc  f");
    assert_eq!((grid.cursor_row, grid.cursor_col), (2, 0));
    assert_eq!((grid.scroll_top, grid.scroll_bottom), (1, 4));
    assert_eq!(grid.scrollback_len(), 0);
}

#[test]
fn a_saved_cursor_comes_back_after_any_output() {
    let mut grid = Grid::new(4, 3, 5);
    grid.put_ascii(b"abcd");
    grid.save_cursor();
    grid.put_utf8("e日本語");
    grid.newline();
    grid.newline();
    grid.scroll_down(1);
    grid.erase_in_display(2);
    grid.set_cursor_pos(2, 1);
    grid.put_char('z');
    grid.restore_cursor();
    assert_eq!((grid.cursor_row, grid.cursor_col), (0, 3));
    assert!(grid.is_wrap_pending());
    assert_eq!(grid.buffer.cell(2, 1).c, 'z');
    let once = format!("{grid:?}");
    grid.restore_cursor();
    assert_eq!(format!("{grid:?}"), once);
}

#[test]
fn scrolls_of_a_part_or_of_the_alternate_screen_save_no_lines() {
    let mut grid = Grid::new(2, 4, 5);
    grid.put_ascii(b"abcdefgh");
    grid.set_scroll_region(1, 3);
    grid.scroll_up(2);
    assert_eq!((grid.scrollback_len(), grid.total_lines_pushed), (0, 0));
    grid.set_scroll_region(0, 3);
    grid.enter_alt_screen();
    grid.scroll_up(3);
    assert_eq!((grid.scrollback_len(), grid.total_lines_pushed), (0, 0));
    grid.leave_alt_screen();
    grid.scroll_up(3);
    assert_eq!((grid.scrollback_len(), grid.total_lines_pushed), (3, 3));
}

#[test]
fn a_recorded_row_length_outlives_cell_writes() {
    let mut buffer = Buffer::new(6, 2);
    buffer.set_row_metadata(0, RowMetadata { len: 4, wrapped: true });
    buffer.cell_mut(0, 0).c = 'a';
    buffer.cell_mut(0, 5).c = 'b';
    buffer.cell_mut(1, 2).c = 'c';
    assert_eq!(buffer.row_metadata(0), RowMetadata { len: 6, wrapped: true });
    buffer.cell_mut(0, 5).c = ' ';
    buffer.cell_mut(0, 0).c = ' ';
    assert_eq!(buffer.row_metadata(0), RowMetadata { len: 4, wrapped: true });
}

#[test]
fn reflow_gives_the_same_lines_at_any_width() {
    let row = |text: &str, wrapped| {
        let mut row = RetainedRow::blank(6);
        for (col, c) in text.chars().enumerate() {
            row.cells[col].c = c;
        }
        row.metadata = RowMetadata { len: text.len(), wrapped };
        row
    };
    let source = [row("abcdef", true), row("gh", false), row("ij", false)];
    for cols in [1, 2, 3, 5, 8, 20] {
        let packed = reflow(&source, cols, &[]);
        let mut lines = String::new();
        for row in &packed.rows {
            assert_eq!(row.cells.len(), cols);
            assert!(row.metadata.len <= cols);
            lines.extend(row.cells[..row.metadata.len].iter().map(|cell| cell.c));
            if !row.metadata.wrapped {
                lines.push('\n');
            }
        }
        assert_eq!(lines, "abcdefgh\nij\n", "cols={cols}");
    }
}

#[test]
fn the_alternate_screen_leaves_the_primary_screen_alone() {
    let mut grid = Grid::new(6, 3, 20);
    for line in ["one", "two", "three", "four"] {
        grid.put_utf8(line);
        grid.carriage_return();
        grid.newline();
    }
    let before = (text_of(&grid), grid.cursor_row, grid.cursor_col, grid.scrollback_len());
    grid.enter_alt_screen();
    grid.put_utf8("something else entirely");
    grid.erase_in_display(2);
    grid.save_cursor();
    grid.set_scroll_region(0, 1);
    let revision = grid.screen_revision();
    grid.leave_alt_screen();
    let after = (text_of(&grid), grid.cursor_row, grid.cursor_col, grid.scrollback_len());
    assert_eq!(before, after);
    assert_eq!((grid.scroll_top, grid.scroll_bottom), (0, 2));
    assert_ne!(grid.screen_revision(), revision);
    let left = format!("{grid:?}");
    grid.leave_alt_screen();
    assert_eq!(format!("{grid:?}"), left);
}

#[test]
fn the_viewport_is_a_window_on_history_and_screen() {
    let mut grid = Grid::new(2, 2, 10);
    for line in ["a", "b", "c", "d"] {
        grid.put_utf8(line);
        grid.carriage_return();
        grid.newline();
    }
    assert_eq!(grid.scrollback_len(), 3);
    grid.scroll_viewport_up(2);
    assert_eq!(grid.visible_cell(0, 0).c, 'b');
    assert_eq!(grid.visible_cell(1, 0).c, 'c');
    grid.scroll_viewport_up(100);
    assert_eq!(grid.visible_cell(0, 0).c, 'a');
    grid.scroll_viewport_down(100);
    assert_eq!(grid.scroll_offset, 0);
    assert_eq!(grid.visible_cell(0, 0).c, 'd');
    assert_eq!(grid.scrollback_max(), 10);
}

#[test]
fn history_is_bounded_by_its_budget() {
    let mut grid = Grid::new(4, 2, 3);
    for step in 0..50 {
        grid.put_utf8(&format!("{step:03}"));
        grid.carriage_return();
        grid.newline();
        assert!(grid.scrollback_len() <= 3);
        assert!(grid.history.cells <= 12);
    }
    assert_eq!(text_of(&grid), "046\n047\n048\n049");
}

#[test]
fn prompts_are_found_from_any_row() {
    let mut marks = MarkIndex::default();
    for row in [5, 2, 9] {
        marks.push(PromptMarkKind::PromptStart, row);
    }
    marks.push(PromptMarkKind::CommandStart, 7);
    assert_eq!(marks.prev_prompt(9), Some(5));
    assert_eq!(marks.prev_prompt(2), None);
    assert_eq!(marks.next_prompt(2), Some(5));
    assert_eq!(marks.next_prompt(9), None);
    marks.erase_saved_lines(4);
    assert_eq!(marks.visible_prompt_rows(0, 0, 10), [1, 5]);
    assert_eq!(marks.visible_prompt_rows(0, 5, 3), [5]);
    assert_eq!(marks.visible_prompt_rows(4, 5, 3), [1]);
    assert_eq!(marks.visible_prompt_rows(0, 6, 3), []);
}

#[test]
fn images_take_whole_cells() {
    let placed = |render_size| PlacementMode::Inline {
        row: -2,
        col: 3,
        cols: 4,
        rows: 5,
        x_offset: 1,
        y_offset: 2,
        render_size,
    };
    assert_eq!(
        placed(InlineRenderSize::CellAnchored).signed_cell_rect(8, 16),
        (-2, 3, 4, 5)
    );
    let native = InlineRenderSize::NativePixels { width: 16, height: 31 };
    assert_eq!(placed(native).signed_cell_rect(8, 16), (-2, 3, 3, 3));
}

#[test]
fn modified_keys_do_not_depend_on_the_cursor_mode() {
    let shift = TerminalKeyModifiers::new(true, false, false);
    for key in [TerminalKey::Up, TerminalKey::End, TerminalKey::Function(3)] {
        assert_eq!(
            encode_terminal_key_with_modifiers(key, false, shift),
            encode_terminal_key_with_modifiers(key, true, shift)
        );
    }
    assert_ne!(
        encode_terminal_key(TerminalKey::Up, false),
        encode_terminal_key(TerminalKey::Up, true)
    );
    assert_eq!(
        encode_terminal_key(TerminalKey::Enter, false),
        encode_terminal_key(TerminalKey::Enter, true)
    );
}

#[test]
fn pastes_are_appended_and_errors_have_words() {
    assert_eq!(write_paste(b"> ".to_vec(), "a\nb", false), b"> a\rb");
    assert_eq!(write_paste(Vec::new(), "x", true), b"\x1b[200~x\x1b[201~");
    assert_eq!(
        PasteError::TooLarge.message(),
        "clipboard text exceeds the terminal paste byte limit"
    );
    assert_eq!(
        PasteError::AllocationFailed.message(),
        "could not allocate terminal paste input"
    );
}

#[test]
fn line_drawing_replaces_ascii() {
    assert_eq!(dec_special_map('q'), '─');
    assert_eq!(dec_special_map('A'), 'A');
    let mut grid = Grid::new(3, 1, 0);
    grid.modes.charset = CharSet::DecSpecial;
    grid.put_ascii(b"lqk");
    let shown: String = (0..3).map(|col| grid.buffer.cell(0, col).c).collect();
    assert_eq!(shown, "┌─┐");
}

#[test]
fn events_keep_their_order_and_titles_are_counted() {
    let mut grid = Grid::new(2, 2, 0);
    assert!(!grid.has_pending_terminal_events());
    grid.queue_response(b"1".to_vec());
    grid.queue_response(b"2".to_vec());
    assert!(grid.has_pending_terminal_events());
    let events = grid.drain_terminal_events();
    assert!(matches!(&events[0], TerminalEvent::Response(bytes) if bytes == b"1"));
    assert!(matches!(&events[1], TerminalEvent::Response(bytes) if bytes == b"2"));
    assert!(!grid.has_pending_terminal_events());

    let revision = grid.title_revision();
    grid.set_title("vim");
    assert_eq!(grid.title(), "vim");
    assert_ne!(grid.title_revision(), revision);
    let revision = grid.title_revision();
    grid.set_title("vim");
    assert_eq!(grid.title_revision(), revision, "the same title is no change");
    let _: fn(&mut Grid, KittyCommand) = Grid::queue_kitty_command;
}

#[test]
fn moves_stay_on_the_screen() {
    let mut grid = Grid::new(4, 3, 0);
    grid.move_cursor_down(100);
    grid.move_cursor_forward(100);
    assert_eq!((grid.cursor_row, grid.cursor_col), (2, 3));
    grid.move_cursor_up(usize::MAX);
    grid.move_cursor_backward(usize::MAX);
    assert_eq!((grid.cursor_row, grid.cursor_col), (0, 0));
    grid.tab();
    assert_eq!(grid.cursor_col, 3);
}
