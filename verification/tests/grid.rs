//! The screen: writing, wrapping, scrolling, images and resizing.
use kokuban::graphics::{ImagePlacement, InlineRenderSize, PlacementMode};
use kokuban::grid::cell::{CellFlags, Color, UnderlineStyle};
use kokuban::grid::cluster::scalar_extends_grapheme;
use kokuban::grid::marks::PromptMarkKind;
use kokuban::grid::session::{MAX_PENDING_SIXEL_BYTES, MAX_PENDING_SIXEL_IMAGES};
use kokuban::grid::{Grid, SixelImage, TerminalEvent};
use unicode_segmentation::UnicodeSegmentation;

#[test]
fn endless_soft_wrapping_respects_the_history_cell_budget() {
    for max in [0, 1, 3] {
        let mut grid = Grid::new(4, 2, max);
        grid.put_ascii(&vec![b'x'; 4096]);
        assert!(grid.history.cells <= max * 4);
        assert!(grid.scrollback_len() <= max);
        assert_eq!(grid.history.hard_lines, 0);
    }
}

#[test]
fn soft_wrap_metadata_follows_scrollback_and_explicit_newlines() {
    let mut grid = Grid::new(4, 2, 10);
    grid.put_ascii(b"abc defghi");
    assert_eq!(grid.scrollback_len(), 1);
    assert!(grid.retained_row_wrapped(0));
    assert!(grid.retained_row_wrapped(1));
    assert_eq!(grid.retained_row_len(0), 4);
    assert_eq!(grid.retained_row_len(2), 2);
    grid.newline();
    assert!(!grid.retained_row_wrapped(2));
    grid.erase_in_display(2);
    assert_eq!(grid.retained_row_len(grid.scrollback_len()), 0);
}

#[test]
fn row_lengths_distinguish_printed_spaces_from_wide_wrap_padding() {
    let mut grid = Grid::new(4, 2, 10);
    grid.put_ascii(b"ab ");
    grid.put_char('日');
    assert!(grid.retained_row_wrapped(0));
    assert_eq!(grid.retained_row_len(0), 3);
    assert_eq!(grid.retained_row_len(1), 2);
    grid.carriage_return();
    grid.erase_in_line(0);
    assert_eq!(grid.retained_row_len(1), 0);
}

#[test]
fn ascii_batches_preserve_delayed_wrap_across_resize_and_wide_overwrites() {
    for auto_wrap in [false, true] {
        for new_cols in [2, 4, 8] {
            for col in 0..=4 {
                let setup = || {
                    let mut grid = Grid::new(4, 3, 8);
                    for c in "日本日本日本".chars() {
                        grid.put_char(c);
                    }
                    grid.cursor_col = col;
                    grid.set_auto_wrap(auto_wrap);
                    grid.resize(new_cols, 3);
                    grid.clear_dirty();
                    grid
                };
                let mut batched = setup();
                let mut scalar = setup();
                let text = b"ABCDEFGHIJKLMN";
                batched.put_ascii(text);
                for &byte in text {
                    scalar.put_char(char::from(byte));
                }
                assert_eq!(format!("{batched:?}"), format!("{scalar:?}"),
                    "auto_wrap={auto_wrap}, new_cols={new_cols}, col={col}");
            }
        }
    }
}

#[test]
fn ascii_batches_repair_wide_pairs_at_both_ends_of_each_run() {
    for col in 0..8 {
        for count in 0..=16 {
            let setup = || {
                let mut grid = Grid::new(8, 3, 8);
                for c in "日本語日本語日本語日本語".chars() {
                    grid.put_char(c);
                }
                grid.set_cursor_pos(0, col);
                grid.clear_dirty();
                grid
            };
            let mut batched = setup();
            let mut scalar = setup();
            let text = &b"abcdefghijklmnop"[..count];
            batched.put_ascii(text);
            for &byte in text {
                scalar.put_char(char::from(byte));
            }
            assert_eq!(format!("{batched:?}"), format!("{scalar:?}"),
                "col={col}, count={count}");
        }
    }
}

#[test]
fn selection_and_paste_revisions_distinguish_repaint_from_screen_changes() {
    let mut grid = Grid::new(8, 4, 2);
    let selection = grid.selection_revision();
    let screen = grid.screen_revision();
    grid.erase_in_display(2);
    assert_ne!(grid.selection_revision(), selection);
    assert_eq!(grid.screen_revision(), screen);
    grid.resize(9, 4);
    assert_eq!(grid.screen_revision(), screen);
    let selection = grid.selection_revision();
    grid.scroll_up(3);
    assert_eq!(grid.selection_revision(), selection, "primary scrollback uses row rebasing");
    grid.enter_alt_screen();
    grid.leave_alt_screen();
    assert_ne!(grid.screen_revision(), screen, "a complete screen round-trip invalidates pending paste");
    let screen = grid.screen_revision();
    grid.reset_terminal_state();
    assert_ne!(grid.screen_revision(), screen);
}

#[test]
fn selection_revision_survives_history_reset_and_partial_scroll() {
    let mut grid = Grid::new(8, 4, 2);
    grid.scroll_up(3);
    let before = grid.selection_revision();
    grid.erase_in_display(3);
    assert_ne!(grid.selection_revision(), before);
    assert_eq!(grid.total_lines_pushed, 0);
    let before = grid.selection_revision();
    grid.scroll_top = 1;
    grid.scroll_up(1);
    assert_ne!(grid.selection_revision(), before);
    let before = grid.selection_revision();
    grid.scroll_down(0);
    assert_eq!(grid.selection_revision(), before);
    grid.scroll_down(1);
    assert_ne!(grid.selection_revision(), before);
}

fn sixel_image(byte_len: usize) -> SixelImage {
    SixelImage {
        width: 1,
        height: (byte_len / 4) as u32,
        pixels: vec![0; byte_len],
    }
}

fn image_placement(image_id: u64) -> ImagePlacement {
    ImagePlacement {
        image_id,
        placement_id: image_id as u32,
        client_placement_id: Some(image_id as u32),
        mode: PlacementMode::Inline {
            row: 0,
            col: 0,
            cols: 1,
            rows: 1,
            x_offset: 0,
            y_offset: 0,
            render_size: InlineRenderSize::CellAnchored,
        },
        z_index: image_id as i32,
    }
}

fn image_ids<'a>(placements: impl IntoIterator<Item = &'a ImagePlacement>) -> Vec<u64> {
    placements
        .into_iter()
        .map(|placement| placement.image_id)
        .collect()
}

fn inline_at(image_id: u64, row: i64, rows: u32) -> ImagePlacement {
    let mut placement = image_placement(image_id);
    let PlacementMode::Inline { row: origin, rows: height, .. } = &mut placement.mode;
    *origin = row;
    *height = rows;
    placement
}

fn image_row(grid: &Grid, image_id: u64) -> Option<i64> {
    grid.images.placements.iter().find_map(|placement| {
        let PlacementMode::Inline { row, .. } = placement.mode;
        (placement.image_id == image_id).then_some(row)
    })
}

#[test]
fn images_follow_newlines_into_bounded_primary_history() {
    let mut grid = Grid::new(6, 3, 2);
    grid.images.placements.push(inline_at(1, 1, 2));
    grid.set_cursor_pos(2, 0);

    for expected in [0, -1, -2, -3] {
        grid.newline();
        assert_eq!(image_row(&grid, 1), Some(expected));
        assert_eq!(grid.cursor_row, 2);
    }
    assert_eq!(grid.scrollback_len(), 2);
    grid.scroll_viewport_up(2);
    // The final retained image row appears at viewport row zero.
    assert_eq!(image_row(&grid, 1).unwrap() as f32 * 16.0
        + grid.scroll_offset as f32 * 16.0, -16.0);

    grid.newline();
    assert!(grid.images.placements.is_empty());
}

#[test]
fn partial_region_scroll_preserves_fixed_images_and_discards_crossing_images() {
    let mut grid = Grid::new(6, 6, 10);
    grid.images.placements = vec![
        inline_at(1, 0, 1),
        inline_at(2, 3, 1),
        inline_at(3, 1, 1),
        inline_at(4, 4, 2),
        inline_at(5, 5, 1),
    ];
    grid.set_scroll_region(1, 4);
    grid.scroll_up(1);

    assert_eq!(image_ids(&grid.images.placements), [1, 2, 5]);
    assert_eq!(image_row(&grid, 1), Some(0));
    assert_eq!(image_row(&grid, 2), Some(2));
    assert_eq!(image_row(&grid, 5), Some(5));
    assert_eq!(grid.scrollback_len(), 0);

    grid.set_scroll_region(0, 3);
    grid.scroll_up(usize::MAX);
    assert_eq!(grid.scrollback_len(), 0);
    assert_eq!(grid.total_lines_pushed, 0);
    assert_eq!(image_ids(&grid.images.placements), [5]);
}

#[test]
fn alternate_images_scroll_out_without_moving_hidden_primary_images() {
    let mut grid = Grid::new(6, 4, 10);
    grid.images.placements.push(inline_at(1, 2, 1));
    grid.enter_alt_screen();
    grid.images.placements.push(inline_at(2, 0, 2));

    grid.scroll_up(1);
    assert_eq!(image_row(&grid, 2), Some(-1));
    grid.scroll_up(1);
    assert!(grid.images.placements.is_empty());
    assert_eq!(grid.scrollback_len(), 0);
    assert_eq!(image_ids(&grid.all_image_placements()), [1]);

    grid.leave_alt_screen();
    assert_eq!(image_row(&grid, 1), Some(2));
}

#[test]
fn scroll_retention_uses_current_native_pixel_height() {
    let mut grid = Grid::new(6, 6, 0);
    grid.images.cell_pixel_height = 10;
    let mut image = inline_at(1, 0, 1);
    let PlacementMode::Inline { render_size, .. } = &mut image.mode;
    *render_size = InlineRenderSize::NativePixels { width: 8, height: 40 };
    grid.images.placements.push(image);

    grid.scroll_up(3);
    assert_eq!(image_row(&grid, 1), Some(-3));
    let (row, column, columns, rows) = grid.images.placements[0].mode.signed_cell_rect(8, 10);
    let visible = (row + rows as i64).max(0);
    assert_eq!((0, column, columns, visible), (0, 0, 1, 1));
    grid.scroll_up(1);
    assert!(grid.images.placements.is_empty());
}

#[test]
fn insert_delete_lines_move_images_and_leave_saved_history_in_place() {
    let mut grid = Grid::new(6, 5, 10);
    grid.images.placements = vec![inline_at(1, 0, 1), inline_at(2, 3, 1)];
    grid.scroll_up(1);
    assert_eq!(image_row(&grid, 1), Some(-1));
    grid.set_cursor_pos(1, 0);

    grid.insert_lines(1);
    assert_eq!(image_row(&grid, 1), Some(-1));
    assert_eq!(image_row(&grid, 2), Some(3));
    grid.delete_lines(1);
    assert_eq!(image_row(&grid, 2), Some(2));
    grid.scroll_down(3);
    assert_eq!(image_ids(&grid.images.placements), [1]);
    assert_eq!(image_row(&grid, 1), Some(-1));
}

#[test]
fn erase_screen_and_saved_lines_keep_the_other_image_set() {
    let mut grid = Grid::new(6, 5, 10);
    grid.images.placements = vec![inline_at(1, 0, 1), inline_at(2, 3, 1)];
    grid.scroll_up(1);
    grid.erase_in_display(2);
    assert_eq!(image_ids(&grid.images.placements), [1]);
    grid.images.placements.push(inline_at(3, 1, 1));
    grid.erase_in_display(3);
    assert_eq!(image_ids(&grid.images.placements), [3]);
    assert_eq!(grid.scrollback_len(), 0);
}

#[test]
fn zero_and_oversized_scroll_counts_match_image_and_text_movement() {
    let mut grid = Grid::new(6, 3, 10);
    grid.images.placements.push(inline_at(1, 2, 1));
    grid.scroll_up(0);
    grid.scroll_down(0);
    assert_eq!(image_row(&grid, 1), Some(2));
    grid.scroll_up(usize::MAX);
    assert_eq!(image_row(&grid, 1), Some(-1));
    assert_eq!(grid.scrollback_len(), 3);
    assert_eq!(grid.total_lines_pushed, 3);
}

fn assert_wide_row_valid(grid: &Grid, row: usize) {
    for col in 0..grid.cols() {
        let flags = grid.buffer.cell(row, col).flags;
        if flags.contains(CellFlags::WIDE) {
            assert!(col + 1 < grid.cols());
            assert!(grid
                .buffer
                .cell(row, col + 1)
                .flags
                .contains(CellFlags::WIDE_CONT));
        }
        if flags.contains(CellFlags::WIDE_CONT) {
            assert!(col > 0);
            assert!(grid
                .buffer
                .cell(row, col - 1)
                .flags
                .contains(CellFlags::WIDE));
        }
    }
}

fn row_text(grid: &Grid, row: usize) -> String {
    (0..grid.cols())
        .map(|column| grid.buffer.cell(row, column).c)
        .collect()
}

#[test]
fn erase_saved_lines_preserves_screen_and_rebases_current_marks() {
    let mut grid = Grid::new(4, 3, 10);
    grid.session.marks
        .push(PromptMarkKind::PromptStart, grid.current_absolute_row());
    for c in ['o', 'l', 'd'] {
        grid.put_char(c);
    }
    grid.carriage_return();
    grid.newline();

    grid.session.marks
        .push(PromptMarkKind::PromptStart, grid.current_absolute_row());
    for c in ['m', 'i', 'd'] {
        grid.put_char(c);
    }
    grid.carriage_return();
    grid.newline();

    grid.session.marks
        .push(PromptMarkKind::PromptStart, grid.current_absolute_row());
    for c in ['b', 'o', 't'] {
        grid.put_char(c);
    }
    grid.carriage_return();
    grid.newline();

    grid.session.marks
        .push(PromptMarkKind::CommandStart, grid.current_absolute_row());
    for c in ['n', 'e', 'w'] {
        grid.put_char(c);
    }
    grid.pen.fg = Color::Indexed(7);
    grid.pen.bg = Color::Rgb(1, 2, 3);
    grid.pen.flags = CellFlags::from_bits(CellFlags::BOLD | CellFlags::ITALIC);
    grid.pen.underline_style = UnderlineStyle::Curly;
    grid.pen.underline_color = Color::Indexed(4);

    assert_eq!(grid.scrollback_len(), 1);
    assert_eq!(grid.total_lines_pushed, 1);
    grid.scroll_viewport_up(1);
    assert_eq!(grid.visible_cell(0, 0).c, 'o');
    grid.clear_dirty();
    let cursor = (grid.cursor_row, grid.cursor_col);
    let attributes = (
        grid.pen.fg,
        grid.pen.bg,
        grid.pen.flags,
        grid.pen.underline_style,
        grid.pen.underline_color,
    );

    grid.erase_in_display(3);

    assert_eq!(grid.scrollback_len(), 0);
    assert_eq!(grid.scroll_offset, 0);
    assert_eq!(grid.total_lines_pushed, 0);
    assert_eq!(grid.current_absolute_row(), grid.cursor_row);
    assert_eq!((grid.cursor_row, grid.cursor_col), cursor);
    assert_eq!(row_text(&grid, 0), "mid ");
    assert_eq!(row_text(&grid, 1), "bot ");
    assert_eq!(row_text(&grid, 2), "new ");
    assert_eq!(
        (
            grid.pen.fg,
            grid.pen.bg,
            grid.pen.flags,
            grid.pen.underline_style,
            grid.pen.underline_color,
        ),
        attributes
    );
    assert!(grid.dirty.iter().all(|dirty| *dirty));
    assert_eq!(grid.session.marks.visible_prompt_rows(0, 0, grid.rows()), [0, 1]);
    assert_eq!(grid.session.marks.prev_prompt(2), Some(1));
    assert_eq!(grid.session.marks.next_prompt(0), Some(1));
}

#[test]
fn erase_saved_lines_at_bottom_does_not_dirty_unchanged_screen() {
    let mut grid = Grid::new(3, 2, 10);
    grid.put_char('a');
    grid.scroll_up(1);
    grid.put_char('b');
    grid.clear_dirty();
    let screen = [row_text(&grid, 0), row_text(&grid, 1)];

    grid.erase_in_display(3);

    assert_eq!(grid.scrollback_len(), 0);
    assert_eq!([row_text(&grid, 0), row_text(&grid, 1)], screen);
    assert!(!grid.is_any_dirty());
}

#[test]
fn erase_display_all_preserves_saved_lines() {
    let mut grid = Grid::new(3, 2, 10);
    for c in ['o', 'l', 'd'] {
        grid.put_char(c);
    }
    grid.carriage_return();
    grid.newline();
    for c in ['n', 'e', 'w'] {
        grid.put_char(c);
    }
    grid.scroll_up(1);
    grid.scroll_viewport_up(1);
    let total_lines_pushed = grid.total_lines_pushed;

    grid.erase_in_display(2);

    assert_eq!(grid.scrollback_len(), 1);
    assert_eq!(grid.scrollback_cell(0, 0), 'o');
    assert_eq!(grid.scroll_offset, 1);
    assert_eq!(grid.total_lines_pushed, total_lines_pushed);
    assert_eq!(row_text(&grid, 0), "   ");
    assert_eq!(row_text(&grid, 1), "   ");
}

#[test]
fn resize_preserves_cursor_rows_and_clamps_unused_columns() {
    let mut grid = Grid::new(12, 8, 100);
    grid.set_cursor_pos(7, 11);
    grid.save_cursor();

    grid.resize(4, 3);
    assert_eq!((grid.cursor_row, grid.cursor_col), (2, 3));

    grid.resize(20, 10);
    grid.restore_cursor();
    assert_eq!((grid.cursor_row, grid.cursor_col), (7, 3));
    grid.put_char('x');
    assert_eq!(grid.buffer.cell(7, 3).c, 'x');
}

#[test]
fn resize_preserves_primary_logical_cursor_under_alt_screen() {
    let mut grid = Grid::new(12, 8, 100);
    grid.set_cursor_pos(7, 11);
    grid.enter_alt_screen();

    grid.resize(4, 3);
    grid.resize(20, 10);
    grid.leave_alt_screen();

    assert_eq!((grid.cursor_row, grid.cursor_col), (7, 3));
    grid.put_char('x');
    assert_eq!(grid.buffer.cell(7, 3).c, 'x');
}

#[test]
fn save_restore_preserves_pending_wrap() {
    let mut grid = Grid::new(2, 2, 0);
    grid.put_char('a');
    grid.put_char('b');
    assert_eq!(grid.cursor_col, grid.cols());
    grid.save_cursor();
    grid.set_cursor_pos(0, 0);

    grid.restore_cursor();
    grid.put_char('c');

    assert_eq!(grid.buffer.cell(0, 1).c, 'b');
    assert_eq!(grid.buffer.cell(1, 0).c, 'c');
}

#[test]
fn alt_screen_round_trip_preserves_pending_wrap() {
    let mut grid = Grid::new(2, 2, 0);
    grid.put_char('a');
    grid.put_char('b');
    assert_eq!(grid.cursor_col, grid.cols());

    grid.enter_alt_screen();
    grid.leave_alt_screen();
    grid.put_char('c');

    assert_eq!(grid.buffer.cell(0, 1).c, 'b');
    assert_eq!(grid.buffer.cell(1, 0).c, 'c');
}

#[test]
fn alt_screen_hides_and_restores_primary_image_placements() {
    let mut grid = Grid::new(2, 2, 0);
    grid.images.placements = vec![image_placement(11), image_placement(12)];

    grid.enter_alt_screen();

    assert!(grid.images.placements.is_empty());

    grid.leave_alt_screen();

    assert_eq!(image_ids(&grid.images.placements), [11, 12]);
}

#[test]
fn retransmission_cleanup_removes_hidden_kitty_but_preserves_sixel() {
    let mut grid = Grid::new(2, 2, 0);
    let mut sixel = image_placement(11);
    sixel.placement_id = 0;
    sixel.client_placement_id = None;
    grid.images.placements = vec![image_placement(11), sixel];
    grid.enter_alt_screen();
    let mut active_replacement = image_placement(11);
    active_replacement.placement_id = 22;
    grid.images.placements.push(active_replacement);

    grid.remove_hidden_primary_kitty_placements(11);

    assert_eq!(grid.images.placements[0].placement_id, 22);
    assert_eq!(
        grid.all_image_placements()
            .iter()
            .map(|placement| placement.placement_id)
            .collect::<Vec<_>>(),
        [22, 0]
    );

    grid.leave_alt_screen();
    assert_eq!(grid.images.placements.len(), 1);
    assert_eq!(grid.images.placements[0].image_id, 11);
    assert_eq!(grid.images.placements[0].placement_id, 0);
}

#[test]
fn leaving_alt_screen_discards_alternate_image_placements() {
    let mut grid = Grid::new(2, 2, 0);
    grid.images.placements.push(image_placement(11));
    grid.enter_alt_screen();
    grid.images.placements.push(image_placement(21));

    grid.leave_alt_screen();

    assert_eq!(image_ids(&grid.images.placements), [11]);
    grid.enter_alt_screen();
    assert!(grid.images.placements.is_empty());
}

#[test]
fn erase_display_all_clears_primary_image_placements() {
    let mut grid = Grid::new(2, 2, 0);
    grid.images.placements.push(image_placement(11));

    grid.erase_in_display(2);

    assert!(grid.images.placements.is_empty());
    assert!(grid.all_image_placements().is_empty());
}

#[test]
fn erase_display_all_on_alt_screen_preserves_primary_image_placements() {
    let mut grid = Grid::new(2, 2, 0);
    grid.images.placements.push(image_placement(11));
    grid.enter_alt_screen();
    grid.images.placements.push(image_placement(21));

    grid.erase_in_display(2);

    assert!(grid.images.placements.is_empty());
    assert_eq!(image_ids(&grid.all_image_placements()), [11]);

    grid.leave_alt_screen();
    assert_eq!(image_ids(&grid.images.placements), [11]);
}

#[test]
fn partial_and_scrollback_erases_preserve_active_image_placements() {
    for mode in [0, 1, 3] {
        let mut grid = Grid::new(2, 2, 0);
        grid.images.placements.push(image_placement(11));

        grid.erase_in_display(mode);

        assert_eq!(image_ids(&grid.images.placements), [11], "ED mode {mode}");
    }
}

#[test]
fn alt_screen_image_lifecycle_ignores_repeated_transitions() {
    let mut grid = Grid::new(2, 2, 0);
    grid.images.placements.push(image_placement(11));
    grid.enter_alt_screen();
    grid.images.placements.push(image_placement(21));

    grid.enter_alt_screen();

    assert_eq!(image_ids(&grid.images.placements), [21]);
    let mut all_ids = image_ids(&grid.all_image_placements());
    all_ids.sort_unstable();
    assert_eq!(all_ids, [11, 21]);

    grid.leave_alt_screen();
    assert_eq!(image_ids(&grid.images.placements), [11]);

    grid.leave_alt_screen();
    assert_eq!(image_ids(&grid.images.placements), [11]);
}

#[test]
fn resize_preserves_screen_specific_image_placements() {
    let mut grid = Grid::new(4, 3, 0);
    grid.images.placements.push(image_placement(11));
    grid.enter_alt_screen();
    grid.images.placements.push(image_placement(21));

    grid.resize(2, 2);

    assert_eq!(image_ids(&grid.images.placements), [21]);
    let mut all_ids = image_ids(&grid.all_image_placements());
    all_ids.sort_unstable();
    assert_eq!(all_ids, [11, 21]);

    grid.leave_alt_screen();
    assert_eq!(image_ids(&grid.images.placements), [11]);
}

#[test]
fn reset_discards_active_and_hidden_image_placements() {
    let mut grid = Grid::new(2, 2, 0);
    grid.images.placements.push(image_placement(11));
    grid.enter_alt_screen();
    grid.images.placements.push(image_placement(21));

    grid.reset_terminal_state();

    assert!(!grid.using_alt_screen);
    assert!(grid.images.placements.is_empty());
    assert!(grid.all_image_placements().is_empty());
}

#[test]
fn auto_wrap_defaults_to_delayed_wrap() {
    let mut grid = Grid::new(2, 2, 0);

    assert!(grid.modes.auto_wrap);
    grid.put_char('a');
    grid.put_char('b');
    assert_eq!(grid.cursor_col, grid.cols());

    grid.put_char('c');

    assert_eq!((grid.cursor_row, grid.cursor_col), (1, 1));
    assert_eq!(grid.buffer.cell(0, 1).c, 'b');
    assert_eq!(grid.buffer.cell(1, 0).c, 'c');
}

#[test]
fn delayed_wrap_scrolls_exactly_once_after_the_next_printable() {
    let mut grid = Grid::new(3, 2, 10);
    grid.set_cursor_pos(1, 0);

    for c in ['a', 'b', 'c'] {
        grid.put_char(c);
    }

    assert_eq!((grid.cursor_row, grid.cursor_col), (1, grid.cols()));
    assert_eq!(grid.scrollback_len(), 0);
    assert_eq!(grid.total_lines_pushed, 0);

    grid.put_char('d');

    assert_eq!((grid.cursor_row, grid.cursor_col), (1, 1));
    assert_eq!(grid.scrollback_len(), 1);
    assert_eq!(grid.total_lines_pushed, 1);
    assert_eq!(grid.buffer.cell(0, 2).c, 'c');
    assert_eq!(grid.buffer.cell(1, 0).c, 'd');
}

#[test]
fn disabled_auto_wrap_overwrites_right_margin_without_scrolling() {
    let mut grid = Grid::new(3, 2, 10);
    grid.set_auto_wrap(false);
    grid.set_cursor_pos(1, 0);

    for c in ['a', 'b', 'c', 'd', 'e'] {
        grid.put_char(c);
    }

    assert!(!grid.modes.auto_wrap);
    assert_eq!((grid.cursor_row, grid.cursor_col), (1, grid.cols()));
    assert_eq!(grid.buffer.cell(1, 0).c, 'a');
    assert_eq!(grid.buffer.cell(1, 1).c, 'b');
    assert_eq!(grid.buffer.cell(1, 2).c, 'e');
    assert_eq!(grid.scrollback_len(), 0);
    assert_eq!(grid.total_lines_pushed, 0);
}

#[test]
fn auto_wrap_toggle_preserves_pending_margin_until_next_printable() {
    let mut grid = Grid::new(2, 2, 0);
    grid.put_char('a');
    grid.put_char('b');
    assert_eq!(grid.cursor_col, grid.cols());

    grid.set_auto_wrap(false);
    grid.set_auto_wrap(true);
    grid.put_char('c');

    assert_eq!((grid.cursor_row, grid.cursor_col), (1, 1));
    assert_eq!(grid.buffer.cell(0, 1).c, 'b');
    assert_eq!(grid.buffer.cell(1, 0).c, 'c');
}

#[test]
fn disabled_auto_wrap_consumes_pending_margin_without_wrapping() {
    let mut grid = Grid::new(2, 2, 0);
    grid.put_char('a');
    grid.put_char('b');
    grid.set_auto_wrap(false);

    grid.put_char('c');

    assert_eq!((grid.cursor_row, grid.cursor_col), (0, grid.cols()));
    assert_eq!(grid.buffer.cell(0, 1).c, 'c');
    assert_eq!(grid.buffer.cell(1, 0).c, ' ');
}

#[test]
fn disabled_auto_wrap_ignores_wide_char_at_right_margin() {
    let mut grid = Grid::new(3, 2, 0);
    grid.set_auto_wrap(false);
    for c in ['a', 'b', 'c'] {
        grid.put_char(c);
    }

    grid.put_char('日');

    let right = grid.buffer.cell(0, 2);
    assert_eq!(right.c, 'c');
    assert!(!right
        .flags
        .intersects(CellFlags::WIDE | CellFlags::WIDE_CONT));
    assert_eq!((grid.cursor_row, grid.cursor_col), (0, 2));
}

#[test]
fn disabled_auto_wrap_keeps_wide_margin_cells_valid() {
    let mut grid = Grid::new(4, 2, 0);
    grid.set_auto_wrap(false);
    grid.set_cursor_pos(0, 2);

    grid.put_char('日');

    assert!(grid.buffer.cell(0, 2).flags.contains(CellFlags::WIDE));
    assert!(grid.buffer.cell(0, 3).flags.contains(CellFlags::WIDE_CONT));
    assert_eq!(grid.cursor_col, grid.cols());

    grid.put_char('x');

    assert_eq!(grid.buffer.cell(0, 2).c, ' ');
    assert!(!grid.buffer.cell(0, 2).flags.contains(CellFlags::WIDE));
    assert_eq!(grid.buffer.cell(0, 3).c, 'x');
    assert!(!grid.buffer.cell(0, 3).flags.contains(CellFlags::WIDE_CONT));
    assert_eq!(grid.cursor_col, grid.cols());
}

#[test]
fn wide_wrap_preserves_existing_right_margin_content() {
    let mut grid = Grid::new(3, 2, 0);
    for c in ['a', 'b', 'c'] {
        grid.put_char(c);
    }
    grid.set_cursor_pos(0, 2);

    grid.put_char('日');

    assert_eq!(grid.buffer.cell(0, 2).c, 'c');
    assert_eq!(grid.buffer.cell(1, 0).c, '日');
    assert!(grid.buffer.cell(1, 0).flags.contains(CellFlags::WIDE));
    assert!(grid.buffer.cell(1, 1).flags.contains(CellFlags::WIDE_CONT));
    assert_wide_row_valid(&grid, 0);
    assert_wide_row_valid(&grid, 1);
}

#[test]
fn wide_wrap_at_scroll_bottom_preserves_the_margin_before_scrolling() {
    let mut grid = Grid::new(3, 2, 10);
    grid.set_cursor_pos(1, 0);
    for c in ['a', 'b', 'c'] {
        grid.put_char(c);
    }
    grid.set_cursor_pos(1, 2);

    grid.put_char('日');

    assert_eq!(grid.scrollback_len(), 1);
    assert_eq!(grid.buffer.cell(0, 2).c, 'c');
    assert_eq!(grid.buffer.cell(1, 0).c, '日');
    assert_wide_row_valid(&grid, 0);
    assert_wide_row_valid(&grid, 1);
}

#[test]
fn wide_wrap_from_a_continuation_keeps_both_rows_valid() {
    let mut grid = Grid::new(4, 2, 0);
    grid.set_auto_wrap(false);
    grid.set_cursor_pos(0, 2);
    grid.put_char('日');
    grid.put_char('日');
    assert_eq!(grid.cursor_col, 3);

    grid.set_auto_wrap(true);
    grid.put_char('本');

    assert_eq!(grid.buffer.cell(0, 2).c, '日');
    assert!(grid.buffer.cell(0, 2).flags.contains(CellFlags::WIDE));
    assert!(grid.buffer.cell(0, 3).flags.contains(CellFlags::WIDE_CONT));
    assert_eq!(grid.buffer.cell(1, 0).c, '本');
    assert!(grid.buffer.cell(1, 0).flags.contains(CellFlags::WIDE));
    assert!(grid.buffer.cell(1, 1).flags.contains(CellFlags::WIDE_CONT));
    assert_wide_row_valid(&grid, 0);
    assert_wide_row_valid(&grid, 1);
}

#[test]
fn wide_aware_editing_never_leaves_an_orphaned_half() {
    type NamedGridEdit = (&'static str, fn(&mut Grid));
    let edits: [NamedGridEdit; 4] = [
        ("erase line", |grid| grid.erase_in_line(0)),
        ("erase chars", |grid| grid.erase_chars(1)),
        ("delete chars", |grid| grid.delete_chars(1)),
        ("insert chars", |grid| grid.insert_blank_chars(1)),
    ];

    for (name, edit) in edits {
        let mut grid = Grid::new(4, 2, 0);
        grid.set_auto_wrap(false);
        grid.set_cursor_pos(0, 2);
        grid.put_char('日');
        grid.put_char('日');
        assert_eq!(grid.cursor_col, 3, "setup failed for {name}");

        edit(&mut grid);

        assert_wide_row_valid(&grid, 0);
        assert_eq!(grid.buffer.cell(0, 2).c, ' ', "{name}");
        assert_eq!(grid.buffer.cell(0, 3).c, ' ', "{name}");
    }
}

#[test]
fn combining_marks_extend_wide_glyphs_without_overwriting_them() {
    let mut grid = Grid::new(4, 1, 0);
    grid.put_char('日');
    grid.put_char('\u{301}');
    assert_eq!(grid.buffer.cell(0, 0).text(), "日\u{301}");
    assert_eq!(grid.cursor_col, 2);
    assert_wide_row_valid(&grid, 0);
}

#[test]
fn one_column_grid_retains_wide_characters() {
    for auto_wrap in [true, false] {
        let mut grid = Grid::new(1, 2, 0);
        grid.set_auto_wrap(auto_wrap);
        grid.put_char('日');
        assert_eq!(grid.buffer.cell(0, 0).text(), "日");
        assert_eq!(grid.buffer.cell(0, 0).display_width(), 2);
        assert_eq!((grid.cursor_row, grid.cursor_col), (0, 1));
    }
}

#[test]
fn one_column_emoji_presentation_keeps_natural_width() {
    for auto_wrap in [true, false] {
        let mut grid = Grid::new(1, 2, 4);
        grid.set_auto_wrap(auto_wrap);
        grid.put_char('❤');
        grid.put_char('\u{fe0f}');
        let cell = grid.buffer.cell(0, 0);
        assert_eq!(cell.text(), "❤\u{fe0f}");
        assert_eq!(cell.display_width(), 2);
        assert!(cell.flags.contains(CellFlags::WIDE));
        assert!(!cell.flags.contains(CellFlags::WIDE_CONT));
        assert_eq!((grid.cursor_row, grid.cursor_col), (0, 1));
        assert!(grid.is_wrap_pending());
        assert_eq!(grid.retained_row_len(0), 1);
        assert_eq!(grid.scrollback_len(), 0);
    }
}

#[test]
fn presentation_width_recovers_after_reflow_from_one_column() {
    for (text, natural_width) in [("❤\u{fe0f}", 2), ("♈\u{fe0e}", 1), ("👩🏽‍💻", 2)] {
        let mut grid = Grid::new(1, 3, 4);
        for c in text.chars() { grid.put_char(c); }
        for cols in [4, 1, 3] {
            grid.resize(cols, 3);
            let occupied = natural_width.min(cols);
            let cell = grid.buffer.cell(0, 0);
            assert_eq!(cell.text(), text, "cols={cols}");
            assert_eq!(cell.display_width(), natural_width, "cols={cols}");
            assert_eq!(cell.flags.contains(CellFlags::WIDE), natural_width == 2);
            if occupied == 2 {
                assert!(grid.buffer.cell(0, 1).flags.contains(CellFlags::WIDE_CONT));
            } else if cols > 1 {
                assert_eq!(grid.buffer.cell(0, 1).text(), " ");
            }
            assert_eq!((grid.cursor_row, grid.cursor_col), (0, occupied.min(cols - 1)));
            assert_eq!(grid.is_wrap_pending(), occupied == cols);
            assert_eq!(grid.retained_row_len(0), occupied);
            if cols > 1 { assert_wide_row_valid(&grid, 0); }
        }
    }
}

#[test]
fn text_presentation_shrinks_wide_cells_without_erasing_following_text() {
    for (cols, following_text) in [(2, false), (4, true)] {
        let mut grid = Grid::new(cols, 2, 4);
        if following_text {
            grid.set_cursor_pos(0, 3);
            grid.put_char('Z');
            grid.set_cursor_pos(0, 0);
        }
        grid.put_char('♈');
        assert_eq!(grid.is_wrap_pending(), cols == 2);
        grid.put_char('\u{fe0e}');
        let cell = grid.buffer.cell(0, 0);
        assert_eq!(cell.text(), "♈\u{fe0e}");
        assert_eq!(cell.display_width(), 1);
        assert!(!cell.flags.intersects(CellFlags::WIDE | CellFlags::WIDE_CONT));
        assert_eq!(grid.buffer.cell(0, 1).text(), " ");
        assert!(!grid.buffer.cell(0, 1).flags.contains(CellFlags::WIDE_CONT));
        assert_eq!((grid.cursor_row, grid.cursor_col), (0, 1));
        assert!(!grid.is_wrap_pending());
        assert_eq!(grid.retained_row_len(0), if following_text { 4 } else { 1 });
        if following_text { assert_eq!(grid.buffer.cell(0, 3).c, 'Z'); }
        assert_wide_row_valid(&grid, 0);
        grid.put_char('X');
        assert_eq!(grid.buffer.cell(0, 0).text(), "♈\u{fe0e}");
        assert_eq!(grid.buffer.cell(0, 1).c, 'X');
    }
}

#[test]
fn emoji_presentation_at_nowrap_margin_clips_only_occupied_width() {
    let mut grid = Grid::new(2, 2, 4);
    grid.set_auto_wrap(false);
    grid.put_char('a');
    grid.put_char('❤');
    grid.put_char('\u{fe0f}');
    let cell = grid.buffer.cell(0, 1);
    assert_eq!(cell.text(), "❤\u{fe0f}");
    assert_eq!(cell.display_width(), 2);
    assert!(!cell.flags.intersects(CellFlags::WIDE | CellFlags::WIDE_CONT));
    assert_eq!(grid.buffer.cell(0, 0).c, 'a');
    assert_eq!(grid.buffer.cell(1, 0).text(), " ");
    assert_eq!((grid.cursor_row, grid.cursor_col), (0, 2));
    assert!(grid.is_wrap_pending());
    assert_eq!(grid.retained_row_len(0), 2);
    assert_eq!(grid.scrollback_len(), 0);

    grid.resize(4, 2);
    assert_eq!(grid.buffer.cell(0, 1).text(), "❤\u{fe0f}");
    assert!(grid.buffer.cell(0, 1).flags.contains(CellFlags::WIDE));
    assert!(grid.buffer.cell(0, 2).flags.contains(CellFlags::WIDE_CONT));
    assert_eq!((grid.cursor_row, grid.cursor_col), (0, 3));
    assert!(!grid.is_wrap_pending());
    assert_eq!(grid.retained_row_len(0), 3);
    assert_wide_row_valid(&grid, 0);
}

#[test]
fn one_column_wide_char_consumes_pending_margin() {
    let mut wrapping = Grid::new(1, 2, 0);
    wrapping.put_char('x');
    wrapping.put_char('日');
    assert_eq!((wrapping.cursor_row, wrapping.cursor_col), (1, 1));
    assert_eq!(wrapping.buffer.cell(0, 0).c, 'x');
    assert_eq!(wrapping.buffer.cell(1, 0).text(), "日");

    let mut overwriting = Grid::new(1, 2, 0);
    overwriting.set_auto_wrap(false);
    overwriting.put_char('x');
    overwriting.put_char('日');
    assert_eq!((overwriting.cursor_row, overwriting.cursor_col), (0, 1));
    assert_eq!(overwriting.buffer.cell(0, 0).text(), "日");
}

#[test]
fn extended_graphemes_are_single_cells_across_scalar_writes() {
    for (text, width) in [("e\u{301}", 1), ("👩🏽‍💻", 2), ("🇧🇷", 2), ("1️⃣", 2)] {
        let mut grid = Grid::new(8, 2, 10);
        for scalar in text.chars() { grid.put_char(scalar); }
        assert_eq!(grid.buffer.cell(0, 0).text(), text);
        assert_eq!(grid.cursor_col, width);
        grid.put_char('X');
        assert_eq!(grid.buffer.cell(0, width).c, 'X');
    }
}

#[test]
fn grapheme_boundary_uses_complete_unicode_context() {
    for (previous, next, extends) in [
        ("e", '\u{301}', true),
        ("e\u{301}", 'a', false),
        ("❤", '\u{fe0f}', true),
        ("1\u{fe0f}", '\u{20e3}', true),
        ("👩🏽\u{200d}", '💻', true),
        ("a\u{200d}", '💻', false),
        ("👩\u{200d}\u{301}", '💻', false),
        ("🇧", '🇷', true),
        ("🇧🇷", '🇺', false),
        ("क\u{94d}", 'ष', true),
        ("क\u{94d}\u{200d}", 'ष', true),
        ("क\u{93c}", 'ष', false),
        ("\u{600}", 'a', true),
        ("\u{600}", '\n', false),
        ("\r", '\n', true),
        ("\n", '\u{301}', false),
        ("\u{1100}", '\u{1161}', true),
        ("\u{1100}\u{1161}", '\u{11a8}', true),
    ] {
        assert_eq!(scalar_extends_grapheme(previous, next), extends,
            "previous={previous:?}, next={next:?}");
    }
}

#[test]
fn split_grapheme_boundaries_match_concatenation() {
    let scalars = [
        'a', ' ', '\r', '\n', '\0', '\u{301}', '\u{308}', '\u{600}',
        '\u{903}', 'क', 'ष', '\u{93c}', '\u{94d}', '\u{200c}', '\u{200d}',
        '\u{1100}', '\u{1161}', '\u{11a8}', '가', '각', '❤', '\u{fe0e}',
        '\u{fe0f}', '\u{20e3}', '👩', '💻', '🏽', '🇧', '🇷', '\u{e0067}',
    ];
    let check = |previous: &str| {
        assert_eq!(previous.graphemes(true).count(), 1);
        for next in scalars {
            let combined = format!("{previous}{next}");
            assert_eq!(scalar_extends_grapheme(previous, next),
                combined.graphemes(true).count() == 1,
                "previous={previous:?}, next={next:?}");
        }
    };
    for first in scalars {
        check(&first.to_string());
        for second in scalars {
            let previous = format!("{first}{second}");
            if previous.graphemes(true).count() == 1 {
                check(&previous);
            }
        }
    }
    for cluster in [
        "e\u{301}\u{308}", "👩🏽\u{200d}💻", "👩\u{200d}👩\u{200d}👧\u{200d}👦",
        "क\u{93c}\u{94d}\u{200d}ष\u{94d}क", "\u{600}\u{600}a\u{301}",
        "\u{1100}\u{1161}\u{11a8}", "🏴\u{e0067}\u{e0062}\u{e007f}",
    ] {
        for (offset, scalar) in cluster.char_indices() {
            check(&cluster[..offset + scalar.len_utf8()]);
        }
    }
}

#[test]
fn combining_at_delayed_wrap_does_not_start_a_new_row() {
    let mut grid = Grid::new(2, 2, 10);
    grid.put_ascii(b"ae");
    grid.put_char('\u{301}');
    assert_eq!(grid.buffer.cell(0, 1).text(), "e\u{301}");
    assert_eq!((grid.cursor_row, grid.cursor_col), (0, 2));
    grid.put_char('X');
    assert_eq!(grid.buffer.cell(1, 0).c, 'X');
    assert!(grid.retained_row_wrapped(0));
}

#[test]
fn emoji_presentation_growth_moves_the_complete_cluster_at_margin() {
    let mut grid = Grid::new(2, 2, 10);
    grid.put_char('a');
    grid.put_char('❤');
    grid.put_char('\u{fe0f}');
    assert_eq!(grid.buffer.cell(1, 0).text(), "❤️");
    assert_eq!(grid.retained_row_len(0), 1);
    assert!(grid.retained_row_wrapped(0));
    assert_wide_row_valid(&grid, 1);
}

#[test]
fn emoji_presentation_growth_at_scroll_bottom_preserves_history() {
    let mut grid = Grid::new(2, 2, 4);
    grid.put_ascii(b"zz");
    grid.newline();
    grid.carriage_return();
    grid.put_char('a');
    grid.put_char('❤');
    grid.put_char('\u{fe0f}');
    assert_eq!(grid.scrollback_len(), 1);
    assert_eq!(grid.scrollback_cell(0, 0), 'z');
    assert_eq!(grid.scrollback_cell(0, 1), 'z');
    assert_eq!(grid.retained_row_len(0), 2);
    assert_eq!(grid.buffer.cell(0, 0).c, 'a');
    assert_eq!(grid.retained_row_len(1), 1);
    assert!(grid.retained_row_wrapped(1));
    assert_eq!(grid.buffer.cell(1, 0).text(), "❤\u{fe0f}");
    assert_eq!((grid.cursor_row, grid.cursor_col), (1, 2));
    assert!(grid.is_wrap_pending());
    assert_eq!(grid.retained_row_len(2), 2);
    assert_wide_row_valid(&grid, 1);
}

#[test]
fn screen_cursor_projects_pending_wrap_and_rejects_invalid_columns() {
    for auto_wrap in [true, false] {
        let mut grid = Grid::new(4, 1, 0);
        grid.set_auto_wrap(auto_wrap);
        grid.set_cursor_pos(0, 2);
        grid.put_char('日');

        assert_eq!(grid.cursor_col, grid.cols());
        assert_eq!(grid.screen_cursor_col(), Some(3));
        assert!(grid.buffer.cell(0, 3).flags.contains(CellFlags::WIDE_CONT));

        grid.cursor_col = grid.cols() + 1;
        assert_eq!(grid.screen_cursor_col(), None);
    }
}

#[test]
fn restored_pending_margin_obeys_disabled_auto_wrap() {
    let mut grid = Grid::new(2, 2, 0);
    grid.put_char('a');
    grid.put_char('b');
    grid.save_cursor();
    grid.set_cursor_pos(0, 0);
    grid.set_auto_wrap(false);

    grid.restore_cursor();
    grid.put_char('c');

    assert_eq!((grid.cursor_row, grid.cursor_col), (0, grid.cols()));
    assert_eq!(grid.buffer.cell(0, 1).c, 'c');
    assert_eq!(grid.buffer.cell(1, 0).c, ' ');
}

#[test]
fn primary_pending_margin_obeys_auto_wrap_changed_on_alt_screen() {
    let mut grid = Grid::new(2, 2, 0);
    grid.put_char('a');
    grid.put_char('b');
    grid.enter_alt_screen();
    grid.set_auto_wrap(false);

    grid.leave_alt_screen();
    grid.put_char('c');

    assert_eq!((grid.cursor_row, grid.cursor_col), (0, grid.cols()));
    assert_eq!(grid.buffer.cell(0, 1).c, 'c');
    assert_eq!(grid.buffer.cell(1, 0).c, ' ');
}

#[test]
fn disabled_auto_wrap_remains_bounded_after_resize_and_insert() {
    let mut grid = Grid::new(4, 2, 0);
    grid.set_auto_wrap(false);
    for c in ['a', 'b', 'c', 'd'] {
        grid.put_char(c);
    }
    grid.resize(3, 2);
    grid.modes.insert_mode = true;

    grid.put_char('x');

    assert_eq!((grid.cursor_row, grid.cursor_col), (1, 2));
    assert_eq!(row_text(&grid, 0), "abc");
    assert_eq!(row_text(&grid, 1), "dx ");
}

#[test]
fn resize_maps_pending_wrap_to_the_end_of_reflowed_content() {
    for (columns, before, pending, after) in [
        (5, (0, 3), false, (0, 4)),
        (3, (0, 3), true, (1, 1)),
        (2, (1, 1), false, (1, 2)),
    ] {
        let mut grid = Grid::new(3, 2, 0);
        grid.put_ascii(b"abc");
        grid.resize(columns, 2);
        assert_eq!((grid.cursor_row, grid.cursor_col), before);
        assert_eq!(grid.is_wrap_pending(), pending);
        grid.put_char('X');
        assert_eq!((grid.cursor_row, grid.cursor_col), after);
        assert_eq!(grid.buffer.cell(after.0, after.1 - 1).c, 'X');
    }
}

#[test]
fn disabled_auto_wrap_after_grow_appends_to_preserved_content() {
    let mut grid = Grid::new(3, 2, 0);
    for c in ['a', 'b', 'c'] {
        grid.put_char(c);
    }

    grid.resize(5, 2);
    grid.set_auto_wrap(false);
    grid.put_char('X');

    let first_row: String = (0..5).map(|col| grid.buffer.cell(0, col).c).collect();
    assert_eq!(first_row, "abcX ");
    assert_eq!((grid.cursor_row, grid.cursor_col), (0, 4));
    assert!(!grid.is_wrap_pending());
}

#[test]
fn saved_and_alternate_cursors_follow_reflowed_content() {
    let mut saved = Grid::new(3, 2, 0);
    for c in ['a', 'b', 'c'] {
        saved.put_char(c);
    }
    saved.save_cursor();
    saved.resize(5, 2);
    saved.set_cursor_pos(0, 0);

    saved.restore_cursor();
    assert_eq!(saved.cursor_col, 3);
    assert!(!saved.is_wrap_pending());
    saved.put_char('X');
    assert_eq!((saved.cursor_row, saved.cursor_col), (0, 4));
    assert_eq!(saved.buffer.cell(0, 3).c, 'X');

    let mut alternate = Grid::new(3, 2, 0);
    for c in ['a', 'b', 'c'] {
        alternate.put_char(c);
    }
    alternate.enter_alt_screen();
    alternate.resize(5, 2);

    alternate.leave_alt_screen();
    assert_eq!(alternate.cursor_col, 3);
    assert!(!alternate.is_wrap_pending());
    alternate.put_char('X');
    assert_eq!((alternate.cursor_row, alternate.cursor_col), (0, 4));
    assert_eq!(alternate.buffer.cell(0, 3).c, 'X');
}

#[test]
fn resize_reflows_wide_chars_in_active_and_saved_buffers() {
    let mut active = Grid::new(4, 2, 0);
    active.set_cursor_pos(0, 2);
    active.put_char('日');

    active.resize(3, 2);

    assert_wide_row_valid(&active, 0);
    assert_eq!(active.buffer.cell(0, 2).c, ' ');
    assert_eq!(active.buffer.cell(1, 0).text(), "日");
    assert_wide_row_valid(&active, 1);

    let mut saved_primary = Grid::new(4, 2, 0);
    saved_primary.set_cursor_pos(0, 2);
    saved_primary.put_char('日');
    saved_primary.enter_alt_screen();

    saved_primary.resize(3, 2);
    saved_primary.leave_alt_screen();

    assert_wide_row_valid(&saved_primary, 0);
    assert_eq!(saved_primary.buffer.cell(0, 2).c, ' ');
    assert_eq!(saved_primary.buffer.cell(1, 0).text(), "日");
    assert_wide_row_valid(&saved_primary, 1);
}

#[test]
fn resize_reflows_every_scrollback_glyph_without_hidden_clipping() {
    let mut grid = Grid::new(4, 2, 10);
    grid.put_ascii(b"abcd");
    grid.set_cursor_pos(1, 2);
    grid.put_char('日');
    grid.scroll_up(2);
    for cols in [3, 1, 4, 8] {
        grid.resize(cols, 2);
        let mut text = String::new();
        for row in 0..grid.retained_rows() {
            for col in 0..grid.retained_row_len(row) {
                let cell = grid.retained_cell_data(row, col);
                if !cell.flags.contains(CellFlags::WIDE_CONT) { text.push_str(&cell.text()); }
            }
        }
        assert_eq!(text, "abcd  日", "cols={cols}");
    }
}

#[test]
fn explicit_line_and_cursor_controls_cancel_pending_wrap() {
    let mut grid = Grid::new(3, 3, 0);
    for c in ['a', 'b', 'c'] {
        grid.put_char(c);
    }
    assert_eq!(grid.cursor_col, grid.cols());

    grid.newline();
    assert_eq!((grid.cursor_row, grid.cursor_col), (1, 2));
    grid.put_char('x');

    assert_eq!((grid.cursor_row, grid.cursor_col), (1, grid.cols()));
    assert_eq!(grid.buffer.cell(1, 2).c, 'x');

    grid.backspace();
    assert_eq!(grid.cursor_col, 1);
    grid.move_cursor_down(1);
    assert_eq!((grid.cursor_row, grid.cursor_col), (2, 1));
}

#[test]
fn insert_mode_is_applied_after_delayed_wrap() {
    let mut grid = Grid::new(3, 2, 0);
    for (column, c) in ['q', 'r', 's'].into_iter().enumerate() {
        grid.buffer.cell_mut(1, column).c = c;
    }
    for c in ['a', 'b', 'c'] {
        grid.put_char(c);
    }
    grid.modes.insert_mode = true;

    grid.put_char('x');

    let second_row: String = (0..3).map(|col| grid.buffer.cell(1, col).c).collect();
    assert_eq!(second_row, "xqr");
    assert_eq!((grid.cursor_row, grid.cursor_col), (1, 1));
}

#[test]
fn insert_mode_preserves_a_shifted_wide_character() {
    let mut grid = Grid::new(4, 1, 0);
    grid.put_char('日');
    grid.set_cursor_pos(0, 0);
    grid.modes.insert_mode = true;

    grid.put_char('x');

    assert_eq!(grid.buffer.cell(0, 0).c, 'x');
    assert_eq!(grid.buffer.cell(0, 1).c, '日');
    assert!(grid.buffer.cell(0, 1).flags.contains(CellFlags::WIDE));
    assert!(grid
        .buffer
        .cell(0, 2)
        .flags
        .contains(CellFlags::WIDE_CONT));
    assert_wide_row_valid(&grid, 0);
}

#[test]
fn insert_mode_can_shift_a_wide_character_by_two_cells() {
    let mut grid = Grid::new(5, 1, 0);
    grid.put_char('日');
    grid.set_cursor_pos(0, 0);
    grid.modes.insert_mode = true;

    grid.put_char('本');

    assert_eq!(grid.buffer.cell(0, 0).c, '本');
    assert_eq!(grid.buffer.cell(0, 2).c, '日');
    assert!(grid.buffer.cell(0, 0).flags.contains(CellFlags::WIDE));
    assert!(grid
        .buffer
        .cell(0, 1)
        .flags
        .contains(CellFlags::WIDE_CONT));
    assert!(grid.buffer.cell(0, 2).flags.contains(CellFlags::WIDE));
    assert!(grid
        .buffer
        .cell(0, 3)
        .flags
        .contains(CellFlags::WIDE_CONT));
    assert_wide_row_valid(&grid, 0);
}

#[test]
fn insert_mode_repairs_wide_pairs_split_at_the_cursor_or_margin() {
    let mut on_continuation = Grid::new(5, 1, 0);
    on_continuation.put_char('日');
    on_continuation.buffer.cell_mut(0, 2).c = 'a';
    on_continuation.buffer.cell_mut(0, 3).c = 'b';
    on_continuation.set_cursor_pos(0, 1);
    on_continuation.modes.insert_mode = true;

    on_continuation.put_char('x');

    let continuation_row: String = (0..5)
        .map(|col| on_continuation.buffer.cell(0, col).c)
        .collect();
    assert_eq!(continuation_row, " x ab");
    assert_wide_row_valid(&on_continuation, 0);

    let mut at_margin = Grid::new(4, 1, 0);
    at_margin.set_cursor_pos(0, 2);
    at_margin.put_char('日');
    at_margin.set_cursor_pos(0, 1);
    at_margin.modes.insert_mode = true;

    at_margin.put_char('x');

    let margin_row: String = (0..4)
        .map(|col| at_margin.buffer.cell(0, col).c)
        .collect();
    assert_eq!(margin_row, " x  ");
    assert_wide_row_valid(&at_margin, 0);
}

#[test]
fn image_cursor_advance_moves_right_and_down() {
    let mut grid = Grid::new(10, 6, 0);
    grid.set_cursor_pos(1, 2);

    grid.advance_image_cursor(3, 2);

    assert_eq!((grid.cursor_row, grid.cursor_col), (3, 5));
}

#[test]
fn pending_sixel_queue_enforces_and_resets_its_byte_budget() {
    let mut grid = Grid::new(2, 2, 0);

    grid.queue_response(b"ready".to_vec());
    assert!(grid.queue_sixel_image_with_limit(sixel_image(8), 12));
    assert!(grid.queue_sixel_image_with_limit(sixel_image(4), 12));
    assert_eq!(grid.session.pending_sixel_bytes, 12);
    assert_eq!(
        grid.remaining_sixel_bytes(),
        MAX_PENDING_SIXEL_BYTES - 12
    );
    assert!(!grid.queue_sixel_image_with_limit(sixel_image(4), 12));
    assert_eq!(grid.session.pending_sixel_count, 2);

    let drained = grid.drain_terminal_events();
    assert_eq!(drained.len(), 3);
    assert!(matches!(
        drained.first(),
        Some(TerminalEvent::Response(response)) if response == b"ready"
    ));
    assert!(drained[1..]
        .iter()
        .all(|event| matches!(event, TerminalEvent::SixelGraphics { .. })));
    assert_eq!(grid.session.pending_sixel_count, 0);
    assert_eq!(grid.session.pending_sixel_bytes, 0);
    assert!(grid.queue_sixel_image_with_limit(sixel_image(8), 12));

    grid.session.pending_sixel_bytes = usize::MAX;
    assert!(!grid.queue_sixel_image_with_limit(sixel_image(4), usize::MAX));
}

#[test]
fn pending_sixel_queue_bounds_per_image_metadata() {
    let mut grid = Grid::new(2, 2, 0);

    for _ in 0..MAX_PENDING_SIXEL_IMAGES {
        assert!(grid.queue_sixel_image(sixel_image(4)));
    }
    assert!(!grid.has_sixel_queue_slot());
    assert!(!grid.queue_sixel_image(sixel_image(4)));
    assert_eq!(grid.session.pending_sixel_count, MAX_PENDING_SIXEL_IMAGES);

    let drained = grid.drain_terminal_events();
    assert_eq!(drained.len(), MAX_PENDING_SIXEL_IMAGES);
    assert!(drained
        .iter()
        .all(|event| matches!(event, TerminalEvent::SixelGraphics { .. })));
    assert_eq!(grid.session.pending_sixel_count, 0);
    assert_eq!(grid.session.pending_sixel_bytes, 0);
    assert!(grid.has_sixel_queue_slot());
}

#[test]
fn csi_1049_round_trip_restores_primary_image_placements() {
    let mut grid = Grid::new(2, 2, 0);
    grid.images.placements.push(image_placement(11));

    grid.enter_alt_screen();
    assert!(grid.using_alt_screen);
    assert!(grid.images.placements.is_empty());
    grid.images.placements.push(image_placement(21));

    grid.leave_alt_screen();

    assert!(!grid.using_alt_screen);
    assert_eq!(image_ids(&grid.images.placements), [11]);
}
