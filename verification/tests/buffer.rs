//! The cells of a screen, row by row.
use kokuban::grid::buffer::{Buffer, RowMetadata};
use kokuban::grid::cell::{Cell, CellFlags, Color, Grapheme, UnderlineStyle};
use kokuban::grid::reflow::RetainedRow;
use std::sync::{Arc, Weak};

// A compound text that does not fit into a cell and so lives in an allocation
// of its own.
fn long_text(mark: char) -> String {
    format!("e{}", mark.to_string().repeat(7))
}

fn owner(text: &Grapheme) -> Weak<String> {
    Arc::downgrade(&text.heap_text().unwrap())
}

#[test]
fn whole_screen_scrolls_wrap_without_rotating_row_vectors() {
    for rows in [1, 3, 7] {
        let cols = 9;
        let mut buffer = Buffer::new(cols, rows);
        let mut expected = vec![vec![Cell::default(); cols]; rows];
        let mut metadata = vec![RowMetadata::default(); rows];
        let original_starts = buffer.row_offsets().clone();
        for step in 0..96 {
            let row = step % rows;
            let cell = Cell { c: 'e', grapheme: Some(format!("e{}", char::from_u32(0x300 + (step % 16) as u32).unwrap()).into()),
                fg: Color::Indexed(step as u8), ..Cell::default() };
            *buffer.cell_mut(row, 0) = cell.clone();
            expected[row][0] = cell;
            buffer.mark_written(row, 1 + step % cols);
            metadata[row].len = metadata[row].len.max(1 + step % cols);
            buffer.set_wrapped(row, step % 3 == 0);
            metadata[row].wrapped = step % 3 == 0;
            let count = match step % 7 { 0 => 0, 1 => usize::MAX, 2 => rows, _ => 1 + step % rows };
            let shift = count.min(rows);
            let template = Cell { bg: Color::Indexed((step % 4) as u8), ..Cell::default() };
            if step % 2 == 0 {
                buffer.scroll_up(0, rows - 1, count, template.clone());
                expected.rotate_left(shift);
                metadata.rotate_left(shift);
                for row in rows - shift..rows {
                    expected[row].fill(template.clone());
                    metadata[row] = RowMetadata::default();
                }
            } else {
                buffer.scroll_down(0, rows - 1, count, template.clone());
                expected.rotate_right(shift);
                metadata.rotate_right(shift);
                for row in 0..shift {
                    expected[row].fill(template.clone());
                    metadata[row] = RowMetadata::default();
                }
            }
            assert_eq!(buffer.row_offsets(), &original_starts);
            assert!(buffer.row_origin() < rows);
            for row in 0..rows {
                assert_eq!(buffer.extract_row(row), expected[row], "rows={rows}, step={step}, row={row}");
                let actual = buffer.row_metadata(row);
                assert_eq!((actual.len, actual.wrapped), (metadata[row].len, metadata[row].wrapped));
            }
        }
    }
}

#[test]
fn partial_scrolls_normalize_the_ring_before_editing_the_region() {
    let mut buffer = Buffer::new(8, 7);
    for row in 0..7 {
        buffer.cell_mut(row, 0).c = char::from(b'a' + row as u8);
        buffer.mark_written(row, row + 1);
        buffer.set_wrapped(row, row % 2 == 0);
    }
    buffer.scroll_up(0, 6, 5, Cell::default());
    buffer.scroll_down(0, 6, 2, Cell::default());
    assert_eq!(buffer.row_origin(), 3);
    buffer.cell_mut(5, 3).c = 'x';
    buffer.row_range_mut(2, 1..3).fill(Cell { c: 'y', ..Cell::default() });
    buffer.set_row_metadata(2, RowMetadata { len: 6, wrapped: true });
    let before: Vec<_> = (0..7).map(|row| (buffer.extract_row(row), buffer.row_metadata(row))).collect();
    let template = Cell { bg: Color::Rgb(1, 2, 3), flags: CellFlags::from_bits(CellFlags::REVERSE), ..Cell::default() };
    buffer.scroll_up(1, 5, 2, template.clone());
    assert_eq!(buffer.row_origin(), 0);
    for (row, source) in [(0, 0), (1, 3), (2, 4), (3, 5), (6, 6)] {
        assert_eq!(buffer.extract_row(row), before[source].0);
        let actual = buffer.row_metadata(row);
        assert_eq!((actual.len, actual.wrapped), (before[source].1.len, before[source].1.wrapped));
    }
    for row in [4, 5] { assert_eq!(buffer.extract_row(row), vec![template.clone(); 8]); }

    buffer.scroll_down(0, 6, 1, Cell::default());
    assert_eq!(buffer.row_origin(), 6);
    let before: Vec<_> = (0..7).map(|row| (buffer.extract_row(row), buffer.row_metadata(row))).collect();
    buffer.scroll_down(2, 5, usize::MAX, template.clone());
    assert_eq!(buffer.row_origin(), 0);
    for row in [0, 1, 6] {
        assert_eq!(buffer.extract_row(row), before[row].0);
        let actual = buffer.row_metadata(row);
        assert_eq!((actual.len, actual.wrapped), (before[row].1.len, before[row].1.wrapped));
    }
    for row in 2..=5 { assert_eq!(buffer.extract_row(row), vec![template.clone(); 8]); }
}

#[test]
fn ring_scrolls_release_only_removed_graphemes() {
    let mut buffer = Buffer::new(4, 3);
    let mut owners = Vec::new();
    for row in 0..3 {
        let text = Grapheme::from(long_text(char::from_u32(0x300 + row as u32).unwrap()));
        owners.push(owner(&text));
        *buffer.cell_mut(row, 0) = Cell { c: 'e', grapheme: Some(text), ..Cell::default() };
    }
    buffer.scroll_up(0, 2, 1, Cell::default());
    assert!(owners[0].upgrade().is_none());
    let snapshot = buffer.extract_row(0);
    buffer.scroll_down(0, 2, 2, Cell::default());
    assert!(owners[2].upgrade().is_none());
    assert!(owners[1].upgrade().is_some());
    buffer.scroll_up(1, 2, usize::MAX, Cell::default());
    assert_eq!(owners[1].strong_count(), 1);
    drop(snapshot);
    assert!(owners[1].upgrade().is_none());
}

#[test]
fn partial_writes_keep_blank_suffixes_and_release_erased_graphemes() {
    let mut buffer = Buffer::new(12, 2);
    let text = Grapheme::from(long_text('\u{301}'));
    let erased = owner(&text);
    *buffer.cell_mut(0, 0) = Cell { c: 'e', grapheme: Some(text), ..Cell::default() };
    buffer.row_range_mut(0, 1..3).fill(Cell { c: 'x', ..Cell::default() });
    buffer.mark_written(0, 5); // Printed spaces remain retained content.
    assert_eq!(buffer.suffix_start(0), 3);
    assert_eq!(buffer.row_metadata(0).len, 5);
    buffer.clear_row(0, Cell::default());
    assert!(erased.upgrade().is_none());
    assert_eq!(buffer.suffix_start(0), 0);
    assert_eq!(buffer.extract_row(0), vec![Cell::default(); 12]);

    let styled = Cell { bg: Color::Indexed(5), flags: CellFlags::from_bits(CellFlags::REVERSE), ..Cell::default() };
    buffer.clear_row(0, styled.clone());
    buffer.cell_mut(0, 2).c = 'x';
    buffer.clear_row(0, Cell::default());
    assert_eq!(buffer.extract_row(0), vec![Cell::default(); 12]);

    buffer.cell_mut(0, 11).c = 'z';
    assert_eq!(buffer.suffix_start(0), 12);
    assert_eq!(buffer.row_metadata(0).len, 12);
    buffer.clear_row(0, styled.clone());
    assert_eq!(buffer.extract_row(0), vec![styled; 12]);
}

#[test]
fn clearing_uniform_rows_compares_graphemes_and_wide_flags() {
    let mut buffer = Buffer::new(5, 1);
    let first = Cell { c: 'e', grapheme: Some("e\u{301}".into()), ..Cell::default() };
    let second = Cell { grapheme: Some("e\u{308}".into()), ..first.clone() };
    let wide = Cell { flags: CellFlags::from_bits(CellFlags::WIDE), ..second.clone() };
    let continuation = Cell { flags: CellFlags::from_bits(CellFlags::WIDE_CONT), ..wide.clone() };
    for template in [first, second, wide, continuation] {
        buffer.clear_row(0, template.clone());
        assert_eq!(buffer.extract_row(0), vec![template; 5]);
        assert_eq!(buffer.row_metadata(0).len, 5);
    }
}

#[test]
fn extracted_rows_preserve_styles_and_own_their_compound_prefix() {
    let mut buffer = Buffer::new(8, 1);
    let template = Cell {
        fg: Color::Rgb(1, 2, 3), bg: Color::Indexed(4), flags: CellFlags::from_bits(CellFlags::REVERSE),
        underline_style: UnderlineStyle::Curly, underline_color: Color::Indexed(5),
        ..Cell::default()
    };
    buffer.clear_row(0, template.clone());
    let text = Grapheme::from(long_text('\u{301}'));
    let retained = owner(&text);
    *buffer.cell_mut(0, 0) = Cell { c: 'e', grapheme: Some(text), ..template.clone() };
    let extracted = buffer.extract_row(0);
    buffer.clear_row(0, Cell::default());
    assert_eq!(extracted.len(), 8);
    assert_eq!(extracted[0].text(), long_text('\u{301}'));
    assert!(extracted[1..].iter().all(|cell| cell == &template));
    assert_eq!(retained.strong_count(), 1);
    drop(extracted);
    assert!(retained.upgrade().is_none());
}

#[test]
fn extracting_compound_suffixes_preserves_each_arc_owner() {
    let mut buffer = Buffer::new(3, 1);
    let first = Grapheme::from(long_text('\u{301}'));
    let second = Grapheme::from(long_text('\u{301}'));
    assert!(!owner(&first).ptr_eq(&owner(&second)));
    buffer.clear_row(0, Cell { c: 'e', grapheme: Some(first.clone()), ..Cell::default() });
    let replacement = Cell { c: 'e', grapheme: Some(second.clone()), ..Cell::default() };
    *buffer.cell_mut(0, 0) = replacement.clone();
    // Clearing with an equal template keeps the old suffix allocations.
    buffer.clear_row(0, replacement);
    assert_eq!(buffer.suffix_start(0), 0);
    let extracted = buffer.extract_row(0);
    assert!(owner(extracted[0].grapheme.as_ref().unwrap()).ptr_eq(&owner(&second)));
    for cell in &extracted[1..] {
        assert!(owner(cell.grapheme.as_ref().unwrap()).ptr_eq(&owner(&first)));
    }
}

#[test]
fn extraction_preserves_empty_and_single_column_rows() {
    for cols in [0, 1] {
        let mut buffer = Buffer::new(cols, 1);
        assert_eq!(buffer.extract_row(0), vec![Cell::default(); cols]);
        let template = Cell { c: 'x', bg: Color::Indexed(3), ..Cell::default() };
        buffer.clear_row(0, template.clone());
        assert_eq!(buffer.extract_row(0), vec![template; cols]);
    }
}

#[test]
fn suffix_tracking_matches_full_row_reference_after_mixed_edits() {
    let (cols, rows) = (13, 7);
    let mut buffer = Buffer::new(cols, rows);
    let mut expected = vec![vec![Cell::default(); cols]; rows];
    let mut metadata = vec![RowMetadata::default(); rows];
    let mut state = 0x5a17_2026_u64;
    let mut random = || {
        state = state.wrapping_mul(6364136223846793005).wrapping_add(1);
        (state >> 32) as usize
    };
    for step in 0..600 {
        let row = random() % rows;
        let col = random() % cols;
        let template = match step % 5 {
            0 | 1 => Cell::default(),
            2 => Cell { bg: Color::Indexed(4), flags: CellFlags::from_bits(CellFlags::ITALIC), ..Cell::default() },
            3 => Cell { c: 'e', grapheme: Some("e\u{301}".into()), ..Cell::default() },
            _ => Cell { fg: Color::Rgb(1, 2, 3), underline_style: UnderlineStyle::Curly,
                underline_color: Color::Indexed(7), ..Cell::default() },
        };
        match random() % 8 {
            0 => {
                *buffer.cell_mut(row, col) = template.clone();
                expected[row][col] = template;
            }
            1 => {
                let end = col + random() % (cols - col + 1);
                buffer.row_range_mut(row, col..end).fill(template.clone());
                expected[row][col..end].fill(template);
            }
            2 => {
                buffer.row_mut(row).rotate_right(col);
                expected[row].rotate_right(col);
            }
            3 => {
                buffer.clear_row(row, template.clone());
                expected[row].fill(template);
                metadata[row] = RowMetadata::default();
            }
            4 => {
                let bottom = row + random() % (rows - row);
                let count = random() % (rows + 2);
                let count = count.min(bottom - row + 1);
                if random() % 2 == 0 {
                    buffer.scroll_up(row, bottom, count, template.clone());
                    expected[row..=bottom].rotate_left(count);
                    metadata[row..=bottom].rotate_left(count);
                    for erased in bottom + 1 - count..=bottom {
                        expected[erased].fill(template.clone());
                        metadata[erased] = RowMetadata::default();
                    }
                } else {
                    buffer.scroll_down(row, bottom, count, template.clone());
                    expected[row..=bottom].rotate_right(count);
                    metadata[row..=bottom].rotate_right(count);
                    for erased in row..row + count {
                        expected[erased].fill(template.clone());
                        metadata[erased] = RowMetadata::default();
                    }
                }
            }
            5 => {
                metadata[row] = RowMetadata { len: col, wrapped: step % 2 == 0 };
                buffer.set_row_metadata(row, metadata[row]);
            }
            6 => {
                let end = random() % (cols + 5);
                buffer.mark_written(row, end);
                metadata[row].len = metadata[row].len.max(end.min(cols));
                buffer.set_wrapped(row, step % 2 == 0);
                metadata[row].wrapped = step % 2 == 0;
            }
            _ => {
                let retained: Vec<_> = expected.iter().zip(&metadata)
                    .map(|(cells, metadata)| RetainedRow {
                        cells: cells.clone(), metadata: *metadata,
                    }).collect();
                buffer = Buffer::from_retained_rows(cols, &retained);
            }
        }
        for row in 0..rows {
            assert_eq!(buffer.extract_row(row), expected[row], "step={step}, row={row}");
            let last_nonblank = expected[row].iter().rposition(|cell| cell.c != ' ')
                .map_or(0, |col| col + 1);
            let actual = buffer.row_metadata(row);
            assert_eq!((actual.len, actual.wrapped),
                (metadata[row].len.max(last_nonblank), metadata[row].wrapped),
                "step={step}, row={row}");
            let suffix = buffer.suffix_start(row);
            assert!(suffix <= cols);
            assert!(expected[row][suffix..].iter().all(|cell| cell == &expected[row][cols - 1]),
                "invalid suffix after step={step}, row={row}");
        }
    }
}

#[test]
fn repeated_region_scrolls_preserve_row_edits_and_reconstruction_order() {
    let mut buffer = Buffer::new(9, 7);
    let mut expected = vec![vec![Cell::default(); 9]; 7];
    for step in 0..200 {
        let rows = buffer.rows();
        let cols = buffer.cols();
        let top = if step % 4 == 0 { 0 } else { (step * 7) % rows };
        let bottom = if step % 4 == 0 {
            rows - 1
        } else {
            top + (step * 11) % (rows - top)
        };
        let count = match step % 9 {
            0 => 0,
            1 => usize::MAX,
            _ => step % (bottom - top + 1) + 1,
        };
        let template = Cell {
            c: char::from(b'!' + (step % 90) as u8),
            grapheme: None,
            fg: Color::Indexed((step % 256) as u8),
            bg: Color::Rgb(12, 34, 56),
            flags: CellFlags::from_bits(CellFlags::BOLD | CellFlags::ITALIC),
            underline_style: UnderlineStyle::Curly,
            underline_color: Color::Indexed(7),
        };
        let up = step % 3 != 0;
        let before = expected.clone();
        let shift = count.min(bottom - top + 1) as isize;
        for row in top..=bottom {
            let source = row as isize + if up { shift } else { -shift };
            expected[row] = if source >= top as isize && source <= bottom as isize {
                before[source as usize].clone()
            } else {
                vec![template.clone(); cols]
            };
        }
        if up {
            buffer.scroll_up(top, bottom, count, template.clone());
        } else {
            buffer.scroll_down(top, bottom, count, template.clone());
        }

        // Exercise both mutable accessors after the physical row order changed.
        let edited_row = (step * 13) % rows;
        buffer.row_mut(edited_row).fill(template.clone());
        expected[edited_row].fill(template);
        let edited_col = (step * 17) % cols;
        buffer.cell_mut(edited_row, edited_col).c = '日';
        expected[edited_row][edited_col].c = '日';

        if step % 13 == 0 {
            let retained: Vec<_> = (0..rows).map(|row| RetainedRow {
                cells: buffer.extract_row(row), metadata: buffer.row_metadata(row),
            }).collect();
            buffer = Buffer::from_retained_rows(cols, &retained);
        }
        assert_eq!(buffer.rows(), expected.len());
        assert_eq!(buffer.cols(), expected[0].len());
        for (row, expected_row) in expected.iter().enumerate() {
            assert_eq!(
                format!("{:?}", buffer.extract_row(row)),
                format!("{expected_row:?}"),
                "step={step}, row={row}"
            );
            for (col, expected_cell) in expected_row.iter().enumerate() {
                assert_eq!(
                    format!("{:?}", buffer.cell(row, col)),
                    format!("{expected_cell:?}"),
                    "step={step}, row={row}, col={col}"
                );
            }
        }
    }
}

#[test]
fn row_offset_rotation_keeps_graphemes_lengths_and_wrap_flags_together() {
    let mut buffer = Buffer::new(8, 6);
    for row in 0..6 {
        *buffer.cell_mut(row, 0) = Cell {
            c: 'e', grapheme: Some(format!("e{}", char::from_u32(0x300 + row as u32).unwrap()).into()), ..Cell::default()
        };
        buffer.mark_written(row, row + 1);
        buffer.set_wrapped(row, row % 2 == 0);
    }
    let before: Vec<_> = (0..6).map(|row| (buffer.extract_row(row), buffer.row_metadata(row))).collect();
    buffer.scroll_up(1, 4, 1, Cell::default());
    for (row, source) in [(0, 0), (1, 2), (2, 3), (3, 4), (5, 5)] {
        assert_eq!(buffer.extract_row(row), before[source].0);
        assert_eq!(buffer.row_metadata(row).len, before[source].1.len);
        assert_eq!(buffer.row_metadata(row).wrapped, before[source].1.wrapped);
    }
    assert_eq!(buffer.row_metadata(4).len, 0);
    assert!(!buffer.row_metadata(4).wrapped);
    buffer.scroll_down(1, 4, 1, Cell::default());
    for row in 2..=4 {
        assert_eq!(buffer.extract_row(row), before[row].0);
        assert_eq!(buffer.row_metadata(row).len, before[row].1.len);
        assert_eq!(buffer.row_metadata(row).wrapped, before[row].1.wrapped);
    }
    assert_eq!(buffer.row_metadata(1).len, 0);
    assert!(!buffer.row_metadata(1).wrapped);
}

#[test]
fn scrolling_preserves_cells_outside_the_region_and_fills_exposed_rows() {
    let template = Cell {
        c: ' ',
        grapheme: None,
        fg: Color::Rgb(12, 34, 56),
        bg: Color::Indexed(7),
        flags: CellFlags::from_bits(CellFlags::ITALIC),
        underline_style: UnderlineStyle::Curly,
        underline_color: Color::Rgb(65, 43, 21),
    };
    for cols in [1, 3, 7] {
        for rows in [1, 2, 6] {
            for top in 0..rows {
                for bottom in top..rows {
                    for count in (0..=rows + 1).chain([usize::MAX]) {
                        for up in [true, false] {
                            let mut buffer = Buffer::new(cols, rows);
                            for row in 0..rows {
                                for col in 0..cols {
                                    *buffer.cell_mut(row, col) = Cell {
                                        c: char::from(b'A' + (row * cols + col) as u8),
                                        grapheme: None,
                                        fg: Color::Indexed(row as u8),
                                        bg: Color::Indexed(col as u8),
                                        flags: CellFlags::from_bits(CellFlags::BOLD),
                                        underline_style: UnderlineStyle::Double,
                                        underline_color: Color::Indexed((row + col) as u8),
                                    };
                                }
                            }
                            let before: Vec<_> =
                                (0..rows).map(|row| buffer.extract_row(row)).collect();
                            if up {
                                buffer.scroll_up(top, bottom, count, template.clone());
                            } else {
                                buffer.scroll_down(top, bottom, count, template.clone());
                            }
                            let shift = count.min(bottom - top + 1) as isize;
                            for row in 0..rows {
                                for col in 0..cols {
                                    let source = row as isize + if up { shift } else { -shift };
                                    let expected = if row < top || row > bottom {
                                        before[row][col].clone()
                                    } else if source >= top as isize
                                        && source <= bottom as isize
                                    {
                                        before[source as usize][col].clone()
                                    } else {
                                        template.clone()
                                    };
                                    let actual = buffer.cell(row, col);
                                    assert_eq!(
                                        (actual.c, actual.fg, actual.bg, actual.flags, actual.underline_style, actual.underline_color),
                                        (expected.c, expected.fg, expected.bg, expected.flags, expected.underline_style, expected.underline_color),
                                        "{cols}x{rows}, region={top}..={bottom}, count={count}, up={up}, cell=({row},{col})",
                                    );
                                }
                            }
                        }
                    }
                }
            }
        }
    }
}
