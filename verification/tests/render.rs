use shell_repl::screen::{draw_line, draw_prompt, Layout, RenderOp};

struct Terminal {
    columns: i64,
    row: i64,
    col: i64,
    wrap_pending: bool,
    cursor_hidden: bool,
}

fn terminal_at(columns: i64, row: i64, col: i64) -> Terminal {
    Terminal { columns, row, col, wrap_pending: false, cursor_hidden: false }
}

fn perform(terminal: &mut Terminal, ops: &[RenderOp]) {
    for op in ops {
        match op {
            RenderOp::HideCursor => terminal.cursor_hidden = true,
            RenderOp::ShowCursor => terminal.cursor_hidden = false,
            RenderOp::Bold | RenderOp::Reverse | RenderOp::ResetAttributes => {}
            RenderOp::ClearToLineEnd => {}
            RenderOp::MoveUp(rows) => {
                terminal.row -= (*rows).max(1) as i64;
                terminal.wrap_pending = false;
            }
            RenderOp::MoveRight(by) => {
                terminal.col = (terminal.col + (*by).max(1) as i64).min(terminal.columns - 1);
                terminal.wrap_pending = false;
            }
            RenderOp::CarriageReturn => {
                terminal.col = 0;
                terminal.wrap_pending = false;
            }
            RenderOp::LineBreak => {
                terminal.col = 0;
                terminal.row += 1;
                terminal.wrap_pending = false;
            }
            RenderOp::Print(text) => {
                for _ in text.chars() {
                    if terminal.wrap_pending {
                        terminal.row += 1;
                        terminal.col = 0;
                        terminal.wrap_pending = false;
                    }
                    if terminal.col + 1 >= terminal.columns {
                        terminal.wrap_pending = true;
                    } else {
                        terminal.col += 1;
                    }
                }
            }
        }
    }
}

fn print_of(text: &str) -> RenderOp {
    RenderOp::Print(text.to_string())
}

#[test]
fn layout_of_a_line_that_wraps_once() {
    let layout = Layout::compute(3, 8, 8, 10).unwrap();
    assert_eq!(layout.current_column, 11);
    assert_eq!(layout.last_row, 1);
    assert_eq!(layout.cursor_row, 1);
    assert_eq!(layout.cursor_column, 1);
    assert_eq!(layout.text_row, 0);
    assert_eq!(layout.text_column, 3);
    assert!(!layout.line_break);
}

#[test]
fn redraw_of_a_line_that_wraps_once_ends_on_the_last_row() {
    let (ops, layout) = draw_line(3, "abcdefgh", 8, 8, 10, 1).unwrap();
    assert_eq!(layout.last_row - layout.cursor_row, 0);
    assert_eq!(
        ops,
        vec![
            RenderOp::HideCursor,
            RenderOp::MoveUp(1),
            RenderOp::CarriageReturn,
            RenderOp::MoveRight(3),
            RenderOp::ClearToLineEnd,
            print_of("abcdefgh"),
            RenderOp::ClearToLineEnd,
            RenderOp::CarriageReturn,
            RenderOp::MoveRight(1),
            RenderOp::ShowCursor,
        ]
    );
    let mut terminal = terminal_at(10, 1, 0);
    perform(&mut terminal, &ops);
    assert_eq!((terminal.row, terminal.col), (1, 1));
    assert!(!terminal.wrap_pending);
    assert!(!terminal.cursor_hidden);
}

#[test]
fn layout_with_the_cursor_on_an_earlier_row() {
    let layout = Layout::compute(3, 20, 2, 10).unwrap();
    assert_eq!(layout.current_column, 23);
    assert_eq!(layout.last_row, 2);
    assert_eq!(layout.cursor_row, 0);
    assert_eq!(layout.cursor_column, 5);
    assert!(!layout.line_break);
}

#[test]
fn layout_of_a_line_that_fills_its_last_row() {
    let layout = Layout::compute(3, 7, 7, 10).unwrap();
    assert_eq!(layout.current_column, 10);
    assert_eq!(layout.last_row, 1);
    assert_eq!(layout.cursor_row, 1);
    assert_eq!(layout.cursor_column, 0);
    assert!(layout.line_break);
    let longer = Layout::compute(3, 17, 0, 10).unwrap();
    assert_eq!(longer.last_row, 2);
    assert_eq!(longer.cursor_row, 0);
    assert_eq!(longer.cursor_column, 3);
    assert!(longer.line_break);
}

#[test]
fn layout_of_an_empty_line_behind_a_prompt_that_fills_its_row() {
    let layout = Layout::compute(3, 0, 0, 3).unwrap();
    assert_eq!(layout.current_column, 3);
    assert_eq!(layout.text_row, 1);
    assert_eq!(layout.text_column, 0);
    assert_eq!(layout.last_row, 1);
    assert_eq!(layout.cursor_row, 1);
    assert_eq!(layout.cursor_column, 0);
    assert!(layout.line_break);
}

#[test]
fn layout_of_an_empty_line_needs_no_line_break() {
    let behind_prompt = Layout::compute(3, 0, 0, 80).unwrap();
    assert_eq!(behind_prompt.current_column, 3);
    assert_eq!(behind_prompt.cursor_column, 3);
    assert!(!behind_prompt.line_break);
    let bare = Layout::compute(0, 0, 0, 80).unwrap();
    assert_eq!(bare.current_column, 0);
    assert!(!bare.line_break);
    let bare_and_narrow = Layout::compute(0, 0, 0, 1).unwrap();
    assert!(!bare_and_narrow.line_break);
}

#[test]
fn redraw_of_an_empty_line_behind_a_prompt_that_fills_its_row() {
    let (ops, layout) = draw_line(3, "", 0, 0, 3, 0).unwrap();
    assert!(layout.line_break);
    assert_eq!(
        ops,
        vec![
            RenderOp::HideCursor,
            RenderOp::CarriageReturn,
            print_of(""),
            RenderOp::LineBreak,
            RenderOp::ClearToLineEnd,
            RenderOp::CarriageReturn,
            RenderOp::ShowCursor,
        ]
    );
    let mut terminal = terminal_at(3, 0, 2);
    terminal.wrap_pending = true;
    perform(&mut terminal, &ops);
    assert_eq!((terminal.row, terminal.col, terminal.wrap_pending), (1, 0, false));
    let (again, _) = draw_line(3, "", 0, 0, 3, 1).unwrap();
    assert_eq!(
        again,
        vec![
            RenderOp::HideCursor,
            RenderOp::MoveUp(1),
            RenderOp::CarriageReturn,
            print_of(""),
            RenderOp::LineBreak,
            RenderOp::ClearToLineEnd,
            RenderOp::CarriageReturn,
            RenderOp::ShowCursor,
        ]
    );
    perform(&mut terminal, &again);
    assert_eq!((terminal.row, terminal.col, terminal.wrap_pending), (1, 0, false));
}

#[test]
fn redraw_of_the_first_character_behind_a_prompt_that_fills_its_row() {
    let (ops, layout) = draw_line(3, "a", 1, 1, 3, 0).unwrap();
    assert!(!layout.line_break);
    assert_eq!(
        ops,
        vec![
            RenderOp::HideCursor,
            print_of("a"),
            RenderOp::ClearToLineEnd,
            RenderOp::CarriageReturn,
            RenderOp::MoveRight(1),
            RenderOp::ShowCursor,
        ]
    );
    let mut terminal = terminal_at(3, 0, 2);
    terminal.wrap_pending = true;
    perform(&mut terminal, &ops);
    assert_eq!((terminal.row, terminal.col, terminal.wrap_pending), (1, 1, false));
    let (next, _) = draw_line(3, "ab", 2, 2, 3, 1).unwrap();
    assert_eq!(
        next,
        vec![
            RenderOp::HideCursor,
            RenderOp::CarriageReturn,
            RenderOp::ClearToLineEnd,
            print_of("ab"),
            RenderOp::ClearToLineEnd,
            RenderOp::CarriageReturn,
            RenderOp::MoveRight(2),
            RenderOp::ShowCursor,
        ]
    );
    perform(&mut terminal, &next);
    assert_eq!((terminal.row, terminal.col, terminal.wrap_pending), (1, 2, false));
}

#[test]
fn layout_on_a_terminal_narrower_than_the_prompt() {
    let layout = Layout::compute(3, 4, 1, 2).unwrap();
    assert_eq!(layout.current_column, 7);
    assert_eq!(layout.text_row, 1);
    assert_eq!(layout.text_column, 1);
    assert_eq!(layout.last_row, 3);
    assert_eq!(layout.cursor_row, 2);
    assert_eq!(layout.cursor_column, 0);
    assert!(!layout.line_break);
}

#[test]
fn no_layout_without_columns() {
    assert_eq!(Layout::compute(3, 8, 8, 0), None);
    assert!(draw_line(3, "abcdefgh", 8, 8, 0, 0).is_none());
}

#[test]
fn no_layout_when_the_columns_do_not_fit() {
    assert_eq!(Layout::compute(usize::MAX, 1, 0, 80), None);
    assert!(draw_line(usize::MAX, "a", 1, 0, 80, usize::MAX).is_none());
    assert!(Layout::compute(usize::MAX - 1, 1, 0, 80).is_some());
}

#[test]
fn redraw_of_a_short_line() {
    let (ops, layout) = draw_line(3, "ls", 2, 1, 80, 0).unwrap();
    assert_eq!(layout.cursor_row, 0);
    assert_eq!(layout.cursor_column, 4);
    assert_eq!(
        ops,
        vec![
            RenderOp::HideCursor,
            RenderOp::CarriageReturn,
            RenderOp::MoveRight(3),
            RenderOp::ClearToLineEnd,
            print_of("ls"),
            RenderOp::ClearToLineEnd,
            RenderOp::CarriageReturn,
            RenderOp::MoveRight(4),
            RenderOp::ShowCursor,
        ]
    );
}

#[test]
fn redraw_breaks_the_line_after_a_full_row() {
    let (ops, _) = draw_line(3, "abcdefg", 7, 7, 10, 0).unwrap();
    assert_eq!(
        ops,
        vec![
            RenderOp::HideCursor,
            RenderOp::CarriageReturn,
            RenderOp::MoveRight(3),
            RenderOp::ClearToLineEnd,
            print_of("abcdefg"),
            RenderOp::LineBreak,
            RenderOp::ClearToLineEnd,
            RenderOp::CarriageReturn,
            RenderOp::ShowCursor,
        ]
    );
    let mut terminal = terminal_at(10, 0, 9);
    perform(&mut terminal, &ops);
    assert_eq!((terminal.row, terminal.col, terminal.wrap_pending), (1, 0, false));
}

#[test]
fn redraw_moves_up_to_a_cursor_on_an_earlier_row() {
    let text = "abcdefghijklmnopqrst";
    let (ops, layout) = draw_line(3, text, 20, 2, 10, 2).unwrap();
    assert_eq!(layout.last_row - layout.cursor_row, 2);
    assert_eq!(
        ops,
        vec![
            RenderOp::HideCursor,
            RenderOp::MoveUp(2),
            RenderOp::CarriageReturn,
            RenderOp::MoveRight(3),
            RenderOp::ClearToLineEnd,
            print_of(text),
            RenderOp::ClearToLineEnd,
            RenderOp::MoveUp(2),
            RenderOp::CarriageReturn,
            RenderOp::MoveRight(5),
            RenderOp::ShowCursor,
        ]
    );
}

#[test]
fn redraw_moves_up_in_several_steps_over_many_rows() {
    let text = "x".repeat(70_000);
    let (ops, layout) = draw_line(0, &text, 70_000, 0, 1, 0).unwrap();
    assert_eq!(layout.last_row, 70_000);
    assert_eq!(layout.cursor_row, 0);
    assert!(layout.line_break);
    assert_eq!(
        ops,
        vec![
            RenderOp::HideCursor,
            RenderOp::CarriageReturn,
            RenderOp::ClearToLineEnd,
            RenderOp::Print(text.clone()),
            RenderOp::LineBreak,
            RenderOp::ClearToLineEnd,
            RenderOp::MoveUp(65_535),
            RenderOp::MoveUp(4_465),
            RenderOp::CarriageReturn,
            RenderOp::ShowCursor,
        ]
    );
    let mut terminal = terminal_at(1, 0, 0);
    perform(&mut terminal, &ops);
    assert_eq!((terminal.row, terminal.col, terminal.wrap_pending), (0, 0, false));
    let (from_below, _) = draw_line(0, &text, 70_000, 70_000, 1, 131_070).unwrap();
    assert_eq!(from_below[1], RenderOp::MoveUp(65_535));
    assert_eq!(from_below[2], RenderOp::MoveUp(65_535));
    assert_eq!(from_below[3], RenderOp::CarriageReturn);
}

#[test]
fn redraw_puts_the_cursor_where_the_line_has_it() {
    for columns in 1..=9u16 {
        for prompt_width in 0..=4usize {
            for len in 0..=20usize {
                let text: String = "abcdefghijklmnopqrstuvwxyz".chars().take(len).collect();
                for cursor in 0..=len {
                    let text_row = prompt_width / columns as usize;
                    let fills = prompt_width > 0 && prompt_width % columns as usize == 0;
                    let prompt_row = if fills { text_row - 1 } else { text_row };
                    for extra in 0..=2usize {
                        let rows_above = prompt_row + extra;
                        for wrap_pending in [true, false] {
                            if rows_above < text_row && !wrap_pending {
                                continue;
                            }
                            let (ops, layout) =
                                draw_line(prompt_width, &text, len, cursor, columns, rows_above)
                                    .unwrap();
                            let home = 100;
                            let start_col = if wrap_pending { columns as i64 - 1 } else { 0 };
                            let mut terminal =
                                terminal_at(columns as i64, home + rows_above as i64, start_col);
                            terminal.wrap_pending = wrap_pending;
                            perform(&mut terminal, &ops);
                            let total = prompt_width + len;
                            let breaks =
                                ops.iter().filter(|op| **op == RenderOp::LineBreak).count();
                            let due = total > 0 && total % columns as usize == 0;
                            assert_eq!(breaks, if due { 1 } else { 0 });
                            assert_eq!(layout.line_break, due);
                            let at = (prompt_width + cursor) as i64;
                            assert_eq!(terminal.row, home + at / columns as i64);
                            assert_eq!(terminal.col, at % columns as i64);
                            assert!(!terminal.wrap_pending);
                            assert!(!terminal.cursor_hidden);
                            assert_eq!(layout.cursor_row as i64, at / columns as i64);
                            assert_eq!(layout.cursor_column as i64, at % columns as i64);
                            assert_eq!(layout.current_column, prompt_width + len);
                            assert_eq!(
                                layout.last_row,
                                (prompt_width + len) / columns as usize
                            );
                            assert!(!ops.contains(&RenderOp::MoveUp(0)));
                            assert!(!ops.contains(&RenderOp::MoveRight(0)));
                        }
                    }
                }
            }
        }
    }
}

#[test]
fn prompt_on_a_wide_terminal() {
    assert_eq!(
        draw_prompt(10),
        vec![
            RenderOp::Bold,
            RenderOp::Reverse,
            print_of("$"),
            RenderOp::ResetAttributes,
            print_of("         "),
            RenderOp::CarriageReturn,
            print_of(" $ "),
        ]
    );
}

#[test]
fn prompt_ends_with_the_prompt_on_every_width() {
    assert_eq!(
        draw_prompt(3),
        vec![
            RenderOp::Bold,
            RenderOp::Reverse,
            print_of("$"),
            RenderOp::ResetAttributes,
            print_of("  "),
            RenderOp::CarriageReturn,
            print_of(" $ "),
        ]
    );
    let narrow = draw_prompt(1);
    assert_eq!(narrow[4], print_of(""));
    for columns in 1..=200u16 {
        let ops = draw_prompt(columns);
        assert_eq!(ops.len(), 7);
        assert_eq!(ops[4], print_of(&" ".repeat(columns as usize - 1)));
        assert_eq!(ops[5], RenderOp::CarriageReturn);
        assert_eq!(ops.last(), Some(&print_of(" $ ")));
        assert!(!ops.contains(&RenderOp::LineBreak));
    }
}

#[test]
fn prompt_starts_on_a_row_of_its_own() {
    for columns in 1..=12u16 {
        let ops = draw_prompt(columns);
        for start_col in 0..columns as i64 {
            let mut terminal = terminal_at(columns as i64, 7, start_col);
            perform(&mut terminal, &ops[..6]);
            let home = if start_col == 0 { 7 } else { 8 };
            assert_eq!((terminal.row, terminal.col, terminal.wrap_pending), (home, 0, false));
            perform(&mut terminal, &ops[6..]);
            let fills = 3 % columns == 0;
            assert_eq!(terminal.row, home + 2 / columns as i64);
            assert_eq!(terminal.col, if fills { columns as i64 - 1 } else { 3 % columns as i64 });
            assert_eq!(terminal.wrap_pending, fills);
        }
    }
}
