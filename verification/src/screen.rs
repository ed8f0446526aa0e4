//! What is sent to the terminal, and where that leaves the terminal's cursor.
//!
//! The renderer hands out a list of instructions instead of writing bytes, so
//! that the same list can be read three ways: the program around the library
//! performs it, a test compares it, and the model below follows the cursor
//! through it.
//!
//! Every character is taken to fill one column. Rows are counted downwards
//! without bound: the model knows no top or bottom of the screen.

use vstd::arithmetic::div_mod::{
    lemma_div_is_ordered, lemma_fundamental_div_mod, lemma_fundamental_div_mod_converse,
};
use vstd::prelude::*;

verus! {

/// The largest count that one cursor movement can carry.
pub const MAX_STEP: usize = 0xffff;

/// The number of columns that the prompt takes.
pub const PROMPT_WIDTH: usize = 3;

/// One instruction for the terminal.
#[derive(Clone, Debug, PartialEq, Eq)]
pub enum RenderOp {
    /// Hide the cursor.
    HideCursor,
    /// Show the cursor.
    ShowCursor,
    /// Print bold from here on.
    Bold,
    /// Print in reverse video from here on.
    Reverse,
    /// Print without attributes from here on.
    ResetAttributes,
    /// Move the cursor up by this many rows. A terminal takes a count of 0
    /// for 1.
    MoveUp(u16),
    /// Move the cursor right by this many columns, at most to the last
    /// column. A terminal takes a count of 0 for 1.
    MoveRight(u16),
    /// Move the cursor to the first column of its row.
    CarriageReturn,
    /// Move the cursor to the first column of the next row.
    LineBreak,
    /// Clear from the cursor to the end of its row.
    ClearToLineEnd,
    /// Print this text.
    Print(String),
}

/// An instruction for the terminal as contracts speak of it: counts are
/// natural numbers, text is a sequence of characters.
pub enum Op {
    HideCursor,
    ShowCursor,
    Bold,
    Reverse,
    ResetAttributes,
    MoveUp(nat),
    MoveRight(nat),
    CarriageReturn,
    LineBreak,
    ClearToLineEnd,
    Print(Seq<char>),
}

impl DeepView for RenderOp {
    type V = Op;

    open spec fn deep_view(&self) -> Op {
        match *self {
            RenderOp::HideCursor => Op::HideCursor,
            RenderOp::ShowCursor => Op::ShowCursor,
            RenderOp::Bold => Op::Bold,
            RenderOp::Reverse => Op::Reverse,
            RenderOp::ResetAttributes => Op::ResetAttributes,
            RenderOp::MoveUp(rows) => Op::MoveUp(rows as nat),
            RenderOp::MoveRight(columns) => Op::MoveRight(columns as nat),
            RenderOp::CarriageReturn => Op::CarriageReturn,
            RenderOp::LineBreak => Op::LineBreak,
            RenderOp::ClearToLineEnd => Op::ClearToLineEnd,
            RenderOp::Print(text) => Op::Print(text@),
        }
    }
}

/// Where the terminal's cursor is. After a character has been printed in the
/// last column the cursor stays on it, and `wrap_pending` says that the next
/// character will start the next row.
pub struct ScreenCursor {
    pub row: int,
    pub col: int,
    pub wrap_pending: bool,
}

/// The cursor after one character has been printed on a terminal that is
/// `columns` wide.
pub open spec fn put_char(cursor: ScreenCursor, columns: int) -> ScreenCursor {
    let row = if cursor.wrap_pending {
        cursor.row + 1
    } else {
        cursor.row
    };
    let col = if cursor.wrap_pending {
        0
    } else {
        cursor.col
    };
    if col + 1 >= columns {
        ScreenCursor { row, col, wrap_pending: true }
    } else {
        ScreenCursor { row, col: col + 1, wrap_pending: false }
    }
}

/// The cursor after `count` characters have been printed.
pub open spec fn put_chars(cursor: ScreenCursor, count: nat, columns: int) -> ScreenCursor
    decreases count,
{
    if count == 0 {
        cursor
    } else {
        put_char(put_chars(cursor, (count - 1) as nat, columns), columns)
    }
}

/// The cursor after the terminal has performed `op`.
pub open spec fn step(cursor: ScreenCursor, op: Op, columns: int) -> ScreenCursor {
    match op {
        Op::Print(text) => put_chars(cursor, text.len(), columns),
        Op::CarriageReturn => ScreenCursor { row: cursor.row, col: 0, wrap_pending: false },
        Op::LineBreak => ScreenCursor { row: cursor.row + 1, col: 0, wrap_pending: false },
        Op::MoveUp(rows) => ScreenCursor {
            row: cursor.row - (if rows == 0 {
                1
            } else {
                rows as int
            }),
            col: cursor.col,
            wrap_pending: false,
        },
        Op::MoveRight(by) => {
            let target = cursor.col + (if by == 0 {
                1
            } else {
                by as int
            });
            ScreenCursor {
                row: cursor.row,
                col: if target >= columns {
                    columns - 1
                } else {
                    target
                },
                wrap_pending: false,
            }
        },
        _ => cursor,
    }
}

/// The cursor after the terminal has performed `ops`, the first first.
pub open spec fn run(cursor: ScreenCursor, ops: Seq<Op>, columns: int) -> ScreenCursor
    decreases ops.len(),
{
    if ops.len() == 0 {
        cursor
    } else {
        step(run(cursor, ops.drop_last(), columns), ops.last(), columns)
    }
}

/// The instructions that move the cursor up by `rows` rows: none where `rows`
/// is not positive, and more than one where a single instruction cannot carry
/// the count.
pub open spec fn move_up_ops(rows: int) -> Seq<Op>
    decreases rows,
{
    if rows <= 0 {
        Seq::empty()
    } else if rows <= MAX_STEP {
        seq![Op::MoveUp(rows as nat)]
    } else {
        seq![Op::MoveUp(MAX_STEP as nat)] + move_up_ops(rows - MAX_STEP)
    }
}

/// The instruction that moves the cursor right by `by` columns: none where
/// `by` is not positive.
pub open spec fn move_right_ops(by: int) -> Seq<Op> {
    if by <= 0 {
        Seq::empty()
    } else {
        seq![Op::MoveRight(by as nat)]
    }
}

/// A line break where one is due, and nothing else.
pub open spec fn line_break_ops(due: bool) -> Seq<Op> {
    if due {
        seq![Op::LineBreak]
    } else {
        Seq::empty()
    }
}

/// `count` spaces.
pub open spec fn blanks(count: int) -> Seq<char> {
    Seq::new(
        if count < 0 {
            0
        } else {
            count as nat
        },
        |i: int| ' ',
    )
}

/// The prompt.
pub open spec fn prompt_text() -> Seq<char> {
    seq![' ', '$', ' ']
}

/// The status marker that stands before each prompt: a `$` in bold reverse
/// video, then blanks up to the full width of the terminal, then back to the
/// first column. Where the row before did not end in a line break the blanks
/// wrap, so that the prompt starts on a row of its own.
pub open spec fn status_ops(columns: int) -> Seq<Op> {
    seq![
        Op::Bold,
        Op::Reverse,
        Op::Print(seq!['$']),
        Op::ResetAttributes,
        Op::Print(blanks(columns - 1)),
        Op::CarriageReturn,
    ]
}

/// What draws the status marker and the prompt on a terminal of `columns`
/// columns: the marker, then the prompt, and nothing behind it.
pub open spec fn prompt_ops(columns: int) -> Seq<Op> {
    status_ops(columns) + seq![Op::Print(prompt_text())]
}

/// The prompt fills its last row exactly: the text starts in the first column
/// of the row below, and a cursor left behind the prompt stays on the prompt's
/// last column with the wrap pending.
pub open spec fn prompt_fills_row(prompt_width: int, columns: int) -> bool {
    prompt_width > 0 && prompt_width % columns == 0
}

/// The row that holds the last character of the prompt, counted from the
/// first row of the prompt. That is the row on which the text starts, but for
/// a prompt that fills its last row, which ends one row higher.
pub open spec fn prompt_last_row(prompt_width: int, columns: int) -> int {
    if prompt_fills_row(prompt_width, columns) {
        prompt_width / columns - 1
    } else {
        prompt_width / columns
    }
}

/// What takes the cursor to where the text is printed from.
///
/// As a rule that is the place where the text starts: the cursor goes up to
/// that row, back to the first column and right to the column, and the row is
/// cleared from there. Behind a prompt that fills its last row there are two
/// other cases. A cursor that still stands behind the prompt, above the row
/// of the text, is where it has to be: the wrap is pending, and the text goes
/// on from there. And an empty text is followed by the line break that starts
/// the row of the text, so the cursor goes to the prompt's last row.
pub open spec fn to_text_ops(
    prompt_width: int,
    text_len: int,
    columns: int,
    rows_above: int,
) -> Seq<Op> {
    if prompt_fills_row(prompt_width, columns) && text_len == 0 {
        move_up_ops(rows_above - prompt_last_row(prompt_width, columns))
            + seq![Op::CarriageReturn]
    } else if rows_above < prompt_width / columns {
        Seq::empty()
    } else {
        move_up_ops(rows_above - prompt_width / columns) + seq![Op::CarriageReturn]
            + move_right_ops(prompt_width % columns) + seq![Op::ClearToLineEnd]
    }
}

/// What redraws the line: `text` behind a prompt of `prompt_width` columns,
/// with the cursor before character `cursor` of the text, on a terminal of
/// `columns` columns whose cursor stands `rows_above` rows below the first row
/// of the prompt.
///
/// The cursor is hidden and taken to where the text is printed from; the text
/// is printed, followed by a line break where prompt and text end on a column
/// boundary, and the rest of that row is cleared; then the cursor is taken up
/// to its row, back to the first column and right to its column, and shown
/// again.
pub open spec fn line_ops(
    prompt_width: int,
    text: Seq<char>,
    cursor: int,
    columns: int,
    rows_above: int,
) -> Seq<Op> {
    let total = prompt_width + text.len();
    seq![Op::HideCursor] + to_text_ops(prompt_width, text.len() as int, columns, rows_above)
        + seq![Op::Print(text)] + line_break_ops(total > 0 && total % columns == 0)
        + seq![Op::ClearToLineEnd] + move_up_ops(
        total / columns - (prompt_width + cursor) / columns,
    ) + seq![Op::CarriageReturn] + move_right_ops((prompt_width + cursor) % columns)
        + seq![Op::ShowCursor]
}

/// Where the parts of a line fall on a terminal that wraps.
#[derive(Clone, Copy, Debug, PartialEq, Eq)]
pub struct Layout {
    /// The columns that the prompt and the whole text take.
    pub current_column: usize,
    /// The row on which the text starts, counted from the first row of the
    /// prompt.
    pub text_row: usize,
    /// The column at which the text starts.
    pub text_column: usize,
    /// The row that holds the end of the text.
    pub last_row: usize,
    /// The row of the cursor.
    pub cursor_row: usize,
    /// The column of the cursor in its row.
    pub cursor_column: usize,
    /// Whether prompt and text end on a column boundary, so that a line break
    /// has to follow them.
    pub line_break: bool,
}

impl Layout {
    /// This is the layout of a text of `text_len` characters behind a prompt
    /// of `prompt_width` columns, with the cursor before character `cursor`,
    /// on a terminal of `columns` columns.
    pub open spec fn describes(
        self,
        prompt_width: int,
        text_len: int,
        cursor: int,
        columns: int,
    ) -> bool {
        &&& self.current_column == prompt_width + text_len
        &&& self.text_row == prompt_width / columns
        &&& self.text_column == prompt_width % columns
        &&& self.last_row == (prompt_width + text_len) / columns
        &&& self.cursor_row == (prompt_width + cursor) / columns
        &&& self.cursor_column == (prompt_width + cursor) % columns
        &&& self.line_break == (prompt_width + text_len > 0 && (prompt_width + text_len)
            % columns == 0)
    }

    /// Lays out a line. There is no layout on a terminal without columns, nor
    /// where the number of columns taken does not fit the machine's word.
    pub fn compute(prompt_width: usize, text_len: usize, cursor: usize, columns: u16) -> (layout:
        Option<Layout>)
        requires
            cursor <= text_len,
        ensures
            layout is Some <==> columns >= 1 && prompt_width + text_len <= usize::MAX,
            layout matches Some(l) ==> l.describes(
                prompt_width as int,
                text_len as int,
                cursor as int,
                columns as int,
            ) && l.text_row <= l.cursor_row <= l.last_row && l.text_column < columns
                && l.cursor_column < columns,
    {
        if columns == 0 {
            return None;
        }
        let width = columns as usize;
        match prompt_width.checked_add(text_len) {
            None => None,
            Some(total) => {
                let at = prompt_width + cursor;
                proof {
                    lemma_div_is_ordered(prompt_width as int, at as int, width as int);
                    lemma_div_is_ordered(at as int, total as int, width as int);
                }
                Some(
                    Layout {
                        current_column: total,
                        text_row: prompt_width / width,
                        text_column: prompt_width % width,
                        last_row: total / width,
                        cursor_row: at / width,
                        cursor_column: at % width,
                        line_break: total > 0 && total % width == 0,
                    },
                )
            },
        }
    }
}

/// Performing one list of instructions after another is performing the two in
/// a row.
pub proof fn lemma_run_concat(cursor: ScreenCursor, first: Seq<Op>, second: Seq<Op>, columns: int)
    ensures
        run(cursor, first + second, columns) == run(run(cursor, first, columns), second, columns),
    decreases second.len(),
{
    if second.len() == 0 {
        assert(first + second =~= first);
    } else {
        assert((first + second).drop_last() =~= first + second.drop_last());
        lemma_run_concat(cursor, first, second.drop_last(), columns);
    }
}

/// Performing a single instruction.
pub proof fn lemma_run_one(cursor: ScreenCursor, op: Op, columns: int)
    ensures
        run(cursor, seq![op], columns) == step(cursor, op, columns),
{
    let ops = seq![op];
    assert(ops.drop_last() =~= Seq::<Op>::empty());
    assert(run(cursor, ops.drop_last(), columns) == cursor);
}

/// The quotient and the remainder of the next number.
proof fn lemma_div_mod_next(x: int, d: int)
    requires
        0 <= x,
        1 <= d,
    ensures
        0 <= x % d < d,
        x % d + 1 == d ==> (x + 1) % d == 0 && (x + 1) / d == x / d + 1,
        x % d + 1 < d ==> (x + 1) % d == x % d + 1 && (x + 1) / d == x / d,
{
    lemma_fundamental_div_mod(x, d);
    let q = x / d;
    let r = x % d;
    assert(0 <= r < d) by (nonlinear_arith)
        requires
            r == x % d,
            1 <= d,
    ;
    if r + 1 == d {
        assert(x + 1 == (q + 1) * d + 0) by (nonlinear_arith)
            requires
                x == d * q + r,
                r + 1 == d,
        ;
        lemma_fundamental_div_mod_converse(x + 1, d, q + 1, 0);
    } else {
        assert(x + 1 == q * d + (r + 1)) by (nonlinear_arith)
            requires
                x == d * q + r,
        ;
        lemma_fundamental_div_mod_converse(x + 1, d, q, r + 1);
    }
}

/// Rows and columns of a position that lies `more` columns behind another.
proof fn lemma_div_mod_from(base: int, more: int, d: int)
    requires
        0 <= base,
        0 <= more,
        1 <= d,
    ensures
        0 <= base % d < d,
        (base + more) / d == base / d + (base % d + more) / d,
        (base + more) % d == (base % d + more) % d,
{
    lemma_fundamental_div_mod(base, d);
    let from = base % d + more;
    assert(0 <= base % d < d) by (nonlinear_arith)
        requires
            1 <= d,
    ;
    lemma_fundamental_div_mod(from, d);
    assert(0 <= from % d < d) by (nonlinear_arith)
        requires
            1 <= d,
    ;
    assert(base + more == (base / d + from / d) * d + from % d) by (nonlinear_arith)
        requires
            base == d * (base / d) + base % d,
            from == d * (from / d) + from % d,
            from == base % d + more,
    ;
    lemma_fundamental_div_mod_converse(base + more, d, base / d + from / d, from % d);
}

/// Where printing leaves the cursor: `count` characters printed from a column
/// of the terminal end `count` columns further on, row after row, and where
/// they fill their last row exactly the cursor stays on its last column with
/// the wrap pending.
pub proof fn lemma_put_chars(cursor: ScreenCursor, count: nat, columns: int)
    requires
        1 <= columns,
        0 <= cursor.col < columns,
        !cursor.wrap_pending,
        count >= 1,
    ensures
        (cursor.col + count) % columns == 0 ==> put_chars(cursor, count, columns) == (ScreenCursor {
            row: cursor.row + (cursor.col + count) / columns - 1,
            col: columns - 1,
            wrap_pending: true,
        }),
        (cursor.col + count) % columns != 0 ==> put_chars(cursor, count, columns) == (ScreenCursor {
            row: cursor.row + (cursor.col + count) / columns,
            col: (cursor.col + count) % columns,
            wrap_pending: false,
        }),
    decreases count,
{
    let before = cursor.col + count - 1;
    lemma_div_mod_next(before, columns);
    if count == 1 {
        assert(put_chars(cursor, 0, columns) == cursor);
        lemma_div_mod_next(0, columns);
        assert(before / columns == 0 && before % columns == before) by {
            lemma_fundamental_div_mod_converse(before, columns, 0, before);
        }
    } else {
        lemma_put_chars(cursor, (count - 1) as nat, columns);
    }
}

/// Moving up by `rows` rows takes the cursor up by that many rows and leaves
/// its column.
pub proof fn lemma_run_move_up(cursor: ScreenCursor, rows: int, columns: int)
    requires
        0 <= rows,
    ensures
        run(cursor, move_up_ops(rows), columns).row == cursor.row - rows,
        run(cursor, move_up_ops(rows), columns).col == cursor.col,
        run(cursor, move_up_ops(rows), columns).wrap_pending == (rows == 0
            && cursor.wrap_pending),
    decreases rows,
{
    if rows <= 0 {
    } else if rows <= MAX_STEP {
        lemma_run_one(cursor, Op::MoveUp(rows as nat), columns);
    } else {
        let first = seq![Op::MoveUp(MAX_STEP as nat)];
        lemma_run_concat(cursor, first, move_up_ops(rows - MAX_STEP), columns);
        lemma_run_one(cursor, Op::MoveUp(MAX_STEP as nat), columns);
        lemma_run_move_up(run(cursor, first, columns), rows - MAX_STEP, columns);
    }
}

/// Going back to the first column and right by `by` columns leaves the cursor
/// in column `by` of its row.
proof fn lemma_run_to_column(cursor: ScreenCursor, by: int, columns: int)
    requires
        0 <= by < columns,
    ensures
        run(cursor, seq![Op::CarriageReturn] + move_right_ops(by), columns) == (ScreenCursor {
            row: cursor.row,
            col: by,
            wrap_pending: false,
        }),
{
    let back = seq![Op::CarriageReturn];
    lemma_run_concat(cursor, back, move_right_ops(by), columns);
    lemma_run_one(cursor, Op::CarriageReturn, columns);
    if by > 0 {
        lemma_run_one(run(cursor, back, columns), Op::MoveRight(by as nat), columns);
    }
}

/// A prompt that fills its last row takes at least one row.
pub proof fn lemma_full_prompt_rows(prompt_width: int, columns: int)
    requires
        1 <= columns,
        prompt_fills_row(prompt_width, columns),
    ensures
        prompt_width / columns >= 1,
{
    lemma_fundamental_div_mod(prompt_width, columns);
    let rows = prompt_width / columns;
    assert(rows >= 1) by (nonlinear_arith)
        requires
            prompt_width == columns * rows,
            prompt_width > 0,
            1 <= columns,
    ;
}

/// Printing `text` from a column of the terminal, with the line break that
/// follows a text that ends on a column boundary, leaves the cursor as many
/// columns further on as the text has characters, and no wrap pending.
proof fn lemma_run_text(cursor: ScreenCursor, text: Seq<char>, columns: int)
    requires
        1 <= columns,
        0 <= cursor.col < columns,
        !cursor.wrap_pending,
    ensures
        run(
            cursor,
            seq![Op::Print(text)] + line_break_ops(
                text.len() > 0 && (cursor.col + text.len()) % columns == 0,
            ) + seq![Op::ClearToLineEnd],
            columns,
        ) == (ScreenCursor {
            row: cursor.row + (cursor.col + text.len()) / columns,
            col: (cursor.col + text.len()) % columns,
            wrap_pending: false,
        }),
{
    let due = text.len() > 0 && (cursor.col + text.len()) % columns == 0;
    let print = seq![Op::Print(text)];
    let clear = seq![Op::ClearToLineEnd];
    lemma_run_concat(cursor, print + line_break_ops(due), clear, columns);
    lemma_run_concat(cursor, print, line_break_ops(due), columns);
    lemma_run_one(cursor, Op::Print(text), columns);
    let printed = run(cursor, print, columns);
    assert(printed == put_chars(cursor, text.len(), columns));
    if text.len() > 0 {
        lemma_put_chars(cursor, text.len(), columns);
    } else {
        lemma_fundamental_div_mod_converse(cursor.col, columns, 0, cursor.col);
    }
    if due {
        lemma_run_one(printed, Op::LineBreak, columns);
    }
    let broken = run(printed, line_break_ops(due), columns);
    lemma_run_one(broken, Op::ClearToLineEnd, columns);
}

/// With the wrap pending, the next characters are printed from the first
/// column of the next row.
proof fn lemma_put_chars_wrapped(cursor: ScreenCursor, count: nat, columns: int)
    requires
        cursor.wrap_pending,
        count >= 1,
    ensures
        put_chars(cursor, count, columns) == put_chars(
            ScreenCursor { row: cursor.row + 1, col: 0, wrap_pending: false },
            count,
            columns,
        ),
    decreases count,
{
    let below = ScreenCursor { row: cursor.row + 1, col: 0, wrap_pending: false };
    if count == 1 {
        assert(put_chars(cursor, 0, columns) == cursor);
        assert(put_chars(below, 0, columns) == below);
    } else {
        lemma_put_chars_wrapped(cursor, (count - 1) as nat, columns);
    }
}

/// A text that is not empty, printed with the wrap pending, goes on from the
/// first column of the next row.
proof fn lemma_run_text_wrapped(cursor: ScreenCursor, text: Seq<char>, columns: int)
    requires
        1 <= columns,
        cursor.wrap_pending,
        text.len() > 0,
    ensures
        run(
            cursor,
            seq![Op::Print(text)] + line_break_ops(text.len() % (columns as nat) == 0)
                + seq![Op::ClearToLineEnd],
            columns,
        ) == (ScreenCursor {
            row: cursor.row + 1 + text.len() / (columns as nat),
            col: (text.len() % (columns as nat)) as int,
            wrap_pending: false,
        }),
{
    let below = ScreenCursor { row: cursor.row + 1, col: 0, wrap_pending: false };
    let print = seq![Op::Print(text)];
    let rest = line_break_ops(text.len() % (columns as nat) == 0) + seq![Op::ClearToLineEnd];
    assert(print + line_break_ops(text.len() % (columns as nat) == 0) + seq![
        Op::ClearToLineEnd,
    ] =~= print + rest);
    lemma_run_concat(cursor, print, rest, columns);
    lemma_run_concat(below, print, rest, columns);
    lemma_run_one(cursor, Op::Print(text), columns);
    lemma_run_one(below, Op::Print(text), columns);
    lemma_put_chars_wrapped(cursor, text.len(), columns);
    lemma_run_text(below, text, columns);
}

/// After the line has been redrawn the terminal's cursor stands where the
/// cursor of the line is: on the row and in the column of character `cursor`,
/// counted from the first row of the prompt, on any terminal that has a
/// column, whatever the text.
///
/// What is asked of the cursor before is that it stands `rows_above` rows
/// below the first row of the prompt, not above the last row of the prompt,
/// and that, where it stands above the row of the text, the wrap is pending:
/// that is where a prompt that fills its last row leaves it.
pub proof fn lemma_line_ops_place_cursor(
    prompt_width: int,
    text: Seq<char>,
    cursor: int,
    columns: int,
    rows_above: int,
    start: ScreenCursor,
)
    requires
        1 <= columns,
        0 <= prompt_width,
        0 <= cursor <= text.len(),
        prompt_last_row(prompt_width, columns) <= rows_above,
        rows_above < prompt_width / columns ==> start.wrap_pending,
    ensures
        run(start, line_ops(prompt_width, text, cursor, columns, rows_above), columns) == (
        ScreenCursor {
            row: start.row - rows_above + (prompt_width + cursor) / columns,
            col: (prompt_width + cursor) % columns,
            wrap_pending: false,
        }),
{
    let total = prompt_width + text.len();
    let at = prompt_width + cursor;
    let text_row = prompt_width / columns;
    let text_column = prompt_width % columns;
    let full = prompt_fills_row(prompt_width, columns);
    lemma_div_mod_from(prompt_width, text.len() as int, columns);
    lemma_div_mod_from(at, 0, columns);
    lemma_div_is_ordered(at, total, columns);
    lemma_div_is_ordered(prompt_width, at, columns);
    if full {
        lemma_full_prompt_rows(prompt_width, columns);
    }
    let due = total > 0 && total % columns == 0;

    let hide = seq![Op::HideCursor];
    let to_text = to_text_ops(prompt_width, text.len() as int, columns, rows_above);
    let print = seq![Op::Print(text)] + line_break_ops(due) + seq![Op::ClearToLineEnd];
    let back = move_up_ops(total / columns - at / columns);
    let to_cursor = seq![Op::CarriageReturn] + move_right_ops(at % columns);
    let show = seq![Op::ShowCursor];
    let ops = line_ops(prompt_width, text, cursor, columns, rows_above);
    assert(ops =~= hide + to_text + print + back + to_cursor + show);

    lemma_run_concat(start, hide + to_text + print + back + to_cursor, show, columns);
    lemma_run_concat(start, hide + to_text + print + back, to_cursor, columns);
    lemma_run_concat(start, hide + to_text + print, back, columns);
    lemma_run_concat(start, hide + to_text, print, columns);
    lemma_run_concat(start, hide, to_text, columns);

    let s1 = run(start, hide, columns);
    lemma_run_one(start, Op::HideCursor, columns);
    let s2 = run(s1, to_text, columns);
    let s3 = run(s2, print, columns);
    // The text and what follows it leave the cursor behind the last character.
    assert(s3 == ScreenCursor {
        row: start.row - rows_above + total / columns,
        col: total % columns,
        wrap_pending: false,
    }) by {
        if full && text.len() == 0 {
            let last = prompt_last_row(prompt_width, columns);
            let up = move_up_ops(rows_above - last);
            lemma_run_concat(s1, up, seq![Op::CarriageReturn], columns);
            lemma_run_move_up(s1, rows_above - last, columns);
            lemma_run_one(run(s1, up, columns), Op::CarriageReturn, columns);
            lemma_run_text(s2, text, columns);
            lemma_run_concat(s2, seq![Op::Print(text)] + line_break_ops(false), seq![
                Op::ClearToLineEnd,
            ], columns);
            lemma_run_concat(s2, seq![Op::Print(text)], line_break_ops(false), columns);
            lemma_run_concat(s2, seq![Op::Print(text)] + line_break_ops(true), seq![
                Op::ClearToLineEnd,
            ], columns);
            lemma_run_concat(s2, seq![Op::Print(text)], line_break_ops(true), columns);
            lemma_run_one(s2, Op::Print(text), columns);
            let printed = run(s2, seq![Op::Print(text)], columns);
            assert(printed == s2);
            lemma_run_one(printed, Op::LineBreak, columns);
            lemma_run_one(run(printed, line_break_ops(true), columns), Op::ClearToLineEnd, columns);
        } else if rows_above < text_row {
            assert(s2 == s1);
            lemma_run_text_wrapped(s2, text, columns);
            lemma_div_mod_from(0, text.len() as int, columns);
        } else {
            let up = move_up_ops(rows_above - text_row);
            let column = seq![Op::CarriageReturn] + move_right_ops(text_column);
            assert(to_text =~= up + column + seq![Op::ClearToLineEnd]);
            lemma_run_concat(s1, up + column, seq![Op::ClearToLineEnd], columns);
            lemma_run_concat(s1, up, column, columns);
            lemma_run_move_up(s1, rows_above - text_row, columns);
            lemma_run_to_column(run(s1, up, columns), text_column, columns);
            lemma_run_one(run(s1, up + column, columns), Op::ClearToLineEnd, columns);
            lemma_run_text(s2, text, columns);
        }
    }
    let s4 = run(s3, back, columns);
    lemma_run_move_up(s3, total / columns - at / columns, columns);
    let s5 = run(s4, to_cursor, columns);
    lemma_run_to_column(s4, at % columns, columns);
    lemma_run_one(s5, Op::ShowCursor, columns);
}

/// After the status marker the cursor stands in the first column of a row,
/// wherever it stood before.
pub proof fn lemma_status_ops_reach_first_column(columns: int, start: ScreenCursor)
    ensures
        run(start, status_ops(columns), columns).col == 0,
        !run(start, status_ops(columns), columns).wrap_pending,
{
}

/// Printing in two goes is printing in one.
proof fn lemma_put_chars_split(cursor: ScreenCursor, first: nat, second: nat, columns: int)
    ensures
        put_chars(put_chars(cursor, first, columns), second, columns) == put_chars(
            cursor,
            first + second,
            columns,
        ),
    decreases second,
{
    if second > 0 {
        lemma_put_chars_split(cursor, first, (second - 1) as nat, columns);
    }
}

/// The status marker fills one row exactly. Where the cursor stood in the
/// first column the prompt starts on that row; where it stood further right,
/// behind text that no line break had ended, the prompt starts on the next
/// row.
pub proof fn lemma_status_ops_start_own_row(columns: int, start: ScreenCursor)
    requires
        1 <= columns,
        0 <= start.col < columns,
        !start.wrap_pending,
    ensures
        run(start, status_ops(columns), columns) == (ScreenCursor {
            row: if start.col == 0 {
                start.row
            } else {
                start.row + 1
            },
            col: 0,
            wrap_pending: false,
        }),
{
    let marker = Op::Print(seq!['$']);
    let padding = Op::Print(blanks(columns - 1));
    let ops = status_ops(columns);
    assert(ops =~= seq![Op::Bold] + seq![Op::Reverse] + seq![marker] + seq![Op::ResetAttributes]
        + seq![padding] + seq![Op::CarriageReturn]);
    let a = seq![Op::Bold];
    let b = a + seq![Op::Reverse];
    let c = b + seq![marker];
    let d = c + seq![Op::ResetAttributes];
    let e = d + seq![padding];
    lemma_run_concat(start, e, seq![Op::CarriageReturn], columns);
    lemma_run_concat(start, d, seq![padding], columns);
    lemma_run_concat(start, c, seq![Op::ResetAttributes], columns);
    lemma_run_concat(start, b, seq![marker], columns);
    lemma_run_concat(start, a, seq![Op::Reverse], columns);
    lemma_run_one(start, Op::Bold, columns);
    lemma_run_one(run(start, a, columns), Op::Reverse, columns);
    lemma_run_one(run(start, b, columns), marker, columns);
    lemma_run_one(run(start, c, columns), Op::ResetAttributes, columns);
    lemma_run_one(run(start, d, columns), padding, columns);
    lemma_run_one(run(start, e, columns), Op::CarriageReturn, columns);
    lemma_put_chars_split(start, 1, (columns - 1) as nat, columns);
    lemma_put_chars(start, columns as nat, columns);
    lemma_div_mod_from(columns, start.col, columns);
    lemma_fundamental_div_mod_converse(columns, columns, 1, 0);
    lemma_fundamental_div_mod_converse(start.col, columns, 0, start.col);
}

/// The prompt leaves the cursor behind its last character: on the row and in
/// the column where the text of the line starts or, where the prompt fills its
/// last row, on that row's last column with the wrap pending. That is the row
/// that `prompt_last_row` gives, counted from the row on which the status
/// marker has left the cursor.
pub proof fn lemma_prompt_ops_leave_cursor(columns: int, start: ScreenCursor)
    requires
        1 <= columns,
    ensures
        run(start, prompt_ops(columns), columns) == (ScreenCursor {
            row: run(start, status_ops(columns), columns).row + prompt_last_row(
                PROMPT_WIDTH as int,
                columns,
            ),
            col: if prompt_fills_row(PROMPT_WIDTH as int, columns) {
                columns - 1
            } else {
                PROMPT_WIDTH as int % columns
            },
            wrap_pending: prompt_fills_row(PROMPT_WIDTH as int, columns),
        }),
{
    let home = run(start, status_ops(columns), columns);
    lemma_status_ops_reach_first_column(columns, start);
    lemma_run_concat(start, status_ops(columns), seq![Op::Print(prompt_text())], columns);
    lemma_run_one(home, Op::Print(prompt_text()), columns);
    lemma_put_chars(home, 3, columns);
}

/// Appends one instruction.
fn emit(ops: &mut Vec<RenderOp>, op: RenderOp)
    ensures
        final(ops).deep_view() == old(ops).deep_view().push(op.deep_view()),
{
    ops.push(op);
    assert(ops.deep_view() =~= old(ops).deep_view().push(op.deep_view()));
}

/// Appends what moves the cursor up by `rows` rows.
fn emit_move_up(ops: &mut Vec<RenderOp>, rows: usize)
    ensures
        final(ops).deep_view() == old(ops).deep_view() + move_up_ops(rows as int),
{
    let mut left = rows;
    while left > MAX_STEP
        invariant
            ops.deep_view() + move_up_ops(left as int) == old(ops).deep_view() + move_up_ops(
                rows as int,
            ),
        decreases left,
    {
        let ghost before = ops.deep_view();
        emit(ops, RenderOp::MoveUp(0xffff));
        assert(ops.deep_view() + move_up_ops(left - MAX_STEP) =~= before + move_up_ops(
            left as int,
        ));
        left = left - MAX_STEP;
    }
    if left > 0 {
        emit(ops, RenderOp::MoveUp(left as u16));
    }
    assert(ops.deep_view() =~= old(ops).deep_view() + move_up_ops(rows as int));
}

/// Appends what moves the cursor right by `by` columns.
fn emit_move_right(ops: &mut Vec<RenderOp>, by: usize)
    requires
        by <= MAX_STEP,
    ensures
        final(ops).deep_view() == old(ops).deep_view() + move_right_ops(by as int),
{
    if by > 0 {
        emit(ops, RenderOp::MoveRight(by as u16));
    }
    assert(ops.deep_view() =~= old(ops).deep_view() + move_right_ops(by as int));
}

/// Appends a line break where one is due.
fn emit_line_break(ops: &mut Vec<RenderOp>, due: bool)
    ensures
        final(ops).deep_view() == old(ops).deep_view() + line_break_ops(due),
{
    if due {
        emit(ops, RenderOp::LineBreak);
    }
    assert(ops.deep_view() =~= old(ops).deep_view() + line_break_ops(due));
}

/// A string of `count` spaces.
fn blank_string(count: usize) -> (text: String)
    ensures
        text@ == blanks(count as int),
{
    let mut text = String::new();
    let mut done: usize = 0;
    while done < count
        invariant
            done <= count,
            text@ == blanks(done as int),
        decreases count - done,
    {
        proof {
            reveal_strlit(" ");
        }
        text.append(" ");
        assert(" "@ =~= seq![' ']);
        assert(text@ =~= blanks(done + 1));
        done = done + 1;
    }
    text
}

/// What draws the status marker and the prompt on a terminal of `columns`
/// columns.
pub fn draw_prompt(columns: u16) -> (ops: Vec<RenderOp>)
    requires
        columns >= 1,
    ensures
        ops.deep_view() == prompt_ops(columns as int),
{
    let mut ops: Vec<RenderOp> = Vec::new();
    assert(ops.deep_view() =~= Seq::<Op>::empty());
    proof {
        reveal_strlit("$");
        reveal_strlit(" $ ");
    }
    emit(&mut ops, RenderOp::Bold);
    emit(&mut ops, RenderOp::Reverse);
    let marker = "$".to_owned();
    assert(marker@ =~= seq!['$']);
    emit(&mut ops, RenderOp::Print(marker));
    emit(&mut ops, RenderOp::ResetAttributes);
    emit(&mut ops, RenderOp::Print(blank_string((columns - 1) as usize)));
    emit(&mut ops, RenderOp::CarriageReturn);
    let prompt = " $ ".to_owned();
    assert(prompt@ =~= prompt_text());
    emit(&mut ops, RenderOp::Print(prompt));
    assert(ops.deep_view() =~= status_ops(columns as int) + seq![Op::Print(prompt_text())]);
    ops
}

/// Appends what takes the cursor to where the text is printed from.
fn emit_to_text(
    ops: &mut Vec<RenderOp>,
    prompt_width: usize,
    text_len: usize,
    columns: u16,
    rows_above: usize,
)
    requires
        columns >= 1,
        prompt_last_row(prompt_width as int, columns as int) <= rows_above,
    ensures
        final(ops).deep_view() == old(ops).deep_view() + to_text_ops(
            prompt_width as int,
            text_len as int,
            columns as int,
            rows_above as int,
        ),
{
    let width = columns as usize;
    let text_row = prompt_width / width;
    let text_column = prompt_width % width;
    let fills_row = prompt_width > 0 && text_column == 0;
    let ghost before = ops.deep_view();
    if fills_row && text_len == 0 {
        proof {
            lemma_full_prompt_rows(prompt_width as int, columns as int);
        }
        emit_move_up(ops, rows_above - (text_row - 1));
        emit(ops, RenderOp::CarriageReturn);
        assert(ops.deep_view() =~= before + (move_up_ops(rows_above - (text_row - 1)) + seq![
            Op::CarriageReturn,
        ]));
    } else if rows_above >= text_row {
        emit_move_up(ops, rows_above - text_row);
        emit(ops, RenderOp::CarriageReturn);
        emit_move_right(ops, text_column);
        emit(ops, RenderOp::ClearToLineEnd);
        assert(ops.deep_view() =~= before + (move_up_ops(rows_above - text_row) + seq![
            Op::CarriageReturn,
        ] + move_right_ops(text_column as int) + seq![Op::ClearToLineEnd]));
    } else {
        assert(ops.deep_view() =~= before + Seq::<Op>::empty());
    }
}

/// What redraws the line: `text`, which has `text_len` characters, behind a
/// prompt of `prompt_width` columns, with the cursor before character `cursor`,
/// on a terminal of `columns` columns whose cursor stands `rows_above` rows
/// below the first row of the prompt, not above the prompt's last row. With
/// the instructions comes the layout that they follow.
///
/// Nothing is drawn where there is no layout: on a terminal without columns,
/// and where the columns taken do not fit the machine's word.
pub fn draw_line(
    prompt_width: usize,
    text: &str,
    text_len: usize,
    cursor: usize,
    columns: u16,
    rows_above: usize,
) -> (drawn: Option<(Vec<RenderOp>, Layout)>)
    requires
        text_len == text@.len(),
        cursor <= text_len,
        columns >= 1 ==> prompt_last_row(prompt_width as int, columns as int) <= rows_above,
    ensures
        drawn is Some <==> columns >= 1 && prompt_width + text_len <= usize::MAX,
        drawn matches Some((ops, layout)) ==> {
            &&& layout.describes(
                prompt_width as int,
                text_len as int,
                cursor as int,
                columns as int,
            )
            &&& layout.text_row <= layout.cursor_row <= layout.last_row
            &&& ops.deep_view() == line_ops(
                prompt_width as int,
                text@,
                cursor as int,
                columns as int,
                rows_above as int,
            )
        },
{
    let layout = match Layout::compute(prompt_width, text_len, cursor, columns) {
        None => {
            return None;
        },
        Some(layout) => layout,
    };
    let mut ops: Vec<RenderOp> = Vec::new();
    assert(ops.deep_view() =~= Seq::<Op>::empty());
    emit(&mut ops, RenderOp::HideCursor);
    emit_to_text(&mut ops, prompt_width, text_len, columns, rows_above);
    emit(&mut ops, RenderOp::Print(text.to_owned()));
    emit_line_break(&mut ops, layout.line_break);
    emit(&mut ops, RenderOp::ClearToLineEnd);
    emit_move_up(&mut ops, layout.last_row - layout.cursor_row);
    emit(&mut ops, RenderOp::CarriageReturn);
    emit_move_right(&mut ops, layout.cursor_column);
    emit(&mut ops, RenderOp::ShowCursor);
    assert(ops.deep_view() =~= line_ops(
        prompt_width as int,
        text@,
        cursor as int,
        columns as int,
        rows_above as int,
    ));
    Some((ops, layout))
}

} // verus!
