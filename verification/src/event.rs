//! The session: what each key press does to the line and to the screen, and
//! the loop that waits for the keys.
//!
//! The session never reads or writes. Each function takes what the program
//! around it has read (a key, the size of the terminal, the outcome of a poll,
//! the parse of a submitted line) and hands back what that program has to do:
//! instructions for the terminal, a line to run, the time to wait.

use crate::input::{LineModel, UserInput};
use crate::screen::{
    draw_line, draw_prompt, lemma_full_prompt_rows, lemma_line_ops_place_cursor,
    lemma_prompt_ops_leave_cursor, line_ops, prompt_last_row, prompt_ops, run, status_ops, Op,
    RenderOp, ScreenCursor, PROMPT_WIDTH,
};
use crate::shell::{exit_code, ExitStatus, ParseError, Shell};
use vstd::prelude::*;

verus! {

/// How long the loop waits for input while nothing is happening, in
/// milliseconds.
pub const IDLE_POLL_MS: u64 = 100;

/// The key of a key press.
#[derive(Clone, Copy, Debug, PartialEq, Eq)]
pub enum KeyCode {
    /// A key that stands for a character.
    Char(char),
    Enter,
    Esc,
    Backspace,
    Left,
    Right,
    /// Any other key.
    Other,
}

/// The modifier keys held down with a key.
#[derive(Clone, Copy, Debug, PartialEq, Eq)]
pub struct KeyModifiers {
    pub shift: bool,
    pub control: bool,
    pub alt: bool,
    /// Any further modifier.
    pub other: bool,
}

/// A key press.
#[derive(Clone, Copy, Debug, PartialEq, Eq)]
pub struct KeyEvent {
    pub code: KeyCode,
    pub modifiers: KeyModifiers,
}

/// What a key press asks for.
#[derive(Clone, Copy, Debug, PartialEq, Eq)]
pub enum Command {
    /// Give up the line and start a new one.
    Interrupt,
    /// Remove the character under the cursor; on an empty line, the end of
    /// the input.
    Delete,
    MoveLeft,
    MoveRight,
    Backspace,
    Insert(char),
    /// Run the line.
    Submit,
    /// Leave the session.
    Exit,
    /// The key has no meaning here.
    Nothing,
}

impl KeyModifiers {
    /// No modifier is held.
    pub open spec fn is_none(self) -> bool {
        !self.shift && !self.control && !self.alt && !self.other
    }

    /// Control is held, and nothing else.
    pub open spec fn is_control(self) -> bool {
        self.control && !self.shift && !self.alt && !self.other
    }

    /// No modifier.
    pub fn none() -> (modifiers: KeyModifiers)
        ensures
            modifiers.is_none(),
    {
        KeyModifiers { shift: false, control: false, alt: false, other: false }
    }

    /// Control alone.
    pub fn control() -> (modifiers: KeyModifiers)
        ensures
            modifiers.is_control(),
    {
        KeyModifiers { shift: false, control: true, alt: false, other: false }
    }
}

impl KeyEvent {
    /// The table from keys to commands.
    ///
    /// | key | modifiers | command |
    /// |---|---|---|
    /// | `c` | control | `Interrupt` |
    /// | `d` | control | `Delete` |
    /// | a character | none | `Insert` |
    /// | left, right | none | `MoveLeft`, `MoveRight` |
    /// | backspace | any | `Backspace` |
    /// | enter | any | `Submit` |
    /// | escape | any | `Exit` |
    ///
    /// Every other key press is `Nothing`.
    pub open spec fn command_of(self) -> Command {
        let plain = self.modifiers.is_none();
        let control = self.modifiers.is_control();
        if self.code == KeyCode::Char('c') && control {
            Command::Interrupt
        } else if self.code == KeyCode::Char('d') && control {
            Command::Delete
        } else if self.code == KeyCode::Left && plain {
            Command::MoveLeft
        } else if self.code == KeyCode::Right && plain {
            Command::MoveRight
        } else if self.code == KeyCode::Backspace {
            Command::Backspace
        } else if self.code == KeyCode::Enter {
            Command::Submit
        } else if self.code == KeyCode::Esc {
            Command::Exit
        } else if plain {
            match self.code {
                KeyCode::Char(ch) => Command::Insert(ch),
                _ => Command::Nothing,
            }
        } else {
            Command::Nothing
        }
    }

    /// What this key press asks for.
    pub fn command(&self) -> (command: Command)
        ensures
            command == self.command_of(),
    {
        let m = self.modifiers;
        let plain = !m.shift && !m.control && !m.alt && !m.other;
        let control = m.control && !m.shift && !m.alt && !m.other;
        match self.code {
            KeyCode::Char(ch) => {
                if plain {
                    Command::Insert(ch)
                } else if control && ch == 'c' {
                    Command::Interrupt
                } else if control && ch == 'd' {
                    Command::Delete
                } else {
                    Command::Nothing
                }
            },
            KeyCode::Left => {
                if plain {
                    Command::MoveLeft
                } else {
                    Command::Nothing
                }
            },
            KeyCode::Right => {
                if plain {
                    Command::MoveRight
                } else {
                    Command::Nothing
                }
            },
            KeyCode::Backspace => Command::Backspace,
            KeyCode::Enter => Command::Submit,
            KeyCode::Esc => Command::Exit,
            KeyCode::Other => Command::Nothing,
        }
    }
}

/// Where the loop that waits for keys stands.
#[derive(Clone, Copy, Debug, PartialEq, Eq)]
pub enum LoopState {
    /// Nothing is happening: the next poll waits for input.
    IdlePoll,
    /// Input has just come: the next poll does not wait, so that a burst of
    /// keys is taken in at once.
    Drain,
    /// The session is over.
    Exited,
}

impl LoopState {
    /// How long the next poll waits, in milliseconds; `None` once the session
    /// is over, when there is no next poll.
    pub open spec fn poll_timeout(self) -> Option<u64> {
        match self {
            LoopState::IdlePoll => Some(IDLE_POLL_MS),
            LoopState::Drain => Some(0),
            LoopState::Exited => None,
        }
    }

    /// The state after a poll that found input (`available`) or found none
    /// in its time. A session that is over stays over.
    pub open spec fn after_poll(self, available: bool) -> LoopState {
        if self == LoopState::Exited {
            LoopState::Exited
        } else if available {
            LoopState::Drain
        } else {
            LoopState::IdlePoll
        }
    }
}

/// What the program around the session has to do after a key press.
#[derive(Clone, Debug, PartialEq, Eq)]
pub enum Action {
    /// Send these instructions to the terminal.
    Redraw(Vec<RenderOp>),
    /// The line was given up. Send these instructions, then draw a prompt
    /// (`render_prompt`) and the line (`redraw_line`).
    Interrupt(Vec<RenderOp>),
    /// The line was submitted. Send these instructions, leave raw mode, parse
    /// `line` and hand the result to `complete_submit`, enter raw mode again
    /// and draw a prompt (`render_prompt`).
    Submit { ops: Vec<RenderOp>, line: String },
    /// The end of the input was asked for on an empty line. Nothing has
    /// changed; whether the session ends on this is for the caller to decide.
    EndOfInput,
    /// The session is over: restore the terminal and leave.
    Exit,
}

/// An `Action` as contracts speak of it.
pub enum ActionModel {
    Redraw(Seq<Op>),
    Interrupt(Seq<Op>),
    Submit { ops: Seq<Op>, line: Seq<char> },
    EndOfInput,
    Exit,
}

impl DeepView for Action {
    type V = ActionModel;

    open spec fn deep_view(&self) -> ActionModel {
        match *self {
            Action::Redraw(ops) => ActionModel::Redraw(ops.deep_view()),
            Action::Interrupt(ops) => ActionModel::Interrupt(ops.deep_view()),
            Action::Submit { ops, line } => ActionModel::Submit {
                ops: ops.deep_view(),
                line: line@,
            },
            Action::EndOfInput => ActionModel::EndOfInput,
            Action::Exit => ActionModel::Exit,
        }
    }
}

/// What a session holds.
///
/// Rows are counted from the first row of the prompt. `rows_above_cursor` is
/// the row on which the last drawing left the terminal's cursor, and
/// `rows_below_cursor` the number of rows of text below that row.
#[verifier::ext_equal]
pub struct SessionModel {
    pub line: LineModel,
    pub columns: nat,
    pub rows: nat,
    pub prompt_width: nat,
    pub rows_above_cursor: nat,
    pub rows_below_cursor: nat,
    pub loop_state: LoopState,
}

impl SessionModel {
    /// The session is consistent: the cursor lies in the text, and the
    /// terminal's cursor is not above the row on which the prompt ends.
    pub open spec fn wf(self) -> bool {
        &&& self.line.wf()
        &&& self.columns <= u16::MAX
        &&& self.prompt_width <= PROMPT_WIDTH
        &&& self.columns >= 1 ==> prompt_last_row(self.prompt_width as int, self.columns as int)
            <= self.rows_above_cursor
    }

    /// The terminal's cursor `cursor` stands where the last drawing has left
    /// it, when the prompt starts on row `home_row`: on the row recorded, and
    /// with the wrap pending where that row lies above the row of the text,
    /// as it does behind a prompt that fills its last row.
    pub open spec fn left_at(self, home_row: int, cursor: ScreenCursor) -> bool {
        &&& cursor.row == home_row + self.rows_above_cursor
        &&& self.rows_above_cursor < self.prompt_width as int / self.columns as int
            ==> cursor.wrap_pending
    }

    /// The line can be drawn: the terminal has a column, and the columns that
    /// prompt and text take fit the machine's word.
    pub open spec fn can_draw(self) -> bool {
        self.columns >= 1 && self.prompt_width + self.line.text.len() <= usize::MAX
    }

    /// The columns that the prompt and the whole text take.
    pub open spec fn current_column(self) -> int {
        (self.prompt_width + self.line.text.len()) as int
    }

    /// The row that holds the end of the text.
    pub open spec fn last_row(self) -> int {
        self.current_column() / self.columns as int
    }

    /// The row of the line's cursor.
    pub open spec fn cursor_row(self) -> int {
        (self.prompt_width + self.line.cursor) as int / self.columns as int
    }

    /// The column of the line's cursor in its row.
    pub open spec fn cursor_column(self) -> int {
        (self.prompt_width + self.line.cursor) as int % self.columns as int
    }

    /// The same session with another line.
    pub open spec fn with_line(self, line: LineModel) -> SessionModel {
        SessionModel { line, ..self }
    }

    /// What redraws the line; nothing where the line cannot be drawn.
    pub open spec fn redraw_ops(self) -> Seq<Op> {
        if self.can_draw() {
            line_ops(
                self.prompt_width as int,
                self.line.text,
                self.line.cursor as int,
                self.columns as int,
                self.rows_above_cursor as int,
            )
        } else {
            Seq::empty()
        }
    }

    /// The session after the line has been redrawn: the rows of the cursor
    /// are recorded. Where the line cannot be drawn nothing changes.
    pub open spec fn redrawn(self) -> SessionModel {
        if self.can_draw() {
            SessionModel {
                rows_above_cursor: self.cursor_row() as nat,
                rows_below_cursor: (self.last_row() - self.cursor_row()) as nat,
                ..self
            }
        } else {
            self
        }
    }

    /// The session with the terminal's cursor at the start of a fresh row and
    /// an empty line: no prompt stands there yet.
    pub open spec fn on_fresh_row(self) -> SessionModel {
        SessionModel {
            line: LineModel::empty(),
            prompt_width: 0,
            rows_above_cursor: 0,
            rows_below_cursor: 0,
            ..self
        }
    }

    /// The session after a prompt has been drawn on a terminal of `columns`
    /// by `rows`: the size is recorded, and with it the width of the prompt
    /// and the row on which the prompt has left the cursor. On a terminal
    /// without columns only the size is recorded.
    pub open spec fn with_prompt(self, columns: u16, rows: u16) -> SessionModel {
        if columns >= 1 {
            SessionModel {
                columns: columns as nat,
                rows: rows as nat,
                prompt_width: PROMPT_WIDTH as nat,
                rows_above_cursor: prompt_last_row(PROMPT_WIDTH as int, columns as int) as nat,
                rows_below_cursor: 0,
                ..self
            }
        } else {
            SessionModel { columns: 0, rows: rows as nat, ..self }
        }
    }

    /// The line after `command`.
    pub open spec fn line_after(self, command: Command) -> LineModel {
        match command {
            Command::Interrupt => LineModel::empty(),
            Command::Delete => self.line.delete(),
            Command::MoveLeft => self.line.move_by(-1),
            Command::MoveRight => self.line.move_by(1),
            Command::Backspace => self.line.backspace(),
            Command::Insert(ch) => self.line.insert(ch),
            Command::Submit => self.line,
            Command::Exit => self.line,
            Command::Nothing => self.line,
        }
    }

    /// The session after `command`.
    ///
    /// An interrupt leaves an empty line on a fresh row. `Exit` ends the loop
    /// and touches nothing else. `Delete` on an empty line changes nothing.
    /// Every other command edits the line as `line_after` says and redraws
    /// it.
    pub open spec fn after(self, command: Command) -> SessionModel {
        match command {
            Command::Interrupt => self.on_fresh_row(),
            Command::Exit => SessionModel { loop_state: LoopState::Exited, ..self },
            Command::Delete if self.line.text.len() == 0 => self,
            _ => self.with_line(self.line_after(command)).redrawn(),
        }
    }

    /// What the program around the session has to do after `command`.
    ///
    /// An interrupt ends the row. A submission redraws the line as it stands,
    /// ends the row and hands out the text. `Delete` on an empty line is the
    /// end of the input. Every other command but `Exit` redraws the edited
    /// line.
    pub open spec fn action(self, command: Command) -> ActionModel {
        match command {
            Command::Interrupt => ActionModel::Interrupt(seq![Op::LineBreak]),
            Command::Exit => ActionModel::Exit,
            Command::Delete if self.line.text.len() == 0 => ActionModel::EndOfInput,
            Command::Submit => ActionModel::Submit {
                ops: self.redraw_ops() + seq![Op::LineBreak],
                line: self.line.text,
            },
            _ => ActionModel::Redraw(self.with_line(self.line_after(command)).redraw_ops()),
        }
    }

    /// Where the line's cursor is on the screen, when the prompt starts on
    /// row `home_row`.
    pub open spec fn cursor_on_screen(self, home_row: int) -> ScreenCursor {
        ScreenCursor {
            row: home_row + self.cursor_row(),
            col: self.cursor_column(),
            wrap_pending: false,
        }
    }

    /// A redraw puts the terminal's cursor where the cursor of the line is,
    /// and records the row of that place: whatever the text, on any terminal
    /// that has a column, provided that the terminal's cursor stood where the
    /// last drawing had left it.
    pub proof fn lemma_redraw_places_cursor(self, home_row: int, start: ScreenCursor)
        requires
            self.wf(),
            self.can_draw(),
            self.left_at(home_row, start),
        ensures
            run(start, self.redraw_ops(), self.columns as int) == self.cursor_on_screen(home_row),
            self.redrawn().cursor_on_screen(home_row) == self.cursor_on_screen(home_row),
            self.redrawn().rows_above_cursor == self.cursor_on_screen(home_row).row - home_row,
            self.redrawn().left_at(home_row, self.cursor_on_screen(home_row)),
            self.redrawn().wf(),
    {
        lemma_line_ops_place_cursor(
            self.prompt_width as int,
            self.line.text,
            self.line.cursor as int,
            self.columns as int,
            self.rows_above_cursor as int,
            start,
        );
        vstd::arithmetic::div_mod::lemma_div_is_ordered(
            self.prompt_width as int,
            (self.prompt_width + self.line.cursor) as int,
            self.columns as int,
        );
        vstd::arithmetic::div_mod::lemma_div_is_ordered(
            (self.prompt_width + self.line.cursor) as int,
            self.current_column(),
            self.columns as int,
        );
    }

    /// A prompt leaves the terminal's cursor where the next redraw expects
    /// it: behind the prompt, on the row that the session records. The rows
    /// are counted from the row on which the status marker has left the
    /// cursor, which is where the prompt starts.
    pub proof fn lemma_prompt_leaves_cursor(
        self,
        columns: u16,
        rows: u16,
        start: ScreenCursor,
    )
        requires
            columns >= 1,
        ensures
            self.with_prompt(columns, rows).left_at(
                run(start, status_ops(columns as int), columns as int).row,
                run(start, prompt_ops(columns as int), columns as int),
            ),
    {
        lemma_prompt_ops_leave_cursor(columns as int, start);
        if PROMPT_WIDTH as int % columns as int == 0 {
            lemma_full_prompt_rows(PROMPT_WIDTH as int, columns as int);
        }
        assert(PROMPT_WIDTH as int / columns as int >= 0) by (nonlinear_arith)
            requires
                columns >= 1,
        ;
    }
}

/// The session: the script executor, what is known of the screen, and the
/// line buffer.
pub struct ShellState {
    shell: Shell,
    columns: u16,
    lines: u16,
    prompt_len: usize,
    rows_above_cursor: usize,
    rows_below_cursor: usize,
    input: UserInput,
    loop_state: LoopState,
}

impl View for ShellState {
    type V = SessionModel;

    closed spec fn view(&self) -> SessionModel {
        SessionModel {
            line: self.input@,
            columns: self.columns as nat,
            rows: self.lines as nat,
            prompt_width: self.prompt_len as nat,
            rows_above_cursor: self.rows_above_cursor as nat,
            rows_below_cursor: self.rows_below_cursor as nat,
            loop_state: self.loop_state,
        }
    }
}

impl ShellState {
    /// The line buffer.
    pub closed spec fn buffer(&self) -> UserInput {
        self.input
    }

    /// The script executor that the session runs submitted lines with.
    pub closed spec fn executor(&self) -> Shell {
        self.shell
    }

    /// The session is consistent, and so is its line buffer.
    pub open spec fn wf(&self) -> bool {
        &&& self@.wf()
        &&& self.buffer().wf()
        &&& self.buffer()@ == self@.line
    }

    /// A session around the executor `shell`, with an empty line, on a
    /// terminal of which nothing is known yet.
    pub fn new(shell: Shell) -> (state: Self)
        ensures
            state.wf(),
            state.executor() == shell,
            state.buffer()@ == LineModel::empty(),
            state@ == (SessionModel {
                line: LineModel::empty(),
                columns: 0,
                rows: 0,
                prompt_width: 0,
                rows_above_cursor: 0,
                rows_below_cursor: 0,
                loop_state: LoopState::IdlePoll,
            }),
    {
        Self {
            shell,
            columns: 0,
            lines: 0,
            prompt_len: 0,
            rows_above_cursor: 0,
            rows_below_cursor: 0,
            input: UserInput::new(),
            loop_state: LoopState::IdlePoll,
        }
    }

    /// Draws the status marker and the prompt for a terminal of `columns` by
    /// `rows`, and records that size, the width of the prompt and the row on
    /// which the prompt ends.
    ///
    /// The size is never remembered from one prompt to the next: the caller
    /// asks the terminal each time. On a terminal without columns nothing is
    /// drawn.
    pub fn render_prompt(&mut self, columns: u16, rows: u16) -> (ops: Vec<RenderOp>)
        requires
            old(self).wf(),
        ensures
            final(self).wf(),
            final(self)@ == old(self)@.with_prompt(columns, rows),
            final(self).buffer() == old(self).buffer(),
            columns >= 1 ==> ops.deep_view() == prompt_ops(columns as int),
            columns == 0 ==> ops.deep_view() == Seq::<Op>::empty(),
    {
        self.columns = columns;
        self.lines = rows;
        if columns == 0 {
            let ops: Vec<RenderOp> = Vec::new();
            assert(ops.deep_view() =~= Seq::<Op>::empty());
            return ops;
        }
        let width = columns as usize;
        proof {
            if PROMPT_WIDTH as int % columns as int == 0 {
                lemma_full_prompt_rows(PROMPT_WIDTH as int, columns as int);
            }
        }
        self.prompt_len = PROMPT_WIDTH;
        self.rows_above_cursor = if PROMPT_WIDTH % width == 0 {
            PROMPT_WIDTH / width - 1
        } else {
            PROMPT_WIDTH / width
        };
        self.rows_below_cursor = 0;
        draw_prompt(columns)
    }

    /// Redraws the line and records on which row that leaves the cursor, and
    /// how many rows of text lie below it.
    ///
    /// If the terminal's cursor stood where the last drawing had left it, it
    /// stands afterwards where the cursor of the line is. Where the line
    /// cannot be drawn nothing is handed out and nothing is recorded.
    pub fn redraw_line(&mut self) -> (ops: Vec<RenderOp>)
        requires
            old(self).wf(),
        ensures
            final(self).wf(),
            final(self)@ == old(self)@.redrawn(),
            final(self).buffer() == old(self).buffer(),
            ops.deep_view() == old(self)@.redraw_ops(),
            forall|start: ScreenCursor|
                old(self)@.can_draw() && old(self)@.left_at(
                    start.row - old(self)@.rows_above_cursor,
                    start,
                ) ==> #[trigger] run(start, ops.deep_view(), old(self)@.columns as int)
                    == final(self)@.cursor_on_screen(start.row - old(self)@.rows_above_cursor),
    {
        let len = self.input.len();
        let drawn = draw_line(
            self.prompt_len,
            self.input.as_str(),
            len,
            self.input.cursor(),
            self.columns,
            self.rows_above_cursor,
        );
        match drawn {
            None => {
                let ops: Vec<RenderOp> = Vec::new();
                assert(ops.deep_view() =~= Seq::<Op>::empty());
                ops
            },
            Some((ops, layout)) => {
                self.rows_above_cursor = layout.cursor_row;
                self.rows_below_cursor = layout.last_row - layout.cursor_row;
                proof {
                    assert forall|start: ScreenCursor|
                        old(self)@.left_at(
                            start.row - old(self)@.rows_above_cursor,
                            start,
                        ) implies #[trigger] run(
                        start,
                        ops.deep_view(),
                        old(self)@.columns as int,
                    ) == self@.cursor_on_screen(start.row - old(self)@.rows_above_cursor) by {
                        old(self)@.lemma_redraw_places_cursor(
                            start.row - old(self)@.rows_above_cursor,
                            start,
                        );
                    }
                }
                ops
            },
        }
    }

    /// Does what a key press asks for, and says what is to be done about it.
    pub fn handle_key(&mut self, key: KeyEvent) -> (action: Action)
        requires
            old(self).wf(),
        ensures
            final(self).wf(),
            final(self)@ == old(self)@.after(key.command_of()),
            action.deep_view() == old(self)@.action(key.command_of()),
    {
        let command = key.command();
        match command {
            Command::Interrupt => {
                self.input.clear();
                self.prompt_len = 0;
                self.rows_above_cursor = 0;
                self.rows_below_cursor = 0;
                let mut ops: Vec<RenderOp> = Vec::new();
                ops.push(RenderOp::LineBreak);
                assert(ops.deep_view() =~= seq![Op::LineBreak]);
                Action::Interrupt(ops)
            },
            Command::Exit => {
                self.loop_state = LoopState::Exited;
                Action::Exit
            },
            Command::Submit => {
                let line = self.input.as_str().to_owned();
                let mut ops = self.redraw_line();
                let ghost drawn = ops.deep_view();
                ops.push(RenderOp::LineBreak);
                assert(ops.deep_view() =~= drawn + seq![Op::LineBreak]);
                Action::Submit { ops, line }
            },
            Command::Delete => {
                if self.input.is_empty() {
                    Action::EndOfInput
                } else {
                    self.input.delete();
                    Action::Redraw(self.redraw_line())
                }
            },
            Command::MoveLeft => {
                self.input.move_by(-1);
                Action::Redraw(self.redraw_line())
            },
            Command::MoveRight => {
                self.input.move_by(1);
                Action::Redraw(self.redraw_line())
            },
            Command::Backspace => {
                self.input.backspace();
                Action::Redraw(self.redraw_line())
            },
            Command::Insert(ch) => {
                self.input.insert(ch);
                Action::Redraw(self.redraw_line())
            },
            Command::Nothing => Action::Redraw(self.redraw_line()),
        }
    }

    /// Runs the submitted line, whose parse ended as `parsed`, and starts a new
    /// one: the buffer is emptied, and the terminal's cursor is taken to stand
    /// on a fresh row, where the next prompt will be drawn.
    ///
    /// Whatever the parse says, the session goes on.
    pub fn complete_submit<A>(&mut self, parsed: &Result<A, ParseError>) -> (status: ExitStatus)
        requires
            old(self).wf(),
        ensures
            final(self).wf(),
            status == ExitStatus::ExitedWith(exit_code(*parsed) as i32),
            final(self)@ == old(self)@.on_fresh_row(),
    {
        let status = self.shell.run_script(parsed);
        self.input.clear();
        self.prompt_len = 0;
        self.rows_above_cursor = 0;
        self.rows_below_cursor = 0;
        status
    }

    /// How long the next poll for input is to wait, in milliseconds: the idle
    /// time while nothing is happening, no time while keys are coming in.
    /// `None` says that the session is over and the loop ends.
    pub fn poll_timeout_ms(&self) -> (timeout: Option<u64>)
        ensures
            timeout == self@.loop_state.poll_timeout(),
    {
        match self.loop_state {
            LoopState::IdlePoll => Some(IDLE_POLL_MS),
            LoopState::Drain => Some(0),
            LoopState::Exited => None,
        }
    }

    /// Takes in the outcome of a poll: input is `available`, or none came in
    /// time. The result says whether one event is to be read now.
    pub fn poll_finished(&mut self, available: bool) -> (read: bool)
        ensures
            final(self)@ == (SessionModel {
                loop_state: old(self)@.loop_state.after_poll(available),
                ..old(self)@
            }),
            final(self).buffer() == old(self).buffer(),
            old(self).wf() ==> final(self).wf(),
            read == (available && old(self)@.loop_state != LoopState::Exited),
    {
        match self.loop_state {
            LoopState::Exited => false,
            _ => {
                self.loop_state = if available {
                    LoopState::Drain
                } else {
                    LoopState::IdlePoll
                };
                available
            },
        }
    }

    /// The line buffer.
    pub fn input(&self) -> (input: &UserInput)
        ensures
            *input == self.buffer(),
    {
        &self.input
    }

    /// The columns of the terminal, as last recorded.
    pub fn columns(&self) -> (columns: u16)
        ensures
            columns == self@.columns,
    {
        self.columns
    }

    /// The rows of the terminal, as last recorded.
    pub fn lines(&self) -> (lines: u16)
        ensures
            lines == self@.rows,
    {
        self.lines
    }

    /// The columns that the prompt takes.
    pub fn prompt_len(&self) -> (width: usize)
        ensures
            width == self@.prompt_width,
    {
        self.prompt_len
    }

    /// The row on which the last drawing left the cursor, counted from the
    /// first row of the prompt.
    pub fn rows_above_cursor(&self) -> (rows: usize)
        ensures
            rows == self@.rows_above_cursor,
    {
        self.rows_above_cursor
    }

    /// The rows of text below the row of the cursor, as of the last drawing.
    pub fn rows_below_cursor(&self) -> (rows: usize)
        ensures
            rows == self@.rows_below_cursor,
    {
        self.rows_below_cursor
    }

    /// Where the loop stands.
    pub fn loop_state(&self) -> (state: LoopState)
        ensures
            state == self@.loop_state,
    {
        self.loop_state
    }
}

} // verus!
