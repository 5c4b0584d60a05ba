//! VGA text mode (80x25) writer. The screen is held as a grid of cells, each an ASCII
//! byte and a colour byte; text is written on the bottom row and scrolls up.

use vstd::prelude::*;
use vstd::string::StringSliceAdditionalSpecFns;

verus! {

/// Screen height in rows.
pub const BUFFER_HEIGHT: usize = 25;
/// Screen width in columns.
pub const BUFFER_WIDTH: usize = 80;
/// Number of cells on the screen.
pub const BUFFER_CELLS: usize = 2000;

/// The sixteen VGA colours.
#[derive(Debug, Clone, Copy, PartialEq, Eq)]
pub enum Color {
    Black,
    Blue,
    Green,
    Cyan,
    Red,
    Magenta,
    Brown,
    LightGray,
    DarkGray,
    LightBlue,
    LightGreen,
    LightCyan,
    LightRed,
    Pink,
    Yellow,
    White,
}

/// The hardware number of a colour.
pub open spec fn color_number(c: Color) -> u8 {
    match c {
        Color::Black => 0,
        Color::Blue => 1,
        Color::Green => 2,
        Color::Cyan => 3,
        Color::Red => 4,
        Color::Magenta => 5,
        Color::Brown => 6,
        Color::LightGray => 7,
        Color::DarkGray => 8,
        Color::LightBlue => 9,
        Color::LightGreen => 10,
        Color::LightCyan => 11,
        Color::LightRed => 12,
        Color::Pink => 13,
        Color::Yellow => 14,
        Color::White => 15,
    }
}

/// The hardware number of a colour.
pub fn color_value(c: Color) -> (v: u8)
    ensures
        v == color_number(c),
        v < 16,
{
    match c {
        Color::Black => 0,
        Color::Blue => 1,
        Color::Green => 2,
        Color::Cyan => 3,
        Color::Red => 4,
        Color::Magenta => 5,
        Color::Brown => 6,
        Color::LightGray => 7,
        Color::DarkGray => 8,
        Color::LightBlue => 9,
        Color::LightGreen => 10,
        Color::LightCyan => 11,
        Color::LightRed => 12,
        Color::Pink => 13,
        Color::Yellow => 14,
        Color::White => 15,
    }
}

/// The attribute byte: background in the high nibble, foreground in the low one.
pub open spec fn color_code(fg: Color, bg: Color) -> u8 {
    (color_number(bg) * 16 + color_number(fg)) as u8
}

fn make_color_code(fg: Color, bg: Color) -> (c: u8)
    ensures
        c == color_code(fg, bg),
{
    let f = color_value(fg);
    let b = color_value(bg);
    b * 16 + f
}

/// One screen cell.
#[derive(Debug, Clone, Copy, PartialEq, Eq)]
pub struct ScreenChar {
    pub ascii_character: u8,
    pub color_code: u8,
}

/// The writer: the cursor column on the bottom row, the current colour and the cells,
/// row by row.
pub struct Writer {
    pub column_position: usize,
    pub color_code: u8,
    pub buffer: Vec<ScreenChar>,
}

/// The abstract state of a writer.
pub struct VgaState {
    pub column: int,
    pub color: u8,
    pub cells: Seq<ScreenChar>,
}

/// A blank row in colour `color`.
pub open spec fn blank_row(color: u8) -> Seq<ScreenChar> {
    Seq::new(80, |i: int| ScreenChar { ascii_character: 32, color_code: color })
}

/// Scroll up one row and blank the bottom row; the column returns to 0.
pub open spec fn new_line_spec(st: VgaState) -> VgaState {
    VgaState {
        column: 0,
        color: st.color,
        cells: st.cells.subrange(80, 2000) + blank_row(st.color),
    }
}

/// Write one byte: a newline starts a new line; a carriage return moves the cursor
/// back to the start of the bottom row; any other byte goes at the cursor on the bottom
/// row, after starting a new line if the row is full.
pub open spec fn write_byte_spec(st: VgaState, b: u8) -> VgaState {
    if b == 10 {
        new_line_spec(st)
    } else if b == 13 {
        VgaState { column: 0, ..st }
    } else {
        let st1 = if st.column >= 80 { new_line_spec(st) } else { st };
        VgaState {
            column: st1.column + 1,
            color: st1.color,
            cells: st1.cells.update(1920 + st1.column, ScreenChar { ascii_character: b, color_code: st1.color }),
        }
    }
}

/// The byte shown for `b`: printable ASCII, newline and carriage return as they are,
/// 0xfe otherwise.
pub open spec fn shown_byte(b: u8) -> u8 {
    if (0x20 <= b && b <= 0x7e) || b == 10 || b == 13 { b } else { 0xfe }
}

/// Write a run of bytes, each replaced by the byte shown for it.
pub open spec fn write_bytes_spec(st: VgaState, bytes: Seq<u8>) -> VgaState
    decreases bytes.len(),
{
    if bytes.len() == 0 {
        st
    } else {
        write_byte_spec(write_bytes_spec(st, bytes.drop_last()), shown_byte(bytes.last()))
    }
}

/// Blank every cell in colour `color`.
pub open spec fn cleared_cells(color: u8) -> Seq<ScreenChar> {
    Seq::new(2000, |i: int| ScreenChar { ascii_character: 32, color_code: color })
}

/// Writing `a` then `b` is writing `a + b`.
pub proof fn lemma_write_bytes_concat(st: VgaState, a: Seq<u8>, b: Seq<u8>)
    ensures
        write_bytes_spec(st, a + b) == write_bytes_spec(write_bytes_spec(st, a), b),
    decreases b.len(),
{
    if b.len() == 0 {
        assert(a + b =~= a);
    } else {
        lemma_write_bytes_concat(st, a, b.drop_last());
        assert((a + b).drop_last() =~= a + b.drop_last());
        assert((a + b).last() == b.last());
    }
}

impl Writer {
    /// The writer's invariant: a full screen and the cursor at most one past the last
    /// column.
    pub open spec fn wf(&self) -> bool {
        &&& self.buffer@.len() == BUFFER_CELLS
        &&& self.column_position <= BUFFER_WIDTH
    }

    /// The abstract state.
    pub open spec fn state(&self) -> VgaState {
        VgaState { column: self.column_position as int, color: self.color_code, cells: self.buffer@ }
    }

    /// A writer over the given screen contents, cursor at column 0, white on black.
    pub fn new(cells: Vec<ScreenChar>) -> (w: Writer)
        requires
            cells@.len() == BUFFER_CELLS,
        ensures
            w.wf(),
            w.column_position == 0,
            w.color_code == color_code(Color::White, Color::Black),
            w.buffer@ == cells@,
    {
        Writer { column_position: 0, color_code: make_color_code(Color::White, Color::Black), buffer: cells }
    }

    /// The cell at `row`, `col`.
    pub fn cell(&self, row: usize, col: usize) -> (c: ScreenChar)
        requires
            self.wf(),
            row < BUFFER_HEIGHT,
            col < BUFFER_WIDTH,
        ensures
            c == self.buffer@[row * 80 + col],
    {
        self.buffer[row * 80 + col]
    }

    /// Blank one row in the current colour.
    fn clear_row(&mut self, row: usize)
        requires
            old(self).wf(),
            row < BUFFER_HEIGHT,
        ensures
            final(self).wf(),
            final(self).column_position == old(self).column_position,
            final(self).color_code == old(self).color_code,
            final(self).buffer@ == old(self).buffer@.subrange(0, row * 80) + blank_row(old(self).color_code)
                + old(self).buffer@.subrange(row * 80 + 80, 2000),
    {
        let blank = ScreenChar { ascii_character: 32, color_code: self.color_code };
        let ghost pre = self.buffer@;
        let mut col: usize = 0;
        while col < BUFFER_WIDTH
            invariant
                self.wf(),
                pre.len() == 2000,
                row < BUFFER_HEIGHT,
                self.column_position == old(self).column_position,
                self.color_code == old(self).color_code,
                pre == old(self).buffer@,
                col <= 80,
                blank == (ScreenChar { ascii_character: 32, color_code: self.color_code }),
                forall|i: int| 0 <= i < row * 80 ==> self.buffer@[i] == pre[i],
                forall|i: int| row * 80 + 80 <= i < 2000 ==> self.buffer@[i] == pre[i],
                forall|i: int| row * 80 <= i < row * 80 + col ==> self.buffer@[i] == blank,
                forall|i: int| row * 80 + col <= i < row * 80 + 80 ==> self.buffer@[i] == pre[i],
            decreases 80 - col,
        {
            self.buffer.set(row * 80 + col, blank);
            col = col + 1;
        }
        assert(self.buffer@ =~= pre.subrange(0, row * 80) + blank_row(self.color_code)
            + pre.subrange(row * 80 + 80, 2000));
    }

    /// Scroll up one row, blank the bottom row, move to column 0.
    fn new_line(&mut self)
        requires
            old(self).wf(),
        ensures
            final(self).wf(),
            final(self).state() == new_line_spec(old(self).state()),
    {
        let ghost pre = self.buffer@;
        let mut i: usize = 0;
        while i < 1920
            invariant
                self.wf(),
                pre == old(self).buffer@,
                pre.len() == 2000,
                self.color_code == old(self).color_code,
                self.column_position == old(self).column_position,
                i <= 1920,
                forall|j: int| 0 <= j < i ==> self.buffer@[j] == pre[j + 80],
                forall|j: int| i <= j < 2000 ==> self.buffer@[j] == pre[j],
            decreases 1920 - i,
        {
            let c = self.buffer[i + 80];
            self.buffer.set(i, c);
            i = i + 1;
        }
        let ghost mid = self.buffer@;
        self.clear_row(BUFFER_HEIGHT - 1);
        self.column_position = 0;
        assert(self.buffer@ =~= pre.subrange(80, 2000) + blank_row(self.color_code));
    }

    /// Write one byte at the cursor (a newline starts a new line).
    pub fn write_byte(&mut self, byte: u8)
        requires
            old(self).wf(),
        ensures
            final(self).wf(),
            final(self).state() == write_byte_spec(old(self).state(), byte),
    {
        if byte == 10 {
            self.new_line();
        } else if byte == 13 {
            self.column_position = 0;
        } else {
            if self.column_position >= BUFFER_WIDTH {
                self.new_line();
            }
            let row = BUFFER_HEIGHT - 1;
            let col = self.column_position;
            let c = ScreenChar { ascii_character: byte, color_code: self.color_code };
            self.buffer.set(row * 80 + col, c);
            self.column_position = self.column_position + 1;
        }
    }

    /// Write the bytes of `s`, showing bytes outside printable ASCII (other than
    /// newline) as 0xfe.
    pub fn write_string(&mut self, s: &str)
        requires
            old(self).wf(),
        ensures
            final(self).wf(),
            final(self).state() == write_bytes_spec(old(self).state(), s.spec_bytes()),
    {
        let bytes = s.as_bytes();
        self.write_bytes(bytes);
    }

    /// Write a run of bytes as `write_string` does.
    pub fn write_bytes(&mut self, bytes: &[u8])
        requires
            old(self).wf(),
        ensures
            final(self).wf(),
            final(self).state() == write_bytes_spec(old(self).state(), bytes@),
    {
        let mut i: usize = 0;
        while i < bytes.len()
            invariant
                self.wf(),
                i <= bytes@.len(),
                self.state() == write_bytes_spec(old(self).state(), bytes@.subrange(0, i as int)),
            decreases bytes@.len() - i,
        {
            let b = bytes[i];
            let shown = if (0x20 <= b && b <= 0x7e) || b == 10 || b == 13 { b } else { 0xfe };
            self.write_byte(shown);
            proof {
                let t = bytes@.subrange(0, i + 1);
                assert(t.drop_last() =~= bytes@.subrange(0, i as int));
            }
            i = i + 1;
        }
        assert(bytes@.subrange(0, bytes@.len() as int) =~= bytes@);
    }

    /// Blank the whole screen in the current colour; the cursor goes to column 0.
    pub fn clear_screen(&mut self)
        requires
            old(self).wf(),
        ensures
            final(self).wf(),
            final(self).column_position == 0,
            final(self).color_code == old(self).color_code,
            final(self).buffer@ == cleared_cells(old(self).color_code),
    {
        let mut row: usize = 0;
        while row < BUFFER_HEIGHT
            invariant
                self.wf(),
                row <= 25,
                self.color_code == old(self).color_code,
                forall|i: int| 0 <= i < row * 80 ==> self.buffer@[i]
                    == (ScreenChar { ascii_character: 32, color_code: self.color_code }),
            decreases 25 - row,
        {
            let ghost pre = self.buffer@;
            self.clear_row(row);
            assert forall|i: int| 0 <= i < (row + 1) * 80 implies self.buffer@[i]
                == (ScreenChar { ascii_character: 32, color_code: self.color_code }) by {
                if i < row * 80 {
                    assert(self.buffer@[i] == pre[i]);
                }
            }
            row = row + 1;
        }
        self.column_position = 0;
        assert(self.buffer@ =~= cleared_cells(self.color_code));
    }

    /// Set the colours used from now on.
    pub fn set_color(&mut self, foreground: Color, background: Color)
        ensures
            final(self).color_code == color_code(foreground, background),
            final(self).column_position == old(self).column_position,
            final(self).buffer@ == old(self).buffer@,
    {
        self.color_code = make_color_code(foreground, background);
    }
}

/// Write a string through the screen's writer, if it has been set up.
pub fn write_str(writer: &mut Option<Writer>, s: &str)
    requires
        *old(writer) matches Some(w) ==> w.wf(),
    ensures
        match *old(writer) {
            Some(w) => *final(writer) matches Some(w2) && w2.wf()
                && w2.state() == write_bytes_spec(w.state(), s.spec_bytes()),
            None => *final(writer) is None,
        },
{
    match writer {
        Some(w) => w.write_string(s),
        None => {},
    }
}

/// Write a run of bytes through the screen's writer, as `write_str` does for a string
/// with those bytes.
pub fn write_bytes(writer: &mut Option<Writer>, bytes: &[u8])
    requires
        *old(writer) matches Some(w) ==> w.wf(),
    ensures
        match *old(writer) {
            Some(w) => *final(writer) matches Some(w2) && w2.wf()
                && w2.state() == write_bytes_spec(w.state(), bytes@),
            None => *final(writer) is None,
        },
{
    match writer {
        Some(w) => w.write_bytes(bytes),
        None => {},
    }
}

/// The state after clearing the screen.
pub open spec fn clear_spec(st: VgaState) -> VgaState {
    VgaState { column: 0, color: st.color, cells: cleared_cells(st.color) }
}

/// The state after setting the colours.
pub open spec fn color_spec(st: VgaState, fg: Color, bg: Color) -> VgaState {
    VgaState { color: color_code(fg, bg), ..st }
}

/// Clear the screen, if its writer has been set up.
pub fn clear_screen(writer: &mut Option<Writer>)
    requires
        *old(writer) matches Some(w) ==> w.wf(),
    ensures
        match *old(writer) {
            Some(w) => *final(writer) matches Some(w2) && w2.wf() && w2.column_position == 0
                && w2.color_code == w.color_code && w2.buffer@ == cleared_cells(w.color_code),
            None => *final(writer) is None,
        },
{
    match writer {
        Some(w) => w.clear_screen(),
        None => {},
    }
}

/// Set the colours, if the screen's writer has been set up.
pub fn set_color(writer: &mut Option<Writer>, foreground: Color, background: Color)
    requires
        *old(writer) matches Some(w) ==> w.wf(),
    ensures
        match *old(writer) {
            Some(w) => *final(writer) matches Some(w2) && w2.wf()
                && w2.color_code == color_code(foreground, background)
                && w2.column_position == w.column_position && w2.buffer@ == w.buffer@,
            None => *final(writer) is None,
        },
{
    match writer {
        Some(w) => w.set_color(foreground, background),
        None => {},
    }
}

/// One step of console output: text, a colour change, a clear, or a pause of some
/// timer ticks that leaves the screen as it is.
pub enum ConsoleOp {
    Text(Vec<u8>),
    SetColor(Color, Color),
    Clear,
    Pause(u64),
}

/// The abstract form of a console step.
pub enum ConsoleAction {
    Text(Seq<u8>),
    SetColor(Color, Color),
    Clear,
    Pause(u64),
}

impl View for ConsoleOp {
    type V = ConsoleAction;

    open spec fn view(&self) -> ConsoleAction {
        match self {
            ConsoleOp::Text(v) => ConsoleAction::Text(v@),
            ConsoleOp::SetColor(f, b) => ConsoleAction::SetColor(*f, *b),
            ConsoleOp::Clear => ConsoleAction::Clear,
            ConsoleOp::Pause(n) => ConsoleAction::Pause(*n),
        }
    }
}

/// The abstract form of a run of console steps.
pub open spec fn actions(ops: Seq<ConsoleOp>) -> Seq<ConsoleAction> {
    ops.map_values(|o: ConsoleOp| o@)
}

/// The screen after one console step.
pub open spec fn action_spec(st: VgaState, a: ConsoleAction) -> VgaState {
    match a {
        ConsoleAction::Text(t) => write_bytes_spec(st, t),
        ConsoleAction::SetColor(f, b) => color_spec(st, f, b),
        ConsoleAction::Clear => clear_spec(st),
        ConsoleAction::Pause(_) => st,
    }
}

/// The screen after a run of console steps, in order.
pub open spec fn actions_spec(st: VgaState, acts: Seq<ConsoleAction>) -> VgaState
    decreases acts.len(),
{
    if acts.len() == 0 {
        st
    } else {
        action_spec(actions_spec(st, acts.drop_last()), acts.last())
    }
}

/// Add a text step with the bytes of `s`.
pub fn say(ops: &mut Vec<ConsoleOp>, s: &str)
    ensures
        actions(final(ops)@) == actions(old(ops)@).push(ConsoleAction::Text(s.spec_bytes())),
{
    let mut v: Vec<u8> = Vec::new();
    crate::util::push_str(&mut v, s);
    ops.push(ConsoleOp::Text(v));
    assert(actions(ops@) =~= actions(old(ops)@).push(ConsoleAction::Text(s.spec_bytes())));
}

/// Add a text step with `bytes`.
pub fn say_bytes(ops: &mut Vec<ConsoleOp>, bytes: Vec<u8>)
    ensures
        actions(final(ops)@) == actions(old(ops)@).push(ConsoleAction::Text(bytes@)),
{
    ops.push(ConsoleOp::Text(bytes));
    assert(actions(ops@) =~= actions(old(ops)@).push(ConsoleAction::Text(bytes@)));
}

/// Add a colour step.
pub fn paint(ops: &mut Vec<ConsoleOp>, foreground: Color, background: Color)
    ensures
        actions(final(ops)@) == actions(old(ops)@).push(ConsoleAction::SetColor(foreground, background)),
{
    ops.push(ConsoleOp::SetColor(foreground, background));
    assert(actions(ops@) =~= actions(old(ops)@).push(ConsoleAction::SetColor(foreground, background)));
}

/// Add a clear step.
pub fn clear_step(ops: &mut Vec<ConsoleOp>)
    ensures
        actions(final(ops)@) == actions(old(ops)@).push(ConsoleAction::Clear),
{
    ops.push(ConsoleOp::Clear);
    assert(actions(ops@) =~= actions(old(ops)@).push(ConsoleAction::Clear));
}

/// Add a pause of `ticks` timer ticks.
pub fn pause_step(ops: &mut Vec<ConsoleOp>, ticks: u64)
    ensures
        actions(final(ops)@) == actions(old(ops)@).push(ConsoleAction::Pause(ticks)),
{
    ops.push(ConsoleOp::Pause(ticks));
    assert(actions(ops@) =~= actions(old(ops)@).push(ConsoleAction::Pause(ticks)));
}

/// Carry out console steps on the screen, in order, if its writer has been set up.
pub fn run_console(writer: &mut Option<Writer>, ops: &Vec<ConsoleOp>)
    requires
        *old(writer) matches Some(w) ==> w.wf(),
    ensures
        match *old(writer) {
            Some(w) => *final(writer) matches Some(w2) && w2.wf()
                && w2.state() == actions_spec(w.state(), actions(ops@)),
            None => *final(writer) is None,
        },
{
    let mut i: usize = 0;
    while i < ops.len()
        invariant
            i <= ops@.len(),
            match *old(writer) {
                Some(w) => *writer matches Some(w2) && w2.wf()
                    && w2.state() == actions_spec(w.state(), actions(ops@).subrange(0, i as int)),
                None => *writer is None,
            },
        decreases ops@.len() - i,
    {
        proof {
            assert(actions(ops@).subrange(0, i + 1).drop_last() =~= actions(ops@).subrange(0, i as int));
        }
        match &ops[i] {
            ConsoleOp::Text(v) => write_bytes(writer, v.as_slice()),
            ConsoleOp::SetColor(f, b) => set_color(writer, *f, *b),
            ConsoleOp::Clear => clear_screen(writer),
            ConsoleOp::Pause(_) => {},
        }
        i = i + 1;
    }
    assert(actions(ops@).subrange(0, ops@.len() as int) =~= actions(ops@));
}


/// A byte written when the bottom row is full starts a new line: the screen scrolls up
/// one row (the old bottom row becomes row 23, the top row is gone), the byte goes to
/// column 0 of a blank bottom row, and the cursor is at column 1.
pub proof fn law_full_row_wraps(st: VgaState, b: u8)
    requires
        st.cells.len() == 2000,
        st.column >= 80,
        b != 10,
        b != 13,
    ensures
        ({
            let r = write_byte_spec(st, b);
            &&& r.cells.len() == 2000
            &&& r.cells.subrange(0, 1920) == st.cells.subrange(80, 2000)
            &&& r.cells[1920] == ScreenChar { ascii_character: b, color_code: st.color }
            &&& forall|k: int| 1921 <= k < 2000 ==> #[trigger] r.cells[k] == ScreenChar { ascii_character: 32, color_code: st.color }
            &&& r.column == 1
        }),
{
    let r = write_byte_spec(st, b);
    assert(r.cells.subrange(0, 1920) =~= st.cells.subrange(80, 2000));
}

/// A byte written while the bottom row has room goes at the cursor, which moves one
/// column right; every other cell stays as it was.
pub proof fn law_byte_at_cursor(st: VgaState, b: u8)
    requires
        st.cells.len() == 2000,
        0 <= st.column < 80,
        b != 10,
        b != 13,
    ensures
        ({
            let r = write_byte_spec(st, b);
            &&& r.cells.len() == 2000
            &&& r.cells[1920 + st.column] == ScreenChar { ascii_character: b, color_code: st.color }
            &&& forall|k: int| 0 <= k < 2000 && k != 1920 + st.column ==> #[trigger] r.cells[k] == st.cells[k]
            &&& r.column == st.column + 1
        }),
{
}

/// A newline scrolls the screen up one row, leaves a blank bottom row and puts the
/// cursor at column 0.
pub proof fn law_newline_scrolls(st: VgaState)
    requires
        st.cells.len() == 2000,
    ensures
        ({
            let r = write_byte_spec(st, 10);
            &&& r.cells.len() == 2000
            &&& r.cells.subrange(0, 1920) == st.cells.subrange(80, 2000)
            &&& forall|k: int| 1920 <= k < 2000 ==> #[trigger] r.cells[k] == ScreenChar { ascii_character: 32, color_code: st.color }
            &&& r.column == 0
        }),
{
    let r = write_byte_spec(st, 10);
    assert(r.cells.subrange(0, 1920) =~= st.cells.subrange(80, 2000));
}

} // verus!
