//! m5edit: a vi-like text editor with normal, insert and command modes over a buffer of
//! at most 100 lines of at most 80 characters.

use vstd::prelude::*;
use vstd::string::StringSliceAdditionalSpecFns;
use crate::drivers::vga;
use crate::drivers::vga::{Color, Writer, write_bytes_spec, color_code};

verus! {

/// Maximum number of lines.
pub const MAX_LINES: usize = 100;
/// Maximum characters per line.
pub const MAX_LINE_LENGTH: usize = 80;

/// Editor modes.
#[derive(Debug, Clone, Copy, PartialEq, Eq, Structural)]
pub enum EditorMode {
    Normal,
    Insert,
    Command,
}

/// One line: a fixed array of characters and the number in use.
#[derive(Clone, Copy)]
pub struct Line {
    pub chars: [u8; 80],
    pub length: usize,
}

/// The abstract value of a line.
pub struct LineView {
    pub chars: Seq<u8>,
    pub length: int,
}

impl Line {
    pub open spec fn view(&self) -> LineView {
        LineView { chars: self.chars@, length: self.length as int }
    }
}

/// The characters in use of a line whose length fits its array.
pub open spec fn line_text(l: LineView) -> Seq<u8> {
    l.chars.subrange(0, l.length)
}

/// The empty line.
pub open spec fn empty_line() -> LineView {
    LineView { chars: Seq::new(80, |i: int| 0u8), length: 0 }
}

/// Insert `c` at `pos`, shifting the rest right; refused when the line is full or `pos`
/// is past its end.
pub open spec fn line_insert(l: LineView, pos: int, c: u8) -> (LineView, bool) {
    if l.length >= 80 || pos > l.length {
        (l, false)
    } else {
        (LineView {
            chars: l.chars.subrange(0, pos) + seq![c] + l.chars.subrange(pos, l.length)
                + l.chars.subrange(l.length + 1, 80),
            length: l.length + 1,
        }, true)
    }
}

/// Deleting at `pos` stays inside the array.
pub open spec fn line_delete_safe(l: LineView, pos: int) -> bool {
    !(l.length >= 81 && pos + 2 <= l.length)
}

/// Delete the character at `pos`, shifting the rest left; refused when `pos` is not
/// before the end.
pub open spec fn line_delete(l: LineView, pos: int) -> (LineView, bool) {
    if pos >= l.length {
        (l, false)
    } else {
        (LineView {
            chars: Seq::new(80, |i: int| if pos <= i < l.length - 1 { l.chars[i + 1] } else { l.chars[i] }),
            length: l.length - 1,
        }, true)
    }
}

impl Line {
    /// An empty line of zero bytes.
    pub fn new() -> (l: Line)
        ensures
            l.view() == empty_line(),
    {
        let l = Line { chars: [0u8; 80], length: 0 };
        assert(l.view().chars =~= empty_line().chars);
        l
    }

    /// Append a character when there is room.
    pub fn push(&mut self, c: u8) -> (ok: bool)
        ensures
            ok == (old(self).length < 80),
            ok ==> final(self).view() == (LineView {
                chars: old(self).chars@.update(old(self).length as int, c),
                length: old(self).length + 1,
            }),
            !ok ==> *final(self) == *old(self),
    {
        if self.length < MAX_LINE_LENGTH {
            self.chars[self.length] = c;
            self.length = self.length + 1;
            true
        } else {
            false
        }
    }

    /// Remove and return the last character.
    pub fn pop(&mut self) -> (r: Option<u8>)
        requires
            old(self).length <= 80,
        ensures
            old(self).length > 0 ==> r == Some(old(self).chars@[old(self).length - 1])
                && final(self).length == old(self).length - 1 && final(self).chars == old(self).chars,
            old(self).length == 0 ==> r is None && *final(self) == *old(self),
    {
        if self.length > 0 {
            self.length = self.length - 1;
            Some(self.chars[self.length])
        } else {
            None
        }
    }

    /// Insert `c` at `pos`.
    pub fn insert(&mut self, pos: usize, c: u8) -> (ok: bool)
        ensures
            (final(self).view(), ok) == line_insert(old(self).view(), pos as int, c),
    {
        if self.length >= MAX_LINE_LENGTH || pos > self.length {
            return false;
        }
        let ghost pre = self.chars@;
        let mut i: usize = self.length;
        while i > pos
            invariant
                pos <= i <= self.length,
                self.length == old(self).length,
                self.length < 80,
                pre == old(self).chars@,
                forall|j: int| 0 <= j <= i ==> self.chars@[j] == pre[j],
                forall|j: int| i < j <= self.length ==> self.chars@[j] == pre[j - 1],
                forall|j: int| self.length < j < 80 ==> self.chars@[j] == pre[j],
            decreases i - pos,
        {
            i = i - 1;
            self.chars[i + 1] = self.chars[i];
        }
        self.chars[pos] = c;
        self.length = self.length + 1;
        assert(self.chars@ =~= pre.subrange(0, pos as int) + seq![c] + pre.subrange(pos as int, old(self).length as int)
            + pre.subrange(old(self).length + 1, 80));
        true
    }

    /// Delete the character at `pos`.
    pub fn delete(&mut self, pos: usize) -> (ok: bool)
        requires
            line_delete_safe(old(self).view(), pos as int),
        ensures
            (final(self).view(), ok) == line_delete(old(self).view(), pos as int),
    {
        if pos >= self.length {
            return false;
        }
        let ghost pre = self.chars@;
        let mut i: usize = pos;
        while i < self.length - 1
            invariant
                pos <= i,
                pos < self.length,
                i <= self.length - 1,
                self.length == old(self).length,
                line_delete_safe(old(self).view(), pos as int),
                pre == old(self).chars@,
                forall|j: int| 0 <= j < pos ==> self.chars@[j] == pre[j],
                forall|j: int| pos <= j < i ==> self.chars@[j] == pre[j + 1],
                forall|j: int| i <= j < 80 ==> self.chars@[j] == pre[j],
            decreases self.length - 1 - i,
        {
            self.chars[i] = self.chars[i + 1];
            i = i + 1;
        }
        self.length = self.length - 1;
        assert(self.chars@ =~= Seq::new(80, |j: int| if pos <= j < old(self).length - 1 { pre[j + 1] } else { pre[j] }));
        true
    }
}

/// The abstract value of a text buffer.
pub struct BufView {
    pub lines: Seq<LineView>,
    pub line_count: int,
}

/// Inserting a character never fails in a way that needs a guard.
pub open spec fn buf_insert_char(b: BufView, line: int, col: int, c: u8) -> (BufView, bool) {
    if line >= b.line_count {
        (b, false)
    } else {
        let (l2, ok) = line_insert(b.lines[line], col, c);
        (BufView { lines: b.lines.update(line, l2), line_count: b.line_count }, ok)
    }
}

/// Deleting a character stays inside the line's array.
pub open spec fn buf_delete_char_safe(b: BufView, line: int, col: int) -> bool {
    line < b.line_count ==> line_delete_safe(b.lines[line], col)
}

/// Delete the character at `line`, `col`.
pub open spec fn buf_delete_char(b: BufView, line: int, col: int) -> (BufView, bool) {
    if line >= b.line_count {
        (b, false)
    } else {
        let (l2, ok) = line_delete(b.lines[line], col);
        (BufView { lines: b.lines.update(line, l2), line_count: b.line_count }, ok)
    }
}

/// Splitting a line stays inside the arrays.
pub open spec fn buf_insert_newline_safe(b: BufView, line: int, col: int) -> bool {
    b.line_count < 100 ==> {
        &&& 0 <= line < 99
        &&& !(col < b.lines[line].length && b.lines[line].length > 80)
    }
}

/// The line that takes the characters after `col`.
pub open spec fn split_tail(l: LineView, col: int) -> LineView {
    if col < l.length {
        LineView {
            chars: l.chars.subrange(col, l.length) + Seq::new((80 - (l.length - col)) as nat, |i: int| 0u8),
            length: l.length - col,
        }
    } else {
        empty_line()
    }
}

/// Split `line` at `col`: the characters from `col` on move to a new line inserted
/// after it (lines below shift down); refused when the buffer is full.
pub open spec fn buf_insert_newline(b: BufView, line: int, col: int) -> (BufView, bool) {
    if b.line_count >= 100 {
        (b, false)
    } else {
        let cur = LineView { chars: b.lines[line].chars, length: col };
        (BufView {
            lines: Seq::new(100, |i: int|
                if i == line { cur }
                else if i == line + 1 { split_tail(b.lines[line], col) }
                else if line + 2 <= i <= b.line_count { b.lines[i - 1] }
                else { b.lines[i] }),
            line_count: b.line_count + 1,
        }, true)
    }
}

/// Remove `line`, shifting the lines below up; refused for the last remaining line or a
/// line past the end.
pub open spec fn buf_delete_line(b: BufView, line: int) -> (BufView, bool) {
    if line >= b.line_count || b.line_count == 1 {
        (b, false)
    } else {
        (BufView {
            lines: Seq::new(100, |i: int|
                if line <= i < b.line_count - 1 { b.lines[i + 1] }
                else if i == b.line_count - 1 { empty_line() }
                else { b.lines[i] }),
            line_count: b.line_count - 1,
        }, true)
    }
}

/// Text buffer: up to 100 lines, at least one in use.
pub struct TextBuffer {
    pub lines: Vec<Line>,
    pub line_count: usize,
}

impl TextBuffer {
    /// The invariant: a full array of lines and between 1 and 100 in use.
    pub open spec fn wf(&self) -> bool {
        &&& self.lines@.len() == MAX_LINES
        &&& 1 <= self.line_count <= MAX_LINES
    }

    pub open spec fn view(&self) -> BufView {
        BufView { lines: self.lines@.map_values(|l: Line| l.view()), line_count: self.line_count as int }
    }

    /// A buffer with one empty line (and 99 empty lines not in use).
    pub fn new() -> (b: TextBuffer)
        ensures
            b.wf(),
            b.line_count == 1,
            forall|i: int| 0 <= i < 100 ==> #[trigger] b.view().lines[i] == empty_line(),
    {
        let mut lines: Vec<Line> = Vec::new();
        let mut i: usize = 0;
        while i < MAX_LINES
            invariant
                i <= 100,
                lines@.len() == i,
                forall|j: int| 0 <= j < i ==> #[trigger] lines@[j].view() == empty_line(),
            decreases 100 - i,
        {
            lines.push(Line::new());
            i = i + 1;
        }
        TextBuffer { lines, line_count: 1 }
    }

    fn insert_char(&mut self, line: usize, col: usize, c: u8) -> (ok: bool)
        requires
            old(self).wf(),
        ensures
            final(self).wf(),
            (final(self).view(), ok) == buf_insert_char(old(self).view(), line as int, col as int, c),
    {
        if line >= self.line_count {
            return false;
        }
        let mut l = self.lines[line];
        let ok = l.insert(col, c);
        self.lines.set(line, l);
        assert(self.view().lines =~= old(self).view().lines.update(line as int, l.view()));
        ok
    }

    fn delete_char(&mut self, line: usize, col: usize) -> (ok: bool)
        requires
            old(self).wf(),
            buf_delete_char_safe(old(self).view(), line as int, col as int),
        ensures
            final(self).wf(),
            (final(self).view(), ok) == buf_delete_char(old(self).view(), line as int, col as int),
    {
        if line >= self.line_count {
            return false;
        }
        let mut l = self.lines[line];
        let ok = l.delete(col);
        self.lines.set(line, l);
        assert(self.view().lines =~= old(self).view().lines.update(line as int, l.view()));
        ok
    }

    fn insert_newline(&mut self, line: usize, col: usize) -> (ok: bool)
        requires
            old(self).wf(),
            buf_insert_newline_safe(old(self).view(), line as int, col as int),
        ensures
            final(self).wf(),
            (final(self).view(), ok) == buf_insert_newline(old(self).view(), line as int, col as int),
    {
        if self.line_count >= MAX_LINES {
            return false;
        }
        let ghost pre = self.view();
        let mut new_line = Line::new();
        let mut current_line = self.lines[line];
        if col < current_line.length {
            let mut i: usize = col;
            while i < current_line.length
                invariant
                    current_line == self.lines@[line as int],
                    current_line.length <= 80,
                    col <= i <= current_line.length,
                    new_line.length == i - col,
                    forall|j: int| 0 <= j < i - col ==> new_line.chars@[j] == current_line.chars@[col + j],
                    forall|j: int| i - col <= j < 80 ==> new_line.chars@[j] == 0u8,
                decreases current_line.length - i,
            {
                let _ = new_line.push(current_line.chars[i]);
                i = i + 1;
            }
        }
        proof {
            assert(new_line.view() == split_tail(pre.lines[line as int], col as int)) by {
                if col < current_line.length {
                    assert(new_line.chars@ =~= split_tail(pre.lines[line as int], col as int).chars);
                } else {
                    assert(new_line.chars@ =~= empty_line().chars);
                }
            }
        }
        current_line.length = col;
        self.lines.set(line, current_line);
        let mut k: usize = self.line_count;
        while k > line + 1
            invariant
                self.lines@.len() == 100,
                self.line_count == pre.line_count,
                pre.line_count < 100,
                line < 99,
                line + 1 <= k <= self.line_count || (k == self.line_count && k < line + 1),
                self.lines@[line as int] == current_line,
                forall|j: int| 0 <= j < 100 && j != line && !(k < j <= self.line_count)
                    ==> #[trigger] self.lines@[j].view() == pre.lines[j],
                forall|j: int| k < j <= self.line_count ==> #[trigger] self.lines@[j].view() == pre.lines[j - 1],
            decreases k,
        {
            k = k - 1;
            let moved = self.lines[k];
            self.lines.set(k + 1, moved);
        }
        self.lines.set(line + 1, new_line);
        self.line_count = self.line_count + 1;
        proof {
            let expect = buf_insert_newline(pre, line as int, col as int).0;
            assert(self.view().lines =~= expect.lines);
        }
        true
    }

    fn delete_line(&mut self, line: usize) -> (ok: bool)
        requires
            old(self).wf(),
        ensures
            final(self).wf(),
            (final(self).view(), ok) == buf_delete_line(old(self).view(), line as int),
    {
        if line >= self.line_count || self.line_count == 1 {
            return false;
        }
        let ghost pre = self.view();
        let mut i: usize = line;
        while i < self.line_count - 1
            invariant
                self.lines@.len() == 100,
                self.line_count == pre.line_count,
                2 <= self.line_count <= 100,
                line <= i <= self.line_count - 1,
                forall|j: int| 0 <= j < line ==> #[trigger] self.lines@[j].view() == pre.lines[j],
                forall|j: int| line <= j < i ==> #[trigger] self.lines@[j].view() == pre.lines[j + 1],
                forall|j: int| i <= j < 100 ==> #[trigger] self.lines@[j].view() == pre.lines[j],
            decreases self.line_count - i,
        {
            let moved = self.lines[i + 1];
            self.lines.set(i, moved);
            i = i + 1;
        }
        self.line_count = self.line_count - 1;
        self.lines.set(self.line_count, Line::new());
        proof {
            let expect = buf_delete_line(pre, line as int).0;
            assert(self.view().lines =~= expect.lines);
        }
        true
    }
}

} // verus!

verus! {

/// The abstract state of the editor.
pub struct EditorView {
    pub buf: BufView,
    pub cursor_line: int,
    pub cursor_col: int,
    pub mode: EditorMode,
    pub command: Seq<u8>,
    pub command_len: int,
    pub filename: Seq<u8>,
    pub filename_len: int,
    pub modified: bool,
    pub status: Seq<u8>,
    pub status_len: int,
}

/// Copy at most `cap` bytes of `msg` into the front of `dest`; the new length.
pub open spec fn copy_prefix(dest: Seq<u8>, msg: Seq<u8>, cap: int) -> (Seq<u8>, int) {
    let n = if msg.len() < cap { msg.len() as int } else { cap };
    (Seq::new(dest.len(), |i: int| if i < n { msg[i] } else { dest[i] }), n)
}

/// Show `msg` (its first 80 bytes) as the status message.
pub open spec fn set_status_spec(v: EditorView, msg: Seq<u8>) -> EditorView {
    let (s, n) = copy_prefix(v.status, msg, 80);
    EditorView { status: s, status_len: n, ..v }
}

pub open spec fn msg_modified() -> Seq<u8> {
    "File modified! Use :q! to force quit or :wq to save and quit".spec_bytes()
}

pub open spec fn msg_unknown() -> Seq<u8> {
    "Unknown command".spec_bytes()
}

pub open spec fn msg_no_filename() -> Seq<u8> {
    "No filename specified".spec_bytes()
}

pub open spec fn msg_saved() -> Seq<u8> {
    "File saved (placeholder - filesystem pending)".spec_bytes()
}

pub open spec fn msg_opened() -> Seq<u8> {
    "File opened (filesystem not yet implemented)".spec_bytes()
}

pub open spec fn msg_welcome() -> Seq<u8> {
    "m5edit - Type :q to quit, i for insert mode".spec_bytes()
}

/// Saving (the file system is not consulted): without a file name a message says so;
/// otherwise the buffer counts as unmodified.
pub open spec fn save_spec(v: EditorView) -> EditorView {
    if v.filename_len == 0 {
        set_status_spec(v, msg_no_filename())
    } else {
        set_status_spec(EditorView { modified: false, ..v }, msg_saved())
    }
}

/// Run the typed command; the flag says whether to quit: `:q` when unmodified, `:q!`
/// always, `:wq` only once the save has cleared the modified flag.
pub open spec fn execute_command_spec(v: EditorView) -> (EditorView, bool) {
    let cmd = v.command.subrange(0, v.command_len);
    if v.command_len == 0 {
        (v, false)
    } else if cmd == seq![113u8] {
        if v.modified { (set_status_spec(v, msg_modified()), false) } else { (v, true) }
    } else if cmd == seq![113u8, 33u8] {
        (v, true)
    } else if cmd == seq![119u8] {
        (save_spec(v), false)
    } else if cmd == seq![119u8, 113u8] {
        (save_spec(v), !save_spec(v).modified)
    } else {
        (set_status_spec(v, msg_unknown()), false)
    }
}

/// Keys in normal mode: i/a insert (a after the cursor), : command, h/l/j/k move, x
/// deletes a character, d deletes the line, q quits.
pub open spec fn normal_key_spec(v: EditorView, key: u8) -> (EditorView, bool) {
    if key == 105 {
        (set_status_spec(EditorView { mode: EditorMode::Insert, ..v }, seq![]), false)
    } else if key == 97 {
        (set_status_spec(EditorView { cursor_col: v.cursor_col + 1, mode: EditorMode::Insert, ..v }, seq![]), false)
    } else if key == 58 {
        (EditorView { mode: EditorMode::Command, command_len: 0, ..v }, false)
    } else if key == 104 {
        (if v.cursor_col > 0 { EditorView { cursor_col: v.cursor_col - 1, ..v } } else { v }, false)
    } else if key == 108 {
        (if v.cursor_col < v.buf.lines[v.cursor_line].length { EditorView { cursor_col: v.cursor_col + 1, ..v } } else { v }, false)
    } else if key == 106 {
        (if v.cursor_line < v.buf.line_count - 1 {
            let nl = v.cursor_line + 1;
            let len = v.buf.lines[nl].length;
            EditorView { cursor_line: nl, cursor_col: if v.cursor_col > len { len } else { v.cursor_col }, ..v }
        } else { v }, false)
    } else if key == 107 {
        (if v.cursor_line > 0 {
            let nl = v.cursor_line - 1;
            let len = v.buf.lines[nl].length;
            EditorView { cursor_line: nl, cursor_col: if v.cursor_col > len { len } else { v.cursor_col }, ..v }
        } else { v }, false)
    } else if key == 120 {
        (EditorView { buf: buf_delete_char(v.buf, v.cursor_line, v.cursor_col).0, modified: true, ..v }, false)
    } else if key == 100 {
        (EditorView { buf: buf_delete_line(v.buf, v.cursor_line).0, modified: true, ..v }, false)
    } else if key == 113 {
        (v, true)
    } else {
        (v, false)
    }
}

/// Keys in insert mode: ESC back to normal, Enter splits the line, backspace deletes
/// before the cursor, printable characters are inserted at the cursor.
pub open spec fn insert_key_spec(v: EditorView, key: u8) -> (EditorView, bool) {
    if key == 27 {
        (EditorView { mode: EditorMode::Normal, ..v }, false)
    } else if key == 10 {
        (EditorView {
            buf: buf_insert_newline(v.buf, v.cursor_line, v.cursor_col).0,
            cursor_line: v.cursor_line + 1,
            cursor_col: 0,
            modified: true,
            ..v
        }, false)
    } else if key == 8 || key == 127 {
        (if v.cursor_col > 0 {
            EditorView {
                buf: buf_delete_char(v.buf, v.cursor_line, v.cursor_col - 1).0,
                cursor_col: v.cursor_col - 1,
                modified: true,
                ..v
            }
        } else { v }, false)
    } else if 32 <= key < 127 {
        let (b2, ok) = buf_insert_char(v.buf, v.cursor_line, v.cursor_col, key);
        (if ok { EditorView { buf: b2, cursor_col: v.cursor_col + 1, modified: true, ..v } } else { v }, false)
    } else {
        (v, false)
    }
}

/// Keys in command mode: ESC cancels, Enter runs the command, backspace erases,
/// printable characters are appended while there is room.
pub open spec fn command_key_spec(v: EditorView, key: u8) -> (EditorView, bool) {
    if key == 27 {
        (EditorView { mode: EditorMode::Normal, command_len: 0, ..v }, false)
    } else if key == 10 {
        let (v2, quit) = execute_command_spec(v);
        (EditorView { mode: EditorMode::Normal, command_len: 0, ..v2 }, quit)
    } else if key == 8 || key == 127 {
        (if v.command_len > 0 { EditorView { command_len: v.command_len - 1, ..v } } else { v }, false)
    } else if 32 <= key < 127 && v.command_len < 64 {
        (EditorView { command: v.command.update(v.command_len, key), command_len: v.command_len + 1, ..v }, false)
    } else {
        (v, false)
    }
}

/// One key press in the current mode.
pub open spec fn handle_key_spec(v: EditorView, key: u8) -> (EditorView, bool) {
    match v.mode {
        EditorMode::Normal => normal_key_spec(v, key),
        EditorMode::Insert => insert_key_spec(v, key),
        EditorMode::Command => command_key_spec(v, key),
    }
}

/// The key can be handled without leaving an array or overflowing the cursor.
pub open spec fn key_safe(v: EditorView, key: u8) -> bool {
    match v.mode {
        EditorMode::Normal => {
            &&& key == 97 ==> v.cursor_col < usize::MAX
            &&& key == 108 ==> v.cursor_line < 100
            &&& key == 107 ==> v.cursor_line <= 100
            &&& key == 120 ==> buf_delete_char_safe(v.buf, v.cursor_line, v.cursor_col)
        },
        EditorMode::Insert => {
            &&& key == 10 ==> buf_insert_newline_safe(v.buf, v.cursor_line, v.cursor_col)
                && v.cursor_line < usize::MAX
            &&& (key == 8 || key == 127) && v.cursor_col > 0
                ==> buf_delete_char_safe(v.buf, v.cursor_line, v.cursor_col - 1)
        },
        EditorMode::Command => true,
    }
}

/// The editor.
pub struct Editor {
    pub buffer: TextBuffer,
    pub cursor_line: usize,
    pub cursor_col: usize,
    pub mode: EditorMode,
    pub command_buf: [u8; 64],
    pub command_len: usize,
    pub filename: [u8; 64],
    pub filename_len: usize,
    pub modified: bool,
    pub status_message: [u8; 80],
    pub status_len: usize,
}

impl Editor {
    /// The invariant: a well-formed buffer and the three byte buffers' lengths in range;
    /// the typed command is printable ASCII and the status message is ASCII.
    pub open spec fn wf(&self) -> bool {
        &&& self.buffer.wf()
        &&& self.command_len <= 64
        &&& self.filename_len <= 64
        &&& self.status_len <= 80
        &&& forall|i: int| 0 <= i < self.command_len ==> 32 <= #[trigger] self.command_buf@[i] < 127
        &&& forall|i: int| 0 <= i < self.status_len ==> #[trigger] self.status_message@[i] < 128
    }

    pub open spec fn view(&self) -> EditorView {
        EditorView {
            buf: self.buffer.view(),
            cursor_line: self.cursor_line as int,
            cursor_col: self.cursor_col as int,
            mode: self.mode,
            command: self.command_buf@,
            command_len: self.command_len as int,
            filename: self.filename@,
            filename_len: self.filename_len as int,
            modified: self.modified,
            status: self.status_message@,
            status_len: self.status_len as int,
        }
    }

    /// A fresh editor: one empty line, normal mode, no file name, no message.
    pub fn new() -> (e: Editor)
        ensures
            e.wf(),
            e.buffer.line_count == 1,
            forall|i: int| 0 <= i < 100 ==> #[trigger] e.buffer.view().lines[i] == empty_line(),
            e.cursor_line == 0,
            e.cursor_col == 0,
            e.mode == EditorMode::Normal,
            e.command_len == 0,
            e.filename_len == 0,
            !e.modified,
            e.status_len == 0,
            e.command_buf@ == Seq::new(64, |i: int| 0u8),
            e.filename@ == Seq::new(64, |i: int| 0u8),
            e.status_message@ == Seq::new(80, |i: int| 0u8),
    {
        let e = Editor {
            buffer: TextBuffer::new(),
            cursor_line: 0,
            cursor_col: 0,
            mode: EditorMode::Normal,
            command_buf: [0u8; 64],
            command_len: 0,
            filename: [0u8; 64],
            filename_len: 0,
            modified: false,
            status_message: [0u8; 80],
            status_len: 0,
        };
        assert(e.command_buf@ =~= Seq::new(64, |i: int| 0u8));
        assert(e.filename@ =~= Seq::new(64, |i: int| 0u8));
        assert(e.status_message@ =~= Seq::new(80, |i: int| 0u8));
        e
    }

    /// Show `msg` (its first 80 bytes) as the status message.
    fn set_status(&mut self, msg: &str)
        requires
            old(self).wf(),
            forall|i: int| 0 <= i < msg.spec_bytes().len() ==> #[trigger] msg.spec_bytes()[i] < 128,
        ensures
            final(self).wf(),
            final(self).view() == set_status_spec(old(self).view(), msg.spec_bytes()),
            final(self).buffer == old(self).buffer,
    {
        let bytes = msg.as_bytes();
        self.status_len = 0;
        let mut k: usize = 0;
        while k < bytes.len()
            invariant
                self.buffer.wf(),
                self.buffer == old(self).buffer,
                bytes@ == msg.spec_bytes(),
                forall|i: int| 0 <= i < bytes@.len() ==> #[trigger] bytes@[i] < 128,
                k <= bytes@.len(),
                self.status_len == if k < 80 { k } else { 80 },
                forall|i: int| 0 <= i < self.status_len ==> self.status_message@[i] == bytes@[i],
                forall|i: int| self.status_len <= i < 80 ==> self.status_message@[i] == old(self).status_message@[i],
                self.cursor_line == old(self).cursor_line,
                self.cursor_col == old(self).cursor_col,
                self.mode == old(self).mode,
                self.command_buf == old(self).command_buf,
                self.command_len == old(self).command_len,
                self.filename == old(self).filename,
                self.filename_len == old(self).filename_len,
                self.modified == old(self).modified,
                old(self).wf(),
            decreases bytes@.len() - k,
        {
            if self.status_len < 80 {
                self.status_message[self.status_len] = bytes[k];
                self.status_len = self.status_len + 1;
            }
            k = k + 1;
        }
        assert(self.status_message@ =~= copy_prefix(old(self).status_message@, bytes@, 80).0);
    }

    /// Remember `filename` (its first 64 bytes) and say that the file was opened.
    pub fn open(&mut self, filename: &str)
        requires
            old(self).wf(),
        ensures
            final(self).wf(),
            final(self).view() == set_status_spec(EditorView {
                filename: copy_prefix(old(self).filename@, filename.spec_bytes(), 64).0,
                filename_len: copy_prefix(old(self).filename@, filename.spec_bytes(), 64).1,
                ..old(self).view()
            }, msg_opened()),
    {
        let bytes = filename.as_bytes();
        self.filename_len = 0;
        let mut k: usize = 0;
        while k < bytes.len()
            invariant
                self.wf(),
                bytes@ == filename.spec_bytes(),
                k <= bytes@.len(),
                self.filename_len == if k < 64 { k } else { 64 },
                forall|i: int| 0 <= i < self.filename_len ==> self.filename@[i] == bytes@[i],
                forall|i: int| self.filename_len <= i < 64 ==> self.filename@[i] == old(self).filename@[i],
                self.buffer == old(self).buffer,
                self.cursor_line == old(self).cursor_line,
                self.cursor_col == old(self).cursor_col,
                self.mode == old(self).mode,
                self.command_buf == old(self).command_buf,
                self.command_len == old(self).command_len,
                self.modified == old(self).modified,
                self.status_message == old(self).status_message,
                self.status_len == old(self).status_len,
            decreases bytes@.len() - k,
        {
            if self.filename_len < 64 {
                self.filename[self.filename_len] = bytes[k];
                self.filename_len = self.filename_len + 1;
            }
            k = k + 1;
        }
        assert(self.filename@ =~= copy_prefix(old(self).filename@, bytes@, 64).0);
        proof {
            reveal_strlit("File opened (filesystem not yet implemented)");
            vstd::string::is_ascii_spec_bytes("File opened (filesystem not yet implemented)");
        }
        self.set_status("File opened (filesystem not yet implemented)");
    }

    /// Save (a placeholder: nothing is written anywhere).
    pub fn save(&mut self)
        requires
            old(self).wf(),
        ensures
            final(self).wf(),
            final(self).view() == save_spec(old(self).view()),
    {
        if self.filename_len == 0 {
            proof {
                reveal_strlit("No filename specified");
                vstd::string::is_ascii_spec_bytes("No filename specified");
            }
            self.set_status("No filename specified");
            return;
        }
        self.modified = false;
        proof {
            reveal_strlit("File saved (placeholder - filesystem pending)");
            vstd::string::is_ascii_spec_bytes("File saved (placeholder - filesystem pending)");
        }
        self.set_status("File saved (placeholder - filesystem pending)");
    }

    /// Handle one key press; true means the editor should quit.
    pub fn handle_key(&mut self, key: u8) -> (quit: bool)
        requires
            old(self).wf(),
            key_safe(old(self).view(), key),
        ensures
            final(self).wf(),
            (final(self).view(), quit) == handle_key_spec(old(self).view(), key),
    {
        match self.mode {
            EditorMode::Normal => self.handle_normal_key(key),
            EditorMode::Insert => self.handle_insert_key(key),
            EditorMode::Command => self.handle_command_key(key),
        }
    }

    fn handle_normal_key(&mut self, key: u8) -> (quit: bool)
        requires
            old(self).wf(),
            old(self).mode == EditorMode::Normal,
            key_safe(old(self).view(), key),
        ensures
            final(self).wf(),
            (final(self).view(), quit) == normal_key_spec(old(self).view(), key),
    {
        proof {
            reveal_strlit("");
        }
        if key == 105 {
            self.mode = EditorMode::Insert;
            self.set_status("");
        } else if key == 97 {
            self.cursor_col = self.cursor_col + 1;
            self.mode = EditorMode::Insert;
            self.set_status("");
        } else if key == 58 {
            self.mode = EditorMode::Command;
            self.command_len = 0;
        } else if key == 104 {
            if self.cursor_col > 0 {
                self.cursor_col = self.cursor_col - 1;
            }
        } else if key == 108 {
            let line_len = self.buffer.lines[self.cursor_line].length;
            if self.cursor_col < line_len {
                self.cursor_col = self.cursor_col + 1;
            }
        } else if key == 106 {
            if self.cursor_line < self.buffer.line_count - 1 {
                self.cursor_line = self.cursor_line + 1;
                let line_len = self.buffer.lines[self.cursor_line].length;
                if self.cursor_col > line_len {
                    self.cursor_col = line_len;
                }
            }
        } else if key == 107 {
            if self.cursor_line > 0 {
                self.cursor_line = self.cursor_line - 1;
                let line_len = self.buffer.lines[self.cursor_line].length;
                if self.cursor_col > line_len {
                    self.cursor_col = line_len;
                }
            }
        } else if key == 120 {
            let _ = self.buffer.delete_char(self.cursor_line, self.cursor_col);
            self.modified = true;
        } else if key == 100 {
            let _ = self.buffer.delete_line(self.cursor_line);
            self.modified = true;
        } else if key == 113 {
            return true;
        }
        false
    }

    fn handle_insert_key(&mut self, key: u8) -> (quit: bool)
        requires
            old(self).wf(),
            old(self).mode == EditorMode::Insert,
            key_safe(old(self).view(), key),
        ensures
            final(self).wf(),
            (final(self).view(), quit) == insert_key_spec(old(self).view(), key),
    {
        if key == 27 {
            self.mode = EditorMode::Normal;
        } else if key == 10 {
            let _ = self.buffer.insert_newline(self.cursor_line, self.cursor_col);
            self.cursor_line = self.cursor_line + 1;
            self.cursor_col = 0;
            self.modified = true;
        } else if key == 8 || key == 127 {
            if self.cursor_col > 0 {
                self.cursor_col = self.cursor_col - 1;
                let _ = self.buffer.delete_char(self.cursor_line, self.cursor_col);
                self.modified = true;
            }
        } else if key >= 32 && key < 127 {
            let ghost b0 = self.buffer.view();
            if self.buffer.insert_char(self.cursor_line, self.cursor_col, key) {
                self.cursor_col = self.cursor_col + 1;
                self.modified = true;
            } else {
                assert(self.buffer.view().lines =~= b0.lines);
            }
        }
        false
    }

    fn handle_command_key(&mut self, key: u8) -> (quit: bool)
        requires
            old(self).wf(),
            old(self).mode == EditorMode::Command,
        ensures
            final(self).wf(),
            (final(self).view(), quit) == command_key_spec(old(self).view(), key),
    {
        if key == 27 {
            self.mode = EditorMode::Normal;
            self.command_len = 0;
        } else if key == 10 {
            let should_quit = self.execute_command();
            self.mode = EditorMode::Normal;
            self.command_len = 0;
            return should_quit;
        } else if key == 8 || key == 127 {
            if self.command_len > 0 {
                self.command_len = self.command_len - 1;
            }
        } else if key >= 32 && key < 127 && self.command_len < 64 {
            self.command_buf[self.command_len] = key;
            self.command_len = self.command_len + 1;
        }
        false
    }

    fn execute_command(&mut self) -> (quit: bool)
        requires
            old(self).wf(),
        ensures
            final(self).wf(),
            (final(self).view(), quit) == execute_command_spec(old(self).view()),
    {
        if self.command_len == 0 {
            return false;
        }
        let ghost cmd = self.command_buf@.subrange(0, self.command_len as int);
        let len = self.command_len;
        let c0 = self.command_buf[0];
        let c1 = if len >= 2 { self.command_buf[1] } else { 0 };
        proof {
            assert(cmd.len() == len);
            assert(cmd[0] == c0);
            if len >= 2 { assert(cmd[1] == c1); }
            assert((cmd == seq![113u8]) == (len == 1 && c0 == 113)) by {
                if len == 1 && c0 == 113 { assert(cmd =~= seq![113u8]); }
                if cmd == seq![113u8] { assert(cmd[0] == 113u8); }
            }
            assert((cmd == seq![113u8, 33u8]) == (len == 2 && c0 == 113 && c1 == 33)) by {
                if len == 2 && c0 == 113 && c1 == 33 { assert(cmd =~= seq![113u8, 33u8]); }
                if cmd == seq![113u8, 33u8] { assert(cmd[0] == 113u8 && cmd[1] == 33u8); }
            }
            assert((cmd == seq![119u8]) == (len == 1 && c0 == 119)) by {
                if len == 1 && c0 == 119 { assert(cmd =~= seq![119u8]); }
                if cmd == seq![119u8] { assert(cmd[0] == 119u8); }
            }
            assert((cmd == seq![119u8, 113u8]) == (len == 2 && c0 == 119 && c1 == 113)) by {
                if len == 2 && c0 == 119 && c1 == 113 { assert(cmd =~= seq![119u8, 113u8]); }
                if cmd == seq![119u8, 113u8] { assert(cmd[0] == 119u8 && cmd[1] == 113u8); }
            }
        }
        if len == 1 && c0 == 113 {
            assert(cmd =~= seq![113u8]);
            if self.modified {
                proof {
                    reveal_strlit("File modified! Use :q! to force quit or :wq to save and quit");
                    vstd::string::is_ascii_spec_bytes("File modified! Use :q! to force quit or :wq to save and quit");
                }
                self.set_status("File modified! Use :q! to force quit or :wq to save and quit");
                return false;
            }
            return true;
        } else if len == 2 && c0 == 113 && c1 == 33 {
            assert(cmd =~= seq![113u8, 33u8]);
            return true;
        } else if len == 1 && c0 == 119 {
            assert(cmd =~= seq![119u8]);
            self.save();
        } else if len == 2 && c0 == 119 && c1 == 113 {
            assert(cmd =~= seq![119u8, 113u8]);
            self.save();
            return !self.modified;
        } else {
            proof {
                if cmd == seq![113u8] { assert(cmd[0] == 113u8); }
                if cmd == seq![113u8, 33u8] { assert(cmd[0] == 113u8 && cmd[1] == 33u8); }
                if cmd == seq![119u8] { assert(cmd[0] == 119u8); }
                if cmd == seq![119u8, 113u8] { assert(cmd[0] == 119u8 && cmd[1] == 113u8); }
                reveal_strlit("Unknown command");
                vstd::string::is_ascii_spec_bytes("Unknown command");
            }
            self.set_status("Unknown command");
        }
        false
    }
}

} // verus!

verus! {

/// The text of lines `0 .. n`, each followed by a newline.
pub open spec fn lines_bytes(b: BufView, n: int) -> Seq<u8>
    decreases n,
{
    if n <= 0 {
        seq![]
    } else {
        lines_bytes(b, n - 1) + line_text(b.lines[n - 1]) + seq![10u8]
    }
}

/// The label shown for a mode.
pub open spec fn mode_label(m: EditorMode) -> Seq<u8> {
    match m {
        EditorMode::Normal => "-- NORMAL --".spec_bytes(),
        EditorMode::Insert => "-- INSERT --".spec_bytes(),
        EditorMode::Command => "-- COMMAND --".spec_bytes(),
    }
}

/// The mode line: a space, the mode label and " [+]" when modified.
pub open spec fn mode_line(v: EditorView) -> Seq<u8> {
    " ".spec_bytes() + mode_label(v.mode) + if v.modified { " [+]".spec_bytes() } else { seq![] }
}

/// The bottom line: the typed command after ':' in command mode, else the status
/// message.
pub open spec fn bottom_line(v: EditorView) -> Seq<u8> {
    if v.mode == EditorMode::Command {
        ":".spec_bytes() + v.command.subrange(0, v.command_len)
    } else if v.status_len > 0 {
        v.status.subrange(0, v.status_len)
    } else {
        seq![]
    }
}

/// The number of lines drawn: at most 23.
pub open spec fn shown_lines(v: EditorView) -> int {
    if v.buf.line_count < 23 { v.buf.line_count } else { 23 }
}

/// The screen after drawing the editor on a screen in state `st`.
pub open spec fn draw_spec(v: EditorView, st: vga::VgaState) -> vga::VgaState {
    let s1 = write_bytes_spec(vga::clear_spec(st), lines_bytes(v.buf, shown_lines(v)));
    let s2 = write_bytes_spec(vga::color_spec(s1, Color::Black, Color::LightGray), mode_line(v));
    let s3 = write_bytes_spec(vga::color_spec(s2, Color::White, Color::Black), "\n".spec_bytes());
    write_bytes_spec(s3, bottom_line(v))
}

/// The lines drawn fit their arrays.
pub open spec fn drawable(v: EditorView) -> bool {
    forall|i: int| 0 <= i < shown_lines(v) ==> #[trigger] v.buf.lines[i].length <= 80
}

/// `write_bytes_spec` over a writer that may be missing.
pub open spec fn opt_writes(before: Option<Writer>, after: Option<Writer>, f: spec_fn(vga::VgaState) -> vga::VgaState) -> bool {
    match before {
        Some(w) => after matches Some(w2) && w2.wf() && w2.state() == f(w.state()),
        None => after is None,
    }
}

impl Editor {
    /// Draw the editor: the first 23 lines, the mode line in black on light grey, then
    /// the typed command or the status message.
    pub fn draw(&self, writer: &mut Option<Writer>)
        requires
            self.wf(),
            drawable(self.view()),
            *old(writer) matches Some(w) ==> w.wf(),
        ensures
            opt_writes(*old(writer), *final(writer), |st: vga::VgaState| draw_spec(self.view(), st)),
    {
        let ghost v = self.view();
        let ghost w0 = *writer;
        vga::clear_screen(writer);
        let n = if self.buffer.line_count < 23 { self.buffer.line_count } else { 23 };
        let mut i: usize = 0;
        while i < n
            invariant
                self.wf(),
                v == self.view(),
                drawable(v),
                n == shown_lines(v),
                i <= n,
                opt_writes(w0, *writer, |st: vga::VgaState|
                    write_bytes_spec(vga::clear_spec(st), lines_bytes(v.buf, i as int))),
            decreases n - i,
        {
            let line = &self.buffer.lines[i];
            assert(v.buf.lines[i as int].length <= 80);
            let ghost before = *writer;
            vga::write_bytes(writer, &line.chars.as_slice()[0..line.length]);
            proof {
                reveal_strlit("\n");
            }
            vga::write_str(writer, "\n");
            proof {
                if let Some(w) = w0 {
                    let st = vga::clear_spec(w.state());
                    let a = lines_bytes(v.buf, i as int);
                    let t = line_text(v.buf.lines[i as int]);
                    vga::lemma_write_bytes_concat(st, a, t);
                    vga::lemma_write_bytes_concat(st, a + t, seq![10u8]);
                    assert("\n".spec_bytes() =~= seq![10u8]) by {
                        vstd::string::is_ascii_spec_bytes("\n");
                    }
                    assert(line.chars@.subrange(0, line.length as int) =~= t);
                }
            }
            i = i + 1;
        }
        vga::set_color(writer, Color::Black, Color::LightGray);
        let ghost s_mode = *writer;
        vga::write_str(writer, " ");
        match self.mode {
            EditorMode::Normal => vga::write_str(writer, "-- NORMAL --"),
            EditorMode::Insert => vga::write_str(writer, "-- INSERT --"),
            EditorMode::Command => vga::write_str(writer, "-- COMMAND --"),
        }
        if self.modified {
            vga::write_str(writer, " [+]");
        }
        proof {
            if let Some(w) = s_mode {
                let st = w.state();
                vga::lemma_write_bytes_concat(st, " ".spec_bytes(), mode_label(v.mode));
                if v.modified {
                    vga::lemma_write_bytes_concat(st, " ".spec_bytes() + mode_label(v.mode), " [+]".spec_bytes());
                } else {
                    assert(" ".spec_bytes() + mode_label(v.mode) + seq![] =~= " ".spec_bytes() + mode_label(v.mode));
                }
            }
        }
        vga::set_color(writer, Color::White, Color::Black);
        vga::write_str(writer, "\n");
        let ghost s_bottom = *writer;
        if self.mode == EditorMode::Command {
            vga::write_str(writer, ":");
            vga::write_bytes(writer, &self.command_buf.as_slice()[0..self.command_len]);
            proof {
                if let Some(w) = s_bottom {
                    vga::lemma_write_bytes_concat(w.state(), ":".spec_bytes(), v.command.subrange(0, v.command_len));
                }
            }
        } else if self.status_len > 0 {
            vga::write_bytes(writer, &self.status_message.as_slice()[0..self.status_len]);
        }
    }
}

/// The editor as `run_editor` leaves it before drawing.
pub open spec fn started(e: EditorView, filename: Option<Seq<u8>>) -> bool {
    &&& e.buf.line_count == 1
    &&& forall|i: int| 0 <= i < 100 ==> #[trigger] e.buf.lines[i] == empty_line()
    &&& e.cursor_line == 0
    &&& e.cursor_col == 0
    &&& e.mode == EditorMode::Normal
    &&& e.command_len == 0
    &&& !e.modified
    &&& e.status.subrange(0, e.status_len) == msg_welcome()
    &&& match filename {
        Some(f) => e.filename_len == (if f.len() < 64 { f.len() as int } else { 64 })
            && e.filename.subrange(0, e.filename_len) == f.subrange(0, e.filename_len),
        None => e.filename_len == 0,
    }
}

/// Start the editor on `filename` (if any) and draw it; returns the editor.
pub fn run_editor(filename: Option<&str>, writer: &mut Option<Writer>) -> (e: Editor)
    requires
        *old(writer) matches Some(w) ==> w.wf(),
    ensures
        e.wf(),
        started(e.view(), match filename { Some(f) => Some(f.spec_bytes()), None => None }),
        opt_writes(*old(writer), *final(writer), |st: vga::VgaState| draw_spec(e.view(), st)),
{
    let mut editor = Editor::new();
    match filename {
        Some(name) => editor.open(name),
        None => {},
    }
    proof {
        reveal_strlit("m5edit - Type :q to quit, i for insert mode");
        vstd::string::is_ascii_spec_bytes("m5edit - Type :q to quit, i for insert mode");
    }
    editor.set_status("m5edit - Type :q to quit, i for insert mode");
    proof {
        assert(editor.status_message@.subrange(0, editor.status_len as int) =~= msg_welcome());
        if let Some(f) = filename {
            let n = editor.filename_len as int;
            assert(editor.filename@.subrange(0, n) =~= f.spec_bytes().subrange(0, n));
        }
    }
    editor.draw(writer);
    editor
}

} // verus!

verus! {

/// ESC in insert mode returns to normal mode and changes nothing else.
pub proof fn law_escape_leaves_insert_mode(v: EditorView)
    requires
        v.mode == EditorMode::Insert,
    ensures
        handle_key_spec(v, 27) == (EditorView { mode: EditorMode::Normal, ..v }, false),
{
}

/// In insert mode, typing a printable character and then backspace gives back the line
/// it was typed into, and the cursor returns to where it was.
pub proof fn law_type_then_backspace(v: EditorView, c: u8)
    requires
        v.mode == EditorMode::Insert,
        32 <= c < 127,
        0 <= v.cursor_line < v.buf.line_count,
        v.buf.lines.len() == 100,
        v.buf.line_count <= 100,
        0 <= v.cursor_col <= v.buf.lines[v.cursor_line].length < 80,
        v.buf.lines[v.cursor_line].chars.len() == 80,
    ensures
        ({
            let v1 = handle_key_spec(v, c).0;
            let v2 = handle_key_spec(v1, 8).0;
            &&& v2.cursor_col == v.cursor_col
            &&& v2.cursor_line == v.cursor_line
            &&& v2.mode == EditorMode::Insert
            &&& v2.buf.line_count == v.buf.line_count
            &&& v2.buf.lines[v.cursor_line].length == v.buf.lines[v.cursor_line].length
            &&& line_text(v2.buf.lines[v.cursor_line]) == line_text(v.buf.lines[v.cursor_line])
            &&& forall|i: int| 0 <= i < 100 && i != v.cursor_line ==> v2.buf.lines[i] == v.buf.lines[i]
        }),
{
    let l = v.buf.lines[v.cursor_line];
    let (l1, ok1) = line_insert(l, v.cursor_col, c);
    assert(ok1);
    let v1 = handle_key_spec(v, c).0;
    assert(v1.buf.lines[v.cursor_line] == l1);
    let (l2, ok2) = line_delete(l1, v.cursor_col);
    let v2 = handle_key_spec(v1, 8).0;
    assert(v2.buf.lines[v.cursor_line] == l2);
    assert(line_text(l2) =~= line_text(l));
}

/// ESC in command mode drops the typed command and returns to normal mode; the text
/// and the cursor are untouched.
pub proof fn law_escape_cancels_command(v: EditorView)
    requires
        v.mode == EditorMode::Command,
    ensures
        handle_key_spec(v, 27) == (EditorView { mode: EditorMode::Normal, command_len: 0, ..v }, false),
{
}

/// Typing ":q" and Enter in normal mode quits exactly when the buffer is unmodified.
pub proof fn law_quit_only_when_saved(v: EditorView)
    requires
        v.mode == EditorMode::Normal,
        v.command.len() == 64,
    ensures
        ({
            let v1 = handle_key_spec(v, 58).0;
            let v2 = handle_key_spec(v1, 113).0;
            handle_key_spec(v2, 10).1 == !v.modified
        }),
{
    let v1 = handle_key_spec(v, 58).0;
    let v2 = handle_key_spec(v1, 113).0;
    assert(v2.command.subrange(0, v2.command_len) =~= seq![113u8]);
}


/// Running a typed command quits with unsaved changes only for `:q!`.
pub proof fn law_quit_keeps_nothing_unsaved(v: EditorView)
    ensures
        execute_command_spec(v).1 ==> v.command.subrange(0, v.command_len) == seq![113u8, 33u8]
            || !execute_command_spec(v).0.modified,
{
}


/// In normal mode 'j' (106) moves the cursor one line down and 'k' (107) one line up,
/// when there is a line there (otherwise it stays put); the column is kept, or cut to the
/// length of the line moved to. The text does not change and the editor does not quit.
pub proof fn law_j_down_k_up(v: EditorView)
    requires
        v.mode == EditorMode::Normal,
        0 <= v.cursor_line,
    ensures
        ({
            let (d, qd) = handle_key_spec(v, 106);
            &&& !qd
            &&& d.buf == v.buf
            &&& v.cursor_line + 1 < v.buf.line_count ==> d.cursor_line == v.cursor_line + 1
                && d.cursor_col == (if v.cursor_col > v.buf.lines[v.cursor_line + 1].length {
                    v.buf.lines[v.cursor_line + 1].length } else { v.cursor_col })
            &&& v.cursor_line + 1 >= v.buf.line_count ==> d.cursor_line == v.cursor_line
                && d.cursor_col == v.cursor_col
        }),
        ({
            let (u, qu) = handle_key_spec(v, 107);
            &&& !qu
            &&& u.buf == v.buf
            &&& v.cursor_line > 0 ==> u.cursor_line == v.cursor_line - 1
                && u.cursor_col == (if v.cursor_col > v.buf.lines[v.cursor_line - 1].length {
                    v.buf.lines[v.cursor_line - 1].length } else { v.cursor_col })
            &&& v.cursor_line == 0 ==> u.cursor_line == 0 && u.cursor_col == v.cursor_col
        }),
{
}

} // verus!
