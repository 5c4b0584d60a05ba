//! PS/2 keyboard: scan code set 1 mapped to US QWERTY characters, with shift, control,
//! alt and caps lock tracked across key events.

use vstd::prelude::*;
use crate::drivers::vga;
use crate::drivers::vga::{Writer, VgaState, write_bytes_spec};
use vstd::string::StringSliceAdditionalSpecFns;

verus! {

/// The unshifted scan code table (scan codes 0 ..= 0x39).
pub open spec fn set1_table() -> Seq<u8> {
    seq![0u8, 27, 49, 50, 51, 52, 53, 54, 55, 56, 57, 48, 45, 61, 8, 9,
        113, 119, 101, 114, 116, 121, 117, 105, 111, 112, 91, 93, 10, 0,
        97, 115, 100, 102, 103, 104, 106, 107, 108, 59, 39, 96, 0, 92,
        122, 120, 99, 118, 98, 110, 109, 44, 46, 47, 0, 42, 0, 32]
}

/// The shifted scan code table.
pub open spec fn set1_shift_table() -> Seq<u8> {
    seq![0u8, 27, 33, 64, 35, 36, 37, 94, 38, 42, 40, 41, 95, 43, 8, 9,
        81, 87, 69, 82, 84, 89, 85, 73, 79, 80, 123, 125, 10, 0,
        65, 83, 68, 70, 71, 72, 74, 75, 76, 58, 34, 126, 0, 124,
        90, 88, 67, 86, 66, 78, 77, 60, 62, 63, 0, 42, 0, 32]
}

fn lookup(shift: bool, code: u8) -> (r: Option<u8>)
    ensures
        code < 58 ==> r == Some(if shift { set1_shift_table()[code as int] } else { set1_table()[code as int] }),
        code >= 58 ==> r is None,
{
    let plain: [u8; 58] = [0u8, 27, 49, 50, 51, 52, 53, 54, 55, 56, 57, 48, 45, 61, 8, 9,
        113, 119, 101, 114, 116, 121, 117, 105, 111, 112, 91, 93, 10, 0,
        97, 115, 100, 102, 103, 104, 106, 107, 108, 59, 39, 96, 0, 92,
        122, 120, 99, 118, 98, 110, 109, 44, 46, 47, 0, 42, 0, 32];
    let shifted: [u8; 58] = [0u8, 27, 33, 64, 35, 36, 37, 94, 38, 42, 40, 41, 95, 43, 8, 9,
        81, 87, 69, 82, 84, 89, 85, 73, 79, 80, 123, 125, 10, 0,
        65, 83, 68, 70, 71, 72, 74, 75, 76, 58, 34, 126, 0, 124,
        90, 88, 67, 86, 66, 78, 77, 60, 62, 63, 0, 42, 0, 32];
    assert(plain@ =~= set1_table());
    assert(shifted@ =~= set1_shift_table());
    if code >= 58 {
        return None;
    }
    if shift { Some(shifted[code as usize]) } else { Some(plain[code as usize]) }
}

/// The modifier and lock state.
#[derive(Debug, Clone, Copy, PartialEq, Eq, Structural)]
pub struct KeyboardState {
    pub shift_pressed: bool,
    pub ctrl_pressed: bool,
    pub alt_pressed: bool,
    pub caps_lock: bool,
}

impl KeyboardState {
    /// No modifier held, caps lock off.
    pub fn new() -> (s: KeyboardState)
        ensures
            !s.shift_pressed && !s.ctrl_pressed && !s.alt_pressed && !s.caps_lock,
    {
        KeyboardState { shift_pressed: false, ctrl_pressed: false, alt_pressed: false, caps_lock: false }
    }
}

/// What a key event shows on the screen.
pub enum KeyEvent {
    /// Nothing is shown.
    Ignored,
    /// The character is echoed.
    Echo(u8),
    /// Control-C: "^C" is shown.
    Interrupt,
    /// Control-L: the screen is cleared.
    Clear,
}

pub open spec fn is_alpha(c: u8) -> bool {
    (65 <= c <= 90) || (97 <= c <= 122)
}

pub open spec fn to_lower(c: u8) -> u8 {
    if 65 <= c <= 90 { (c + 32) as u8 } else { c }
}

pub open spec fn to_upper(c: u8) -> u8 {
    if 97 <= c <= 122 { (c - 32) as u8 } else { c }
}

/// The state after a scan code: the release bit (0x80) tells release from press; shift
/// (0x2A, 0x36), control (0x1D) and alt (0x38) follow their key, caps lock (0x3A)
/// toggles on press.
pub open spec fn next_state(st: KeyboardState, scancode: u8) -> KeyboardState {
    let rel = scancode >= 128;
    let code = scancode % 128;
    if code == 0x2A || code == 0x36 {
        KeyboardState { shift_pressed: !rel, ..st }
    } else if code == 0x1D {
        KeyboardState { ctrl_pressed: !rel, ..st }
    } else if code == 0x38 {
        KeyboardState { alt_pressed: !rel, ..st }
    } else if code == 0x3A {
        if !rel { KeyboardState { caps_lock: !st.caps_lock, ..st } } else { st }
    } else {
        st
    }
}

/// What a scan code shows: nothing for modifiers, releases, unknown codes and keys without
/// a character; else the character from the shifted or plain table, with caps lock
/// inverting letters (shift inverts it back); control-C and control-L are special.
pub open spec fn key_event(st: KeyboardState, scancode: u8) -> KeyEvent {
    let rel = scancode >= 128;
    let code = scancode % 128;
    if code == 0x2A || code == 0x36 || code == 0x1D || code == 0x38 || code == 0x3A || rel || code >= 58 {
        KeyEvent::Ignored
    } else {
        let raw = if st.shift_pressed { set1_shift_table()[code as int] } else { set1_table()[code as int] };
        if raw == 0 {
            KeyEvent::Ignored
        } else {
            let c = if st.caps_lock && is_alpha(raw) {
                if st.shift_pressed { to_lower(raw) } else { to_upper(raw) }
            } else {
                raw
            };
            if st.ctrl_pressed && (c == 99 || c == 67) {
                KeyEvent::Interrupt
            } else if st.ctrl_pressed && (c == 108 || c == 76) {
                KeyEvent::Clear
            } else {
                KeyEvent::Echo(c)
            }
        }
    }
}

/// The screen after showing a key event.
pub open spec fn show_event(e: KeyEvent, st: VgaState) -> VgaState {
    match e {
        KeyEvent::Ignored => st,
        KeyEvent::Echo(c) => write_bytes_spec(st, seq![c]),
        KeyEvent::Interrupt => write_bytes_spec(st, "^C".spec_bytes()),
        KeyEvent::Clear => vga::clear_spec(st),
    }
}

/// Handle one scan code: update the modifier state and show the result on the screen.
pub fn handle_scancode(state: &mut KeyboardState, writer: &mut Option<Writer>, scancode: u8)
    requires
        *old(writer) matches Some(w) ==> w.wf(),
    ensures
        *final(state) == next_state(*old(state), scancode),
        match *old(writer) {
            Some(w) => *final(writer) matches Some(w2) && w2.wf()
                && w2.state() == show_event(key_event(*old(state), scancode), w.state()),
            None => *final(writer) is None,
        },
{
    let is_release = scancode & 0x80 != 0;
    let code = scancode & 0x7F;
    assert(is_release == (scancode >= 128) && code == scancode % 128) by (bit_vector)
        requires is_release == (scancode & 0x80 != 0), code == scancode & 0x7F;
    if code == 0x2A || code == 0x36 {
        state.shift_pressed = !is_release;
        return;
    }
    if code == 0x1D {
        state.ctrl_pressed = !is_release;
        return;
    }
    if code == 0x38 {
        state.alt_pressed = !is_release;
        return;
    }
    if code == 0x3A {
        if !is_release {
            state.caps_lock = !state.caps_lock;
        }
        return;
    }
    if is_release {
        return;
    }
    let ascii = match lookup(state.shift_pressed, code) {
        Some(ch) => ch,
        None => { return; },
    };
    if ascii == 0 {
        return;
    }
    let is_alphabetic = (65 <= ascii && ascii <= 90) || (97 <= ascii && ascii <= 122);
    let ascii = if state.caps_lock && is_alphabetic {
        if state.shift_pressed {
            if 65 <= ascii && ascii <= 90 { ascii + 32 } else { ascii }
        } else {
            if 97 <= ascii && ascii <= 122 { ascii - 32 } else { ascii }
        }
    } else {
        ascii
    };
    if state.ctrl_pressed {
        if ascii == 99 || ascii == 67 {
            vga::write_str(writer, "^C");
            return;
        }
        if ascii == 108 || ascii == 76 {
            vga::clear_screen(writer);
            return;
        }
    }
    let buf: [u8; 1] = [ascii];
    assert(buf@ =~= seq![ascii]);
    vga::write_bytes(writer, buf.as_slice());
}

/// Pressing caps lock twice leaves the state as it was.
pub proof fn law_caps_lock_twice(st: KeyboardState)
    ensures
        next_state(next_state(st, 0x3A), 0x3A) == st,
{
}

/// Releasing shift (0xAA) always leaves shift released, whatever came before.
pub proof fn law_shift_release(st: KeyboardState)
    ensures
        !next_state(st, 0xAA).shift_pressed,
        next_state(st, 0xAA).caps_lock == st.caps_lock,
{
}

/// A key release never shows anything.
pub proof fn law_release_shows_nothing(st: KeyboardState, scancode: u8)
    requires
        scancode >= 128,
    ensures
        key_event(st, scancode) is Ignored,
{
}

/// With caps lock on and shift released, letters come out upper case.
pub proof fn law_caps_lock_upper(st: KeyboardState, scancode: u8)
    requires
        st.caps_lock,
        !st.shift_pressed,
        !st.ctrl_pressed,
        scancode < 58,
        97 <= set1_table()[scancode as int] <= 122,
    ensures
        key_event(st, scancode) == KeyEvent::Echo((set1_table()[scancode as int] - 32) as u8),
{
}


/// Pressing control (0x1D) sets it and releasing it (0x9D) clears it, whatever came
/// before; nothing else in the state changes.
pub proof fn law_ctrl_press_release(st: KeyboardState)
    ensures
        next_state(st, 0x1D).ctrl_pressed,
        !next_state(st, 0x9D).ctrl_pressed,
        next_state(st, 0x9D).shift_pressed == st.shift_pressed,
        next_state(st, 0x9D).caps_lock == st.caps_lock,
        next_state(st, 0x9D).alt_pressed == st.alt_pressed,
{
}

/// With no shift or caps lock, the C key (0x2E) shows "^C" while control is held and
/// echoes 'c' once control has been pressed and released again.
pub proof fn law_c_key_after_ctrl(st: KeyboardState)
    requires
        !st.shift_pressed,
        !st.caps_lock,
    ensures
        key_event(next_state(st, 0x1D), 0x2E) == KeyEvent::Interrupt,
        key_event(next_state(next_state(st, 0x1D), 0x9D), 0x2E) == KeyEvent::Echo(99),
{
    assert(set1_table()[0x2E] == 99);
}

} // verus!
