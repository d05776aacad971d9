//! Linux evdev key/button codes -> the platform-neutral [`KeyCode`].
//!
//! Pure and OS-free: the codes are just numbers from the kernel's
//! `input-event-codes.h`, so this compiles and is checked on every platform even
//! though only the Linux backend calls it.
//!
//! evdev codes are *positional*: `KEY_Q` is the physical key in the US-QWERTY `Q`
//! position regardless of the active layout. That matches the Windows backend's
//! virtual-key mapping, so a chord bound on one OS means the same physical keys on
//! the other.

use vstd::prelude::*;

use crate::pure_core::{Device, KeyCode, KeyId, MouseButton};

verus! {

// Modifiers. Left/right variants fold to one logical modifier, per `KeyCode`.
pub const KEY_LEFTCTRL: u16 = 29;
pub const KEY_RIGHTCTRL: u16 = 97;
pub const KEY_LEFTSHIFT: u16 = 42;
pub const KEY_RIGHTSHIFT: u16 = 54;
pub const KEY_LEFTALT: u16 = 56;
pub const KEY_RIGHTALT: u16 = 100;
pub const KEY_LEFTMETA: u16 = 125;
pub const KEY_RIGHTMETA: u16 = 126;

// Digit row: `KEY_1`..`KEY_9` are contiguous and `KEY_0` follows them.
pub const KEY_1: u16 = 2;
pub const KEY_9: u16 = 10;
pub const KEY_0: u16 = 11;

// Letter rows, each contiguous in US-QWERTY order.
pub const KEY_Q: u16 = 16;
pub const KEY_A: u16 = 30;
pub const KEY_Z: u16 = 44;

// Function keys: F1..F10 are contiguous, but F11/F12 were bolted on later.
pub const KEY_F1: u16 = 59;
pub const KEY_F10: u16 = 68;
pub const KEY_F11: u16 = 87;
pub const KEY_F12: u16 = 88;

// Mouse buttons.
pub const BTN_LEFT: u16 = 0x110;
pub const BTN_RIGHT: u16 = 0x111;
pub const BTN_MIDDLE: u16 = 0x112;
pub const BTN_SIDE: u16 = 0x113;
pub const BTN_EXTRA: u16 = 0x114;

/// Last code in the mouse-button block (`BTN_TASK`); the whole block belongs to the
/// mouse for threshold purposes, even the buttons with no [`MouseButton`] name.
pub const BTN_TASK: u16 = 0x117;

/// The top letter row, left to right.
pub open spec fn top_row() -> Seq<char> {
    seq!['Q', 'W', 'E', 'R', 'T', 'Y', 'U', 'I', 'O', 'P']
}

/// The home letter row, left to right.
pub open spec fn home_row() -> Seq<char> {
    seq!['A', 'S', 'D', 'F', 'G', 'H', 'J', 'K', 'L']
}

/// The bottom letter row, left to right.
pub open spec fn bottom_row() -> Seq<char> {
    seq!['Z', 'X', 'C', 'V', 'B', 'N', 'M']
}

/// The letter at `code` in a row of `letters` that starts at code `start`.
pub open spec fn row_letter(code: u16, start: u16, letters: Seq<char>) -> Option<char> {
    if start <= code && code - start < letters.len() {
        Some(letters[code - start])
    } else {
        None
    }
}

/// The letter on the key at position `code`, if it is a letter key.
pub open spec fn letter_at(code: u16) -> Option<char> {
    match row_letter(code, KEY_Q, top_row()) {
        Some(c) => Some(c),
        None => match row_letter(code, KEY_A, home_row()) {
            Some(c) => Some(c),
            None => row_letter(code, KEY_Z, bottom_row()),
        },
    }
}

/// The key identity of an `EV_KEY` code: the named keys a chord can use, and the
/// raw code, carried opaquely, for every other key.
pub open spec fn keycode_of(code: u16) -> KeyCode {
    if code == KEY_LEFTSHIFT || code == KEY_RIGHTSHIFT {
        KeyCode::Shift
    } else if code == KEY_LEFTCTRL || code == KEY_RIGHTCTRL {
        KeyCode::Control
    } else if code == KEY_LEFTALT || code == KEY_RIGHTALT {
        KeyCode::Alt
    } else if code == KEY_LEFTMETA || code == KEY_RIGHTMETA {
        KeyCode::Meta
    } else if KEY_1 <= code <= KEY_9 {
        KeyCode::Digit((code - KEY_1 + 1) as u8)
    } else if code == KEY_0 {
        KeyCode::Digit(0)
    } else if KEY_F1 <= code <= KEY_F10 {
        KeyCode::Function((code - KEY_F1 + 1) as u8)
    } else if code == KEY_F11 {
        KeyCode::Function(11)
    } else if code == KEY_F12 {
        KeyCode::Function(12)
    } else if code == BTN_LEFT {
        KeyCode::Mouse(MouseButton::Left)
    } else if code == BTN_RIGHT {
        KeyCode::Mouse(MouseButton::Right)
    } else if code == BTN_MIDDLE {
        KeyCode::Mouse(MouseButton::Middle)
    } else if code == BTN_SIDE {
        KeyCode::Mouse(MouseButton::X1)
    } else if code == BTN_EXTRA {
        KeyCode::Mouse(MouseButton::X2)
    } else {
        match letter_at(code) {
            Some(c) => KeyCode::Letter(c),
            None => KeyCode::Other(code as u32),
        }
    }
}

/// The device class of an `EV_KEY` code: the whole mouse-button block is mouse.
pub open spec fn device_of(code: u16) -> Device {
    if BTN_LEFT <= code <= BTN_TASK {
        Device::Mouse
    } else {
        Device::Keyboard
    }
}

/// Map an `EV_KEY` code to the core's key identity. Chord-relevant keys get
/// a named variant; every other physical key keeps a stable opaque identity, which
/// is all the debouncer needs.
pub fn to_keycode(code: u16) -> (k: KeyId)
    ensures
        k == keycode_of(code),
{
    if code == KEY_LEFTSHIFT || code == KEY_RIGHTSHIFT {
        KeyCode::Shift
    } else if code == KEY_LEFTCTRL || code == KEY_RIGHTCTRL {
        KeyCode::Control
    } else if code == KEY_LEFTALT || code == KEY_RIGHTALT {
        KeyCode::Alt
    } else if code == KEY_LEFTMETA || code == KEY_RIGHTMETA {
        KeyCode::Meta
    } else if KEY_1 <= code && code <= KEY_9 {
        KeyCode::Digit((code - KEY_1 + 1) as u8)
    } else if code == KEY_0 {
        KeyCode::Digit(0)
    } else if KEY_F1 <= code && code <= KEY_F10 {
        KeyCode::Function((code - KEY_F1 + 1) as u8)
    } else if code == KEY_F11 {
        KeyCode::Function(11)
    } else if code == KEY_F12 {
        KeyCode::Function(12)
    } else if code == BTN_LEFT {
        KeyCode::Mouse(MouseButton::Left)
    } else if code == BTN_RIGHT {
        KeyCode::Mouse(MouseButton::Right)
    } else if code == BTN_MIDDLE {
        KeyCode::Mouse(MouseButton::Middle)
    } else if code == BTN_SIDE {
        KeyCode::Mouse(MouseButton::X1)
    } else if code == BTN_EXTRA {
        KeyCode::Mouse(MouseButton::X2)
    } else {
        match letter(code) {
            Some(c) => KeyCode::Letter(c),
            None => KeyCode::Other(code as u32),
        }
    }
}

/// Which device class an `EV_KEY` code belongs to, i.e. which threshold applies.
/// Keyed on the raw code rather than the mapped [`KeyCode`] so the unnamed
/// mouse buttons (`BTN_FORWARD`, `BTN_BACK`, `BTN_TASK`) are still debounced as
/// mouse input rather than falling into the keyboard bucket via `Other`.
pub fn device_class(code: u16) -> (d: Device)
    ensures
        d == device_of(code),
{
    if BTN_LEFT <= code && code <= BTN_TASK {
        Device::Mouse
    } else {
        Device::Keyboard
    }
}

/// The letter at `code` in the row `letters` that starts at code `start`.
fn row(code: u16, start: u16, letters: &[char]) -> (r: Option<char>)
    ensures
        r == row_letter(code, start, letters@),
{
    if code < start {
        return None;
    }
    let i = (code - start) as usize;
    if i < letters.len() {
        Some(letters[i])
    } else {
        None
    }
}

/// The letter on the key at this position, uppercase, or `None` if it isn't a
/// letter key.
fn letter(code: u16) -> (r: Option<char>)
    ensures
        r == letter_at(code),
{
    let top: [char; 10] = ['Q', 'W', 'E', 'R', 'T', 'Y', 'U', 'I', 'O', 'P'];
    let home: [char; 9] = ['A', 'S', 'D', 'F', 'G', 'H', 'J', 'K', 'L'];
    let bottom: [char; 7] = ['Z', 'X', 'C', 'V', 'B', 'N', 'M'];
    assert(top@ =~= top_row());
    assert(home@ =~= home_row());
    assert(bottom@ =~= bottom_row());
    match row(code, KEY_Q, &top) {
        Some(c) => Some(c),
        None => match row(code, KEY_A, &home) {
            Some(c) => Some(c),
            None => row(code, KEY_Z, &bottom),
        },
    }
}

/// The left and right keys of one modifier.
pub open spec fn modifier_pair(a: u16, b: u16) -> bool {
    let pair = |l: u16, r: u16| (a == l && b == r) || (a == r && b == l);
    pair(KEY_LEFTSHIFT, KEY_RIGHTSHIFT) || pair(KEY_LEFTCTRL, KEY_RIGHTCTRL) || pair(
        KEY_LEFTALT,
        KEY_RIGHTALT,
    ) || pair(KEY_LEFTMETA, KEY_RIGHTMETA)
}

/// Two different codes share a key identity only when they are the left and right
/// keys of one modifier: every other key, named or not, keeps a debounce slot of its
/// own.
pub proof fn lemma_keycodes_collide_only_on_modifier_pairs(a: u16, b: u16)
    ensures
        a != b && keycode_of(a) == keycode_of(b) ==> modifier_pair(a, b),
        modifier_pair(a, b) ==> keycode_of(a) == keycode_of(b),
{
    if a != b && keycode_of(a) == keycode_of(b) {
        lemma_letters_distinct(a, b);
    }
}

/// Distinct letter keys carry distinct letters, and no letter key is a named key.
proof fn lemma_letters_distinct(a: u16, b: u16)
    ensures
        a != b && letter_at(a) is Some ==> letter_at(a) != letter_at(b),
        letter_at(a) is Some ==> 16 <= a <= 25 || 30 <= a <= 38 || 44 <= a <= 50,
{

}

/// A code that names a mouse button is debounced with the mouse threshold.
pub proof fn lemma_mouse_buttons_are_mouse_class(code: u16)
    ensures
        keycode_of(code) is Mouse ==> device_of(code) == Device::Mouse,
{
}

} // verus!
