//! Windows low-level-hook input -> the platform-neutral event parts.
//!
//! The hook callbacks hand over a window message and, for the keyboard, a
//! virtual-key code. This module turns those numbers into the core's
//! [`EventKind`] and [`KeyCode`]; it is pure, so it is checked on every platform
//! even though only the Windows backend calls it.
//!
//! Virtual-key codes, like evdev codes, are positional for the keys a chord uses:
//! `0x41` is the key in the US-QWERTY `A` position, so a chord bound on one OS means
//! the same physical keys on the other.

use vstd::prelude::*;

use crate::pure_core::{EventKind, KeyCode, KeyId, MouseButton};

verus! {

// Keyboard messages.
pub const WM_KEYDOWN: u32 = 0x0100;
pub const WM_KEYUP: u32 = 0x0101;
pub const WM_SYSKEYDOWN: u32 = 0x0104;
pub const WM_SYSKEYUP: u32 = 0x0105;

// Mouse button messages.
pub const WM_LBUTTONDOWN: u32 = 0x0201;
pub const WM_LBUTTONUP: u32 = 0x0202;
pub const WM_RBUTTONDOWN: u32 = 0x0204;
pub const WM_RBUTTONUP: u32 = 0x0205;
pub const WM_MBUTTONDOWN: u32 = 0x0207;
pub const WM_MBUTTONUP: u32 = 0x0208;
pub const WM_XBUTTONDOWN: u32 = 0x020B;
pub const WM_XBUTTONUP: u32 = 0x020C;

// Mouse-button virtual keys: below the first keyboard key (0x08), so a mouse
// button and a keyboard key never share an identity.
pub const VK_LBUTTON: u32 = 0x01;
pub const VK_RBUTTON: u32 = 0x02;
pub const VK_MBUTTON: u32 = 0x04;
pub const VK_XBUTTON1: u32 = 0x05;
pub const VK_XBUTTON2: u32 = 0x06;

// Modifiers: the generic code and its left/right variants fold together.
pub const VK_SHIFT: u32 = 0x10;
pub const VK_CONTROL: u32 = 0x11;
pub const VK_MENU: u32 = 0x12;
pub const VK_LWIN: u32 = 0x5B;
pub const VK_RWIN: u32 = 0x5C;
pub const VK_LSHIFT: u32 = 0xA0;
pub const VK_RSHIFT: u32 = 0xA1;
pub const VK_LCONTROL: u32 = 0xA2;
pub const VK_RCONTROL: u32 = 0xA3;
pub const VK_LMENU: u32 = 0xA4;
pub const VK_RMENU: u32 = 0xA5;

// Contiguous blocks: digits `0`..`9`, letters `A`..`Z`, function keys `F1`..`F24`.
pub const VK_0: u32 = 0x30;
pub const VK_9: u32 = 0x39;
pub const VK_A: u32 = 0x41;
pub const VK_Z: u32 = 0x5A;
pub const VK_F1: u32 = 0x70;
pub const VK_F24: u32 = 0x87;

/// The transition a keyboard hook message stands for; `None` for any other message.
pub open spec fn keyboard_transition_of(msg: u32) -> Option<EventKind> {
    if msg == WM_KEYDOWN || msg == WM_SYSKEYDOWN {
        Some(EventKind::Down)
    } else if msg == WM_KEYUP || msg == WM_SYSKEYUP {
        Some(EventKind::Up)
    } else {
        None
    }
}

/// [`keyboard_transition_of`], computed.
pub fn keyboard_transition(msg: u32) -> (r: Option<EventKind>)
    ensures
        r == keyboard_transition_of(msg),
{
    if msg == WM_KEYDOWN || msg == WM_SYSKEYDOWN {
        Some(EventKind::Down)
    } else if msg == WM_KEYUP || msg == WM_SYSKEYUP {
        Some(EventKind::Up)
    } else {
        None
    }
}

/// The extra button (1 or 2) named by the high word of an X-button message's
/// `mouseData`.
pub open spec fn x_button_of(mouse_data: u32) -> Option<MouseButton> {
    let high = mouse_data / 0x1_0000;
    if high == 1 {
        Some(MouseButton::X1)
    } else if high == 2 {
        Some(MouseButton::X2)
    } else {
        None
    }
}

/// The press or release, and the button, a mouse hook message stands for; `None`
/// for a non-button message (move, wheel), which is never chatter.
pub open spec fn mouse_button_of(msg: u32, mouse_data: u32) -> Option<(EventKind, KeyId)> {
    if msg == WM_LBUTTONDOWN {
        Some((EventKind::Down, KeyCode::Mouse(MouseButton::Left)))
    } else if msg == WM_LBUTTONUP {
        Some((EventKind::Up, KeyCode::Mouse(MouseButton::Left)))
    } else if msg == WM_RBUTTONDOWN {
        Some((EventKind::Down, KeyCode::Mouse(MouseButton::Right)))
    } else if msg == WM_RBUTTONUP {
        Some((EventKind::Up, KeyCode::Mouse(MouseButton::Right)))
    } else if msg == WM_MBUTTONDOWN {
        Some((EventKind::Down, KeyCode::Mouse(MouseButton::Middle)))
    } else if msg == WM_MBUTTONUP {
        Some((EventKind::Up, KeyCode::Mouse(MouseButton::Middle)))
    } else if msg == WM_XBUTTONDOWN || msg == WM_XBUTTONUP {
        match x_button_of(mouse_data) {
            Some(b) => Some(
                (
                    if msg == WM_XBUTTONDOWN {
                        EventKind::Down
                    } else {
                        EventKind::Up
                    },
                    KeyCode::Mouse(b),
                ),
            ),
            None => None,
        }
    } else {
        None
    }
}

/// Map a mouse message to `(kind, button)`; `None` for non-button events (move,
/// wheel), which are never chatter.
pub fn mouse_button(msg: u32, mouse_data: u32) -> (r: Option<(EventKind, KeyId)>)
    ensures
        r == mouse_button_of(msg, mouse_data),
{
    let pair = if msg == WM_LBUTTONDOWN {
        (EventKind::Down, KeyCode::Mouse(MouseButton::Left))
    } else if msg == WM_LBUTTONUP {
        (EventKind::Up, KeyCode::Mouse(MouseButton::Left))
    } else if msg == WM_RBUTTONDOWN {
        (EventKind::Down, KeyCode::Mouse(MouseButton::Right))
    } else if msg == WM_RBUTTONUP {
        (EventKind::Up, KeyCode::Mouse(MouseButton::Right))
    } else if msg == WM_MBUTTONDOWN {
        (EventKind::Down, KeyCode::Mouse(MouseButton::Middle))
    } else if msg == WM_MBUTTONUP {
        (EventKind::Up, KeyCode::Mouse(MouseButton::Middle))
    } else if msg == WM_XBUTTONDOWN || msg == WM_XBUTTONUP {
        // The X button (1 or 2) is in the high word of mouseData.
        let high = mouse_data / 0x1_0000;
        let button = if high == 1 {
            MouseButton::X1
        } else if high == 2 {
            MouseButton::X2
        } else {
            return None;
        };
        let kind = if msg == WM_XBUTTONDOWN {
            EventKind::Down
        } else {
            EventKind::Up
        };
        (kind, KeyCode::Mouse(button))
    } else {
        return None;
    };
    Some(pair)
}

/// The key identity of a virtual-key code: the named keys a chord can use, and the
/// raw code, carried opaquely, for every other key.
pub open spec fn keycode_of_vk(vk: u32) -> KeyCode {
    if vk == VK_SHIFT || vk == VK_LSHIFT || vk == VK_RSHIFT {
        KeyCode::Shift
    } else if vk == VK_CONTROL || vk == VK_LCONTROL || vk == VK_RCONTROL {
        KeyCode::Control
    } else if vk == VK_MENU || vk == VK_LMENU || vk == VK_RMENU {
        KeyCode::Alt
    } else if vk == VK_LWIN || vk == VK_RWIN {
        KeyCode::Meta
    } else if VK_0 <= vk <= VK_9 {
        KeyCode::Digit((vk - VK_0) as u8)
    } else if VK_A <= vk <= VK_Z {
        KeyCode::Letter(vk as char)
    } else if VK_F1 <= vk <= VK_F24 {
        KeyCode::Function((vk - VK_F1 + 1) as u8)
    } else if vk == VK_LBUTTON {
        KeyCode::Mouse(MouseButton::Left)
    } else if vk == VK_RBUTTON {
        KeyCode::Mouse(MouseButton::Right)
    } else if vk == VK_MBUTTON {
        KeyCode::Mouse(MouseButton::Middle)
    } else if vk == VK_XBUTTON1 {
        KeyCode::Mouse(MouseButton::X1)
    } else if vk == VK_XBUTTON2 {
        KeyCode::Mouse(MouseButton::X2)
    } else {
        KeyCode::Other(vk)
    }
}

/// Map a virtual-key code to the core's key identity. Left/right modifiers
/// fold to one logical modifier; digits, letters and function keys get their face;
/// every other key keeps its raw code.
pub fn vk_to_keycode(vk: u32) -> (k: KeyId)
    ensures
        k == keycode_of_vk(vk),
{
    if vk == VK_SHIFT || vk == VK_LSHIFT || vk == VK_RSHIFT {
        KeyCode::Shift
    } else if vk == VK_CONTROL || vk == VK_LCONTROL || vk == VK_RCONTROL {
        KeyCode::Control
    } else if vk == VK_MENU || vk == VK_LMENU || vk == VK_RMENU {
        KeyCode::Alt
    } else if vk == VK_LWIN || vk == VK_RWIN {
        KeyCode::Meta
    } else if VK_0 <= vk && vk <= VK_9 {
        KeyCode::Digit((vk - VK_0) as u8)
    } else if VK_A <= vk && vk <= VK_Z {
        KeyCode::Letter((vk as u8) as char)
    } else if VK_F1 <= vk && vk <= VK_F24 {
        KeyCode::Function((vk - VK_F1 + 1) as u8)
    } else if vk == VK_LBUTTON {
        KeyCode::Mouse(MouseButton::Left)
    } else if vk == VK_RBUTTON {
        KeyCode::Mouse(MouseButton::Right)
    } else if vk == VK_MBUTTON {
        KeyCode::Mouse(MouseButton::Middle)
    } else if vk == VK_XBUTTON1 {
        KeyCode::Mouse(MouseButton::X1)
    } else if vk == VK_XBUTTON2 {
        KeyCode::Mouse(MouseButton::X2)
    } else {
        KeyCode::Other(vk)
    }
}

/// The modifier family of a virtual key, as Windows defines the codes: the generic
/// code and its left/right variants (`0` Shift, `1` Control, `2` Alt/Menu, `3`
/// Windows); `None` for every other key.
pub open spec fn vk_modifier_family(vk: u32) -> Option<int> {
    if vk == 0x10 || vk == 0xA0 || vk == 0xA1 {
        Some(0)
    } else if vk == 0x11 || vk == 0xA2 || vk == 0xA3 {
        Some(1)
    } else if vk == 0x12 || vk == 0xA4 || vk == 0xA5 {
        Some(2)
    } else if vk == 0x5B || vk == 0x5C {
        Some(3)
    } else {
        None
    }
}

/// Left and right modifiers fold together: a modifier virtual key, generic, left or
/// right, always maps to a modifier, the same one as every other key of its family,
/// and no other virtual key maps to a modifier. Otherwise distinct virtual keys keep
/// distinct identities, so a chord bound to a modifier matches either physical key.
pub proof fn lemma_modifier_vks_fold(a: u32, b: u32)
    ensures
        keycode_of_vk(a).spec_is_modifier() == (vk_modifier_family(a) is Some),
        vk_modifier_family(a) is Some && vk_modifier_family(a) == vk_modifier_family(b)
            ==> keycode_of_vk(a) == keycode_of_vk(b),
        keycode_of_vk(a) == keycode_of_vk(b) ==> a == b || (vk_modifier_family(a) is Some
            && vk_modifier_family(a) == vk_modifier_family(b)),
{
    if keycode_of_vk(a) == keycode_of_vk(b) && a != b && VK_A <= a <= VK_Z && VK_A <= b <= VK_Z {
        assert((a as char) as u32 == a);
        assert((b as char) as u32 == b);
    }
}

/// The virtual key of the button a mouse message is about, as Windows defines the
/// messages: `WM_LBUTTONDOWN`/`UP` the left button, `WM_RBUTTON*` the right,
/// `WM_MBUTTON*` the middle, `WM_XBUTTON*` the extra button named by the high word
/// of `mouseData`; `None` for any other message.
pub open spec fn message_button_vk(msg: u32, mouse_data: u32) -> Option<u32> {
    if msg == 0x0201 || msg == 0x0202 {
        Some(0x01)
    } else if msg == 0x0204 || msg == 0x0205 {
        Some(0x02)
    } else if msg == 0x0207 || msg == 0x0208 {
        Some(0x04)
    } else if (msg == 0x020B || msg == 0x020C) && mouse_data / 0x1_0000 == 1 {
        Some(0x05)
    } else if (msg == 0x020B || msg == 0x020C) && mouse_data / 0x1_0000 == 2 {
        Some(0x06)
    } else {
        None
    }
}

/// The press messages: `WM_LBUTTONDOWN`, `WM_RBUTTONDOWN`, `WM_MBUTTONDOWN`,
/// `WM_XBUTTONDOWN`.
pub open spec fn is_press_message(msg: u32) -> bool {
    msg == 0x0201 || msg == 0x0204 || msg == 0x0207 || msg == 0x020B
}

/// Each button message names its own button: exactly the button messages are
/// decisions; a message's key is the key of its button's virtual key, so the press
/// and the release of one button share a key and different buttons never do; and a
/// press message is a Down, a release an Up.
pub proof fn lemma_mouse_messages_name_their_button(m1: u32, d1: u32, m2: u32, d2: u32)
    ensures
        (mouse_button_of(m1, d1) is Some) == (message_button_vk(m1, d1) is Some),
        mouse_button_of(m1, d1) is Some ==> {
            &&& (mouse_button_of(m1, d1)->0).1 == keycode_of_vk(message_button_vk(m1, d1)->0)
            &&& ((mouse_button_of(m1, d1)->0).0 == EventKind::Down) == is_press_message(m1)
        },
        mouse_button_of(m1, d1) is Some && mouse_button_of(m2, d2) is Some ==> (((mouse_button_of(
            m1,
            d1,
        )->0).1 == (mouse_button_of(m2, d2)->0).1) == (message_button_vk(m1, d1)
            == message_button_vk(m2, d2))),
{
}

} // verus!
