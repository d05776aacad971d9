//! The input event the core reasons about — platform-agnostic.

use vstd::prelude::*;

verus! {

/// A physical mouse button, named independently of any OS button numbering.
#[derive(Debug, Clone, Copy, PartialEq, Eq, Structural, Hash, PartialOrd, Ord)]
pub enum MouseButton {
    Left,
    Right,
    Middle,
    X1,
    X2,
}

/// A platform-neutral identity for a key or mouse button.
///
/// Each OS backend maps its native codes into this enum. Named variants exist for
/// the keys a panic chord can use; every other physical key is carried opaquely as
/// [`KeyCode::Other`]. Left/right modifiers fold to one logical modifier.
///
/// The variant order defines the order in which a chord's keys are kept and
/// listed; [`KeyCode::index`] is that order as a number.
#[derive(Debug, Clone, Copy, PartialEq, Eq, Structural, Hash, PartialOrd, Ord)]
pub enum KeyCode {
    Shift,
    Control,
    Alt,
    /// The Windows / Super / Command key.
    Meta,
    /// A function key `Fn` (`F1`..).
    Function(u8),
    /// A letter key, canonicalised to uppercase ASCII (`'A'..='Z'`).
    Letter(char),
    /// A digit key (`0..=9`).
    Digit(u8),
    /// A mouse button.
    Mouse(MouseButton),
    /// Any other physical key: an opaque, per-backend-stable identity.
    Other(u32),
}

/// A key or mouse-button identity.
pub type KeyId = KeyCode;

/// Which device class an event came from. Selects which threshold applies.
#[derive(Debug, Clone, Copy, PartialEq, Eq, Structural, Hash)]
pub enum Device {
    Keyboard,
    Mouse,
}

/// Press vs release. The debounce rule is release-anchored.
#[derive(Debug, Clone, Copy, PartialEq, Eq, Structural, Hash)]
pub enum EventKind {
    Down,
    Up,
}

/// A single input event, carrying its own timestamp so the core never reads a clock.
#[derive(Debug, Clone, Copy, PartialEq, Eq, Structural)]
pub struct InputEvent {
    pub device: Device,
    pub key: KeyId,
    pub kind: EventKind,
    /// Milliseconds from an arbitrary monotonic origin (supplied by the shell).
    pub timestamp_ms: u64,
    /// True if the OS flagged the event as synthetic.
    pub injected: bool,
}

/// The position of a mouse button in [`MouseButton`]'s declaration order.
pub open spec fn mouse_rank(b: MouseButton) -> int {
    match b {
        MouseButton::Left => 0,
        MouseButton::Right => 1,
        MouseButton::Middle => 2,
        MouseButton::X1 => 3,
        MouseButton::X2 => 4,
    }
}

/// Width of the payload range of one [`KeyCode`] variant in [`KeyCode::spec_index`].
pub open spec fn variant_span() -> int {
    0x1_0000_0000
}

impl KeyCode {
    /// The position of the variant in the declaration order.
    pub open spec fn variant_rank(self) -> int {
        match self {
            KeyCode::Shift => 0,
            KeyCode::Control => 1,
            KeyCode::Alt => 2,
            KeyCode::Meta => 3,
            KeyCode::Function(_) => 4,
            KeyCode::Letter(_) => 5,
            KeyCode::Digit(_) => 6,
            KeyCode::Mouse(_) => 7,
            KeyCode::Other(_) => 8,
        }
    }

    /// The payload carried by the variant, as a number below [`variant_span`].
    pub open spec fn payload(self) -> int {
        match self {
            KeyCode::Function(n) => n as int,
            KeyCode::Letter(c) => c as int,
            KeyCode::Digit(d) => d as int,
            KeyCode::Mouse(b) => mouse_rank(b),
            KeyCode::Other(code) => code as int,
            _ => 0,
        }
    }

    /// A unique number for every key: variant first, then payload. Ordering keys by
    /// it is the declaration order of the variants, then the payload.
    pub open spec fn spec_index(self) -> int {
        self.variant_rank() * variant_span() + self.payload()
    }

    /// [`KeyCode::spec_index`], computed.
    pub fn index(&self) -> (r: u64)
        ensures
            r == self.spec_index(),
    {
        let span: u64 = 0x1_0000_0000;
        match *self {
            KeyCode::Shift => 0,
            KeyCode::Control => span,
            KeyCode::Alt => 2 * span,
            KeyCode::Meta => 3 * span,
            KeyCode::Function(n) => 4 * span + n as u64,
            KeyCode::Letter(c) => 5 * span + c as u64,
            KeyCode::Digit(d) => 6 * span + d as u64,
            KeyCode::Mouse(b) => 7 * span + match b {
                MouseButton::Left => 0,
                MouseButton::Right => 1,
                MouseButton::Middle => 2,
                MouseButton::X1 => 3,
                MouseButton::X2 => 4,
            },
            KeyCode::Other(code) => 8 * span + code as u64,
        }
    }

    /// True for the four logical modifiers: Ctrl, Alt, Shift, Win.
    pub open spec fn spec_is_modifier(self) -> bool {
        match self {
            KeyCode::Shift | KeyCode::Control | KeyCode::Alt | KeyCode::Meta => true,
            _ => false,
        }
    }
}

/// Distinct keys have distinct indices.
pub proof fn lemma_index_injective(a: KeyCode, b: KeyCode)
    ensures
        a.spec_index() == b.spec_index() ==> a == b,
{
    if a.spec_index() == b.spec_index() {
        assert(0 <= a.payload() < variant_span());
        assert(0 <= b.payload() < variant_span());
        assert(a.variant_rank() == b.variant_rank()) by (nonlinear_arith)
            requires
                a.variant_rank() * variant_span() + a.payload() == b.variant_rank()
                    * variant_span() + b.payload(),
                0 <= a.payload() < variant_span(),
                0 <= b.payload() < variant_span(),
                variant_span() == 0x1_0000_0000,
        ;
        match a {
            KeyCode::Mouse(x) => {
                if let KeyCode::Mouse(y) = b {
                    assert(x == y);
                }
            },
            _ => {},
        }
    }
}

/// Indices of all keys are non-negative and fit in 64 bits.
pub proof fn lemma_index_bounds(k: KeyCode)
    ensures
        0 <= k.spec_index() < 9 * variant_span(),
{
}

} // verus!
