use vstd::prelude::*;

verus! {

/// The keys the selector reacts to, named by the byte a terminal in raw mode
/// sends for them.
#[derive(Debug, Clone, Copy, PartialEq, Eq, Structural)]
pub enum Key {
    CtrlC,
    Enter,
    Escape,
    Space,
    J,
    K,
    Q,
}

/// The key that a single byte stands for, if any.
pub open spec fn spec_key_of(b: u8) -> Option<Key> {
    if b == 3 {
        Some(Key::CtrlC)
    } else if b == 13 {
        Some(Key::Enter)
    } else if b == 27 {
        Some(Key::Escape)
    } else if b == 32 {
        Some(Key::Space)
    } else if b == 106 {
        Some(Key::J)
    } else if b == 107 {
        Some(Key::K)
    } else if b == 113 {
        Some(Key::Q)
    } else {
        None
    }
}

impl Key {
    /// The key that byte `b` stands for, if any.
    pub fn from_u8(b: u8) -> (r: Option<Key>)
        ensures
            r == spec_key_of(b),
    {
        match b {
            3 => Some(Key::CtrlC),
            13 => Some(Key::Enter),
            27 => Some(Key::Escape),
            32 => Some(Key::Space),
            106 => Some(Key::J),
            107 => Some(Key::K),
            113 => Some(Key::Q),
            _ => None,
        }
    }
}

} // verus!
