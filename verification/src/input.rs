//! Abstract key events.
//!
//! The editor core consumes decoded key events; reading and decoding the
//! physical keyboard belongs to the embedding program.

use vstd::prelude::*;

verus! {

/// One decoded key event from the external key source.
#[derive(Clone, Copy, PartialEq, Eq, Structural)]
pub enum Keys {
    Char(char),
    Esc,
    Enter,
    Up,
    Down,
    Left,
    Right,
    Delete,
    Home,
    End,
    PageUp,
    PageDown,
    BackSpace,
    NoKey,
    SaveFile,
}

/// Marker for the external key source; the embedding program turns raw
/// terminal input into `Keys` values on its behalf.
pub struct Input {}

} // verus!
