//! A modal, single-buffer, terminal-resident text editor core.
//!
//! The library holds everything that carries an invariant: the document and
//! line-buffer model, cursor motion, the mode state machine that interprets
//! key events, the command processor, viewport scrolling, the full-frame
//! renderer, and the markdown highlight transform that fills each line's
//! render cache. Terminal control, key decoding and file access are left to
//! the embedding program, which talks to the core through plain values.

pub mod input;
pub mod markdown;
pub mod terminal;
pub mod text;
