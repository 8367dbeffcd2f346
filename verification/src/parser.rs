//! Tokenizer state for the incoming ANSI/VT byte stream.
//!
//! The state persists from byte to byte, so escape sequences and UTF-8
//! sequences may arrive split across separate read chunks.

use vstd::prelude::*;

verus! {

/// Where the tokenizer stands inside the byte stream. The CSI parameter
/// list itself lives beside this tag in the `Terminal`, so the tag can stay
/// a plain copyable value.
#[derive(Clone, Copy, Debug, PartialEq, Eq)]
pub enum ParserState {
    /// Plain text and control bytes.
    Ground,
    /// An ESC byte was read; the next byte selects the sequence kind.
    Escape,
    /// Inside a CSI sequence, collecting parameters.
    Csi,
    /// Inside an operating-system-command sequence; consumed without effect.
    Osc,
    /// Inside a UTF-8 sequence.
    Utf8 {
        /// Continuation bytes still expected, between 1 and 3.
        need: u8,
        /// The code point accumulated so far.
        acc: u32,
    },
}

/// The ghost value of the tokenizer state, with the CSI parameters folded
/// in as a mathematical sequence.
pub enum ParseView {
    Ground,
    Escape,
    Csi {
        /// Parameters finished so far, in order.
        params: Seq<u16>,
        /// The parameter currently being accumulated; it is appended to
        /// the list when the final byte arrives, so a sequence without
        /// parameter bytes dispatches with the single parameter 0.
        current: u16,
    },
    Osc,
    Utf8 { need: u8, acc: u32 },
}

} // verus!
