//! Decoded terminal actions, the input of the reducer.

use vstd::prelude::*;

verus! {

/// One decoded terminal action. The byte-level tokenizer produces these and
/// the reducer applies them to the screen state.
#[derive(Debug, PartialEq, Eq)]
pub enum Action {
    /// Place one printable character at the cursor.
    Print(char),
    /// A C0 control byte such as carriage return or line feed.
    Execute(u8),
    /// A CSI command: its parameters in order, and the final byte that
    /// selects the command.
    Csi(Vec<u16>, u8),
    /// An operating-system-command sequence; consumed without effect.
    Osc,
    /// A plain escape sequence; consumed without effect.
    Esc,
}

} // verus!
