//! Encoding of user key events into the byte sequences sent to the shell.

use vstd::prelude::*;

use vstd::utf8::encode_scalar;

verus! {

/// One user key event, as the platform layer reports it.
#[derive(Clone, Copy, Debug, PartialEq, Eq)]
pub enum Key {
    /// A printable character.
    Char(char),
    Enter,
    Backspace,
    Tab,
    Up,
    Down,
    Right,
    Left,
    Home,
    End,
    PageUp,
    PageDown,
    Delete,
    Insert,
}

/// An ASCII code with an upper-case letter lowered.
pub open spec fn lower_code(u: u32) -> u32 {
    if 65 <= u <= 90 {
        (u + 32) as u32
    } else {
        u
    }
}

/// The quit gesture: the letter q together with the control modifier. It
/// is never forwarded to the shell; it ends the session instead.
pub open spec fn quit_gesture(k: Key, ctrl: bool) -> bool {
    ctrl && (k matches Key::Char(c) && lower_code(c as u32) == 0x71)
}

/// The bytes sent for one key event that is not the quit gesture.
///
/// A printable character goes out as its UTF-8 bytes. With the control
/// modifier, an ASCII character is lowered and masked to its control
/// byte; on a character outside ASCII the modifier is ignored. Enter is
/// carriage return, backspace the DEL byte, and the navigation keys the
/// usual CSI sequences.
pub open spec fn key_bytes(k: Key, ctrl: bool) -> Seq<u8> {
    match k {
        Key::Char(c) => {
            let u = c as u32;
            if ctrl && u < 0x80 {
                seq![(lower_code(u) % 32) as u8]
            } else {
                encode_scalar(u)
            }
        },
        Key::Enter => seq![0x0du8],
        Key::Backspace => seq![0x7fu8],
        Key::Tab => seq![0x09u8],
        Key::Up => seq![0x1bu8, 0x5bu8, 0x41u8],
        Key::Down => seq![0x1bu8, 0x5bu8, 0x42u8],
        Key::Right => seq![0x1bu8, 0x5bu8, 0x43u8],
        Key::Left => seq![0x1bu8, 0x5bu8, 0x44u8],
        Key::Home => seq![0x1bu8, 0x5bu8, 0x48u8],
        Key::End => seq![0x1bu8, 0x5bu8, 0x46u8],
        Key::PageUp => seq![0x1bu8, 0x5bu8, 0x35u8, 0x7eu8],
        Key::PageDown => seq![0x1bu8, 0x5bu8, 0x36u8, 0x7eu8],
        Key::Delete => seq![0x1bu8, 0x5bu8, 0x33u8, 0x7eu8],
        Key::Insert => seq![0x1bu8, 0x5bu8, 0x32u8, 0x7eu8],
    }
}

/// The UTF-8 encoding of one character.
fn encode_char(c: char) -> (r: Vec<u8>)
    ensures
        r@ == encode_scalar(c as u32),
{
    proof {
        vstd::utf8::char_is_scalar(c);
    }
    let u = c as u32;
    let mut r: Vec<u8> = Vec::new();
    if u < 0x80 {
        r.push((u & 0x7F) as u8);
    } else if u < 0x800 {
        r.push(0xC0 | ((u >> 6) & 0x1F) as u8);
        r.push(0x80 | (u & 0x3F) as u8);
    } else if u < 0x10000 {
        r.push(0xE0 | ((u >> 12) & 0x0F) as u8);
        r.push(0x80 | ((u >> 6) & 0x3F) as u8);
        r.push(0x80 | (u & 0x3F) as u8);
    } else {
        r.push(0xF0 | ((u >> 18) & 0x7) as u8);
        r.push(0x80 | ((u >> 12) & 0x3F) as u8);
        r.push(0x80 | ((u >> 6) & 0x3F) as u8);
        r.push(0x80 | (u & 0x3F) as u8);
    }
    proof {
        assert(r@ =~= encode_scalar(c as u32));
    }
    r
}

/// Encode one key event for the shell. `None` marks the quit gesture,
/// which must end the session instead of being forwarded.
pub fn encode_key(k: Key, ctrl: bool) -> (r: Option<Vec<u8>>)
    ensures
        r is Some <==> !quit_gesture(k, ctrl),
        r matches Some(v) ==> v@ == key_bytes(k, ctrl),
{
    match k {
        Key::Char(c) => {
            let u = c as u32;
            let lu = if 65 <= u && u <= 90 {
                u + 32
            } else {
                u
            };
            if ctrl && lu == 0x71 {
                None
            } else if ctrl && u < 0x80 {
                let mut v: Vec<u8> = Vec::new();
                v.push((lu % 32) as u8);
                proof {
                    assert(v@ =~= key_bytes(k, ctrl));
                }
                Some(v)
            } else {
                Some(encode_char(c))
            }
        },
        Key::Enter => {
            let v: Vec<u8> = vec![0x0d];
            proof {
                assert(v@ =~= key_bytes(k, ctrl));
            }
            Some(v)
        },
        Key::Backspace => {
            let v: Vec<u8> = vec![0x7f];
            proof {
                assert(v@ =~= key_bytes(k, ctrl));
            }
            Some(v)
        },
        Key::Tab => {
            let v: Vec<u8> = vec![0x09];
            proof {
                assert(v@ =~= key_bytes(k, ctrl));
            }
            Some(v)
        },
        Key::Up => {
            let v: Vec<u8> = vec![0x1b, 0x5b, 0x41];
            proof {
                assert(v@ =~= key_bytes(k, ctrl));
            }
            Some(v)
        },
        Key::Down => {
            let v: Vec<u8> = vec![0x1b, 0x5b, 0x42];
            proof {
                assert(v@ =~= key_bytes(k, ctrl));
            }
            Some(v)
        },
        Key::Right => {
            let v: Vec<u8> = vec![0x1b, 0x5b, 0x43];
            proof {
                assert(v@ =~= key_bytes(k, ctrl));
            }
            Some(v)
        },
        Key::Left => {
            let v: Vec<u8> = vec![0x1b, 0x5b, 0x44];
            proof {
                assert(v@ =~= key_bytes(k, ctrl));
            }
            Some(v)
        },
        Key::Home => {
            let v: Vec<u8> = vec![0x1b, 0x5b, 0x48];
            proof {
                assert(v@ =~= key_bytes(k, ctrl));
            }
            Some(v)
        },
        Key::End => {
            let v: Vec<u8> = vec![0x1b, 0x5b, 0x46];
            proof {
                assert(v@ =~= key_bytes(k, ctrl));
            }
            Some(v)
        },
        Key::PageUp => {
            let v: Vec<u8> = vec![0x1b, 0x5b, 0x35, 0x7e];
            proof {
                assert(v@ =~= key_bytes(k, ctrl));
            }
            Some(v)
        },
        Key::PageDown => {
            let v: Vec<u8> = vec![0x1b, 0x5b, 0x36, 0x7e];
            proof {
                assert(v@ =~= key_bytes(k, ctrl));
            }
            Some(v)
        },
        Key::Delete => {
            let v: Vec<u8> = vec![0x1b, 0x5b, 0x33, 0x7e];
            proof {
                assert(v@ =~= key_bytes(k, ctrl));
            }
            Some(v)
        },
        Key::Insert => {
            let v: Vec<u8> = vec![0x1b, 0x5b, 0x32, 0x7e];
            proof {
                assert(v@ =~= key_bytes(k, ctrl));
            }
            Some(v)
        },
    }
}

} // verus!
