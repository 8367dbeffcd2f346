//! The key-to-byte-sequence encoding table.

use julix::input::{encode_key, Key};

fn bytes(k: Key, ctrl: bool) -> Vec<u8> {
    encode_key(k, ctrl).expect("not the quit gesture")
}

#[test]
fn printable_chars_go_out_as_utf8() {
    assert_eq!(bytes(Key::Char('a'), false), b"a");
    assert_eq!(bytes(Key::Char('Z'), false), b"Z");
    assert_eq!(bytes(Key::Char('é'), false), "é".as_bytes());
    assert_eq!(bytes(Key::Char('€'), false), "€".as_bytes());
    assert_eq!(bytes(Key::Char('\u{10348}'), false), "\u{10348}".as_bytes());
}

#[test]
fn control_modifier_masks_ascii() {
    assert_eq!(bytes(Key::Char('c'), true), vec![0x03]);
    assert_eq!(bytes(Key::Char('C'), true), vec![0x03]);
    assert_eq!(bytes(Key::Char('a'), true), vec![0x01]);
    // On a character outside ASCII the modifier is ignored.
    assert_eq!(bytes(Key::Char('é'), true), "é".as_bytes());
}

#[test]
fn control_q_is_the_quit_gesture() {
    assert_eq!(encode_key(Key::Char('q'), true), None);
    assert_eq!(encode_key(Key::Char('Q'), true), None);
    assert!(encode_key(Key::Char('q'), false).is_some());
}

#[test]
fn special_keys_table() {
    assert_eq!(bytes(Key::Enter, false), b"\r");
    assert_eq!(bytes(Key::Backspace, false), vec![0x7f]);
    assert_eq!(bytes(Key::Tab, false), b"\t");
    assert_eq!(bytes(Key::Up, false), b"\x1b[A");
    assert_eq!(bytes(Key::Down, false), b"\x1b[B");
    assert_eq!(bytes(Key::Right, false), b"\x1b[C");
    assert_eq!(bytes(Key::Left, false), b"\x1b[D");
    assert_eq!(bytes(Key::Home, false), b"\x1b[H");
    assert_eq!(bytes(Key::End, false), b"\x1b[F");
    assert_eq!(bytes(Key::PageUp, false), b"\x1b[5~");
    assert_eq!(bytes(Key::PageDown, false), b"\x1b[6~");
    assert_eq!(bytes(Key::Delete, false), b"\x1b[3~");
    assert_eq!(bytes(Key::Insert, false), b"\x1b[2~");
}
