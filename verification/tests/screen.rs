//! Behavior of the screen-state engine on whole byte streams.

use julix::cell::{Cell, Color};
use julix::terminal::Terminal;

fn row_text(t: &Terminal, y: usize) -> String {
    t.grid[y].iter().map(|c| c.c).collect()
}

fn default_cell() -> Cell {
    Cell {
        c: ' ',
        fg: Color { r: 255, g: 255, b: 255 },
        bg: Color { r: 0, g: 0, b: 0 },
    }
}

#[test]
fn hello_crlf_on_small_grid() {
    let mut t = Terminal::new(10, 5);
    t.feed_bytes(b"Hello\r\n");
    assert_eq!((t.cursor.x, t.cursor.y), (0, 1));
    assert_eq!(row_text(&t, 0), "Hello     ");
}

#[test]
fn clear_screen_resets_every_cell() {
    let mut t = Terminal::new(4, 3);
    t.feed_bytes(b"\x1b[31mABCDEFGHIJKL");
    for row in &t.grid {
        for cell in row {
            assert_ne!(*cell, default_cell());
        }
    }
    t.feed_bytes(b"\x1b[2J");
    for row in &t.grid {
        for cell in row {
            assert_eq!(*cell, default_cell());
        }
    }
}

#[test]
fn cursor_position_is_one_indexed_and_converted() {
    let mut t = Terminal::new(80, 24);
    t.feed_bytes(b"\x1b[10;5H");
    assert_eq!((t.cursor.x, t.cursor.y), (4, 9));
}

#[test]
fn cursor_home_without_params() {
    let mut t = Terminal::new(80, 24);
    t.feed_bytes(b"\x1b[10;5H\x1b[H");
    assert_eq!((t.cursor.x, t.cursor.y), (0, 0));
}

#[test]
fn cursor_position_clamps_to_grid() {
    let mut t = Terminal::new(10, 5);
    t.feed_bytes(b"\x1b[99;99H");
    assert_eq!((t.cursor.x, t.cursor.y), (9, 4));
}

#[test]
fn wrap_places_next_char_on_next_row() {
    let mut t = Terminal::new(10, 5);
    t.feed_bytes(b"0123456789X");
    assert_eq!(row_text(&t, 0), "0123456789");
    assert_eq!(t.grid[1][0].c, 'X');
    assert_eq!((t.cursor.x, t.cursor.y), (1, 1));
}

#[test]
fn wrap_on_last_row_scrolls() {
    let mut t = Terminal::new(4, 2);
    t.feed_bytes(b"aaaa\r\nbbbbX");
    // The row of b's scrolled up; X starts the new bottom row.
    assert_eq!(row_text(&t, 0), "bbbb");
    assert_eq!(row_text(&t, 1), "X   ");
    assert_eq!((t.cursor.x, t.cursor.y), (1, 1));
}

#[test]
fn linefeed_on_last_row_scrolls() {
    let mut t = Terminal::new(4, 2);
    t.feed_bytes(b"one\r\ntwo\n");
    assert_eq!(row_text(&t, 0), "two ");
    assert_eq!(row_text(&t, 1), "    ");
    assert_eq!((t.cursor.x, t.cursor.y), (3, 1));
}

#[test]
fn carriage_return_backspace_and_tab() {
    let mut t = Terminal::new(20, 3);
    t.feed_bytes(b"abc\r");
    assert_eq!(t.cursor.x, 0);
    t.feed_bytes(b"x\x08");
    assert_eq!(t.cursor.x, 0);
    t.feed_bytes(b"\x08");
    assert_eq!(t.cursor.x, 0);
    t.feed_bytes(b"\t");
    assert_eq!(t.cursor.x, 8);
    t.feed_bytes(b"\t");
    assert_eq!(t.cursor.x, 16);
    t.feed_bytes(b"\t");
    assert_eq!(t.cursor.x, 19);
}

#[test]
fn cursor_moves_saturate_and_clamp() {
    let mut t = Terminal::new(10, 5);
    t.feed_bytes(b"\x1b[3;3H\x1b[A");
    assert_eq!((t.cursor.x, t.cursor.y), (2, 1));
    t.feed_bytes(b"\x1b[9A");
    assert_eq!(t.cursor.y, 0);
    t.feed_bytes(b"\x1b[99B");
    assert_eq!(t.cursor.y, 4);
    t.feed_bytes(b"\x1b[99C");
    assert_eq!(t.cursor.x, 9);
    t.feed_bytes(b"\x1b[1D\x1b[99D");
    assert_eq!(t.cursor.x, 0);
}

#[test]
fn erase_display_mode_one_clears_start_through_cursor() {
    let mut t = Terminal::new(4, 3);
    t.feed_bytes(b"abcdefghijkl");
    t.feed_bytes(b"\x1b[2;2H\x1b[1J");
    // Rows above the cursor are cleared, the cursor row through column 1
    // inclusive is cleared, the rest stays.
    assert_eq!(row_text(&t, 0), "    ");
    assert_eq!(row_text(&t, 1), "  gh");
    assert_eq!(row_text(&t, 2), "ijkl");
}

#[test]
fn erase_display_mode_zero_clears_cursor_through_end() {
    let mut t = Terminal::new(4, 3);
    t.feed_bytes(b"abcdefghijkl");
    t.feed_bytes(b"\x1b[2;2H\x1b[J");
    assert_eq!(row_text(&t, 0), "abcd");
    assert_eq!(row_text(&t, 1), "e   ");
    assert_eq!(row_text(&t, 2), "    ");
}

#[test]
fn erase_line_modes() {
    let mut t = Terminal::new(6, 2);
    t.feed_bytes(b"abcdef");
    t.feed_bytes(b"\x1b[1;3H\x1b[K");
    assert_eq!(row_text(&t, 0), "ab    ");
    let mut t2 = Terminal::new(6, 2);
    t2.feed_bytes(b"abcdef\x1b[1;3H\x1b[1K");
    assert_eq!(row_text(&t2, 0), "   def");
    let mut t3 = Terminal::new(6, 2);
    t3.feed_bytes(b"abcdef\x1b[1;3H\x1b[2K");
    assert_eq!(row_text(&t3, 0), "      ");
}

#[test]
fn truecolor_sgr_roundtrip() {
    let mut t = Terminal::new(10, 2);
    t.feed_bytes(b"\x1b[38;2;10;20;30mX\x1b[0mY");
    assert_eq!(t.grid[0][0].c, 'X');
    assert_eq!(t.grid[0][0].fg, Color { r: 10, g: 20, b: 30 });
    assert_eq!(t.grid[0][0].bg, Color { r: 0, g: 0, b: 0 });
    assert_eq!(t.grid[0][1].c, 'Y');
    assert_eq!(t.grid[0][1].fg, Color { r: 255, g: 255, b: 255 });
    assert_eq!(t.grid[0][1].bg, Color { r: 0, g: 0, b: 0 });
}

#[test]
fn indexed_color_formulas() {
    let mut t = Terminal::new(10, 2);
    // 196 = 16 + 36*5: full red in the color cube.
    t.feed_bytes(b"\x1b[38;5;196ma");
    assert_eq!(t.grid[0][0].fg, Color { r: 255, g: 0, b: 0 });
    // 240 is the ninth step of the gray ramp: 8 + 10 * 8 = 88.
    t.feed_bytes(b"\x1b[48;5;240mb");
    assert_eq!(t.grid[0][1].bg, Color { r: 88, g: 88, b: 88 });
    // 31 is the basic red foreground, 104 a bright blue background.
    t.feed_bytes(b"\x1b[31mc");
    assert_eq!(t.grid[0][2].fg, Color { r: 205, g: 0, b: 0 });
    t.feed_bytes(b"\x1b[104md");
    assert_eq!(t.grid[0][3].bg, Color { r: 92, g: 92, b: 255 });
}

#[test]
fn malformed_extended_color_is_ignored() {
    let mut t = Terminal::new(10, 2);
    t.feed_bytes(b"\x1b[38;5mZ");
    assert_eq!(t.grid[0][0].fg, Color { r: 255, g: 255, b: 255 });
}

#[test]
fn resize_preserves_overlap_and_discards_rest() {
    let mut t = Terminal::new(4, 3);
    t.feed_bytes(b"abcdefghijkl");
    t.resize(2, 2);
    assert_eq!(row_text(&t, 0), "ab");
    assert_eq!(row_text(&t, 1), "ef");
    t.resize(4, 3);
    assert_eq!(row_text(&t, 0), "ab  ");
    assert_eq!(row_text(&t, 1), "ef  ");
    assert_eq!(row_text(&t, 2), "    ");
    assert_eq!(t.rows, 3);
    assert_eq!(t.cols, 4);
    for row in &t.grid {
        assert_eq!(row.len(), 4);
    }
}

#[test]
fn resize_clamps_cursor() {
    let mut t = Terminal::new(10, 5);
    t.feed_bytes(b"\x1b[5;9H");
    t.resize(4, 3);
    assert_eq!((t.cursor.x, t.cursor.y), (3, 2));
}

#[test]
fn chunked_feed_equals_single_feed() {
    let stream: &[u8] = b"Hi\x1b[2;1Hthere\x1b[38;2;1;2;3mQ\r\n\x1b[1K!";
    let mut one = Terminal::new(12, 4);
    one.feed_bytes(stream);
    let mut two = Terminal::new(12, 4);
    // The same bytes in two chunks, split inside the escape sequence.
    two.feed_bytes(&stream[..4]);
    two.feed_bytes(&stream[4..]);
    assert_eq!(one.grid, two.grid);
    assert_eq!(one.cursor, two.cursor);
}

#[test]
fn utf8_split_across_chunks() {
    let mut t = Terminal::new(10, 2);
    let bytes = "héllo".as_bytes();
    t.feed_bytes(&bytes[..2]);
    t.feed_bytes(&bytes[2..]);
    assert_eq!(row_text(&t, 0), "héllo     ");
    assert_eq!(t.grid[0][1].c, 'é');
    assert_eq!(t.cursor.x, 5);
}

#[test]
fn invalid_byte_prints_replacement() {
    let mut t = Terminal::new(10, 2);
    t.feed_bytes(&[0xff, 0x80]);
    assert_eq!(t.grid[0][0].c, '\u{fffd}');
    assert_eq!(t.grid[0][1].c, '\u{fffd}');
}

#[test]
fn osc_and_unknown_sequences_are_ignored() {
    let mut t = Terminal::new(10, 2);
    t.feed_bytes(b"\x1b]0;some title\x07ok\x1b[?25h\x1b[5Z");
    assert_eq!(row_text(&t, 0), "ok        ");
    assert_eq!(t.cursor.x, 2);
}

#[test]
fn del_byte_is_ignored() {
    let mut t = Terminal::new(10, 2);
    t.feed_bytes(b"a\x7fb");
    assert_eq!(row_text(&t, 0), "ab        ");
}
