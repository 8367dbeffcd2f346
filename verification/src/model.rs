//! The mathematical model of the screen-state engine.
//!
//! A `TermView` is the ghost value of a `Terminal`: the grid as a sequence
//! of rows, the cursor, the dimensions, the current colors, and the
//! tokenizer state. Every executable mutation of a `Terminal` is specified
//! as a function from one `TermView` to the next, defined here.

use vstd::prelude::*;

use crate::action::Action;
use crate::cell::{default_cell, Cell, Color};
use crate::parser::ParseView;
use crate::sgr::sgr_applied;
use vstd::utf8::is_scalar;

verus! {

/// The smaller of two naturals.
pub open spec fn min_nat(a: nat, b: nat) -> nat {
    if a <= b {
        a
    } else {
        b
    }
}

/// A row of `cols` default cells.
pub open spec fn blank_row(cols: nat) -> Seq<Cell> {
    Seq::new(cols, |j: int| default_cell())
}

/// CSI parameter `i`, or `d` where the list has no parameter `i`.
pub open spec fn param_at(ps: Seq<u16>, i: int, d: u16) -> u16 {
    if 0 <= i < ps.len() {
        ps[i]
    } else {
        d
    }
}

/// A 1-indexed cursor coordinate parameter turned 0-indexed. An absent
/// parameter defaults to 1; a present 0 is clamped to the first row or
/// column, so both name coordinate 0.
pub open spec fn pos_param(ps: Seq<u16>, i: int) -> nat {
    let p = param_at(ps, i, 1);
    if p == 0 {
        0
    } else {
        (p - 1) as nat
    }
}

/// The count parameter of a cursor-movement command: the first
/// parameter, where absent and 0 both mean 1.
pub open spec fn count_param(ps: Seq<u16>) -> u16 {
    let p = param_at(ps, 0, 1);
    if p == 0 {
        1
    } else {
        p
    }
}

/// One decimal digit appended to a parameter under accumulation,
/// saturating at the largest 16-bit value.
pub open spec fn push_digit(cur: u16, b: u8) -> u16 {
    let v = cur * 10 + (b - 0x30);
    if v > 0xffff {
        0xffff
    } else {
        v as u16
    }
}

/// Bounds on the UTF-8 accumulator that every reachable tokenizer state
/// satisfies; they keep the accumulation arithmetic inside `u32`.
pub open spec fn parse_wf(p: ParseView) -> bool {
    match p {
        ParseView::Utf8 { need, acc } => {
            ||| (need == 3 && acc < 8)
            ||| (need == 2 && acc < 0x400)
            ||| (need == 1 && acc < 0x20000)
        },
        _ => true,
    }
}

/// Ranks tokenizer states so that reprocessing a byte from the ground
/// state terminates.
pub open spec fn parse_rank(p: ParseView) -> nat {
    match p {
        ParseView::Utf8 { .. } => 1,
        _ => 0,
    }
}

/// The ghost state of a terminal.
#[verifier::ext_equal]
pub struct TermView {
    /// The rows of the screen, top to bottom; each row left to right.
    pub grid: Seq<Seq<Cell>>,
    /// Cursor column. May transiently equal `cols` after a character was
    /// placed in the last column; the next print wraps it.
    pub cur_x: nat,
    /// Cursor row, always within the grid.
    pub cur_y: nat,
    /// Number of columns of every row.
    pub cols: nat,
    /// Number of rows.
    pub rows: nat,
    /// Foreground color applied to printed characters.
    pub fg: Color,
    /// Background color applied to printed characters.
    pub bg: Color,
    /// The tokenizer state.
    pub parse: ParseView,
}

impl TermView {
    /// The shape every terminal keeps: the advertised dimensions are
    /// positive, fit the 16-bit sizes of the transport, and are exactly the
    /// dimensions of the grid; the cursor is in bounds, except that its
    /// column may rest one past the last column until the next print wraps.
    pub open spec fn wf(self) -> bool {
        &&& 1 <= self.cols <= 0xffff
        &&& 1 <= self.rows <= 0xffff
        &&& self.grid.len() == self.rows
        &&& forall|i: int| 0 <= i < self.rows ==> (#[trigger] self.grid[i]).len() == self.cols
        &&& self.cur_x <= self.cols
        &&& self.cur_y < self.rows
        &&& parse_wf(self.parse)
    }

    /// The same state with another tokenizer state.
    pub open spec fn with_parse(self, p: ParseView) -> TermView {
        TermView { parse: p, ..self }
    }

    /// The grid after removing the top `n` rows and appending `n` blank
    /// rows at the bottom; the row count is unchanged.
    pub open spec fn scrolled(self, n: nat) -> TermView {
        TermView {
            grid: self.grid.skip(n as int) + Seq::new(n, |i: int| blank_row(self.cols)),
            ..self
        }
    }

    /// The grid with the cell at column `x`, row `y` replaced by `ch` in
    /// the current colors.
    pub open spec fn with_cell(self, x: nat, y: nat, ch: char) -> TermView {
        TermView {
            grid: self.grid.update(
                y as int,
                self.grid[y as int].update(x as int, Cell { c: ch, fg: self.fg, bg: self.bg }),
            ),
            ..self
        }
    }

    /// One printed character: wrap-on-write. If the cursor column already
    /// sits past the last column, it first wraps to the start of the next
    /// row, scrolling when the cursor was on the last row; then the
    /// character is placed at the cursor and the column advances by one.
    pub open spec fn printed(self, ch: char) -> TermView {
        let v1 = if self.cur_x >= self.cols {
            TermView { cur_x: 0, cur_y: self.cur_y + 1, ..self }
        } else {
            self
        };
        let v2 = if v1.cur_y >= v1.rows {
            TermView { cur_y: (v1.rows - 1) as nat, ..v1.scrolled(1) }
        } else {
            v1
        };
        TermView { cur_x: v2.cur_x + 1, ..v2.with_cell(v2.cur_x, v2.cur_y, ch) }
    }

    /// One C0 control byte: line feed moves down and scrolls on the last
    /// row, carriage return moves to column 0, backspace moves one column
    /// left, tab advances to the next multiple-of-8 column clamped to the
    /// last column. Every other control byte does nothing.
    pub open spec fn executed(self, b: u8) -> TermView {
        if b == 0x0a {
            if self.cur_y + 1 >= self.rows {
                TermView { cur_y: (self.rows - 1) as nat, ..self.scrolled(1) }
            } else {
                TermView { cur_y: self.cur_y + 1, ..self }
            }
        } else if b == 0x0d {
            TermView { cur_x: 0, ..self }
        } else if b == 0x08 {
            if self.cur_x > 0 {
                TermView { cur_x: (self.cur_x - 1) as nat, ..self }
            } else {
                self
            }
        } else if b == 0x09 {
            TermView {
                cur_x: min_nat((self.cur_x / 8 + 1) * 8, (self.cols - 1) as nat),
                ..self
            }
        } else {
            self
        }
    }

    /// True when row `i`, column `j` lies at the cursor or after it in
    /// scan order (left to right, top to bottom).
    pub open spec fn at_or_after_cursor(self, i: int, j: int) -> bool {
        i > self.cur_y || (i == self.cur_y && j >= self.cur_x)
    }

    /// True when row `i`, column `j` lies at the cursor or before it in
    /// scan order.
    pub open spec fn at_or_before_cursor(self, i: int, j: int) -> bool {
        i < self.cur_y || (i == self.cur_y && j <= self.cur_x)
    }

    /// Erase in display. Mode 0 clears from the cursor through the end of
    /// the screen, mode 1 from the start of the screen through the cursor,
    /// mode 2 the whole screen; the cursor cell is included in modes 0 and
    /// 1. Other modes do nothing. Cleared cells become the default cell.
    pub open spec fn erased_display(self, mode: u16) -> TermView {
        if mode <= 2 {
            TermView {
                grid: Seq::new(
                    self.rows,
                    |i: int|
                        Seq::new(
                            self.cols,
                            |j: int|
                                {
                                    let clear = if mode == 0 {
                                        self.at_or_after_cursor(i, j)
                                    } else if mode == 1 {
                                        self.at_or_before_cursor(i, j)
                                    } else {
                                        true
                                    };
                                    if clear {
                                        default_cell()
                                    } else {
                                        self.grid[i][j]
                                    }
                                },
                        ),
                ),
                ..self
            }
        } else {
            self
        }
    }

    /// Erase in line, on the cursor row only. Mode 0 clears from the
    /// cursor through the end of the line, mode 1 from the start of the
    /// line through the cursor, mode 2 the whole line. Other modes do
    /// nothing.
    pub open spec fn erased_line(self, mode: u16) -> TermView {
        if mode <= 2 {
            let y = self.cur_y as int;
            let row = self.grid[y];
            TermView {
                grid: self.grid.update(
                    y,
                    Seq::new(
                        self.cols,
                        |j: int|
                            {
                                let clear = if mode == 0 {
                                    j >= self.cur_x
                                } else if mode == 1 {
                                    j <= self.cur_x
                                } else {
                                    true
                                };
                                if clear {
                                    default_cell()
                                } else {
                                    row[j]
                                }
                            },
                    ),
                ),
                ..self
            }
        } else {
            self
        }
    }

    /// The state after one CSI command: parameters in order, final byte.
    ///
    /// `H` and `f` set the cursor position from 1-indexed parameters,
    /// clamped into the grid. `A`, `B`, `C`, `D` move the cursor by a
    /// count that defaults to 1, saturating at the edges. `J` and `K`
    /// erase in display and in line. `m` applies SGR parameters to the
    /// current colors. Every other final byte does nothing.
    pub open spec fn csi_applied(self, ps: Seq<u16>, action: u8) -> TermView {
        if action == 0x48 || action == 0x66 {  // 'H' | 'f'
            TermView {
                cur_y: min_nat(pos_param(ps, 0), (self.rows - 1) as nat),
                cur_x: min_nat(pos_param(ps, 1), (self.cols - 1) as nat),
                ..self
            }
        } else if action == 0x41 {  // 'A'
            let n = count_param(ps) as nat;
            TermView {
                cur_y: if self.cur_y >= n {
                    (self.cur_y - n) as nat
                } else {
                    0
                },
                ..self
            }
        } else if action == 0x42 {  // 'B'
            let n = count_param(ps) as nat;
            TermView { cur_y: min_nat(self.cur_y + n, (self.rows - 1) as nat), ..self }
        } else if action == 0x43 {  // 'C'
            let n = count_param(ps) as nat;
            TermView { cur_x: min_nat(self.cur_x + n, (self.cols - 1) as nat), ..self }
        } else if action == 0x44 {  // 'D'
            let n = count_param(ps) as nat;
            TermView {
                cur_x: if self.cur_x >= n {
                    (self.cur_x - n) as nat
                } else {
                    0
                },
                ..self
            }
        } else if action == 0x4a {  // 'J'
            self.erased_display(param_at(ps, 0, 0))
        } else if action == 0x4b {  // 'K'
            self.erased_line(param_at(ps, 0, 0))
        } else if action == 0x6d {  // 'm'
            let c = sgr_applied(self.fg, self.bg, ps);
            TermView { fg: c.0, bg: c.1, ..self }
        } else {
            self
        }
    }

    /// The state after one decoded action.
    pub open spec fn applied(self, a: Action) -> TermView {
        match a {
            Action::Print(ch) => self.printed(ch),
            Action::Execute(b) => self.executed(b),
            Action::Csi(ps, f) => self.csi_applied(ps@, f),
            Action::Osc => self,
            Action::Esc => self,
        }
    }

    /// The state after the given dimensions are adopted. Content in the
    /// overlapping top-left region is preserved; everything else becomes
    /// the default cell. The cursor is clamped into the new bounds.
    pub open spec fn resized(self, cols: nat, rows: nat) -> TermView {
        TermView {
            grid: Seq::new(
                rows,
                |i: int|
                    Seq::new(
                        cols,
                        |j: int|
                            if i < self.rows && j < self.cols {
                                self.grid[i][j]
                            } else {
                                default_cell()
                            },
                    ),
            ),
            cur_x: min_nat(self.cur_x, (cols - 1) as nat),
            cur_y: min_nat(self.cur_y, (rows - 1) as nat),
            cols: cols,
            rows: rows,
            ..self
        }
    }

    /// One byte of the incoming stream, tokenized and applied.
    ///
    /// In the ground state, ESC starts an escape sequence, other control
    /// bytes are executed, ASCII is printed, and a UTF-8 leading byte
    /// opens a multi-byte sequence; a stray or invalid byte prints the
    /// replacement character. After ESC, `[` opens a CSI sequence and `]`
    /// an OSC sequence; any other byte ends the escape without effect.
    /// Inside a CSI sequence, digits and `;` accumulate parameters, a
    /// final byte dispatches the command, control bytes are executed
    /// immediately, and other bytes are ignored. An OSC sequence is
    /// consumed until BEL or ESC. A truncated UTF-8 sequence prints the
    /// replacement character and the interrupting byte is handled from
    /// the ground state. Overlong UTF-8 encodings are not rejected.
    pub open spec fn stepped(self, b: u8) -> TermView
        decreases parse_rank(self.parse),
    {
        match self.parse {
            ParseView::Ground => {
                if b == 0x1b {
                    self.with_parse(ParseView::Escape)
                } else if b < 0x20 {
                    self.executed(b)
                } else if b < 0x7f {
                    self.printed(b as char)
                } else if b == 0x7f {
                    self
                } else if 0xc2 <= b && b <= 0xdf {
                    self.with_parse(ParseView::Utf8 { need: 1, acc: (b - 0xc0) as u32 })
                } else if 0xe0 <= b && b <= 0xef {
                    self.with_parse(ParseView::Utf8 { need: 2, acc: (b - 0xe0) as u32 })
                } else if 0xf0 <= b && b <= 0xf4 {
                    self.with_parse(ParseView::Utf8 { need: 3, acc: (b - 0xf0) as u32 })
                } else {
                    self.printed('\u{fffd}')
                }
            },
            ParseView::Escape => {
                if b == 0x5b {
                    self.with_parse(ParseView::Csi { params: Seq::empty(), current: 0 })
                } else if b == 0x5d {
                    self.with_parse(ParseView::Osc)
                } else if b == 0x1b {
                    self
                } else {
                    self.with_parse(ParseView::Ground)
                }
            },
            ParseView::Csi { params, current } => {
                if 0x30 <= b && b <= 0x39 {
                    self.with_parse(ParseView::Csi { params, current: push_digit(current, b) })
                } else if b == 0x3b {
                    self.with_parse(ParseView::Csi { params: params.push(current), current: 0 })
                } else if 0x40 <= b && b <= 0x7e {
                    self.csi_applied(params.push(current), b).with_parse(ParseView::Ground)
                } else if b == 0x1b {
                    self.with_parse(ParseView::Escape)
                } else if b < 0x20 {
                    self.executed(b)
                } else {
                    self
                }
            },
            ParseView::Osc => {
                if b == 0x07 {
                    self.with_parse(ParseView::Ground)
                } else if b == 0x1b {
                    self.with_parse(ParseView::Escape)
                } else {
                    self
                }
            },
            ParseView::Utf8 { need, acc } => {
                if 0x80 <= b && b <= 0xbf {
                    let acc2 = (acc * 64 + (b - 0x80)) as u32;
                    if need == 1 {
                        let g = self.with_parse(ParseView::Ground);
                        if is_scalar(acc2) {
                            g.printed(acc2 as char)
                        } else {
                            g.printed('\u{fffd}')
                        }
                    } else {
                        self.with_parse(ParseView::Utf8 { need: (need - 1) as u8, acc: acc2 })
                    }
                } else {
                    let g = TermView { parse: ParseView::Ground, ..self.printed('\u{fffd}') };
                    g.stepped(b)
                }
            },
        }
    }

    /// A whole byte chunk, one byte at a time, in order.
    pub open spec fn fed(self, bs: Seq<u8>) -> TermView
        decreases bs.len(),
    {
        if bs.len() == 0 {
            self
        } else {
            self.fed(bs.drop_last()).stepped(bs.last())
        }
    }

    /// A sequence of printed characters, in order.
    pub open spec fn printed_all(self, cs: Seq<char>) -> TermView
        decreases cs.len(),
    {
        if cs.len() == 0 {
            self
        } else {
            self.printed_all(cs.drop_last()).printed(cs.last())
        }
    }
}

} // verus!
