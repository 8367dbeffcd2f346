//! The terminal: the character grid, the cursor, the current colors, the
//! tokenizer state, and every operation that mutates them.

use vstd::prelude::*;

use crate::action::Action;
use crate::cell::{default_bg, default_fg, Cell, Color, Cursor};
use crate::model::{blank_row, param_at, TermView};
use crate::parser::{ParseView, ParserState};
use crate::sgr::apply_sgr;

verus! {

/// Relies on std's char::from_u32: the result is Some exactly when the
/// value is a Unicode scalar (below the surrogate range, or between it and
/// 0x10FFFF inclusive), and the returned character has that value.
pub assume_specification[ char::from_u32 ](v: u32) -> (r: Option<char>)
    ensures
        r is Some <==> vstd::utf8::is_scalar(v),
        r matches Some(c) ==> c as u32 == v,
;

/// The grid vector as a sequence of rows of cells.
spec fn grid_view(g: Vec<Vec<Cell>>) -> Seq<Seq<Cell>> {
    Seq::new(g@.len(), |i: int| g@[i]@)
}

/// The screen-state engine: a bounded grid of cells with a cursor, the
/// colors applied to newly printed characters, and the state of the
/// byte-stream tokenizer.
pub struct Terminal {
    /// The rows of the screen, top to bottom.
    pub grid: Vec<Vec<Cell>>,
    /// The cursor position.
    pub cursor: Cursor,
    /// Number of columns of every row.
    pub cols: usize,
    /// Number of rows.
    pub rows: usize,
    state: ParserState,
    csi_params: Vec<u16>,
    csi_current: u16,
    fg: Color,
    bg: Color,
}

impl View for Terminal {
    type V = TermView;

    closed spec fn view(&self) -> TermView {
        TermView {
            grid: grid_view(self.grid),
            cur_x: self.cursor.x as nat,
            cur_y: self.cursor.y as nat,
            cols: self.cols as nat,
            rows: self.rows as nat,
            fg: self.fg,
            bg: self.bg,
            parse: match self.state {
                ParserState::Ground => ParseView::Ground,
                ParserState::Escape => ParseView::Escape,
                ParserState::Csi => ParseView::Csi {
                    params: self.csi_params@,
                    current: self.csi_current,
                },
                ParserState::Osc => ParseView::Osc,
                ParserState::Utf8 { need, acc } => ParseView::Utf8 { need, acc },
            },
        }
    }
}

/// A freshly allocated row of `cols` default cells.
#[verifier::loop_isolation(false)]
fn make_blank_row(cols: usize) -> (r: Vec<Cell>)
    ensures
        r@ == blank_row(cols as nat),
{
    let mut r: Vec<Cell> = Vec::new();
    let mut j: usize = 0;
    while j < cols
        invariant
            j <= cols,
            r@.len() == j,
            forall|k: int| 0 <= k < j ==> r@[k] == crate::cell::default_cell(),
        decreases cols - j,
    {
        r.push(Cell::default());
        j = j + 1;
    }
    proof {
        assert(r@ =~= blank_row(cols as nat));
    }
    r
}

/// CSI parameter `i`, or `d` where the list has no parameter `i`.
fn param_get(params: &Vec<u16>, i: usize, d: u16) -> (r: u16)
    ensures
        r == param_at(params@, i as int, d),
{
    if i < params.len() {
        params[i]
    } else {
        d
    }
}

impl Terminal {
    /// The terminal is well formed: see `TermView::wf`.
    pub open spec fn wf(self) -> bool {
        self@.wf()
    }

    /// A terminal of the given size: a blank grid, the cursor at the
    /// origin, default colors, the tokenizer in the ground state.
    #[verifier::loop_isolation(false)]
    pub fn new(cols: usize, rows: usize) -> (t: Terminal)
        requires
            1 <= cols <= 0xffff,
            1 <= rows <= 0xffff,
        ensures
            t.wf(),
            t@.cols == cols as nat,
            t@.rows == rows as nat,
            t@.cur_x == 0,
            t@.cur_y == 0,
            t@.fg == default_fg(),
            t@.bg == default_bg(),
            t@.parse == ParseView::Ground,
            t@.grid == Seq::new(rows as nat, |i: int| blank_row(cols as nat)),
    {
        let mut grid: Vec<Vec<Cell>> = Vec::new();
        let mut i: usize = 0;
        while i < rows
            invariant
                i <= rows,
                grid@.len() == i,
                forall|k: int| 0 <= k < i ==> (#[trigger] grid@[k])@ == blank_row(cols as nat),
            decreases rows - i,
        {
            grid.push(make_blank_row(cols));
            i = i + 1;
        }
        let t = Terminal {
            grid,
            cursor: Cursor { x: 0, y: 0 },
            cols,
            rows,
            state: ParserState::Ground,
            csi_params: Vec::new(),
            csi_current: 0,
            fg: Color { r: 255, g: 255, b: 255 },
            bg: Color { r: 0, g: 0, b: 0 },
        };
        proof {
            assert(t@.grid =~~= Seq::new(rows as nat, |i: int| blank_row(cols as nat)));
        }
        t
    }

    /// Replace the cell at column `x` of row `y`.
    fn set_cell(&mut self, x: usize, y: usize, cell: Cell)
        requires
            y < old(self).grid@.len(),
            x < old(self).grid@[y as int]@.len(),
        ensures
            final(self)@ == (TermView {
                grid: old(self)@.grid.update(
                    y as int,
                    old(self)@.grid[y as int].update(x as int, cell),
                ),
                ..old(self)@
            }),
    {
        let row = &mut self.grid[y];
        row[x] = cell;
        proof {
            assert(self@.grid =~~= old(self)@.grid.update(
                y as int,
                old(self)@.grid[y as int].update(x as int, cell),
            ));
            assert(self@ =~~= (TermView {
                grid: old(self)@.grid.update(
                    y as int,
                    old(self)@.grid[y as int].update(x as int, cell),
                ),
                ..old(self)@
            }));
        }
    }

    /// Remove the top `n` rows and append `n` blank rows at the bottom,
    /// keeping the row count.
    #[verifier::loop_isolation(false)]
    fn scroll_up(&mut self, n: usize)
        requires
            old(self)@.grid.len() == old(self)@.rows,
            forall|i: int|
                0 <= i < old(self)@.grid.len() ==> (#[trigger] old(self)@.grid[i]).len()
                    == old(self)@.cols,
            n <= old(self)@.rows,
            old(self)@.rows <= 0xffff,
        ensures
            final(self)@ == old(self)@.scrolled(n as nat),
    {
        let ghost target = old(self)@.scrolled(n as nat);
        let rows = self.rows;
        let cols = self.cols;
        let mut ng: Vec<Vec<Cell>> = Vec::new();
        let mut i: usize = 0;
        while i < rows
            invariant
                i <= rows,
                ng@.len() == i,
                forall|k: int| 0 <= k < i ==> (#[trigger] ng@[k])@ == target.grid[k],
            decreases rows - i,
        {
            let mut row: Vec<Cell> = Vec::new();
            if i < rows - n {
                let src = i + n;
                let mut j: usize = 0;
                while j < cols
                    invariant
                        j <= cols,
                        row@.len() == j,
                        forall|t: int|
                            0 <= t < j ==> #[trigger] row@[t] == old(self)@.grid[src as int][t],
                    decreases cols - j,
                {
                    proof {
                        assert(self.grid@.len() == self@.grid.len());
                        assert(self@.grid[src as int] == self.grid@[src as int]@);
                    }
                    let c = self.grid[src][j];
                    row.push(c);
                    j = j + 1;
                }
            } else {
                row = make_blank_row(cols);
            }
            proof {
                assert(row@ =~= target.grid[i as int]);
            }
            ng.push(row);
            i = i + 1;
        }
        self.grid = ng;
        proof {
            assert(self@.grid =~~= target.grid);
            assert(self@ =~~= target);
        }
    }

    /// Place one character at the cursor in the current colors, wrapping
    /// to the next row first when the current row is already full, and
    /// scrolling when that next row would lie below the screen.
    pub fn write_char(&mut self, ch: char)
        requires
            old(self).wf(),
        ensures
            final(self)@ == old(self)@.printed(ch),
            final(self).wf(),
    {
        let ghost pre = self@;
        if self.cursor.x >= self.cols {
            self.cursor.x = 0;
            self.cursor.y = self.cursor.y + 1;
        }
        proof {
            if pre.cur_x >= pre.cols {
                assert(self@ =~~= (TermView { cur_x: 0, cur_y: pre.cur_y + 1, ..pre }));
            } else {
                assert(self@ =~~= pre);
            }
        }
        let ghost v1 = self@;
        if self.cursor.y >= self.rows {
            self.scroll_up(1);
            self.cursor.y = self.rows - 1;
            proof {
                assert(self@ =~~= (TermView { cur_y: (v1.rows - 1) as nat, ..v1.scrolled(1) }));
            }
        }
        let ghost v2 = self@;
        let x = self.cursor.x;
        let y = self.cursor.y;
        let cell = Cell { c: ch, fg: self.fg, bg: self.bg };
        proof {
            assert(self.grid@.len() == self@.grid.len());
            assert(self@.grid.len() == self@.rows);
            assert(self@.grid[y as int].len() == self@.cols);
            assert(self.grid@[y as int]@ == self@.grid[y as int]);
        }
        self.set_cell(x, y, cell);
        self.cursor.x = x + 1;
        proof {
            assert(self@ =~~= (TermView { cur_x: v2.cur_x + 1, ..v2.with_cell(
                v2.cur_x,
                v2.cur_y,
                ch,
            ) }));
            assert(self@ =~~= pre.printed(ch));
        }
    }

    /// Apply one C0 control byte to the cursor: line feed, carriage
    /// return, backspace or tab; anything else does nothing.
    pub fn execute_ctrl(&mut self, b: u8)
        requires
            old(self).wf(),
        ensures
            final(self)@ == old(self)@.executed(b),
            final(self).wf(),
    {
        let ghost pre = self@;
        if b == 0x0a {
            self.cursor.y = self.cursor.y + 1;
            if self.cursor.y >= self.rows {
                self.scroll_up(1);
                self.cursor.y = self.rows - 1;
                proof {
                    assert(self@ =~~= (TermView { cur_y: (pre.rows - 1) as nat, ..pre.scrolled(
                        1,
                    ) }));
                }
            } else {
                proof {
                    assert(self@ =~~= (TermView { cur_y: pre.cur_y + 1, ..pre }));
                }
            }
        } else if b == 0x0d {
            self.cursor.x = 0;
            proof {
                assert(self@ =~~= (TermView { cur_x: 0, ..pre }));
            }
        } else if b == 0x08 {
            if self.cursor.x > 0 {
                self.cursor.x = self.cursor.x - 1;
            }
            proof {
                assert(self@ =~~= pre.executed(b));
            }
        } else if b == 0x09 {
            let next = (self.cursor.x / 8 + 1) * 8;
            let lim = self.cols - 1;
            self.cursor.x = if next <= lim {
                next
            } else {
                lim
            };
            proof {
                assert(self@ =~~= pre.executed(b));
            }
        }
    }

    /// Erase in display: mode 0 from the cursor through the end of the
    /// screen, mode 1 from the start through the cursor, mode 2 all.
    #[verifier::loop_isolation(false)]
    fn erase_display(&mut self, mode: u16)
        requires
            old(self).wf(),
        ensures
            final(self)@ == old(self)@.erased_display(mode),
            final(self).wf(),
    {
        if mode <= 2 {
            let ghost target = old(self)@.erased_display(mode);
            let rows = self.rows;
            let cols = self.cols;
            let x = self.cursor.x;
            let y = self.cursor.y;
            let mut ng: Vec<Vec<Cell>> = Vec::new();
            let mut i: usize = 0;
            while i < rows
                invariant
                    i <= rows,
                    ng@.len() == i,
                    forall|k: int| 0 <= k < i ==> (#[trigger] ng@[k])@ == target.grid[k],
                decreases rows - i,
            {
                let mut row: Vec<Cell> = Vec::new();
                let mut j: usize = 0;
                while j < cols
                    invariant
                        j <= cols,
                        i < rows,
                        row@.len() == j,
                        forall|t: int| 0 <= t < j ==> #[trigger] row@[t] == target.grid[i as int][t],
                    decreases cols - j,
                {
                    let clear = if mode == 0 {
                        i > y || (i == y && j >= x)
                    } else if mode == 1 {
                        i < y || (i == y && j <= x)
                    } else {
                        true
                    };
                    proof {
                        assert(self.grid@.len() == self@.grid.len());
                        assert(self@.grid[i as int] == self.grid@[i as int]@);
                    }
                    let c = if clear {
                        Cell::default()
                    } else {
                        self.grid[i][j]
                    };
                    row.push(c);
                    j = j + 1;
                }
                proof {
                    assert(row@ =~= target.grid[i as int]);
                }
                ng.push(row);
                i = i + 1;
            }
            self.grid = ng;
            proof {
                assert(self@.grid =~~= target.grid);
                assert(self@ =~~= target);
            }
        }
    }

    /// Erase in line, on the cursor row: mode 0 from the cursor through
    /// the end of the line, mode 1 from the start through the cursor,
    /// mode 2 the whole line.
    #[verifier::loop_isolation(false)]
    fn erase_line(&mut self, mode: u16)
        requires
            old(self).wf(),
        ensures
            final(self)@ == old(self)@.erased_line(mode),
            final(self).wf(),
    {
        if mode <= 2 {
            let ghost target = old(self)@.erased_line(mode);
            let cols = self.cols;
            let x = self.cursor.x;
            let y = self.cursor.y;
            let mut row: Vec<Cell> = Vec::new();
            let mut j: usize = 0;
            while j < cols
                invariant
                    j <= cols,
                    row@.len() == j,
                    forall|t: int|
                        0 <= t < j ==> #[trigger] row@[t] == target.grid[old(self)@.cur_y as int][t],
                decreases cols - j,
            {
                let clear = if mode == 0 {
                    j >= x
                } else if mode == 1 {
                    j <= x
                } else {
                    true
                };
                proof {
                    assert(self.grid@.len() == self@.grid.len());
                    assert(self@.grid[y as int] == self.grid@[y as int]@);
                }
                let c = if clear {
                    Cell::default()
                } else {
                    self.grid[y][j]
                };
                row.push(c);
                j = j + 1;
            }
            self.grid[y] = row;
            proof {
                assert(self@.grid =~~= target.grid);
                assert(self@ =~~= target);
            }
        }
    }

    /// Apply one CSI command, selected by its final byte, to the screen.
    fn csi_dispatch(&mut self, params: &Vec<u16>, action: u8)
        requires
            old(self).wf(),
        ensures
            final(self)@ == old(self)@.csi_applied(params@, action),
            final(self).wf(),
    {
        let ghost pre = self@;
        if action == 0x48 || action == 0x66 {  // 'H' | 'f'
            let py = param_get(params, 0, 1);
            let px = param_get(params, 1, 1);
            let y: usize = if py == 0 {
                0
            } else {
                (py - 1) as usize
            };
            let x: usize = if px == 0 {
                0
            } else {
                (px - 1) as usize
            };
            let ylim = self.rows - 1;
            let xlim = self.cols - 1;
            self.cursor.y = if y <= ylim {
                y
            } else {
                ylim
            };
            self.cursor.x = if x <= xlim {
                x
            } else {
                xlim
            };
            proof {
                assert(self@ =~~= pre.csi_applied(params@, action));
            }
        } else if action == 0x41 {  // 'A'
            let p = param_get(params, 0, 1);
            let n: usize = if p == 0 {
                1
            } else {
                p as usize
            };
            self.cursor.y = if self.cursor.y >= n {
                self.cursor.y - n
            } else {
                0
            };
            proof {
                assert(self@ =~~= pre.csi_applied(params@, action));
            }
        } else if action == 0x42 {  // 'B'
            let p = param_get(params, 0, 1);
            let n: usize = if p == 0 {
                1
            } else {
                p as usize
            };
            let t = self.cursor.y + n;
            let lim = self.rows - 1;
            self.cursor.y = if t <= lim {
                t
            } else {
                lim
            };
            proof {
                assert(self@ =~~= pre.csi_applied(params@, action));
            }
        } else if action == 0x43 {  // 'C'
            let p = param_get(params, 0, 1);
            let n: usize = if p == 0 {
                1
            } else {
                p as usize
            };
            let t = self.cursor.x + n;
            let lim = self.cols - 1;
            self.cursor.x = if t <= lim {
                t
            } else {
                lim
            };
            proof {
                assert(self@ =~~= pre.csi_applied(params@, action));
            }
        } else if action == 0x44 {  // 'D'
            let p = param_get(params, 0, 1);
            let n: usize = if p == 0 {
                1
            } else {
                p as usize
            };
            self.cursor.x = if self.cursor.x >= n {
                self.cursor.x - n
            } else {
                0
            };
            proof {
                assert(self@ =~~= pre.csi_applied(params@, action));
            }
        } else if action == 0x4a {  // 'J'
            let m = param_get(params, 0, 0);
            self.erase_display(m);
        } else if action == 0x4b {  // 'K'
            let m = param_get(params, 0, 0);
            self.erase_line(m);
        } else if action == 0x6d {  // 'm'
            let r = apply_sgr(self.fg, self.bg, params);
            self.fg = r.0;
            self.bg = r.1;
            proof {
                assert(self@ =~~= pre.csi_applied(params@, action));
            }
        }
    }

    /// Apply one decoded action to the screen state.
    pub fn apply_action(&mut self, a: Action)
        requires
            old(self).wf(),
        ensures
            final(self)@ == old(self)@.applied(a),
            final(self).wf(),
    {
        match a {
            Action::Print(ch) => self.write_char(ch),
            Action::Execute(b) => self.execute_ctrl(b),
            Action::Csi(ps, f) => self.csi_dispatch(&ps, f),
            Action::Osc => (),
            Action::Esc => (),
        }
    }

    /// One byte in the ground state: print, execute, or open a sequence.
    fn ground_byte(&mut self, b: u8)
        requires
            old(self).wf(),
            old(self)@.parse == ParseView::Ground,
        ensures
            final(self)@ == old(self)@.stepped(b),
            final(self).wf(),
    {
        let ghost pre = self@;
        if b == 0x1b {
            self.state = ParserState::Escape;
            proof {
                assert(self@ =~~= pre.stepped(b));
            }
        } else if b < 0x20 {
            self.execute_ctrl(b);
        } else if b < 0x7f {
            self.write_char(b as char);
        } else if b == 0x7f {
        } else if 0xc2 <= b && b <= 0xdf {
            self.state = ParserState::Utf8 { need: 1, acc: (b - 0xc0) as u32 };
            proof {
                assert(self@ =~~= pre.stepped(b));
            }
        } else if 0xe0 <= b && b <= 0xef {
            self.state = ParserState::Utf8 { need: 2, acc: (b - 0xe0) as u32 };
            proof {
                assert(self@ =~~= pre.stepped(b));
            }
        } else if 0xf0 <= b && b <= 0xf4 {
            self.state = ParserState::Utf8 { need: 3, acc: (b - 0xf0) as u32 };
            proof {
                assert(self@ =~~= pre.stepped(b));
            }
        } else {
            self.write_char('\u{fffd}');
        }
    }

    /// One byte right after ESC: select the sequence kind.
    fn escape_byte(&mut self, b: u8)
        requires
            old(self).wf(),
            old(self)@.parse == ParseView::Escape,
        ensures
            final(self)@ == old(self)@.stepped(b),
            final(self).wf(),
    {
        let ghost pre = self@;
        if b == 0x5b {
            self.state = ParserState::Csi;
            self.csi_params = Vec::new();
            self.csi_current = 0;
            proof {
                assert(self@ =~~= pre.stepped(b));
            }
        } else if b == 0x5d {
            self.state = ParserState::Osc;
            proof {
                assert(self@ =~~= pre.stepped(b));
            }
        } else if b == 0x1b {
        } else {
            self.state = ParserState::Ground;
            proof {
                assert(self@ =~~= pre.stepped(b));
            }
        }
    }

    /// One byte inside a CSI sequence: collect parameters or dispatch.
    fn csi_byte(&mut self, b: u8)
        requires
            old(self).wf(),
            old(self)@.parse matches ParseView::Csi { .. },
        ensures
            final(self)@ == old(self)@.stepped(b),
            final(self).wf(),
    {
        let ghost pre = self@;
        if 0x30 <= b && b <= 0x39 {
            let v: u32 = (self.csi_current as u32) * 10 + ((b - 0x30) as u32);
            self.csi_current = if v > 0xffff {
                0xffff
            } else {
                v as u16
            };
            proof {
                assert(self@ =~~= pre.stepped(b));
            }
        } else if b == 0x3b {
            let cur = self.csi_current;
            self.csi_params.push(cur);
            self.csi_current = 0;
            proof {
                assert(self@ =~~= pre.stepped(b));
            }
        } else if 0x40 <= b && b <= 0x7e {
            let cur = self.csi_current;
            self.csi_params.push(cur);
            let mut ps: Vec<u16> = Vec::new();
            core::mem::swap(&mut ps, &mut self.csi_params);
            self.state = ParserState::Ground;
            let ghost mid = self@;
            proof {
                assert(mid =~~= pre.with_parse(ParseView::Ground));
            }
            self.csi_dispatch(&ps, b);
            proof {
                assert(self@ == mid.csi_applied(ps@, b));
                assert(self@ =~~= pre.csi_applied(ps@, b).with_parse(ParseView::Ground));
                assert(self@ =~~= pre.stepped(b));
            }
        } else if b == 0x1b {
            self.state = ParserState::Escape;
            proof {
                assert(self@ =~~= pre.stepped(b));
            }
        } else if b < 0x20 {
            self.execute_ctrl(b);
        } else {
        }
    }

    /// One byte inside an OSC sequence: look for its end.
    fn osc_byte(&mut self, b: u8)
        requires
            old(self).wf(),
            old(self)@.parse == ParseView::Osc,
        ensures
            final(self)@ == old(self)@.stepped(b),
            final(self).wf(),
    {
        let ghost pre = self@;
        if b == 0x07 {
            self.state = ParserState::Ground;
            proof {
                assert(self@ =~~= pre.stepped(b));
            }
        } else if b == 0x1b {
            self.state = ParserState::Escape;
            proof {
                assert(self@ =~~= pre.stepped(b));
            }
        }
    }

    /// One byte inside a UTF-8 sequence: accumulate or finish the code
    /// point; a non-continuation byte prints the replacement character
    /// and is then handled from the ground state.
    fn utf8_byte(&mut self, b: u8, need: u8, acc: u32)
        requires
            old(self).wf(),
            old(self)@.parse == (ParseView::Utf8 { need, acc }),
        ensures
            final(self)@ == old(self)@.stepped(b),
            final(self).wf(),
    {
        let ghost pre = self@;
        if 0x80 <= b && b <= 0xbf {
            let acc2: u32 = acc * 64 + ((b - 0x80) as u32);
            if need == 1 {
                self.state = ParserState::Ground;
                proof {
                    assert(self@ =~~= pre.with_parse(ParseView::Ground));
                }
                match char::from_u32(acc2) {
                    Some(c) => {
                        proof {
                            vstd::utf8::char_u32_cast(c, acc2);
                            assert((acc2 as char) == c);
                        }
                        self.write_char(c);
                        proof {
                            assert(self@ =~~= pre.stepped(b));
                        }
                    },
                    None => {
                        self.write_char('\u{fffd}');
                        proof {
                            assert(self@ =~~= pre.stepped(b));
                        }
                    },
                }
            } else {
                self.state = ParserState::Utf8 { need: need - 1, acc: acc2 };
                proof {
                    assert(self@ =~~= pre.stepped(b));
                }
            }
        } else {
            self.state = ParserState::Ground;
            proof {
                assert(self@ =~~= pre.with_parse(ParseView::Ground));
            }
            self.write_char('\u{fffd}');
            proof {
                assert(self@ =~~= (TermView { parse: ParseView::Ground, ..pre.printed(
                    '\u{fffd}',
                ) }));
            }
            self.ground_byte(b);
        }
    }

    /// Feed one byte to the tokenizer, applying whatever it completes.
    fn advance_byte(&mut self, b: u8)
        requires
            old(self).wf(),
        ensures
            final(self)@ == old(self)@.stepped(b),
            final(self).wf(),
    {
        match self.state {
            ParserState::Ground => self.ground_byte(b),
            ParserState::Escape => self.escape_byte(b),
            ParserState::Csi => self.csi_byte(b),
            ParserState::Osc => self.osc_byte(b),
            ParserState::Utf8 { need, acc } => self.utf8_byte(b, need, acc),
        }
    }

    /// Feed a chunk of raw output bytes to the terminal, in order.
    #[verifier::loop_isolation(false)]
    pub fn feed_bytes(&mut self, bytes: &[u8])
        requires
            old(self).wf(),
        ensures
            final(self)@ == old(self)@.fed(bytes@),
            final(self).wf(),
    {
        let n = bytes.len();
        let mut i: usize = 0;
        while i < n
            invariant
                i <= n,
                self.wf(),
                self@ == old(self)@.fed(bytes@.take(i as int)),
            decreases n - i,
        {
            let b = bytes[i];
            self.advance_byte(b);
            i = i + 1;
            proof {
                assert(bytes@.take(i as int).drop_last() =~= bytes@.take(i as int - 1));
                assert(bytes@.take(i as int).last() == bytes@[i as int - 1]);
            }
        }
        proof {
            assert(bytes@.take(n as int) =~= bytes@);
        }
    }

    /// Adopt a new size: the overlapping top-left region keeps its
    /// content, new cells are blank, dropped cells are gone for good, and
    /// the cursor is clamped into the new bounds.
    #[verifier::loop_isolation(false)]
    pub fn resize(&mut self, cols: usize, rows: usize)
        requires
            old(self).wf(),
            1 <= cols <= 0xffff,
            1 <= rows <= 0xffff,
        ensures
            final(self)@ == old(self)@.resized(cols as nat, rows as nat),
            final(self).wf(),
    {
        let ghost target = old(self)@.resized(cols as nat, rows as nat);
        let mut ng: Vec<Vec<Cell>> = Vec::new();
        let mut i: usize = 0;
        while i < rows
            invariant
                i <= rows,
                ng@.len() == i,
                forall|k: int| 0 <= k < i ==> (#[trigger] ng@[k])@ == target.grid[k],
            decreases rows - i,
        {
            let mut row: Vec<Cell> = Vec::new();
            let mut j: usize = 0;
            while j < cols
                invariant
                    j <= cols,
                    i < rows,
                    row@.len() == j,
                    forall|t: int| 0 <= t < j ==> #[trigger] row@[t] == target.grid[i as int][t],
                decreases cols - j,
            {
                proof {
                    assert(self.grid@.len() == self@.grid.len());
                    if i < self@.rows {
                        assert(self@.grid[i as int] == self.grid@[i as int]@);
                    }
                }
                let c = if i < self.rows && j < self.cols {
                    self.grid[i][j]
                } else {
                    Cell::default()
                };
                row.push(c);
                j = j + 1;
            }
            proof {
                assert(row@ =~= target.grid[i as int]);
            }
            ng.push(row);
            i = i + 1;
        }
        self.grid = ng;
        self.cols = cols;
        self.rows = rows;
        if self.cursor.x > cols - 1 {
            self.cursor.x = cols - 1;
        }
        if self.cursor.y > rows - 1 {
            self.cursor.y = rows - 1;
        }
        proof {
            assert(self@.grid =~~= target.grid);
            assert(self@ =~~= target);
        }
    }
}

} // verus!
