//! The general properties of the screen-state engine, stated and proved
//! over the mathematical model.

use vstd::prelude::*;

use crate::action::Action;
use crate::cell::{default_bg, default_cell, default_fg, Cell, Color};
use crate::model::{param_at, parse_rank, TermView};
use crate::parser::ParseView;

verus! {

/// Scrolling keeps the grid a full `rows` by `cols` rectangle.
proof fn lemma_scrolled_shape(v: TermView, n: nat)
    requires
        v.grid.len() == v.rows,
        forall|i: int| 0 <= i < v.rows ==> (#[trigger] v.grid[i]).len() == v.cols,
        n <= v.rows,
    ensures
        v.scrolled(n).grid.len() == v.rows,
        forall|i: int| 0 <= i < v.rows ==> (#[trigger] v.scrolled(n).grid[i]).len() == v.cols,
{
    assert forall|i: int| 0 <= i < v.rows implies (#[trigger] v.scrolled(n).grid[i]).len()
        == v.cols by {
        if i < v.rows - n {
            assert(v.scrolled(n).grid[i] == v.grid[i + n]);
        }
    }
}

/// Printing one character preserves well-formedness.
pub proof fn lemma_printed_wf(v: TermView, ch: char)
    requires
        v.wf(),
    ensures
        v.printed(ch).wf(),
{
    let v1 = if v.cur_x >= v.cols {
        TermView { cur_x: 0, cur_y: v.cur_y + 1, ..v }
    } else {
        v
    };
    if v1.cur_y >= v1.rows {
        lemma_scrolled_shape(v1, 1);
    }
}

/// Executing one control byte preserves well-formedness.
pub proof fn lemma_executed_wf(v: TermView, b: u8)
    requires
        v.wf(),
    ensures
        v.executed(b).wf(),
{
    if b == 0x0a && v.cur_y + 1 >= v.rows {
        lemma_scrolled_shape(v, 1);
    }
}

/// Erasure, cursor movement and color changes by one CSI command
/// preserve well-formedness.
pub proof fn lemma_csi_wf(v: TermView, ps: Seq<u16>, action: u8)
    requires
        v.wf(),
    ensures
        v.csi_applied(ps, action).wf(),
{
    if action == 0x4b {
        let mode = param_at(ps, 0, 0);
        if mode <= 2 {
            assert(v.erased_line(mode).grid.len() == v.rows);
        }
    }
}

/// One tokenized byte preserves well-formedness: the grid keeps exactly
/// `rows` rows of exactly `cols` cells, and the cursor stays in bounds.
pub proof fn lemma_step_preserves_invariants(v: TermView, b: u8)
    requires
        v.wf(),
    ensures
        v.stepped(b).wf(),
    decreases parse_rank(v.parse),
{
    match v.parse {
        ParseView::Ground => {
            if b == 0x1b {
            } else if b < 0x20 {
                lemma_executed_wf(v, b);
            } else if b < 0x7f {
                lemma_printed_wf(v, b as char);
            } else if b == 0x7f {
            } else if b < 0xc2 || b > 0xf4 {
                lemma_printed_wf(v, '\u{fffd}');
            }
        },
        ParseView::Escape => {},
        ParseView::Csi { params, current } => {
            if 0x40 <= b && b <= 0x7e {
                lemma_csi_wf(v, params.push(current), b);
            } else if b < 0x20 && b != 0x1b && !(0x30 <= b && b <= 0x39) && b != 0x3b {
                lemma_executed_wf(v, b);
            }
        },
        ParseView::Osc => {},
        ParseView::Utf8 { need, acc } => {
            if 0x80 <= b && b <= 0xbf {
                if need == 1 {
                    let acc2 = (acc * 64 + (b - 0x80)) as u32;
                    let g = v.with_parse(ParseView::Ground);
                    if vstd::utf8::is_scalar(acc2) {
                        lemma_printed_wf(g, acc2 as char);
                    } else {
                        lemma_printed_wf(g, '\u{fffd}');
                    }
                }
            } else {
                let g = TermView { parse: ParseView::Ground, ..v.printed('\u{fffd}') };
                lemma_printed_wf(v, '\u{fffd}');
                lemma_step_preserves_invariants(g, b);
            }
        },
    }
}

/// Any decoded action preserves well-formedness.
pub proof fn lemma_action_preserves_invariants(v: TermView, a: &Action)
    requires
        v.wf(),
    ensures
        v.applied(*a).wf(),
{
    match a {
        Action::Print(ch) => lemma_printed_wf(v, *ch),
        Action::Execute(b) => lemma_executed_wf(v, *b),
        Action::Csi(ps, f) => lemma_csi_wf(v, ps@, *f),
        Action::Osc => {},
        Action::Esc => {},
    }
}

/// Adopting any accepted size preserves well-formedness: the grid is a
/// full rectangle of the new dimensions and the cursor lies inside it.
pub proof fn lemma_resized_wf(v: TermView, cols: nat, rows: nat)
    requires
        v.wf(),
        1 <= cols <= 0xffff,
        1 <= rows <= 0xffff,
    ensures
        v.resized(cols, rows).wf(),
{
}

/// A whole byte chunk preserves well-formedness: after any sequence of
/// fed bytes the grid is a full `rows` by `cols` rectangle and the
/// cursor is in bounds.
pub proof fn lemma_feed_preserves_invariants(v: TermView, bs: Seq<u8>)
    requires
        v.wf(),
    ensures
        v.fed(bs).wf(),
    decreases bs.len(),
{
    if bs.len() > 0 {
        lemma_feed_preserves_invariants(v, bs.drop_last());
        lemma_step_preserves_invariants(v.fed(bs.drop_last()), bs.last());
    }
}

/// Byte chunks arriving in order are one stream: feeding chunk `a` and
/// then chunk `b` is the same as feeding their concatenation. Hence the
/// producer may hand over the stream in any chunking, as long as the
/// order of the bytes is kept.
pub proof fn lemma_feed_in_order(v: TermView, a: Seq<u8>, b: Seq<u8>)
    ensures
        v.fed(a + b) == v.fed(a).fed(b),
    decreases b.len(),
{
    if b.len() == 0 {
        assert(a + b =~= a);
    } else {
        lemma_feed_in_order(v, a, b.drop_last());
        assert((a + b).drop_last() =~= a + b.drop_last());
        assert((a + b).last() == b.last());
    }
}

/// A cursor-position command without parameters is the same as one with
/// the explicit parameters 1;1: both home the cursor.
pub proof fn lemma_csi_default_home(v: TermView)
    requires
        v.wf(),
    ensures
        v.csi_applied(Seq::empty(), 0x48) == v.csi_applied(seq![1u16, 1u16], 0x48),
{
}

/// The same, at the byte level: from the ground state, the sequence
/// `ESC [ H` without parameters changes the terminal exactly as
/// `ESC [ 1 ; 1 H` does.
#[verifier::rlimit(100)]
pub proof fn lemma_home_default_bytes(v: TermView)
    requires
        v.wf(),
        v.parse == ParseView::Ground,
    ensures
        v.fed(seq![0x1bu8, 0x5bu8, 0x48u8]) == v.fed(
            seq![0x1bu8, 0x5bu8, 0x31u8, 0x3bu8, 0x31u8, 0x48u8],
        ),
{
    let short = seq![0x1bu8, 0x5bu8, 0x48u8];
    let long = seq![0x1bu8, 0x5bu8, 0x31u8, 0x3bu8, 0x31u8, 0x48u8];
    assert(short.drop_last() =~= seq![0x1bu8, 0x5bu8]);
    assert(short.drop_last().drop_last() =~= seq![0x1bu8]);
    assert(short.drop_last().drop_last().drop_last() =~= Seq::<u8>::empty());
    assert(long.drop_last() =~= seq![0x1bu8, 0x5bu8, 0x31u8, 0x3bu8, 0x31u8]);
    assert(long.drop_last().drop_last() =~= seq![0x1bu8, 0x5bu8, 0x31u8, 0x3bu8]);
    assert(long.drop_last().drop_last().drop_last() =~= seq![0x1bu8, 0x5bu8, 0x31u8]);
    assert(long.drop_last().drop_last().drop_last().drop_last() =~= seq![0x1bu8, 0x5bu8]);
    assert(long.drop_last().drop_last().drop_last().drop_last().drop_last() =~= seq![0x1bu8]);
    let open = v.stepped(0x1b).stepped(0x5b);
    assert(open == v.with_parse(ParseView::Csi { params: Seq::empty(), current: 0 }));
    assert(v.fed(Seq::<u8>::empty()) == v);
    assert(v.fed(seq![0x1bu8]) == v.stepped(0x1b));
    assert(v.fed(seq![0x1bu8, 0x5bu8]) == open);
    assert(v.fed(short) == open.stepped(0x48));
    assert(v.fed(seq![0x1bu8, 0x5bu8, 0x31u8]) == open.stepped(0x31));
    assert(v.fed(seq![0x1bu8, 0x5bu8, 0x31u8, 0x3bu8]) == open.stepped(0x31).stepped(0x3b));
    assert(v.fed(seq![0x1bu8, 0x5bu8, 0x31u8, 0x3bu8, 0x31u8]) == open.stepped(0x31).stepped(
        0x3b,
    ).stepped(0x31));
    assert(v.fed(long) == open.stepped(0x31).stepped(0x3b).stepped(0x31).stepped(0x48));
    assert(Seq::<u16>::empty().push(0u16) =~= seq![0u16]);
    assert(open.stepped(0x31) == v.with_parse(ParseView::Csi { params: Seq::empty(), current: 1 }));
    assert(Seq::<u16>::empty().push(1u16) =~= seq![1u16]);
    assert(seq![1u16].push(1u16) =~= seq![1u16, 1u16]);
    assert(v.fed(short) == v.csi_applied(
        Seq::<u16>::empty().push(0u16),
        0x48,
    ).with_parse(ParseView::Ground));
    assert(v.fed(long) == v.csi_applied(seq![1u16, 1u16], 0x48).with_parse(ParseView::Ground));
    assert(v.csi_applied(seq![0u16], 0x48) == v.csi_applied(seq![1u16, 1u16], 0x48));
}

/// Erase-in-display mode 1 clears exactly the cells from the start of
/// the screen through the cursor, inclusive, and leaves the rest alone.
pub proof fn lemma_erase_display_start_through_cursor(v: TermView, i: int, j: int)
    requires
        v.wf(),
        0 <= i < v.rows,
        0 <= j < v.cols,
    ensures
        v.csi_applied(seq![1u16], 0x4a).grid[i][j] == if v.at_or_before_cursor(i, j) {
            default_cell()
        } else {
            v.grid[i][j]
        },
{
    assert(param_at(seq![1u16], 0, 0) == 1);
}

/// Erase-in-line mode 0 clears exactly the cells from the cursor through
/// the end of the cursor row, inclusive, and leaves every other cell of
/// the grid alone.
pub proof fn lemma_erase_line_cursor_through_end(v: TermView, i: int, j: int)
    requires
        v.wf(),
        0 <= i < v.rows,
        0 <= j < v.cols,
    ensures
        i == v.cur_y ==> v.csi_applied(seq![0u16], 0x4b).grid[i][j] == if j >= v.cur_x {
            default_cell()
        } else {
            v.grid[i][j]
        },
        i != v.cur_y ==> v.csi_applied(seq![0u16], 0x4b).grid[i][j] == v.grid[i][j],
{
    assert(param_at(seq![0u16], 0, 0) == 0);
}

/// Setting a direct RGB foreground and printing places a cell carrying
/// exactly that color; a subsequent SGR reset and print places a cell in
/// the default colors again.
pub proof fn lemma_sgr_roundtrip(v: TermView, r: u16, g: u16, b: u16, c1: char, c2: char)
    requires
        v.wf(),
        r <= 255,
        g <= 255,
        b <= 255,
        v.cur_x + 1 < v.cols,
    ensures
        ({
            let w = v.csi_applied(seq![38u16, 2u16, r, g, b], 0x6d).printed(c1);
            let w2 = w.csi_applied(seq![0u16], 0x6d).printed(c2);
            &&& w.grid[v.cur_y as int][v.cur_x as int] == (Cell {
                c: c1,
                fg: Color { r: r as u8, g: g as u8, b: b as u8 },
                bg: v.bg,
            })
            &&& w2.grid[v.cur_y as int][v.cur_x as int + 1] == (Cell {
                c: c2,
                fg: default_fg(),
                bg: default_bg(),
            })
        }),
{
    let ps = seq![38u16, 2u16, r, g, b];
    assert(ps.skip(5) =~= Seq::<u16>::empty());
    let c = Color { r: r as u8, g: g as u8, b: b as u8 };
    assert(crate::sgr::sgr_applied(c, v.bg, Seq::<u16>::empty()) == (c, v.bg));
    assert(crate::sgr::sgr_applied(v.fg, v.bg, ps) == (c, v.bg));
    let w = v.csi_applied(ps, 0x6d).printed(c1);
    assert(w.grid[v.cur_y as int][v.cur_x as int] == (Cell { c: c1, fg: c, bg: v.bg }));
    let reset = seq![0u16];
    assert(reset.skip(1) =~= Seq::<u16>::empty());
    assert(crate::sgr::sgr_applied(default_fg(), default_bg(), Seq::<u16>::empty()) == (
    default_fg(),
    default_bg(),
    ));
    assert(crate::sgr::sgr_applied(w.fg, w.bg, reset) == (default_fg(), default_bg()));
}

/// Characters printed into a row with enough room land consecutively in
/// that row, in the current colors; nothing else of the grid changes.
/// Printing one character with room left in the row places one cell at
/// the cursor and advances the cursor column; nothing else changes.
proof fn lemma_print_one(w1: TermView, ch: char)
    requires
        w1.wf(),
        w1.cur_x < w1.cols,
    ensures
        ({
            let w = w1.printed(ch);
            &&& w.cur_x == w1.cur_x + 1
            &&& w.cur_y == w1.cur_y
            &&& w.cols == w1.cols
            &&& w.rows == w1.rows
            &&& w.fg == w1.fg
            &&& w.bg == w1.bg
            &&& w.parse == w1.parse
            &&& w.wf()
            &&& w.grid.len() == w1.grid.len()
            &&& (forall|i: int|
                0 <= i < w1.rows && i != w1.cur_y ==> #[trigger] w.grid[i] == w1.grid[i])
            &&& (forall|t: int|
                0 <= t < w1.cols && t != w1.cur_x ==> #[trigger] w.grid[w1.cur_y as int][t]
                    == w1.grid[w1.cur_y as int][t])
            &&& w.grid[w1.cur_y as int][w1.cur_x as int] == (Cell { c: ch, fg: w1.fg, bg: w1.bg })
        }),
{
    lemma_printed_wf(w1, ch);
}

pub proof fn lemma_fill_row(v: TermView, cs: Seq<char>)
    requires
        v.wf(),
        v.cur_x + cs.len() <= v.cols,
    ensures
        ({
            let w = v.printed_all(cs);
            &&& w.cur_x == v.cur_x + cs.len()
            &&& w.cur_y == v.cur_y
            &&& w.cols == v.cols
            &&& w.rows == v.rows
            &&& w.fg == v.fg
            &&& w.bg == v.bg
            &&& w.parse == v.parse
            &&& w.wf()
            &&& w.grid.len() == v.grid.len()
            &&& (forall|i: int|
                0 <= i < v.rows && i != v.cur_y ==> #[trigger] w.grid[i] == v.grid[i])
            &&& (forall|t: int|
                0 <= t < cs.len() ==> #[trigger] w.grid[v.cur_y as int][v.cur_x + t] == (Cell {
                    c: cs[t],
                    fg: v.fg,
                    bg: v.bg,
                }))
            &&& (forall|t: int|
                0 <= t < v.cols && !(v.cur_x <= t < v.cur_x + cs.len())
                    ==> #[trigger] w.grid[v.cur_y as int][t] == v.grid[v.cur_y as int][t])
        }),
    decreases cs.len(),
{
    if cs.len() > 0 {
        lemma_fill_row(v, cs.drop_last());
        let w1 = v.printed_all(cs.drop_last());
        lemma_print_one(w1, cs.last());
        let w = w1.printed(cs.last());
        assert(v.printed_all(cs) == w);
        assert forall|t: int| 0 <= t < cs.len() implies #[trigger] w.grid[v.cur_y as int][v.cur_x
            + t] == (Cell { c: cs[t], fg: v.fg, bg: v.bg }) by {
            if t < cs.len() - 1 {
                assert(cs.drop_last()[t] == cs[t]);
                assert(w.grid[v.cur_y as int][v.cur_x + t] == w1.grid[v.cur_y as int][v.cur_x
                    + t]);
            } else {
                assert(v.cur_x + t == w1.cur_x);
            }
        }
    }
}

/// Wrap correctness: filling a fresh row with exactly `cols` characters
/// leaves the cursor one past the last column; one more character lands
/// at column 0 of the next row, the screen scrolling up by one row when
/// the cursor was already on the last row.
pub proof fn lemma_wrap_correctness(v: TermView, cs: Seq<char>, extra: char)
    requires
        v.wf(),
        v.cur_x == 0,
        cs.len() == v.cols,
    ensures
        ({
            let w = v.printed_all(cs);
            let w2 = w.printed(extra);
            &&& w.cur_x == v.cols
            &&& w.cur_y == v.cur_y
            &&& w2.cur_x == 1
            &&& (v.cur_y + 1 < v.rows ==> w2.cur_y == v.cur_y + 1 && w2.grid[v.cur_y as int + 1][0]
                == (Cell { c: extra, fg: v.fg, bg: v.bg }))
            &&& (v.cur_y + 1 == v.rows ==> w2.cur_y == v.cur_y && w2.grid[v.cur_y as int][0]
                == (Cell { c: extra, fg: v.fg, bg: v.bg }))
        }),
{
    lemma_fill_row(v, cs);
    let w = v.printed_all(cs);
    let v1 = TermView { cur_x: 0, cur_y: w.cur_y + 1, ..w };
    if v.cur_y + 1 >= v.rows {
        lemma_scrolled_shape(v1, 1);
    }
}

/// Shrinking the screen and growing it back preserves the content of the
/// region that never left the bounds; everything outside the shrunken
/// bounds is lost for good and comes back blank.
pub proof fn lemma_resize_roundtrip(v: TermView, cols2: nat, rows2: nat, i: int, j: int)
    requires
        v.wf(),
        1 <= cols2 <= v.cols,
        1 <= rows2 <= v.rows,
        0 <= i < v.rows,
        0 <= j < v.cols,
    ensures
        ({
            let w = v.resized(cols2, rows2).resized(v.cols, v.rows);
            &&& w.cols == v.cols
            &&& w.rows == v.rows
            &&& (i < rows2 && j < cols2 ==> w.grid[i][j] == v.grid[i][j])
            &&& (i >= rows2 || j >= cols2 ==> w.grid[i][j] == default_cell())
        }),
{
}

} // verus!
