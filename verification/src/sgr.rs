//! Select Graphic Rendition: how an SGR parameter list changes the current
//! foreground and background colors.

use vstd::prelude::*;

use crate::cell::Color;

verus! {

/// The classic 16-color palette: the eight named colors, then their bright
/// variants, with the usual xterm channel values.
pub open spec fn palette16(n: u8) -> Color
    recommends
        n < 16,
{
    if n == 0 {
        Color { r: 0, g: 0, b: 0 }
    } else if n == 1 {
        Color { r: 205, g: 0, b: 0 }
    } else if n == 2 {
        Color { r: 0, g: 205, b: 0 }
    } else if n == 3 {
        Color { r: 205, g: 205, b: 0 }
    } else if n == 4 {
        Color { r: 0, g: 0, b: 238 }
    } else if n == 5 {
        Color { r: 205, g: 0, b: 205 }
    } else if n == 6 {
        Color { r: 0, g: 205, b: 205 }
    } else if n == 7 {
        Color { r: 229, g: 229, b: 229 }
    } else if n == 8 {
        Color { r: 127, g: 127, b: 127 }
    } else if n == 9 {
        Color { r: 255, g: 0, b: 0 }
    } else if n == 10 {
        Color { r: 0, g: 255, b: 0 }
    } else if n == 11 {
        Color { r: 255, g: 255, b: 0 }
    } else if n == 12 {
        Color { r: 92, g: 92, b: 255 }
    } else if n == 13 {
        Color { r: 255, g: 0, b: 255 }
    } else if n == 14 {
        Color { r: 0, g: 255, b: 255 }
    } else {
        Color { r: 255, g: 255, b: 255 }
    }
}

/// One channel of the 6x6x6 color cube: step 0 is 0, step c is 55 + 40c.
pub open spec fn cube_channel(c: u8) -> u8
    recommends
        c < 6,
{
    if c == 0 {
        0
    } else {
        (55 + 40 * c) as u8
    }
}

/// The 256-color palette: the 16 named colors, a 6x6x6 color cube, and a
/// 24-step gray ramp.
pub open spec fn color256(n: u8) -> Color {
    if n < 16 {
        palette16(n)
    } else if n < 232 {
        let m = (n - 16) as u8;
        Color {
            r: cube_channel((m / 36) as u8),
            g: cube_channel(((m % 36) / 6) as u8),
            b: cube_channel((m % 6) as u8),
        }
    } else {
        let v = (8 + 10 * (n - 232)) as u8;
        Color { r: v, g: v, b: v }
    }
}

/// A color parameter clamped into one byte.
pub open spec fn clamp255(p: u16) -> u8 {
    if p > 255 {
        255
    } else {
        p as u8
    }
}

/// The colors after applying one SGR parameter list, in order.
///
/// Parameter 0 resets both colors to the defaults. 30-37 and 90-97 pick a
/// foreground from the 16-color palette, 40-47 and 100-107 a background.
/// 38 and 48 introduce an extended color: `38;5;n` from the 256-color
/// palette, `38;2;r;g;b` a direct RGB value. A malformed extended-color
/// introducer ends the interpretation of the list; any other parameter is
/// ignored and interpretation continues.
pub open spec fn sgr_applied(fg: Color, bg: Color, ps: Seq<u16>) -> (Color, Color)
    decreases ps.len(),
{
    if ps.len() == 0 {
        (fg, bg)
    } else {
        let p = ps[0];
        if p == 0 {
            sgr_applied(
                Color { r: 255, g: 255, b: 255 },
                Color { r: 0, g: 0, b: 0 },
                ps.skip(1),
            )
        } else if 30 <= p && p <= 37 {
            sgr_applied(palette16((p - 30) as u8), bg, ps.skip(1))
        } else if 90 <= p && p <= 97 {
            sgr_applied(palette16((p - 90 + 8) as u8), bg, ps.skip(1))
        } else if 40 <= p && p <= 47 {
            sgr_applied(fg, palette16((p - 40) as u8), ps.skip(1))
        } else if 100 <= p && p <= 107 {
            sgr_applied(fg, palette16((p - 100 + 8) as u8), ps.skip(1))
        } else if p == 38 || p == 48 {
            if ps.len() >= 3 && ps[1] == 5 {
                let c = color256(clamp255(ps[2]));
                if p == 38 {
                    sgr_applied(c, bg, ps.skip(3))
                } else {
                    sgr_applied(fg, c, ps.skip(3))
                }
            } else if ps.len() >= 5 && ps[1] == 2 {
                let c = Color { r: clamp255(ps[2]), g: clamp255(ps[3]), b: clamp255(ps[4]) };
                if p == 38 {
                    sgr_applied(c, bg, ps.skip(5))
                } else {
                    sgr_applied(fg, c, ps.skip(5))
                }
            } else {
                (fg, bg)
            }
        } else {
            sgr_applied(fg, bg, ps.skip(1))
        }
    }
}

/// The 16-color palette as executable code.
pub fn palette16_lookup(n: u8) -> (c: Color)
    requires
        n < 16,
    ensures
        c == palette16(n),
{
    if n == 0 {
        Color { r: 0, g: 0, b: 0 }
    } else if n == 1 {
        Color { r: 205, g: 0, b: 0 }
    } else if n == 2 {
        Color { r: 0, g: 205, b: 0 }
    } else if n == 3 {
        Color { r: 205, g: 205, b: 0 }
    } else if n == 4 {
        Color { r: 0, g: 0, b: 238 }
    } else if n == 5 {
        Color { r: 205, g: 0, b: 205 }
    } else if n == 6 {
        Color { r: 0, g: 205, b: 205 }
    } else if n == 7 {
        Color { r: 229, g: 229, b: 229 }
    } else if n == 8 {
        Color { r: 127, g: 127, b: 127 }
    } else if n == 9 {
        Color { r: 255, g: 0, b: 0 }
    } else if n == 10 {
        Color { r: 0, g: 255, b: 0 }
    } else if n == 11 {
        Color { r: 255, g: 255, b: 0 }
    } else if n == 12 {
        Color { r: 92, g: 92, b: 255 }
    } else if n == 13 {
        Color { r: 255, g: 0, b: 255 }
    } else if n == 14 {
        Color { r: 0, g: 255, b: 255 }
    } else {
        Color { r: 255, g: 255, b: 255 }
    }
}

/// One cube channel as executable code.
fn cube_lookup(c: u8) -> (v: u8)
    requires
        c < 6,
    ensures
        v == cube_channel(c),
{
    if c == 0 {
        0
    } else {
        55 + 40 * c
    }
}

/// The 256-color palette as executable code.
pub fn color256_lookup(n: u8) -> (c: Color)
    ensures
        c == color256(n),
{
    if n < 16 {
        palette16_lookup(n)
    } else if n < 232 {
        let m = n - 16;
        Color { r: cube_lookup(m / 36), g: cube_lookup((m % 36) / 6), b: cube_lookup(m % 6) }
    } else {
        let v = 8 + 10 * (n - 232);
        Color { r: v, g: v, b: v }
    }
}

/// A color parameter clamped into one byte, as executable code.
pub fn clamp_param(p: u16) -> (b: u8)
    ensures
        b == clamp255(p),
{
    if p > 255 {
        255
    } else {
        p as u8
    }
}

/// Apply an SGR parameter list to a pair of colors.
pub fn apply_sgr(fg: Color, bg: Color, params: &Vec<u16>) -> (r: (Color, Color))
    ensures
        r == sgr_applied(fg, bg, params@),
{
    let mut f = fg;
    let mut b = bg;
    let mut i: usize = 0;
    proof {
        assert(params@.skip(0) =~= params@);
    }
    while i < params.len()
        invariant
            i <= params.len(),
            sgr_applied(fg, bg, params@) == sgr_applied(f, b, params@.skip(i as int)),
        decreases params.len() - i,
    {
        let p = params[i];
        proof {
            assert(params@.skip(i as int)[0] == params@[i as int]);
            assert(params@.skip(i as int).skip(1) =~= params@.skip(i as int + 1));
        }
        if p == 0 {
            f = Color { r: 255, g: 255, b: 255 };
            b = Color { r: 0, g: 0, b: 0 };
            i = i + 1;
        } else if 30 <= p && p <= 37 {
            f = palette16_lookup((p - 30) as u8);
            i = i + 1;
        } else if 90 <= p && p <= 97 {
            f = palette16_lookup((p - 90 + 8) as u8);
            i = i + 1;
        } else if 40 <= p && p <= 47 {
            b = palette16_lookup((p - 40) as u8);
            i = i + 1;
        } else if 100 <= p && p <= 107 {
            b = palette16_lookup((p - 100 + 8) as u8);
            i = i + 1;
        } else if p == 38 || p == 48 {
            if params.len() - i >= 3 && params[i + 1] == 5 {
                proof {
                    assert(params@.skip(i as int)[1] == params@[i as int + 1]);
                    assert(params@.skip(i as int)[2] == params@[i as int + 2]);
                    assert(params@.skip(i as int).skip(3) =~= params@.skip(i as int + 3));
                }
                let c = color256_lookup(clamp_param(params[i + 2]));
                if p == 38 {
                    f = c;
                } else {
                    b = c;
                }
                i = i + 3;
            } else if params.len() - i >= 5 && params[i + 1] == 2 {
                proof {
                    assert(params@.skip(i as int)[1] == params@[i as int + 1]);
                    assert(params@.skip(i as int)[2] == params@[i as int + 2]);
                    assert(params@.skip(i as int)[3] == params@[i as int + 3]);
                    assert(params@.skip(i as int)[4] == params@[i as int + 4]);
                    assert(params@.skip(i as int).skip(5) =~= params@.skip(i as int + 5));
                }
                let c = Color {
                    r: clamp_param(params[i + 2]),
                    g: clamp_param(params[i + 3]),
                    b: clamp_param(params[i + 4]),
                };
                if p == 38 {
                    f = c;
                } else {
                    b = c;
                }
                i = i + 5;
            } else {
                // A malformed extended-color introducer ends the list.
                i = params.len();
            }
        } else {
            i = i + 1;
        }
    }
    proof {
        assert(params@.skip(params@.len() as int) =~= Seq::<u16>::empty());
    }
    (f, b)
}

} // verus!
