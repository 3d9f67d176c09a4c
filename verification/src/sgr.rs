//! Select Graphic Rendition: the colour parameters of `CSI ... m`.

use vstd::prelude::*;

verus! {

/// A cell colour: the terminal's default, an entry of the 256-colour palette
/// (0..=15 are the 16 standard colours), or a 24-bit colour.
#[derive(Clone, Copy, Debug, PartialEq, Eq, Structural)]
pub enum Color {
    Default,
    Indexed(u8),
    Rgb(u8, u8, u8),
}

/// The colours with which the next printed characters are drawn.
#[derive(Clone, Copy, Debug, PartialEq, Eq, Structural)]
pub struct Pen {
    pub fg: Color,
    pub bg: Color,
}

pub open spec fn default_pen() -> Pen {
    Pen { fg: Color::Default, bg: Color::Default }
}

/// The colour that an extended selector (`38` or `48`) names with the parameters
/// `ps` that follow it, and how many of them it consumes:
/// `5;N` is palette entry N, `2;R;G;B` is a 24-bit colour. A missing or
/// out-of-range value gives no colour; the parameters read up to it are consumed.
pub open spec fn extended_color(ps: Seq<u16>) -> (Option<Color>, int) {
    if ps.len() == 0 {
        (None, 0)
    } else if ps[0] == 5 {
        if ps.len() < 2 {
            (None, 1)
        } else if ps[1] <= 255 {
            (Some(Color::Indexed(ps[1] as u8)), 2)
        } else {
            (None, 2)
        }
    } else if ps[0] == 2 {
        if ps.len() < 2 {
            (None, 1)
        } else if ps[1] > 255 {
            (None, 2)
        } else if ps.len() < 3 {
            (None, 2)
        } else if ps[2] > 255 {
            (None, 3)
        } else if ps.len() < 4 {
            (None, 3)
        } else if ps[3] > 255 {
            (None, 4)
        } else {
            (Some(Color::Rgb(ps[1] as u8, ps[2] as u8, ps[3] as u8)), 4)
        }
    } else {
        (None, 1)
    }
}

/// The effect of one parameter that stands alone.
pub open spec fn simple_sgr(pen: Pen, p: u16) -> Pen {
    if p == 0 {
        default_pen()
    } else if 30 <= p <= 37 {
        Pen { fg: Color::Indexed((p - 30) as u8), bg: pen.bg }
    } else if p == 39 {
        Pen { fg: Color::Default, bg: pen.bg }
    } else if 40 <= p <= 47 {
        Pen { fg: pen.fg, bg: Color::Indexed((p - 40) as u8) }
    } else if p == 49 {
        Pen { fg: pen.fg, bg: Color::Default }
    } else if 90 <= p <= 97 {
        Pen { fg: Color::Indexed((p - 90 + 8) as u8), bg: pen.bg }
    } else if 100 <= p <= 107 {
        Pen { fg: pen.fg, bg: Color::Indexed((p - 100 + 8) as u8) }
    } else {
        pen
    }
}

/// Sets the foreground (`38`) or background (`48`) colour, where one was named.
pub open spec fn set_extended(pen: Pen, selector: u16, color: Option<Color>) -> Pen {
    match color {
        Some(c) => if selector == 38 {
            Pen { fg: c, bg: pen.bg }
        } else {
            Pen { fg: pen.fg, bg: c }
        },
        None => pen,
    }
}

/// The pen after the parameters `ps`, read from left to right.
pub open spec fn sgr_params(pen: Pen, ps: Seq<u16>) -> Pen
    decreases ps.len(),
{
    if ps.len() == 0 {
        pen
    } else if ps[0] == 38 || ps[0] == 48 {
        let rest = ps.drop_first();
        let k = extended_color(rest).1;
        if 0 <= k <= rest.len() {
            sgr_params(set_extended(pen, ps[0], extended_color(rest).0), rest.skip(k))
        } else {
            pen
        }
    } else {
        sgr_params(simple_sgr(pen, ps[0]), ps.drop_first())
    }
}

/// The pen after `CSI ps m`: an empty parameter list resets it, as `0` does.
pub open spec fn sgr(pen: Pen, ps: Seq<u16>) -> Pen {
    if ps.len() == 0 {
        default_pen()
    } else {
        sgr_params(pen, ps)
    }
}

/// `CSI m` and `CSI 0 m` reset the pen to the default colours, whatever it was.
pub proof fn lemma_sgr_reset(pen: Pen)
    ensures
        sgr(pen, Seq::empty()) == default_pen(),
        sgr(pen, seq![0u16]) == default_pen(),
{
    let ps = seq![0u16];
    assert(ps[0] == 0);
    assert(ps.drop_first() =~= Seq::<u16>::empty());
    assert(sgr_params(simple_sgr(pen, 0), Seq::<u16>::empty()) == default_pen());
    reveal_with_fuel(sgr_params, 2);
}

/// Whether `a` names a colour change when it stands alone: reset, a standard or
/// bright colour, or a default colour.
pub open spec fn is_colour_code(a: u16) -> bool {
    a == 0 || (30 <= a <= 37) || a == 39 || (40 <= a <= 47) || a == 49 || (90 <= a <= 97) || (100 <= a <= 107)
}

/// What one parameter alone does: `0` resets both colours; `30`–`37` and
/// `90`–`97` set the foreground to standard colour 0–7 and 8–15, `40`–`47` and
/// `100`–`107` the background likewise; `39`/`49` restore the default
/// foreground/background; any other parameter (bold, underline, …) leaves the pen.
pub proof fn lemma_sgr_one_parameter(p: Pen, a: u16)
    requires
        a != 38 && a != 48,
    ensures
        a == 0 ==> sgr(p, seq![a]) == default_pen(),
        30 <= a <= 37 ==> sgr(p, seq![a]) == (Pen { fg: Color::Indexed((a - 30) as u8), bg: p.bg }),
        90 <= a <= 97 ==> sgr(p, seq![a]) == (Pen { fg: Color::Indexed((a - 82) as u8), bg: p.bg }),
        40 <= a <= 47 ==> sgr(p, seq![a]) == (Pen { fg: p.fg, bg: Color::Indexed((a - 40) as u8) }),
        100 <= a <= 107 ==> sgr(p, seq![a]) == (Pen { fg: p.fg, bg: Color::Indexed((a - 92) as u8) }),
        a == 39 ==> sgr(p, seq![a]) == (Pen { fg: Color::Default, bg: p.bg }),
        a == 49 ==> sgr(p, seq![a]) == (Pen { fg: p.fg, bg: Color::Default }),
        !is_colour_code(a) ==> sgr(p, seq![a]) == p,
{
    let ps = seq![a];
    assert(ps[0] == a);
    assert(ps.drop_first() =~= Seq::<u16>::empty());
    reveal_with_fuel(sgr_params, 2);
}

/// Every parameter is read: `CSI a;ps m` (for a parameter `a` that does not
/// start an extended colour) does what `CSI a m` and then `CSI ps m` do.
pub proof fn lemma_sgr_reads_every_parameter(p: Pen, a: u16, ps: Seq<u16>)
    requires
        a != 38 && a != 48,
        ps.len() > 0,
    ensures
        sgr(p, seq![a] + ps) == sgr(sgr(p, seq![a]), ps),
{
    let all = seq![a] + ps;
    assert(all[0] == a);
    assert(all.drop_first() =~= ps);
    let one = seq![a];
    assert(one.drop_first() =~= Seq::<u16>::empty());
    reveal_with_fuel(sgr_params, 2);
}

/// A parameter that changes no colour (bold, italic, underline, …) is skipped:
/// the parameters after it take effect as if it were absent.
pub proof fn lemma_sgr_skips_attributes(p: Pen, a: u16, ps: Seq<u16>)
    requires
        a != 38 && a != 48,
        !is_colour_code(a),
        ps.len() > 0,
    ensures
        sgr(p, seq![a] + ps) == sgr(p, ps),
{
    lemma_sgr_reads_every_parameter(p, a, ps);
    lemma_sgr_one_parameter(p, a);
}

/// The extended colours: `38;5;n` / `48;5;n` set the foreground / background to
/// palette entry n, and `38;2;r;g;b` / `48;2;r;g;b` to that 24-bit colour; the
/// parameters after them are read on, as after any parameter.
pub proof fn lemma_sgr_extended_colours(p: Pen, sel: u16, n: u16, r: u16, g: u16, b: u16, ps: Seq<u16>)
    requires
        sel == 38 || sel == 48,
        n <= 255,
        r <= 255,
        g <= 255,
        b <= 255,
        ps.len() > 0,
    ensures
        sgr(p, seq![sel, 5, n]) == (if sel == 38 {
            Pen { fg: Color::Indexed(n as u8), bg: p.bg }
        } else {
            Pen { fg: p.fg, bg: Color::Indexed(n as u8) }
        }),
        sgr(p, seq![sel, 2, r, g, b]) == (if sel == 38 {
            Pen { fg: Color::Rgb(r as u8, g as u8, b as u8), bg: p.bg }
        } else {
            Pen { fg: p.fg, bg: Color::Rgb(r as u8, g as u8, b as u8) }
        }),
        sgr(p, seq![sel, 5, n] + ps) == sgr(sgr(p, seq![sel, 5, n]), ps),
        sgr(p, seq![sel, 2, r, g, b] + ps) == sgr(sgr(p, seq![sel, 2, r, g, b]), ps),
{
    let x = seq![sel, 5u16, n];
    assert(x.drop_first() =~= seq![5u16, n]);
    assert(x.drop_first().skip(2) =~= Seq::<u16>::empty());
    let y = seq![sel, 2u16, r, g, b];
    assert(y.drop_first() =~= seq![2u16, r, g, b]);
    assert(y.drop_first().skip(4) =~= Seq::<u16>::empty());
    let xp = x + ps;
    assert(xp[0] == sel);
    assert(xp.drop_first() =~= seq![5u16, n] + ps);
    assert((seq![5u16, n] + ps)[0] == 5u16 && (seq![5u16, n] + ps)[1] == n);
    assert(xp.drop_first().skip(2) =~= ps);
    let yp = y + ps;
    assert(yp[0] == sel);
    assert(yp.drop_first() =~= seq![2u16, r, g, b] + ps);
    let yt = seq![2u16, r, g, b] + ps;
    assert(yt[0] == 2u16 && yt[1] == r && yt[2] == g && yt[3] == b);
    assert(yp.drop_first().skip(4) =~= ps);
    reveal_with_fuel(sgr_params, 2);
}

/// The number of parameters an extended selector consumes never exceeds those left.
pub proof fn lemma_extended_color_consumes(ps: Seq<u16>)
    ensures
        0 <= extended_color(ps).1 <= ps.len(),
        ps.len() > 0 ==> extended_color(ps).1 >= 1,
{
}

fn default_pen_exec() -> (p: Pen)
    ensures
        p == default_pen(),
{
    Pen { fg: Color::Default, bg: Color::Default }
}

fn simple_sgr_exec(pen: Pen, p: u16) -> (res: Pen)
    ensures
        res == simple_sgr(pen, p),
{
    if p == 0 {
        default_pen_exec()
    } else if 30 <= p && p <= 37 {
        Pen { fg: Color::Indexed((p - 30) as u8), bg: pen.bg }
    } else if p == 39 {
        Pen { fg: Color::Default, bg: pen.bg }
    } else if 40 <= p && p <= 47 {
        Pen { fg: pen.fg, bg: Color::Indexed((p - 40) as u8) }
    } else if p == 49 {
        Pen { fg: pen.fg, bg: Color::Default }
    } else if 90 <= p && p <= 97 {
        Pen { fg: Color::Indexed((p - 90 + 8) as u8), bg: pen.bg }
    } else if 100 <= p && p <= 107 {
        Pen { fg: pen.fg, bg: Color::Indexed((p - 100 + 8) as u8) }
    } else {
        pen
    }
}

/// Decodes the extended colour whose parameters start at `start`.
fn extended_color_exec(params: &Vec<u16>, start: usize) -> (res: (Option<Color>, usize))
    requires
        start <= params.len(),
    ensures
        (res.0, res.1 as int) == extended_color(params@.skip(start as int)),
{
    let ghost ps = params@.skip(start as int);
    let n: usize = params.len() - start;
    if n == 0 {
        return (None, 0);
    }
    let kind: u16 = params[start];
    assert(ps[0] == kind);
    if kind == 5 {
        if n < 2 {
            (None, 1)
        } else {
            let v: u16 = params[start + 1];
            assert(ps[1] == v);
            if v <= 255 {
                (Some(Color::Indexed(v as u8)), 2)
            } else {
                (None, 2)
            }
        }
    } else if kind == 2 {
        if n < 2 {
            return (None, 1);
        }
        let r: u16 = params[start + 1];
        assert(ps[1] == r);
        if r > 255 {
            return (None, 2);
        }
        if n < 3 {
            return (None, 2);
        }
        let g: u16 = params[start + 2];
        assert(ps[2] == g);
        if g > 255 {
            return (None, 3);
        }
        if n < 4 {
            return (None, 3);
        }
        let b: u16 = params[start + 3];
        assert(ps[3] == b);
        if b > 255 {
            return (None, 4);
        }
        (Some(Color::Rgb(r as u8, g as u8, b as u8)), 4)
    } else {
        (None, 1)
    }
}

fn set_extended_exec(pen: Pen, selector: u16, color: Option<Color>) -> (res: Pen)
    ensures
        res == set_extended(pen, selector, color),
{
    match color {
        Some(c) => if selector == 38 {
            Pen { fg: c, bg: pen.bg }
        } else {
            Pen { fg: pen.fg, bg: c }
        },
        None => pen,
    }
}

/// Applies the parameters of `CSI params m` to `pen`.
pub fn apply_sgr(pen: Pen, params: &Vec<u16>) -> (res: Pen)
    ensures
        res == sgr(pen, params@),
{
    if params.len() == 0 {
        return default_pen_exec();
    }
    let mut cur: Pen = pen;
    let mut i: usize = 0;
    assert(params@.skip(0) =~= params@);
    while i < params.len()
        invariant
            0 <= i <= params.len(),
            params@.len() > 0,
            sgr_params(cur, params@.skip(i as int)) == sgr_params(pen, params@),
        decreases params.len() - i,
    {
        let ghost tail = params@.skip(i as int);
        let p: u16 = params[i];
        assert(tail[0] == p);
        assert(tail.drop_first() =~= params@.skip(i + 1));
        if p == 38 || p == 48 {
            let (color, k) = extended_color_exec(params, i + 1);
            proof {
                lemma_extended_color_consumes(params@.skip(i + 1));
                assert(params@.skip(i + 1).skip(k as int) =~= params@.skip(i + 1 + k));
            }
            cur = set_extended_exec(cur, p, color);
            i = i + 1 + k;
        } else {
            cur = simple_sgr_exec(cur, p);
            i = i + 1;
        }
    }
    assert(params@.skip(i as int).len() == 0);
    cur
}

} // verus!
