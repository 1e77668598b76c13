use vstd::prelude::*;

use crate::color::{
    clamp_u16_to_u8, parse_sgr_extended_color_group, spec_clamp, spec_extended_color_group, spec_rgb,
    Color,
};

use super::model::{PerformerView, BLINK, BOLD, DIM, HIDDEN, ITALIC, REVERSE, STRIKETHROUGH, UNDERLINE};
use super::Performer;

verus! {

/// The first parameter of group `i`, 0 when the group is absent or empty.
pub open spec fn group_first(g: Seq<Seq<u16>>, i: int) -> u16 {
    if 0 <= i < g.len() && g[i].len() > 0 {
        g[i][0]
    } else {
        0
    }
}

/// The color that an extended color code (`38` or `48`) at group `i`
/// selects: from its own colon-separated sub-parameters, or from the
/// `;5;n` / `;2;r;g;b` groups that follow it.
pub open spec fn sgr_extended(palette: Seq<Color>, g: Seq<Seq<u16>>, i: int) -> Option<Color> {
    if g[i].len() > 1 {
        spec_extended_color_group(g[i], palette)
    } else if group_first(g, i + 1) == 5 && i + 2 < g.len() {
        Some(palette[spec_clamp(group_first(g, i + 2)) as int])
    } else if group_first(g, i + 1) == 2 && i + 4 < g.len() {
        Some(
            spec_rgb(
                spec_clamp(group_first(g, i + 2)),
                spec_clamp(group_first(g, i + 3)),
                spec_clamp(group_first(g, i + 4)),
            ),
        )
    } else {
        None
    }
}

/// How many following groups the code at group `i` consumes.
pub open spec fn sgr_skip(g: Seq<Seq<u16>>, i: int) -> int {
    let code = group_first(g, i);
    if (code == 38 || code == 48) && g[i].len() <= 1 {
        if group_first(g, i + 1) == 5 && i + 2 < g.len() {
            2
        } else if group_first(g, i + 1) == 2 && i + 4 < g.len() {
            4
        } else {
            0
        }
    } else {
        0
    }
}

/// The style bits after SGR code `code`.
pub open spec fn sgr_style(style: u8, code: u16) -> u8 {
    if code == 0 {
        0
    } else if code == 1 {
        style | BOLD
    } else if code == 2 {
        style | DIM
    } else if code == 3 {
        style | ITALIC
    } else if code == 4 {
        style | UNDERLINE
    } else if code == 5 || code == 6 {
        style | BLINK
    } else if code == 7 {
        style | REVERSE
    } else if code == 8 {
        style | HIDDEN
    } else if code == 9 {
        style | STRIKETHROUGH
    } else if code == 21 || code == 22 {
        style & !(BOLD | DIM)
    } else if code == 23 {
        style & !ITALIC
    } else if code == 24 {
        style & !UNDERLINE
    } else if code == 25 {
        style & !BLINK
    } else if code == 27 {
        style & !REVERSE
    } else if code == 28 {
        style & !HIDDEN
    } else if code == 29 {
        style & !STRIKETHROUGH
    } else {
        style
    }
}

/// The foreground after the code at group `i`: `0` and `39` the default,
/// `30..37` and `90..97` palette colors, `38` an extended color.
pub open spec fn sgr_fg(palette: Seq<Color>, default: Color, fg: Color, g: Seq<Seq<u16>>, i: int) -> Color {
    let code = group_first(g, i);
    if code == 0 || code == 39 {
        default
    } else if 30 <= code <= 37 {
        palette[code - 30]
    } else if 90 <= code <= 97 {
        palette[code - 90 + 8]
    } else if code == 38 {
        match sgr_extended(palette, g, i) {
            Some(c) => c,
            None => fg,
        }
    } else {
        fg
    }
}

/// The background after the code at group `i`: `0` and `49` the default,
/// `40..47` and `100..107` palette colors, `48` an extended color.
pub open spec fn sgr_bg(palette: Seq<Color>, default: Color, bg: Color, g: Seq<Seq<u16>>, i: int) -> Color {
    let code = group_first(g, i);
    if code == 0 || code == 49 {
        default
    } else if 40 <= code <= 47 {
        palette[code - 40]
    } else if 100 <= code <= 107 {
        palette[code - 100 + 8]
    } else if code == 48 {
        match sgr_extended(palette, g, i) {
            Some(c) => c,
            None => bg,
        }
    } else {
        bg
    }
}

impl PerformerView {
    /// The effect of the SGR code at group `i`.
    pub open spec fn sgr_code(self, g: Seq<Seq<u16>>, i: int) -> Self {
        PerformerView {
            current_fg: sgr_fg(self.palette_256, self.default_fg, self.current_fg, g, i),
            current_bg: sgr_bg(self.palette_256, self.default_bg, self.current_bg, g, i),
            current_style: sgr_style(self.current_style, group_first(g, i)),
            ..self
        }
    }

    /// The SGR codes from group `i` on, each consuming the groups it uses.
    pub open spec fn sgr_from(self, g: Seq<Seq<u16>>, i: int) -> Self
        decreases g.len() - i,
    {
        if i < 0 || i >= g.len() {
            self
        } else {
            self.sgr_code(g, i).sgr_from(g, i + 1 + sgr_skip(g, i))
        }
    }

    /// Select graphic rendition (`CSI m`): no parameters at all reset the
    /// colors and style; otherwise each code applies in turn.
    pub open spec fn apply_sgr(self, g: Seq<Seq<u16>>) -> Self {
        if g.len() == 0 {
            PerformerView {
                current_fg: self.default_fg,
                current_bg: self.default_bg,
                current_style: 0,
                ..self
            }
        } else {
            self.sgr_from(g, 0)
        }
    }
}

fn first_of(g: &Vec<Vec<u16>>, i: usize) -> (r: u16)
    ensures
        r == group_first(g@.map_values(|v: Vec<u16>| v@), i as int),
{
    if i < g.len() && g[i].len() > 0 {
        g[i][0]
    } else {
        0
    }
}

/// `first_of(g, i + k)` for `i` inside `g`.
fn first_after(g: &Vec<Vec<u16>>, i: usize, k: usize) -> (r: u16)
    requires
        i < g@.len(),
    ensures
        r == group_first(g@.map_values(|v: Vec<u16>| v@), i + k),
{
    if k < g.len() - i {
        first_of(g, i + k)
    } else {
        0
    }
}

pub open spec fn groups_view(g: Seq<Vec<u16>>) -> Seq<Seq<u16>> {
    g.map_values(|v: Vec<u16>| v@)
}

fn extended_color(palette: &Vec<Color>, g: &Vec<Vec<u16>>, i: usize) -> (r: Option<Color>)
    requires
        palette@.len() == 256,
        i < g@.len(),
    ensures
        r == sgr_extended(palette@, groups_view(g@), i as int),
{
    let ghost gv = groups_view(g@);
    assert(gv[i as int] == g@[i as int]@);
    if g[i].len() > 1 {
        parse_sgr_extended_color_group(g[i].as_slice(), palette)
    } else {
        let next = first_after(g, i, 1);
        if next == 5 && g.len() - i > 2 {
            Some(palette[clamp_u16_to_u8(first_after(g, i, 2)) as usize])
        } else if next == 2 && g.len() - i > 4 {
            Some(
                Color::rgb(
                    clamp_u16_to_u8(first_after(g, i, 2)),
                    clamp_u16_to_u8(first_after(g, i, 3)),
                    clamp_u16_to_u8(first_after(g, i, 4)),
                ),
            )
        } else {
            None
        }
    }
}

fn skip_after(g: &Vec<Vec<u16>>, i: usize) -> (r: usize)
    requires
        i < g@.len(),
    ensures
        r == sgr_skip(groups_view(g@), i as int),
{
    let ghost gv = groups_view(g@);
    assert(gv[i as int] == g@[i as int]@);
    let code = first_of(g, i);
    if (code == 38 || code == 48) && g[i].len() <= 1 {
        let next = first_after(g, i, 1);
        if next == 5 && g.len() - i > 2 {
            2
        } else if next == 2 && g.len() - i > 4 {
            4
        } else {
            0
        }
    } else {
        0
    }
}

fn style_after(style: u8, code: u16) -> (r: u8)
    ensures
        r == sgr_style(style, code),
{
    if code == 0 {
        0
    } else if code == 1 {
        style | BOLD
    } else if code == 2 {
        style | DIM
    } else if code == 3 {
        style | ITALIC
    } else if code == 4 {
        style | UNDERLINE
    } else if code == 5 || code == 6 {
        style | BLINK
    } else if code == 7 {
        style | REVERSE
    } else if code == 8 {
        style | HIDDEN
    } else if code == 9 {
        style | STRIKETHROUGH
    } else if code == 21 || code == 22 {
        style & !(BOLD | DIM)
    } else if code == 23 {
        style & !ITALIC
    } else if code == 24 {
        style & !UNDERLINE
    } else if code == 25 {
        style & !BLINK
    } else if code == 27 {
        style & !REVERSE
    } else if code == 28 {
        style & !HIDDEN
    } else if code == 29 {
        style & !STRIKETHROUGH
    } else {
        style
    }
}

fn fg_after(palette: &Vec<Color>, default: Color, fg: Color, g: &Vec<Vec<u16>>, i: usize) -> (r: Color)
    requires
        palette@.len() == 256,
        i < g@.len(),
    ensures
        r == sgr_fg(palette@, default, fg, groups_view(g@), i as int),
{
    let code = first_of(g, i);
    if code == 0 || code == 39 {
        default
    } else if 30 <= code && code <= 37 {
        palette[(code - 30) as usize]
    } else if 90 <= code && code <= 97 {
        palette[(code - 90 + 8) as usize]
    } else if code == 38 {
        match extended_color(palette, g, i) {
            Some(c) => c,
            None => fg,
        }
    } else {
        fg
    }
}

fn bg_after(palette: &Vec<Color>, default: Color, bg: Color, g: &Vec<Vec<u16>>, i: usize) -> (r: Color)
    requires
        palette@.len() == 256,
        i < g@.len(),
    ensures
        r == sgr_bg(palette@, default, bg, groups_view(g@), i as int),
{
    let code = first_of(g, i);
    if code == 0 || code == 49 {
        default
    } else if 40 <= code && code <= 47 {
        palette[(code - 40) as usize]
    } else if 100 <= code && code <= 107 {
        palette[(code - 100 + 8) as usize]
    } else if code == 48 {
        match extended_color(palette, g, i) {
            Some(c) => c,
            None => bg,
        }
    } else {
        bg
    }
}

impl Performer {
    #[verifier::spinoff_prover]
    #[verifier::rlimit(50)]
    fn set_rendition(&mut self, fg: Color, bg: Color, style: u8)
        requires
            old(self)@.wf(),
        ensures
            final(self)@.wf(),
            final(self)@ == (PerformerView {
                current_fg: fg,
                current_bg: bg,
                current_style: style,
                ..old(self)@
            }),
    {
        let ghost s0 = self@;
        self.current_fg = fg;
        self.current_bg = bg;
        self.current_style = style;
        proof {
            assert(self@ == PerformerView { current_fg: fg, current_bg: bg, current_style: style, ..s0 });
            assert(self@.wf());
        }
    }

    /// Select graphic rendition (`CSI m`) with the parameter groups `g`.
    pub fn apply_sgr(&mut self, g: &Vec<Vec<u16>>)
        requires
            old(self)@.wf(),
        ensures
            final(self)@.wf(),
            final(self)@ == old(self)@.apply_sgr(groups_view(g@)),
    {
        let ghost gv = groups_view(g@);
        if g.len() == 0 {
            let fg = self.default_fg;
            let bg = self.default_bg;
            self.set_rendition(fg, bg, 0);
            return;
        }
        let mut i: usize = 0;
        while i < g.len()
            invariant
                gv == groups_view(g@),
                self@.wf(),
                self@.sgr_from(gv, i as int) == old(self)@.sgr_from(gv, 0),
            decreases g@.len() - i,
        {
            let code = first_of(g, i);
            let fg = fg_after(&self.palette_256, self.default_fg, self.current_fg, g, i);
            let bg = bg_after(&self.palette_256, self.default_bg, self.current_bg, g, i);
            let style = style_after(self.current_style, code);
            let skip = skip_after(g, i);
            self.set_rendition(fg, bg, style);
            i = i + 1 + skip;
        }
    }
}

} // verus!
